use mailhits::text::{
    extension, find_last, strip_ending, chars_of, contains_chars, find_char, is_text, join_chars, push_all, remove_angles, same_chars,
    slice_of, split_lines, split_once_chars, starts_with, strip_leading, strip_prefix_chars,
    trim_chars, whitespace,
};

fn text(chars: &[char]) -> String {
    chars.iter().collect()
}

fn trimmed(s: &str) -> String {
    text(&trim_chars(&chars_of(s)))
}

fn lines_of(s: &str) -> Vec<String> {
    split_lines(&chars_of(s)).iter().map(|l| text(l)).collect()
}

#[test]
fn chars_of_gives_the_characters() {
    assert_eq!(chars_of("a\u{e9}\u{1f600}"), vec!['a', '\u{e9}', '\u{1f600}']);
    assert!(chars_of("").is_empty());
}

#[test]
fn whitespace_is_the_unicode_property() {
    let mut code: u32 = 0;
    while code < 0x11_0000 {
        if let Some(c) = char::from_u32(code) {
            assert_eq!(whitespace(c), c.is_whitespace(), "U+{:04X}", code);
        }
        code += 1;
    }
}

#[test]
fn trim_agrees_with_std() {
    for s in [
        "",
        " ",
        "a",
        "  a b  ",
        "\r\n\t x \u{a0}\u{3000}",
        "\u{2028}.\u{85}",
        "MAIL FROM:<a@x>\r\n",
        " \u{200b} ",
    ] {
        assert_eq!(trimmed(s), s.trim(), "{:?}", s);
    }
}

#[test]
fn slices_prefixes_and_equality() {
    let s = chars_of("hello");
    assert_eq!(text(&slice_of(&s, 1, 3)), "el");
    assert_eq!(text(&slice_of(&s, 5, 5)), "");
    assert!(same_chars(&s, &chars_of("hello")));
    assert!(!same_chars(&s, &chars_of("hellO")));
    assert!(!same_chars(&s, &chars_of("hell")));
    assert!(is_text(&s, "hello"));
    assert!(!is_text(&s, "help"));
    assert!(starts_with(&s, &chars_of("he")));
    assert!(starts_with(&s, &chars_of("")));
    assert!(!starts_with(&s, &chars_of("hello!")));
    assert!(!starts_with(&s, &chars_of("el")));
    assert_eq!(
        strip_prefix_chars(&s, "he").map(|r| text(&r)),
        Some("llo".to_string())
    );
    assert_eq!(strip_prefix_chars(&s, "lo"), None);
    let mut joined = chars_of("ab");
    push_all(&mut joined, &chars_of("cd"));
    assert_eq!(text(&joined), "abcd");
}

#[test]
fn find_and_split_at_the_first() {
    let s = chars_of("a:b:c");
    assert_eq!(find_char(&s, ':'), 1);
    assert_eq!(find_char(&s, 'x'), 5);
    let (head, tail) = split_once_chars(&s, ':');
    assert_eq!(text(&head), "a");
    assert_eq!(tail.map(|t| text(&t)), Some("b:c".to_string()));
    let (head, tail) = split_once_chars(&s, ' ');
    assert_eq!(text(&head), "a:b:c");
    assert_eq!(tail, None);
    let (head, tail) = split_once_chars(&chars_of(":"), ':');
    assert_eq!(text(&head), "");
    assert_eq!(tail.map(|t| text(&t)), Some(String::new()));
}

#[test]
fn angle_brackets_go() {
    assert_eq!(text(&remove_angles(&chars_of("<a@x>"))), "a@x");
    assert_eq!(text(&remove_angles(&chars_of("<<a>b<>c"))), "abc");
    assert_eq!(text(&remove_angles(&chars_of("<>"))), "");
    assert_eq!(text(&remove_angles(&chars_of("plain"))), "plain");
}

#[test]
fn substring_search() {
    let s = chars_of("Content-Type: text/html; charset=utf-8");
    assert!(contains_chars(&s, &chars_of("text/html")));
    assert!(contains_chars(&s, &chars_of("")));
    assert!(contains_chars(&s, &chars_of("utf-8")));
    assert!(contains_chars(&s, &chars_of("Content")));
    assert!(!contains_chars(&s, &chars_of("text/HTML")));
    assert!(!contains_chars(&s, &chars_of("utf-88")));
    assert!(!contains_chars(&chars_of("ab"), &chars_of("abc")));
    assert!(contains_chars(&chars_of("aab"), &chars_of("ab")));
}

#[test]
fn lines_agree_with_std() {
    for s in [
        "",
        "a",
        "a\n",
        "a\r\n",
        "\n",
        "\r\n",
        "a\n\nb",
        "a\r\n\r\nb\r\n",
        "foo\nbar\n\r\nbaz\r",
        "a\rb\n",
        "a\r\r\n",
        "\n\n",
    ] {
        let expected: Vec<String> = s.lines().map(|l| l.to_string()).collect();
        assert_eq!(lines_of(s), expected, "{:?}", s);
    }
}

#[test]
fn join_puts_the_separator_between() {
    let parts = vec![chars_of("a"), chars_of(""), chars_of("bc")];
    assert_eq!(text(&join_chars(&parts, &chars_of(", "))), "a, , bc");
    assert_eq!(text(&join_chars(&parts[..1].to_vec(), &chars_of(", "))), "a");
    assert_eq!(text(&join_chars(&Vec::new(), &chars_of(", "))), "");
}

#[test]
fn leading_repetitions_go() {
    let s = chars_of("ababab-ab");
    assert_eq!(text(&strip_leading(&s, &chars_of("ab"))), "-ab");
    assert_eq!(text(&strip_leading(&s, &chars_of(""))), "ababab-ab");
    assert_eq!(text(&strip_leading(&s, &chars_of("b"))), "ababab-ab");
    assert_eq!(text(&strip_leading(&chars_of("aaa"), &chars_of("a"))), "");
}

#[test]
fn line_endings_are_stripped_once() {
    for (piece, bare) in [
        ("", ""),
        ("a", "a"),
        ("a\n", "a"),
        ("a\r\n", "a"),
        ("a\r", "a\r"),
        ("a\n\n", "a\n"),
        ("a\r\r\n", "a\r"),
        ("\n", ""),
        ("\r\n", ""),
        (" . \r\n", " . "),
    ] {
        assert_eq!(text(&strip_ending(&chars_of(piece))), bare, "{:?}", piece);
    }
}

#[test]
fn the_last_of_a_character_and_the_extension() {
    assert_eq!(find_last(&chars_of("a.b.c"), '.'), Some(3));
    assert_eq!(find_last(&chars_of(".bc"), '.'), Some(0));
    assert_eq!(find_last(&chars_of("abc"), '.'), None);
    assert_eq!(find_last(&chars_of(""), '.'), None);
    for (path, ext) in [
        ("a.css", "css"),
        ("dir/a.tar.gz", "gz"),
        ("dir.d/a", ""),
        ("dir.d/.a", ""),
        ("dir.d/.a.b", "b"),
        ("a.", ""),
        ("..", ""),
        ("/", ""),
        ("", ""),
        ("x/y/z.JS", "JS"),
    ] {
        assert_eq!(text(&extension(&chars_of(path))), ext, "{:?}", path);
    }
}
