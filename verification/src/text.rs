//! Character-level text operations.
//!
//! Every operation is stated over `Seq<char>` and has an executable
//! counterpart on `Vec<char>`. Strings are converted at the edges with
//! [`chars_of`] and [`string_of`].

use vstd::prelude::*;

verus! {

/// The characters of `s`, in order.
pub fn chars_of(s: &str) -> (out: Vec<char>)
    ensures
        out@ == s@,
{
    let mut out: Vec<char> = Vec::new();
    for c in it: s.chars()
        invariant
            it.seq() == s@,
            out@.len() == it.index(),
            forall|j: int| 0 <= j < out@.len() ==> out@[j] == it.seq()[j],
    {
        out.push(c);
    }
    assert(out@ =~= s@);
    out
}

/// Wraps collecting an iterator of `char` into a `String`
/// (`Iterator::collect`): the string holds exactly the given characters, in
/// order.
#[verifier::external_body]
pub(crate) fn string_of(chars: &Vec<char>) -> (out: String)
    ensures
        out@ == chars@,
{
    chars.iter().collect()
}

/// The text held by an optional character vector.
pub open spec fn view_opt(o: Option<Vec<char>>) -> Option<Seq<char>> {
    match o {
        Some(v) => Some(v@),
        None => None,
    }
}

/// The texts held by a sequence of character vectors.
pub open spec fn view_all(v: Seq<Vec<char>>) -> Seq<Seq<char>> {
    Seq::new(v.len(), |i: int| v[i]@)
}

/// The characters with the Unicode property `White_Space`.
pub open spec fn is_whitespace(c: char) -> bool {
    let n = c as u32;
    ||| 0x09 <= n <= 0x0D
    ||| n == 0x20
    ||| n == 0x85
    ||| n == 0xA0
    ||| n == 0x1680
    ||| 0x2000 <= n <= 0x200A
    ||| n == 0x2028
    ||| n == 0x2029
    ||| n == 0x202F
    ||| n == 0x205F
    ||| n == 0x3000
}

/// Whether `c` is whitespace.
pub fn whitespace(c: char) -> (out: bool)
    ensures
        out == is_whitespace(c),
{
    let n: u32 = c as u32;
    (0x09 <= n && n <= 0x0D) || n == 0x20 || n == 0x85 || n == 0xA0 || n == 0x1680 || (0x2000 <= n
        && n <= 0x200A) || n == 0x2028 || n == 0x2029 || n == 0x202F || n == 0x205F || n == 0x3000
}

/// `s` without its leading whitespace.
pub open spec fn trim_start(s: Seq<char>) -> Seq<char>
    decreases s.len(),
{
    if s.len() > 0 && is_whitespace(s.first()) {
        trim_start(s.drop_first())
    } else {
        s
    }
}

/// `s` without its trailing whitespace.
pub open spec fn trim_end(s: Seq<char>) -> Seq<char>
    decreases s.len(),
{
    if s.len() > 0 && is_whitespace(s.last()) {
        trim_end(s.drop_last())
    } else {
        s
    }
}

/// `s` without its leading and trailing whitespace.
pub open spec fn trim(s: Seq<char>) -> Seq<char> {
    trim_end(trim_start(s))
}

/// Skipping a run of whitespace at the front does not change `trim_start`.
pub proof fn lemma_trim_start_skip(s: Seq<char>, k: int)
    requires
        0 <= k <= s.len(),
        forall|j: int| 0 <= j < k ==> is_whitespace(#[trigger] s[j]),
    ensures
        trim_start(s) == trim_start(s.skip(k)),
    decreases k,
{
    if k == 0 {
        assert(s.skip(0) =~= s);
    } else {
        assert(is_whitespace(s[0]));
        let t = s.drop_first();
        assert forall|j: int| 0 <= j < k - 1 implies is_whitespace(#[trigger] t[j]) by {
            assert(t[j] == s[j + 1]);
        }
        lemma_trim_start_skip(t, k - 1);
        assert(t.skip(k - 1) =~= s.skip(k));
    }
}

/// Dropping a run of whitespace at the back does not change `trim_end`.
pub proof fn lemma_trim_end_take(s: Seq<char>, k: int)
    requires
        0 <= k <= s.len(),
        forall|j: int| k <= j < s.len() ==> is_whitespace(#[trigger] s[j]),
    ensures
        trim_end(s) == trim_end(s.take(k)),
    decreases s.len() - k,
{
    if k == s.len() {
        assert(s.take(k) =~= s);
    } else {
        assert(is_whitespace(s[s.len() - 1]));
        let t = s.drop_last();
        lemma_trim_end_take(t, k);
        assert(t.take(k) =~= s.take(k));
    }
}

/// The characters of `s` from `from` up to `to`.
pub fn slice_of(s: &Vec<char>, from: usize, to: usize) -> (out: Vec<char>)
    requires
        from <= to <= s@.len(),
    ensures
        out@ == s@.subrange(from as int, to as int),
{
    let mut out: Vec<char> = Vec::new();
    let mut i: usize = from;
    while i < to
        invariant
            from <= i <= to <= s@.len(),
            out@ == s@.subrange(from as int, i as int),
        decreases to - i,
    {
        out.push(s[i]);
        i += 1;
        assert(out@ =~= s@.subrange(from as int, i as int));
    }
    out
}

/// `s` without its leading and trailing whitespace.
pub fn trim_chars(s: &Vec<char>) -> (out: Vec<char>)
    ensures
        out@ == trim(s@),
{
    let n: usize = s.len();
    let mut a: usize = 0;
    while a < n && whitespace(s[a])
        invariant
            a <= n == s@.len(),
            forall|j: int| 0 <= j < a ==> is_whitespace(#[trigger] s@[j]),
        decreases n - a,
    {
        a += 1;
    }
    let mut b: usize = n;
    while b > a && whitespace(s[b - 1])
        invariant
            a <= b <= n == s@.len(),
            forall|j: int| b <= j < n ==> is_whitespace(#[trigger] s@[j]),
        decreases b,
    {
        b -= 1;
    }
    proof {
        let front = s@.skip(a as int);
        lemma_trim_start_skip(s@, a as int);
        assert(trim_start(front) == front);
        assert forall|j: int| b - a <= j < front.len() implies is_whitespace(
            #[trigger] front[j],
        ) by {
            assert(front[j] == s@[j + a]);
        }
        lemma_trim_end_take(front, b - a);
        let kept = front.take(b - a);
        assert(kept =~= s@.subrange(a as int, b as int));
        if kept.len() > 0 {
            assert(kept.last() == s@[b - 1]);
        }
        assert(trim_end(kept) == kept);
    }
    slice_of(s, a, b)
}

/// Whether two texts hold the same characters.
pub fn same_chars(a: &Vec<char>, b: &Vec<char>) -> (out: bool)
    ensures
        out == (a@ == b@),
{
    if a.len() != b.len() {
        return false;
    }
    let mut i: usize = 0;
    while i < a.len()
        invariant
            i <= a@.len() == b@.len(),
            forall|j: int| 0 <= j < i ==> a@[j] == b@[j],
        decreases a@.len() - i,
    {
        if a[i] != b[i] {
            return false;
        }
        i += 1;
    }
    assert(a@ =~= b@);
    true
}

/// Whether `s` holds exactly the characters of `lit`.
pub fn is_text(s: &Vec<char>, lit: &str) -> (out: bool)
    ensures
        out == (s@ == lit@),
{
    let other = chars_of(lit);
    same_chars(s, &other)
}

/// Whether `s` begins with `prefix`.
pub fn starts_with(s: &Vec<char>, prefix: &Vec<char>) -> (out: bool)
    ensures
        out == prefix@.is_prefix_of(s@),
{
    if prefix.len() > s.len() {
        return false;
    }
    let mut i: usize = 0;
    while i < prefix.len()
        invariant
            i <= prefix@.len() <= s@.len(),
            forall|j: int| 0 <= j < i ==> s@[j] == prefix@[j],
        decreases prefix@.len() - i,
    {
        if s[i] != prefix[i] {
            assert(s@.subrange(0, prefix@.len() as int)[i as int] != prefix@[i as int]);
            return false;
        }
        i += 1;
    }
    assert(s@.subrange(0, prefix@.len() as int) =~= prefix@);
    true
}

/// What follows `prefix` in `s`, where `s` begins with it.
pub open spec fn strip_prefix(s: Seq<char>, prefix: Seq<char>) -> Option<Seq<char>> {
    if prefix.is_prefix_of(s) {
        Some(s.skip(prefix.len() as int))
    } else {
        None
    }
}

/// What follows `prefix` in `s`, where `s` begins with it.
pub fn strip_prefix_chars(s: &Vec<char>, prefix: &str) -> (out: Option<Vec<char>>)
    ensures
        view_opt(out) == strip_prefix(s@, prefix@),
{
    let p = chars_of(prefix);
    if starts_with(s, &p) {
        let rest = slice_of(s, p.len(), s.len());
        assert(rest@ =~= s@.skip(p@.len() as int));
        Some(rest)
    } else {
        None
    }
}

/// The position of the first `c` in `s`, or the length of `s` where there is none.
pub open spec fn first_index_of(s: Seq<char>, c: char) -> int
    decreases s.len(),
{
    if s.len() == 0 || s.first() == c {
        0
    } else {
        1 + first_index_of(s.drop_first(), c)
    }
}

/// `first_index_of` is the least position that holds `c`.
pub proof fn lemma_first_index_of(s: Seq<char>, c: char)
    ensures
        0 <= first_index_of(s, c) <= s.len(),
        forall|j: int| 0 <= j < first_index_of(s, c) ==> s[j] != c,
        first_index_of(s, c) < s.len() ==> s[first_index_of(s, c)] == c,
    decreases s.len(),
{
    if s.len() == 0 || s.first() == c {
    } else {
        let t = s.drop_first();
        lemma_first_index_of(t, c);
        assert forall|j: int| 0 <= j < first_index_of(s, c) implies s[j] != c by {
            if j > 0 {
                assert(s[j] == t[j - 1]);
            }
        }
    }
}

/// A position that holds `c` after only positions that do not is the first.
pub proof fn lemma_first_index_is(s: Seq<char>, c: char, k: int)
    requires
        0 <= k <= s.len(),
        forall|j: int| 0 <= j < k ==> s[j] != c,
        k < s.len() ==> s[k] == c,
    ensures
        first_index_of(s, c) == k,
{
    lemma_first_index_of(s, c);
    let f = first_index_of(s, c);
    if f < k {
        assert(s[f] != c);
    }
}

/// The position of the first `c` in `s`, or the length of `s`.
pub fn find_char(s: &Vec<char>, c: char) -> (out: usize)
    ensures
        out == first_index_of(s@, c),
{
    let mut i: usize = 0;
    while i < s.len() && s[i] != c
        invariant
            i <= s@.len(),
            forall|j: int| 0 <= j < i ==> s@[j] != c,
        decreases s@.len() - i,
    {
        i += 1;
    }
    proof {
        lemma_first_index_is(s@, c, i as int);
    }
    i
}

/// `s` cut at its first `c`: what stands before it, and what stands after it
/// where there is one.
pub open spec fn split_once(s: Seq<char>, c: char) -> (Seq<char>, Option<Seq<char>>) {
    let k = first_index_of(s, c);
    if k < s.len() {
        (s.take(k), Some(s.skip(k + 1)))
    } else {
        (s, None)
    }
}

/// `s` cut at its first `c`.
pub fn split_once_chars(s: &Vec<char>, c: char) -> (out: (Vec<char>, Option<Vec<char>>))
    ensures
        out.0@ == split_once(s@, c).0,
        view_opt(out.1) == split_once(s@, c).1,
{
    let k: usize = find_char(s, c);
    proof {
        lemma_first_index_of(s@, c);
    }
    if k < s.len() {
        let head = slice_of(s, 0, k);
        let tail = slice_of(s, k + 1, s.len());
        assert(head@ =~= s@.take(k as int));
        assert(tail@ =~= s@.skip(k + 1));
        (head, Some(tail))
    } else {
        let head = slice_of(s, 0, k);
        assert(head@ =~= s@);
        (head, None)
    }
}

/// Whether `c` is one of the two angle brackets.
pub open spec fn is_angle(c: char) -> bool {
    c == '<' || c == '>'
}

/// `s` without its angle brackets.
pub open spec fn without_angles(s: Seq<char>) -> Seq<char> {
    s.filter(|c: char| !is_angle(c))
}

/// `s` without its angle brackets.
pub fn remove_angles(s: &Vec<char>) -> (out: Vec<char>)
    ensures
        out@ == without_angles(s@),
{
    let ghost keep = |c: char| !is_angle(c);
    let mut out: Vec<char> = Vec::new();
    let mut i: usize = 0;
    proof {
        assert(s@.take(0) =~= Seq::<char>::empty());
        Seq::<char>::empty().lemma_all_neg_filter_empty(keep);
    }
    while i < s.len()
        invariant
            i <= s@.len(),
            keep == (|c: char| !is_angle(c)),
            out@ == s@.take(i as int).filter(keep),
        decreases s@.len() - i,
    {
        let c = s[i];
        proof {
            assert(s@.take(i + 1) =~= s@.take(i as int).push(c));
            s@.take(i as int).lemma_filter_push(c, keep);
        }
        if c != '<' && c != '>' {
            out.push(c);
        }
        i += 1;
    }
    assert(s@.take(i as int) =~= s@);
    out
}

/// Whether `needle` occurs in `s` as a run of consecutive characters.
pub open spec fn contains_text(s: Seq<char>, needle: Seq<char>) -> bool {
    exists|k: int| occurs_at(s, needle, k)
}

/// Whether `needle` stands in `s` at position `k`.
pub open spec fn occurs_at(s: Seq<char>, needle: Seq<char>, k: int) -> bool {
    0 <= k && k + needle.len() <= s.len() && s.subrange(k, k + needle.len()) == needle
}

fn matches_at(s: &Vec<char>, needle: &Vec<char>, k: usize) -> (out: bool)
    requires
        k + needle@.len() <= s@.len(),
    ensures
        out == occurs_at(s@, needle@, k as int),
{
    let n: usize = s.len();
    let mut j: usize = 0;
    while j < needle.len()
        invariant
            j <= needle@.len(),
            k + needle@.len() <= s@.len() == n,
            forall|t: int| 0 <= t < j ==> s@[k + t] == needle@[t],
        decreases needle@.len() - j,
    {
        if s[k + j] != needle[j] {
            assert(s@.subrange(k as int, k + needle@.len())[j as int] != needle@[j as int]);
            return false;
        }
        j += 1;
    }
    assert(s@.subrange(k as int, k + needle@.len()) =~= needle@);
    true
}

/// Whether `needle` occurs in `s`.
pub fn contains_chars(s: &Vec<char>, needle: &Vec<char>) -> (out: bool)
    ensures
        out == contains_text(s@, needle@),
{
    if needle.len() > s.len() {
        return false;
    }
    if needle.len() == 0 {
        assert(occurs_at(s@, needle@, 0)) by {
            assert(s@.subrange(0, 0) =~= needle@);
        }
        return true;
    }
    let n: usize = s.len();
    let last: usize = n - needle.len();
    let mut k: usize = 0;
    while k <= last
        invariant
            k <= last + 1,
            n == s@.len(),
            last == s@.len() - needle@.len(),
            needle@.len() > 0,
            forall|t: int| 0 <= t < k ==> !occurs_at(s@, needle@, t),
        decreases last + 1 - k,
    {
        if matches_at(s, needle, k) {
            return true;
        }
        k += 1;
    }
    assert forall|t: int| !occurs_at(s@, needle@, t) by {
        if 0 <= t && t + needle@.len() <= s@.len() {
            assert(t < k);
        }
    }
    false
}

/// A piece of text that ends with a line feed, without that line feed and
/// without a carriage return directly before it; any other piece unchanged.
pub open spec fn strip_line_ending(piece: Seq<char>) -> Seq<char> {
    if piece.len() > 0 && piece.last() == '\n' {
        let body = piece.drop_last();
        if body.len() > 0 && body.last() == '\r' {
            body.drop_last()
        } else {
            body
        }
    } else {
        piece
    }
}

/// A piece of text without its line ending.
pub fn strip_ending(piece: &Vec<char>) -> (out: Vec<char>)
    ensures
        out@ == strip_line_ending(piece@),
{
    let n: usize = piece.len();
    let end: usize = if n > 0 && piece[n - 1] == '\n' {
        if n > 1 && piece[n - 2] == '\r' {
            n - 2
        } else {
            n - 1
        }
    } else {
        n
    };
    let out = slice_of(piece, 0, end);
    proof {
        if n > 0 && piece@[n - 1] == '\n' {
            let body = piece@.drop_last();
            if n > 1 {
                assert(body.last() == piece@[n - 2]);
            }
            if n > 1 && piece@[n - 2] == '\r' {
                assert(out@ =~= body.drop_last());
            } else {
                assert(out@ =~= body);
            }
        } else {
            assert(out@ =~= piece@);
        }
    }
    out
}

/// The lines of `s`. A line ends with a line feed or with a carriage return
/// and a line feed; the ending is not part of the line. What follows the last
/// line feed is a line of its own unless it is empty.
pub open spec fn lines(s: Seq<char>) -> Seq<Seq<char>>
    decreases s.len(),
{
    if s.len() == 0 {
        Seq::empty()
    } else {
        let k = first_index_of(s, '\n');
        if 0 <= k < s.len() {
            seq![strip_line_ending(s.take(k + 1))] + lines(s.skip(k + 1))
        } else {
            seq![s]
        }
    }
}

/// The lines of `s`.
pub fn split_lines(s: &Vec<char>) -> (out: Vec<Vec<char>>)
    ensures
        view_all(out@) == lines(s@),
{
    let n: usize = s.len();
    let mut out: Vec<Vec<char>> = Vec::new();
    let mut start: usize = 0;
    proof {
        assert(s@.skip(0) =~= s@);
        assert(view_all(out@) =~= Seq::<Seq<char>>::empty());
    }
    while start < n
        invariant
            start <= n == s@.len(),
            lines(s@) == view_all(out@) + lines(s@.skip(start as int)),
        decreases n - start,
    {
        let ghost rest = s@.skip(start as int);
        let ghost before = view_all(out@);
        let mut k: usize = start;
        while k < n && s[k] != '\n'
            invariant
                start <= k <= n == s@.len(),
                forall|j: int| start <= j < k ==> s@[j] != '\n',
            decreases n - k,
        {
            k += 1;
        }
        proof {
            assert forall|j: int| 0 <= j < k - start implies rest[j] != '\n' by {
                assert(rest[j] == s@[start + j]);
            }
            lemma_first_index_is(rest, '\n', k - start);
        }
        if k < n {
            let mut end: usize = k;
            if end > start && s[end - 1] == '\r' {
                end -= 1;
            }
            let line = slice_of(s, start, end);
            proof {
                let piece = rest.take(k - start + 1);
                assert(piece.last() == '\n');
                assert(piece.drop_last() =~= s@.subrange(start as int, k as int));
                if k > start {
                    assert(piece.drop_last().last() == s@[k - 1]);
                }
                assert(strip_line_ending(piece) =~= line@);
                assert(rest.skip(k - start + 1) =~= s@.skip(k + 1));
            }
            out.push(line);
            start = k + 1;
            assert(view_all(out@) =~= before.push(line@));
            assert(before + (seq![line@] + lines(s@.skip(start as int))) =~= before.push(line@)
                + lines(s@.skip(start as int)));
        } else {
            let line = slice_of(s, start, n);
            assert(line@ =~= rest);
            out.push(line);
            start = n;
            assert(view_all(out@) =~= before.push(line@));
            assert(before + seq![rest] =~= before.push(line@) + lines(s@.skip(start as int)));
        }
    }
    assert(view_all(out@) + lines(s@.skip(start as int)) =~= view_all(out@));
    out
}

/// The texts of `parts` in order, with `sep` between each two.
pub open spec fn join(parts: Seq<Seq<char>>, sep: Seq<char>) -> Seq<char>
    decreases parts.len(),
{
    if parts.len() == 0 {
        Seq::empty()
    } else if parts.len() == 1 {
        parts[0]
    } else {
        join(parts.drop_last(), sep) + sep + parts.last()
    }
}

/// Appends the characters of `tail` to `out`.
pub fn push_all(out: &mut Vec<char>, tail: &Vec<char>)
    ensures
        final(out)@ == old(out)@ + tail@,
{
    let mut i: usize = 0;
    while i < tail.len()
        invariant
            i <= tail@.len(),
            out@ == old(out)@ + tail@.take(i as int),
        decreases tail@.len() - i,
    {
        out.push(tail[i]);
        i += 1;
        assert(out@ =~= old(out)@ + tail@.take(i as int));
    }
    assert(tail@.take(i as int) =~= tail@);
}

/// The texts of `parts` in order, with `sep` between each two.
pub fn join_chars(parts: &Vec<Vec<char>>, sep: &Vec<char>) -> (out: Vec<char>)
    ensures
        out@ == join(view_all(parts@), sep@),
{
    let ghost all = view_all(parts@);
    let mut out: Vec<char> = Vec::new();
    let mut i: usize = 0;
    proof {
        assert(all.take(0) =~= Seq::<Seq<char>>::empty());
    }
    while i < parts.len()
        invariant
            i <= parts@.len(),
            all == view_all(parts@),
            out@ == join(all.take(i as int), sep@),
        decreases parts@.len() - i,
    {
        if i > 0 {
            push_all(&mut out, sep);
        }
        push_all(&mut out, &parts[i]);
        proof {
            let now = all.take(i + 1);
            assert(now.drop_last() =~= all.take(i as int));
            assert(now.last() == parts@[i as int]@);
            if i == 0 {
                assert(out@ =~= now[0]);
            }
        }
        i += 1;
    }
    assert(all.take(i as int) =~= all);
    out
}

/// `s` without every leading repetition of `prefix`.
pub open spec fn trim_start_matches(s: Seq<char>, prefix: Seq<char>) -> Seq<char>
    decreases s.len(),
{
    if prefix.len() > 0 && prefix.is_prefix_of(s) {
        trim_start_matches(s.skip(prefix.len() as int), prefix)
    } else {
        s
    }
}

/// `s` without every leading repetition of `prefix`.
pub fn strip_leading(s: &Vec<char>, prefix: &Vec<char>) -> (out: Vec<char>)
    ensures
        out@ == trim_start_matches(s@, prefix@),
{
    let mut rest: Vec<char> = slice_of(s, 0, s.len());
    assert(rest@ =~= s@);
    if prefix.len() == 0 {
        return rest;
    }
    while starts_with(&rest, prefix)
        invariant
            prefix@.len() > 0,
            trim_start_matches(s@, prefix@) == trim_start_matches(rest@, prefix@),
        decreases rest@.len(),
    {
        let shorter = slice_of(&rest, prefix.len(), rest.len());
        assert(shorter@ =~= rest@.skip(prefix@.len() as int));
        rest = shorter;
    }
    rest
}

/// A text that neither starts nor ends with whitespace is its own trim.
pub proof fn lemma_trim_identity(s: Seq<char>)
    requires
        s.len() > 0 ==> !is_whitespace(s.first()) && !is_whitespace(s.last()),
    ensures
        trim(s) == s,
{
}

/// A text without angle brackets loses nothing with them.
pub proof fn lemma_without_angles_identity(s: Seq<char>)
    requires
        forall|i: int| 0 <= i < s.len() ==> !is_angle(#[trigger] s[i]),
    ensures
        without_angles(s) == s,
    decreases s.len(),
{
    let keep = |c: char| !is_angle(c);
    if s.len() == 0 {
        s.lemma_all_neg_filter_empty(keep);
        assert(s.filter(keep) =~= s);
    } else {
        let front = s.drop_last();
        assert forall|i: int| 0 <= i < front.len() implies !is_angle(#[trigger] front[i]) by {
            assert(front[i] == s[i]);
        }
        lemma_without_angles_identity(front);
        assert(!is_angle(s[s.len() - 1]));
        front.lemma_filter_push(s.last(), keep);
        assert(front.push(s.last()) =~= s);
    }
}

/// An angle bracket alone leaves nothing when the brackets go.
pub proof fn lemma_without_angles_single(c: char)
    requires
        is_angle(c),
    ensures
        without_angles(seq![c]) == Seq::<char>::empty(),
{
    let keep = |x: char| !is_angle(x);
    let none = Seq::<char>::empty();
    none.lemma_all_neg_filter_empty(keep);
    none.lemma_filter_push(c, keep);
    assert(none.push(c) =~= seq![c]);
    assert(none.filter(keep) =~= none);
}

/// A text between angle brackets, where it holds none itself, is what is
/// left when the brackets go.
pub proof fn lemma_without_angles_bracketed(s: Seq<char>)
    requires
        forall|i: int| 0 <= i < s.len() ==> !is_angle(#[trigger] s[i]),
    ensures
        without_angles(seq!['<'] + s + seq!['>']) == s,
{
    let keep = |c: char| !is_angle(c);
    lemma_without_angles_identity(s);
    lemma_without_angles_single('<');
    lemma_without_angles_single('>');
    let open = seq!['<'];
    let close = seq!['>'];
    assert((open + s).filter(keep) == open.filter(keep) + s.filter(keep)) by {
        Seq::filter_distributes_over_add(open, s, keep);
    }
    assert((open + s + close).filter(keep) == (open + s).filter(keep) + close.filter(keep)) by {
        Seq::filter_distributes_over_add(open + s, close, keep);
    }
    assert(Seq::<char>::empty() + s + Seq::<char>::empty() =~= s);
}

/// The position of the last `c` in `s`, or -1 where there is none.
pub open spec fn last_index_of(s: Seq<char>, c: char) -> int
    decreases s.len(),
{
    if s.len() == 0 {
        -1
    } else if s.last() == c {
        s.len() - 1
    } else {
        last_index_of(s.drop_last(), c)
    }
}

/// Dropping a tail without `c` does not change where the last `c` stands.
pub proof fn lemma_last_index_take(s: Seq<char>, c: char, k: int)
    requires
        0 <= k <= s.len(),
        forall|j: int| k <= j < s.len() ==> s[j] != c,
    ensures
        last_index_of(s, c) == last_index_of(s.take(k), c),
    decreases s.len() - k,
{
    if k == s.len() {
        assert(s.take(k) =~= s);
    } else {
        assert(s[s.len() - 1] != c);
        let t = s.drop_last();
        lemma_last_index_take(t, c, k);
        assert(t.take(k) =~= s.take(k));
    }
}

/// The position of the last `c` in `s`.
pub fn find_last(s: &Vec<char>, c: char) -> (out: Option<usize>)
    ensures
        match out {
            Some(at) => last_index_of(s@, c) == at && at < s@.len() && s@[at as int] == c,
            None => last_index_of(s@, c) == -1,
        },
{
    let mut k: usize = s.len();
    while k > 0 && s[k - 1] != c
        invariant
            k <= s@.len(),
            forall|j: int| k <= j < s@.len() ==> s@[j] != c,
        decreases k,
    {
        k -= 1;
    }
    proof {
        lemma_last_index_take(s@, c, k as int);
        if k > 0 {
            assert(s@.take(k as int).last() == s@[k - 1]);
        }
    }
    if k > 0 {
        Some(k - 1)
    } else {
        None
    }
}

/// What follows the last `c` in `s`; all of `s` where it holds none.
pub open spec fn after_last(s: Seq<char>, c: char) -> Seq<char> {
    if 0 <= last_index_of(s, c) < s.len() {
        s.skip(last_index_of(s, c) + 1)
    } else {
        s
    }
}

/// The extension of the file that a path names: what follows the last dot
/// of the last segment of the path, where a dot stands after the first
/// character of that segment; else nothing.
pub open spec fn extension_of(path: Seq<char>) -> Seq<char> {
    let name = after_last(path, '/');
    let dot = last_index_of(name, '.');
    if 0 < dot < name.len() {
        name.skip(dot + 1)
    } else {
        Seq::empty()
    }
}

/// The extension of the file that a path names.
pub fn extension(path: &Vec<char>) -> (out: Vec<char>)
    ensures
        out@ == extension_of(path@),
{
    let n: usize = path.len();
    let name = match find_last(path, '/') {
        Some(at) => {
            let name = slice_of(path, at + 1, n);
            assert(name@ =~= path@.skip(at + 1));
            name
        },
        None => {
            let name = slice_of(path, 0, path.len());
            assert(name@ =~= path@);
            name
        },
    };
    let m: usize = name.len();
    match find_last(&name, '.') {
        Some(dot) => {
            if dot > 0 {
                let out = slice_of(&name, dot + 1, m);
                assert(out@ =~= name@.skip(dot + 1));
                out
            } else {
                Vec::new()
            }
        },
        None => Vec::new(),
    }
}

} // verus!
