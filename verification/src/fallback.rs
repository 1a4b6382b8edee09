//! Line-based reading of a raw message, for input that the structured
//! parser does not take.
//!
//! The lines up to the first empty line are the header block, the lines after
//! it the body. In the header block a line that begins with a space or a tab
//! continues the line before it; every other line starts a field, a name and
//! a value parted by the first colon.

use crate::headers::{map_of, Headers};
use crate::text::{
    contains_chars, contains_text, join, join_chars, lines, push_all, slice_of,
    split_lines, split_once, split_once_chars, string_of, chars_of, trim, trim_chars, view_all,
};
use vstd::prelude::*;

verus! {

/// The position of the first empty line, or the number of lines where none
/// is empty.
pub open spec fn blank_index(ls: Seq<Seq<char>>) -> int
    decreases ls.len(),
{
    if ls.len() == 0 || ls.first().len() == 0 {
        0
    } else {
        1 + blank_index(ls.drop_first())
    }
}

/// `blank_index` is the least position that holds an empty line.
pub proof fn lemma_blank_index(ls: Seq<Seq<char>>)
    ensures
        0 <= blank_index(ls) <= ls.len(),
        forall|j: int| 0 <= j < blank_index(ls) ==> (#[trigger] ls[j]).len() > 0,
        blank_index(ls) < ls.len() ==> ls[blank_index(ls)].len() == 0,
    decreases ls.len(),
{
    if ls.len() == 0 || ls.first().len() == 0 {
    } else {
        let t = ls.drop_first();
        lemma_blank_index(t);
        assert forall|j: int| 0 <= j < blank_index(ls) implies (#[trigger] ls[j]).len() > 0 by {
            if j > 0 {
                assert(ls[j] == t[j - 1]);
            }
        }
    }
}

/// An empty line after only lines that are not empty is the first.
pub proof fn lemma_blank_index_is(ls: Seq<Seq<char>>, k: int)
    requires
        0 <= k <= ls.len(),
        forall|j: int| 0 <= j < k ==> (#[trigger] ls[j]).len() > 0,
        k < ls.len() ==> ls[k].len() == 0,
    ensures
        blank_index(ls) == k,
{
    lemma_blank_index(ls);
    let f = blank_index(ls);
    if f < k {
        assert(ls[f].len() > 0);
    }
}

/// The lines of the header block.
pub open spec fn header_block(ls: Seq<Seq<char>>) -> Seq<Seq<char>> {
    ls.take(blank_index(ls))
}

/// The lines of the body.
pub open spec fn body_lines(ls: Seq<Seq<char>>) -> Seq<Seq<char>> {
    if 0 <= blank_index(ls) < ls.len() {
        ls.skip(blank_index(ls) + 1)
    } else {
        Seq::empty()
    }
}

/// Whether a header line continues the line before it.
pub open spec fn is_continuation(line: Seq<char>) -> bool {
    line.len() > 0 && (line[0] == ' ' || line[0] == '\t')
}

/// The header block with each continuation line joined to the line that it
/// continues: a single space, then the continuation line trimmed.
pub open spec fn unfolded(block: Seq<Seq<char>>) -> Seq<Seq<char>>
    decreases block.len(),
{
    if block.len() == 0 {
        Seq::empty()
    } else {
        let before = unfolded(block.drop_last());
        let line = block.last();
        if is_continuation(line) {
            if before.len() == 0 {
                seq![seq![' '] + trim(line)]
            } else {
                before.drop_last().push(before.last() + seq![' '] + trim(line))
            }
        } else {
            before.push(line)
        }
    }
}

/// The name and the value of a header line: what stands before its first
/// colon and what stands after it, each trimmed. A line without a colon is
/// no field.
pub open spec fn field_of(line: Seq<char>) -> Option<(Seq<char>, Seq<char>)> {
    match split_once(line, ':').1 {
        Some(value) => Some((trim(split_once(line, ':').0), trim(value))),
        None => None,
    }
}

/// The fields of the unfolded header lines, in order.
pub open spec fn fields_of(logical: Seq<Seq<char>>) -> Seq<(Seq<char>, Seq<char>)>
    decreases logical.len(),
{
    if logical.len() == 0 {
        Seq::empty()
    } else {
        let before = fields_of(logical.drop_last());
        match field_of(logical.last()) {
            Some(field) => before.push(field),
            None => before,
        }
    }
}

/// The header fields that the line-based reading finds in a raw message.
pub open spec fn fallback_headers(raw: Seq<char>) -> Map<Seq<char>, Seq<char>> {
    map_of(fields_of(unfolded(header_block(lines(raw)))))
}

/// The body that the line-based reading finds in a raw message: the lines
/// after the first empty line, with a line feed between each two.
pub open spec fn fallback_body(raw: Seq<char>) -> Seq<char> {
    join(body_lines(lines(raw)), seq!['\n'])
}

/// Whether the line-based reading takes the body for HTML: the field
/// `Content-Type` is present and its value contains `text/html`.
pub open spec fn fallback_is_html(raw: Seq<char>) -> bool {
    let headers = fallback_headers(raw);
    headers.contains_key("Content-Type"@) && contains_text(headers["Content-Type"@], "text/html"@)
}

/// The subject that the line-based reading finds: the value of the field
/// `Subject`, or `No Subject`.
pub open spec fn fallback_subject(raw: Seq<char>) -> Seq<char> {
    let headers = fallback_headers(raw);
    if headers.contains_key("Subject"@) {
        headers["Subject"@]
    } else {
        "No Subject"@
    }
}

fn find_blank(ls: &Vec<Vec<char>>) -> (out: usize)
    ensures
        out == blank_index(view_all(ls@)),
        out <= ls@.len(),
{
    let mut k: usize = 0;
    while k < ls.len() && ls[k].len() > 0
        invariant
            k <= ls@.len(),
            forall|j: int| 0 <= j < k ==> (#[trigger] view_all(ls@)[j]).len() > 0,
        decreases ls@.len() - k,
    {
        k += 1;
    }
    proof {
        lemma_blank_index_is(view_all(ls@), k as int);
    }
    k
}

fn unfold(ls: &Vec<Vec<char>>, upto: usize) -> (out: Vec<Vec<char>>)
    requires
        upto <= ls@.len(),
    ensures
        view_all(out@) == unfolded(view_all(ls@).take(upto as int)),
{
    let ghost all = view_all(ls@);
    let mut out: Vec<Vec<char>> = Vec::new();
    let mut i: usize = 0;
    proof {
        assert(all.take(0) =~= Seq::<Seq<char>>::empty());
        assert(view_all(out@) =~= Seq::<Seq<char>>::empty());
    }
    while i < upto
        invariant
            i <= upto <= ls@.len(),
            all == view_all(ls@),
            view_all(out@) == unfolded(all.take(i as int)),
        decreases upto - i,
    {
        let ghost before = view_all(out@);
        let line = &ls[i];
        proof {
            assert(all.take(i + 1).drop_last() =~= all.take(i as int));
            assert(all.take(i + 1).last() == line@);
        }
        if line.len() > 0 && (line[0] == ' ' || line[0] == '\t') {
            let mut joined: Vec<char> = match out.pop() {
                Some(last) => last,
                None => Vec::new(),
            };
            joined.push(' ');
            let rest = trim_chars(line);
            push_all(&mut joined, &rest);
            proof {
                if before.len() == 0 {
                    assert(joined@ =~= seq![' '] + trim(line@));
                } else {
                    assert(view_all(out@) =~= before.drop_last());
                    assert(joined@ =~= before.last() + seq![' '] + trim(line@));
                }
            }
            let ghost kept = view_all(out@);
            out.push(joined);
            assert(view_all(out@) =~= kept.push(joined@));
            assert(before.len() == 0 ==> kept.push(joined@) =~= seq![joined@]);
        } else {
            out.push(slice_of(line, 0, line.len()));
            assert(view_all(out@) =~= before.push(line@)) by {
                assert(line@.subrange(0, line@.len() as int) =~= line@);
            }
        }
        i += 1;
    }
    out
}

fn collect_fields(logical: &Vec<Vec<char>>) -> (out: Headers)
    ensures
        out@ == map_of(fields_of(view_all(logical@))),
{
    let ghost all = view_all(logical@);
    let mut out = Headers::new();
    let mut i: usize = 0;
    proof {
        assert(all.take(0) =~= Seq::<Seq<char>>::empty());
    }
    while i < logical.len()
        invariant
            i <= logical@.len(),
            all == view_all(logical@),
            out@ == map_of(fields_of(all.take(i as int))),
        decreases logical@.len() - i,
    {
        let line = &logical[i];
        proof {
            assert(all.take(i + 1).drop_last() =~= all.take(i as int));
            assert(all.take(i + 1).last() == line@);
        }
        let (name, value) = split_once_chars(line, ':');
        match value {
            Some(v) => {
                let ghost before = fields_of(all.take(i as int));
                let key = string_of(&trim_chars(&name));
                let val = string_of(&trim_chars(&v));
                out.insert(key, val);
                assert(before.push((key@, val@)).drop_last() =~= before);
            },
            None => {},
        }
        i += 1;
    }
    assert(all.take(i as int) =~= all);
    out
}

/// What the line-based reading finds in a raw message.
pub struct Fallback {
    pub subject: String,
    pub body: String,
    pub is_html: bool,
    pub headers: Headers,
}

/// Reads a raw message line by line.
pub fn read_fallback(raw: &str) -> (out: Fallback)
    ensures
        out.headers@ == fallback_headers(raw@),
        out.subject@ == fallback_subject(raw@),
        out.body@ == fallback_body(raw@),
        out.is_html == fallback_is_html(raw@),
{
    let chars = chars_of(raw);
    let ls = split_lines(&chars);
    let blank: usize = find_blank(&ls);
    let logical = unfold(&ls, blank);
    let headers = collect_fields(&logical);
    let mut body_parts: Vec<Vec<char>> = Vec::new();
    let mut i: usize = if blank < ls.len() {
        blank + 1
    } else {
        ls.len()
    };
    let ghost start = i as int;
    proof {
        assert(view_all(body_parts@) =~= view_all(ls@).subrange(start, i as int));
    }
    while i < ls.len()
        invariant
            0 <= start <= i <= ls@.len(),
            view_all(body_parts@) == view_all(ls@).subrange(start, i as int),
        decreases ls@.len() - i,
    {
        let ghost before = view_all(body_parts@);
        let line = &ls[i];
        body_parts.push(slice_of(line, 0, line.len()));
        i += 1;
        assert(view_all(body_parts@) =~= view_all(ls@).subrange(start, i as int)) by {
            assert(line@.subrange(0, line@.len() as int) =~= line@);
            assert(view_all(body_parts@) =~= before.push(line@));
        }
    }
    proof {
        if blank < ls@.len() {
            assert(view_all(ls@).subrange(start, i as int) =~= view_all(ls@).skip(blank + 1));
        } else {
            assert(view_all(ls@).subrange(start, i as int) =~= Seq::<Seq<char>>::empty());
        }
    }
    let sep: Vec<char> = vec!['\n'];
    assert(sep@ =~= seq!['\n']);
    let body = string_of(&join_chars(&body_parts, &sep));
    let subject = match headers.get("Subject") {
        Some(s) => s.clone(),
        None => "No Subject".to_owned(),
    };
    let is_html = match headers.get("Content-Type") {
        Some(t) => contains_chars(&chars_of(t.as_str()), &chars_of("text/html")),
        None => false,
    };
    Fallback { subject, body, is_html, headers }
}

} // verus!
