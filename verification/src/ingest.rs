//! From a raw message and its envelope to a captured message.
//!
//! Two readings share one result: the structured reading of [`crate::mime`],
//! and the line-based reading of [`crate::fallback`] for input that the
//! structured parser does not take.

use crate::fallback::{
    fallback_body, fallback_headers, fallback_is_html, fallback_subject, read_fallback,
};
use crate::headers::{map_of, pairs_view, Headers};
use crate::mime::{
    bodies_view, fields_view, mailboxes_view, message_view, mime_parse, parts_view, read_message,
    BodyKind, BodyPart, BodyPartView, ContentType, ContentTypeView, HeaderField, HeaderFieldView,
    HeaderValue, HeaderValueView, Mailbox, MailboxView, ParsedMessage, ParsedView, Part, PartView,
};
use crate::models::{
    attachments_view, copy_bytes, current_time, fresh_id, option_view, strings_view, Attachment,
    AttachmentView, Email, EmailView, Timestamp,
};
use crate::text::{chars_of, join, join_chars, push_all, string_of, trim, trim_chars, view_all};
use vstd::prelude::*;

verus! {

/// An optional text, empty where there is none.
pub open spec fn text_or_empty(o: Option<Seq<char>>) -> Seq<char> {
    match o {
        Some(s) => s,
        None => Seq::empty(),
    }
}

/// A mailbox as it is shown: the name, then the address between the
/// entities of the two angle brackets, the whole trimmed.
pub open spec fn rendered_mailbox(m: MailboxView) -> Seq<char> {
    trim(text_or_empty(m.name) + "&lt;"@ + text_or_empty(m.address) + "&gt;"@)
}

/// The mailboxes of a list as they are shown.
pub open spec fn rendered_mailboxes(list: Seq<MailboxView>) -> Seq<Seq<char>> {
    Seq::new(list.len(), |i: int| rendered_mailbox(list[i]))
}

/// A parameter of a media type as it is shown: name, `=`, value.
pub open spec fn rendered_attribute(a: (Seq<char>, Seq<char>)) -> Seq<char> {
    a.0 + seq!['='] + a.1
}

/// The parameters of a media type as they are shown; none where the value
/// holds no list of them.
pub open spec fn rendered_attributes(attributes: Option<Seq<(Seq<char>, Seq<char>)>>) -> Seq<
    Seq<char>,
> {
    match attributes {
        Some(list) => Seq::new(list.len(), |i: int| rendered_attribute(list[i])),
        None => Seq::empty(),
    }
}

/// A media type as it is shown: `type/subtype; `, then the parameters with
/// `; ` between each two.
pub open spec fn rendered_content_type(c: ContentTypeView) -> Seq<char> {
    c.c_type + seq!['/'] + text_or_empty(c.c_subtype) + "; "@ + join(
        rendered_attributes(c.attributes),
        "; "@,
    )
}

/// A header value as it is shown, by its kind.
pub open spec fn rendered(value: HeaderValueView) -> Seq<char> {
    match value {
        HeaderValueView::Address(list) => join(rendered_mailboxes(list), ", "@),
        HeaderValueView::Text(t) => t,
        HeaderValueView::ContentType(c) => rendered_content_type(c),
        HeaderValueView::DateTime(t) => t,
        HeaderValueView::Other(t) => t,
    }
}

fn push_optional(out: &mut Vec<char>, text: &Option<String>)
    ensures
        final(out)@ == old(out)@ + text_or_empty(option_view(*text)),
{
    match text {
        Some(t) => {
            push_all(out, &chars_of(t.as_str()));
        },
        None => {
            assert(out@ =~= old(out)@ + Seq::<char>::empty());
        },
    }
}

fn render_mailbox(m: &Mailbox) -> (out: Vec<char>)
    ensures
        out@ == rendered_mailbox(m@),
{
    let mut shown: Vec<char> = Vec::new();
    push_optional(&mut shown, &m.name);
    push_all(&mut shown, &chars_of("&lt;"));
    push_optional(&mut shown, &m.address);
    push_all(&mut shown, &chars_of("&gt;"));
    assert(shown@ =~= text_or_empty(m@.name) + "&lt;"@ + text_or_empty(m@.address) + "&gt;"@);
    trim_chars(&shown)
}

fn render_content_type(c: &ContentType) -> (out: Vec<char>)
    ensures
        out@ == rendered_content_type(c@),
{
    let mut parts: Vec<Vec<char>> = Vec::new();
    match &c.attributes {
        Some(list) => {
            let mut i: usize = 0;
            while i < list.len()
                invariant
                    i <= list@.len(),
                    parts@.len() == i,
                    forall|j: int|
                        0 <= j < i ==> parts@[j]@ == rendered_attribute(pairs_view(list@)[j]),
                decreases list@.len() - i,
            {
                let mut shown: Vec<char> = chars_of(list[i].0.as_str());
                shown.push('=');
                push_all(&mut shown, &chars_of(list[i].1.as_str()));
                assert(shown@ =~= rendered_attribute(pairs_view(list@)[i as int]));
                parts.push(shown);
                i += 1;
            }
        },
        None => {},
    }
    assert(view_all(parts@) =~= rendered_attributes(c@.attributes));
    let mut out: Vec<char> = chars_of(c.c_type.as_str());
    out.push('/');
    push_optional(&mut out, &c.c_subtype);
    push_all(&mut out, &chars_of("; "));
    push_all(&mut out, &join_chars(&parts, &chars_of("; ")));
    assert(out@ =~= rendered_content_type(c@));
    out
}

/// Shows a header value.
pub fn render(value: &HeaderValue) -> (out: String)
    ensures
        out@ == rendered(value@),
{
    match value {
        HeaderValue::Address(list) => {
            let mut parts: Vec<Vec<char>> = Vec::new();
            let mut i: usize = 0;
            while i < list.len()
                invariant
                    i <= list@.len(),
                    parts@.len() == i,
                    forall|j: int| 0 <= j < i ==> parts@[j]@ == rendered_mailbox(list@[j]@),
                decreases list@.len() - i,
            {
                parts.push(render_mailbox(&list[i]));
                i += 1;
            }
            assert(view_all(parts@) =~= rendered_mailboxes(mailboxes_view(list@)));
            string_of(&join_chars(&parts, &chars_of(", ")))
        },
        HeaderValue::Text(t) => t.clone(),
        HeaderValue::ContentType(c) => string_of(&render_content_type(c)),
        HeaderValue::DateTime(t) => t.clone(),
        HeaderValue::Other(t) => t.clone(),
    }
}

/// The names of header fields with their values as they are shown.
pub open spec fn shown_fields(headers: Seq<HeaderFieldView>) -> Seq<(Seq<char>, Seq<char>)> {
    Seq::new(headers.len(), |i: int| (headers[i].name, rendered(headers[i].value)))
}

fn collect_headers(headers: &Vec<HeaderField>) -> (out: Headers)
    ensures
        out@ == map_of(shown_fields(fields_view(headers@))),
{
    let ghost all = shown_fields(fields_view(headers@));
    let mut out = Headers::new();
    let mut i: usize = 0;
    proof {
        assert(all.take(0) =~= Seq::<(Seq<char>, Seq<char>)>::empty());
    }
    while i < headers.len()
        invariant
            i <= headers@.len(),
            all == shown_fields(fields_view(headers@)),
            out@ == map_of(all.take(i as int)),
        decreases headers@.len() - i,
    {
        proof {
            assert(all.take(i + 1).drop_last() =~= all.take(i as int));
        }
        out.insert(headers[i].name.clone(), render(&headers[i].value));
        i += 1;
    }
    assert(all.take(i as int) =~= all);
    out
}

/// The media type of an attachment part in the form `type/subtype`;
/// `application/octet-stream` where the part declares none.
pub open spec fn media_type_of(part: PartView) -> Seq<char> {
    match part.content_type {
        Some(ct) => ct.0 + seq!['/'] + text_or_empty(ct.1),
        None => "application/octet-stream"@,
    }
}

/// The attachment that stands for a part, under the identifier `id`.
pub open spec fn attachment_of(part: PartView, id: Seq<char>) -> AttachmentView {
    AttachmentView {
        id,
        filename: match part.name {
            Some(n) => n,
            None => "unnamed"@,
        },
        content_type: media_type_of(part),
        size: part.contents.len(),
        data: Some(part.contents),
    }
}

/// The attachments that stand for the parts, each under its identifier.
pub open spec fn attachments_of(parts: Seq<PartView>, ids: Seq<Seq<char>>) -> Seq<AttachmentView> {
    Seq::new(parts.len(), |i: int| attachment_of(parts[i], ids[i]))
}

fn make_attachment(part: &Part, id: String) -> (out: Attachment)
    ensures
        out@ == attachment_of(part@, id@),
        out@.wf(),
{
    let filename = match &part.name {
        Some(n) => n.clone(),
        None => "unnamed".to_owned(),
    };
    let content_type = match &part.content_type {
        Some(ct) => {
            let mut shown: Vec<char> = chars_of(ct.0.as_str());
            shown.push('/');
            push_optional(&mut shown, &ct.1);
            assert(shown@ =~= ct.0@ + seq!['/'] + text_or_empty(option_view(ct.1)));
            string_of(&shown)
        },
        None => "application/octet-stream".to_owned(),
    };
    let data = copy_bytes(&part.contents);
    Attachment { id, filename, content_type, size: data.len(), data: Some(data) }
}

/// The text of the first of the parts that is of the kind `kind`.
pub open spec fn first_of_kind(parts: Seq<BodyPartView>, kind: BodyKind) -> Option<Seq<char>>
    decreases parts.len(),
{
    if parts.len() == 0 {
        None
    } else if parts.first().kind == kind {
        Some(parts.first().text)
    } else {
        first_of_kind(parts.drop_first(), kind)
    }
}

/// Skipping parts of other kinds does not change which part is the first
/// of a kind.
pub proof fn lemma_first_of_kind_skip(parts: Seq<BodyPartView>, kind: BodyKind, k: int)
    requires
        0 <= k <= parts.len(),
        forall|j: int| 0 <= j < k ==> (#[trigger] parts[j]).kind != kind,
    ensures
        first_of_kind(parts, kind) == first_of_kind(parts.skip(k), kind),
    decreases k,
{
    if k == 0 {
        assert(parts.skip(0) =~= parts);
    } else {
        assert(parts[0].kind != kind);
        let rest = parts.drop_first();
        assert forall|j: int| 0 <= j < k - 1 implies (#[trigger] rest[j]).kind != kind by {
            assert(rest[j] == parts[j + 1]);
        }
        lemma_first_of_kind_skip(rest, kind, k - 1);
        assert(rest.skip(k - 1) =~= parts.skip(k));
    }
}

fn pick_first(parts: &Vec<BodyPart>, kind: BodyKind) -> (out: Option<String>)
    ensures
        option_view(out) == first_of_kind(bodies_view(parts@), kind),
{
    let ghost all = bodies_view(parts@);
    let mut i: usize = 0;
    while i < parts.len() && parts[i].kind != kind
        invariant
            i <= parts@.len(),
            all == bodies_view(parts@),
            forall|j: int| 0 <= j < i ==> (#[trigger] all[j]).kind != kind,
        decreases parts@.len() - i,
    {
        i += 1;
    }
    proof {
        lemma_first_of_kind_skip(all, kind, i as int);
    }
    if i < parts.len() {
        assert(all.skip(i as int).first() == all[i as int]);
        Some(parts[i].text.clone())
    } else {
        assert(all.skip(i as int).len() == 0);
        None
    }
}

/// The captured message that the structured reading gives: the text body is
/// the first plain-text part of the text body list, the HTML body the first
/// HTML part of the HTML body list.
pub open spec fn structured_email(
    parsed: ParsedView,
    from: Seq<char>,
    to: Seq<Seq<char>>,
    id: Seq<char>,
    received_at: Timestamp,
    attachment_ids: Seq<Seq<char>>,
) -> EmailView {
    EmailView {
        id,
        received_at,
        from,
        to,
        subject: match parsed.subject {
            Some(s) => s,
            None => "No Subject"@,
        },
        text_body: first_of_kind(parsed.text_parts, BodyKind::Text),
        html_body: first_of_kind(parsed.html_parts, BodyKind::Html),
        headers: map_of(shown_fields(parsed.headers)),
        attachments: attachments_of(parsed.attachments, attachment_ids),
    }
}

/// The captured message that the line-based reading gives.
pub open spec fn fallback_email(
    raw: Seq<char>,
    from: Seq<char>,
    to: Seq<Seq<char>>,
    id: Seq<char>,
    received_at: Timestamp,
) -> EmailView {
    EmailView {
        id,
        received_at,
        from,
        to,
        subject: fallback_subject(raw),
        text_body: if fallback_is_html(raw) {
            None
        } else {
            Some(fallback_body(raw))
        },
        html_body: if fallback_is_html(raw) {
            Some(fallback_body(raw))
        } else {
            None
        },
        headers: fallback_headers(raw),
        attachments: Seq::empty(),
    }
}

/// Builds the captured message from the structured reading, the envelope,
/// and an identifier for the message and for each attachment.
pub fn assemble_structured(
    parsed: &ParsedMessage,
    from: String,
    to: Vec<String>,
    id: String,
    received_at: Timestamp,
    attachment_ids: Vec<String>,
) -> (out: Email)
    requires
        attachment_ids@.len() == parsed.attachments@.len(),
    ensures
        out@ == structured_email(
            parsed@,
            from@,
            strings_view(to@),
            id@,
            received_at,
            strings_view(attachment_ids@),
        ),
        out@.wf(),
{
    let ghost ids = strings_view(attachment_ids@);
    let mut attachments: Vec<Attachment> = Vec::new();
    let mut i: usize = 0;
    while i < parsed.attachments.len()
        invariant
            i <= parsed.attachments@.len() == attachment_ids@.len(),
            ids == strings_view(attachment_ids@),
            attachments@.len() == i,
            forall|j: int|
                0 <= j < i ==> (#[trigger] attachments@[j])@ == attachment_of(
                    parsed.attachments@[j]@,
                    ids[j],
                ) && attachments@[j]@.wf(),
        decreases parsed.attachments@.len() - i,
    {
        attachments.push(make_attachment(&parsed.attachments[i], attachment_ids[i].clone()));
        i += 1;
    }
    assert(attachments_view(attachments@) =~= attachments_of(parts_view(parsed.attachments@), ids));
    let subject = match &parsed.subject {
        Some(s) => s.clone(),
        None => "No Subject".to_owned(),
    };
    Email {
        id,
        received_at,
        from,
        to,
        subject,
        text_body: pick_first(&parsed.text_parts, BodyKind::Text),
        html_body: pick_first(&parsed.html_parts, BodyKind::Html),
        headers: collect_headers(&parsed.headers),
        attachments,
    }
}

/// Builds the captured message from the line-based reading of `raw`, the
/// envelope and an identifier.
pub fn assemble_fallback(
    raw: &str,
    from: String,
    to: Vec<String>,
    id: String,
    received_at: Timestamp,
) -> (out: Email)
    ensures
        out@ == fallback_email(raw@, from@, strings_view(to@), id@, received_at),
        out@.wf(),
{
    let found = read_fallback(raw);
    let (text_body, html_body) = if found.is_html {
        (None, Some(found.body))
    } else {
        (Some(found.body), None)
    };
    let attachments: Vec<Attachment> = Vec::new();
    assert(attachments_view(attachments@) =~= Seq::<AttachmentView>::empty());
    Email {
        id,
        received_at,
        from,
        to,
        subject: found.subject,
        text_body,
        html_body,
        headers: found.headers,
        attachments,
    }
}

/// Names what `String::from_utf8_lossy` returns for a run of bytes: their
/// text, with U+FFFD in place of what is not valid UTF-8.
pub uninterp spec fn utf8_lossy(data: Seq<u8>) -> Seq<char>;

/// Wraps `String::from_utf8_lossy`. For valid UTF-8 the result is the text
/// that the bytes encode.
#[verifier::external_body]
pub(crate) fn lossy_text(data: &[u8]) -> (out: String)
    ensures
        out@ == utf8_lossy(data@),
        vstd::utf8::valid_utf8(data@) ==> out@ == vstd::utf8::decode_utf8(data@),
{
    String::from_utf8_lossy(data).into_owned()
}

/// The identifiers of a sequence of attachments.
pub open spec fn ids_of(attachments: Seq<AttachmentView>) -> Seq<Seq<char>> {
    Seq::new(attachments.len(), |i: int| attachments[i].id)
}

/// The captured message for a raw message and its envelope, given the
/// identifiers and the time of capture: the structured reading where the
/// parser takes the raw message, else the line-based reading of its text.
pub open spec fn ingested(
    data: Seq<u8>,
    from: Seq<char>,
    to: Seq<Seq<char>>,
    id: Seq<char>,
    received_at: Timestamp,
    attachment_ids: Seq<Seq<char>>,
) -> EmailView {
    match mime_parse(data) {
        Some(message) => structured_email(
            message_view(message),
            from,
            to,
            id,
            received_at,
            attachment_ids,
        ),
        None => fallback_email(utf8_lossy(data), from, to, id, received_at),
    }
}

/// Whether `email` is the captured message for a raw message and its
/// envelope, under some identifiers and some time of capture.
pub open spec fn is_ingested(data: Seq<u8>, from: Seq<char>, to: Seq<Seq<char>>, email: EmailView) -> bool {
    email == ingested(data, from, to, email.id, email.received_at, ids_of(email.attachments))
}

/// Turns a raw message and its envelope into a captured message, with fresh
/// identifiers and the current time.
pub fn ingest(data: &[u8], from: String, to: Vec<String>) -> (out: Email)
    ensures
        is_ingested(data@, from@, strings_view(to@), out@),
        out@.wf(),
{
    let text = lossy_text(data);
    match read_message(data) {
        Some(parsed) => {
            let mut ids: Vec<String> = Vec::new();
            let mut i: usize = 0;
            while i < parsed.attachments.len()
                invariant
                    i <= parsed.attachments@.len(),
                    ids@.len() == i,
                decreases parsed.attachments@.len() - i,
            {
                ids.push(fresh_id());
                i += 1;
            }
            let ghost wanted = strings_view(ids@);
            let out = assemble_structured(&parsed, from, to, fresh_id(), current_time(), ids);
            assert(ids_of(out@.attachments) =~= wanted);
            out
        },
        None => {
            let out = assemble_fallback(text.as_str(), from, to, fresh_id(), current_time());
            out
        },
    }
}

/// The line-based reading always gives a subject, the one of the field
/// `Subject` or the default, and exactly one body: the HTML body where the
/// field `Content-Type` names `text/html`, else the plain-text body.
pub proof fn law_fallback_one_body(
    raw: Seq<char>,
    from: Seq<char>,
    to: Seq<Seq<char>>,
    id: Seq<char>,
    received_at: Timestamp,
)
    ensures
        ({
            let email = fallback_email(raw, from, to, id, received_at);
            let headers = fallback_headers(raw);
            &&& email.subject == if headers.contains_key("Subject"@) {
                headers["Subject"@]
            } else {
                "No Subject"@
            }
            &&& (email.text_body is Some) != (email.html_body is Some)
            &&& email.html_body is Some <==> headers.contains_key("Content-Type"@)
                && crate::text::contains_text(headers["Content-Type"@], "text/html"@)
            &&& email.html_body is Some ==> email.html_body == Some(fallback_body(raw))
            &&& email.text_body is Some ==> email.text_body == Some(fallback_body(raw))
            &&& email.attachments.len() == 0
        }),
{
}

/// Where the structured parser does not take a raw message, the captured
/// message is the line-based reading of its text.
pub proof fn law_fallback_when_unparsed(
    data: Seq<u8>,
    from: Seq<char>,
    to: Seq<Seq<char>>,
    email: EmailView,
)
    requires
        mime_parse(data) is None,
        is_ingested(data, from, to, email),
    ensures
        email == fallback_email(utf8_lossy(data), from, to, email.id, email.received_at),
        (email.text_body is Some) != (email.html_body is Some),
{
}

/// A captured message carries the envelope that it was ingested with: the
/// sender, and the recipients in their order.
pub proof fn law_ingested_envelope(
    data: Seq<u8>,
    from: Seq<char>,
    to: Seq<Seq<char>>,
    email: EmailView,
)
    requires
        is_ingested(data, from, to, email),
    ensures
        email.from == from,
        email.to == to,
{
}

} // verus!
