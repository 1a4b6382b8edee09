//! The structured reading of a raw message, as `mail_parser` finds it, in
//! plain values.
//!
//! A parsed `mail_parser::Message` is carried as an opaque value. What it
//! holds is named by the spec functions of this module; [`read_message`]
//! copies it into a [`ParsedMessage`].

use crate::headers::pairs_view;
use crate::models::option_view;
use mail_parser::MimeHeaders;
use vstd::prelude::*;

verus! {

/// A mailbox of an address field.
#[derive(Debug)]
pub struct Mailbox {
    pub name: Option<String>,
    pub address: Option<String>,
}

/// What a [`Mailbox`] holds.
pub struct MailboxView {
    pub name: Option<Seq<char>>,
    pub address: Option<Seq<char>>,
}

impl View for Mailbox {
    type V = MailboxView;

    open spec fn view(&self) -> MailboxView {
        MailboxView { name: option_view(self.name), address: option_view(self.address) }
    }
}

/// What a sequence of mailboxes holds.
pub open spec fn mailboxes_view(list: Seq<Mailbox>) -> Seq<MailboxView> {
    Seq::new(list.len(), |i: int| list[i]@)
}

/// The value of a `Content-Type` or `Content-Disposition` field.
#[derive(Debug)]
pub struct ContentType {
    pub c_type: String,
    pub c_subtype: Option<String>,
    pub attributes: Option<Vec<(String, String)>>,
}

/// What a [`ContentType`] holds.
pub struct ContentTypeView {
    pub c_type: Seq<char>,
    pub c_subtype: Option<Seq<char>>,
    pub attributes: Option<Seq<(Seq<char>, Seq<char>)>>,
}

impl View for ContentType {
    type V = ContentTypeView;

    open spec fn view(&self) -> ContentTypeView {
        ContentTypeView {
            c_type: self.c_type@,
            c_subtype: option_view(self.c_subtype),
            attributes: match self.attributes {
                Some(list) => Some(pairs_view(list@)),
                None => None,
            },
        }
    }
}

/// The value of a header field, by its kind.
#[derive(Debug)]
pub enum HeaderValue {
    /// The mailboxes of an address field, groups flattened.
    Address(Vec<Mailbox>),
    /// Free text.
    Text(String),
    /// A media type with its parameters.
    ContentType(ContentType),
    /// A date and time, in its RFC 3339 form.
    DateTime(String),
    /// A value of any other kind, in its debug form.
    Other(String),
}

/// The kinds of header values.
#[derive(Clone, Copy, Debug, PartialEq, Eq, Structural)]
pub enum HeaderKind {
    Address,
    Text,
    ContentType,
    DateTime,
    Other,
}

/// What a [`HeaderValue`] holds.
pub enum HeaderValueView {
    Address(Seq<MailboxView>),
    Text(Seq<char>),
    ContentType(ContentTypeView),
    DateTime(Seq<char>),
    Other(Seq<char>),
}

impl View for HeaderValue {
    type V = HeaderValueView;

    open spec fn view(&self) -> HeaderValueView {
        match self {
            HeaderValue::Address(list) => HeaderValueView::Address(mailboxes_view(list@)),
            HeaderValue::Text(t) => HeaderValueView::Text(t@),
            HeaderValue::ContentType(c) => HeaderValueView::ContentType(c@),
            HeaderValue::DateTime(t) => HeaderValueView::DateTime(t@),
            HeaderValue::Other(t) => HeaderValueView::Other(t@),
        }
    }
}

impl HeaderValueView {
    /// The kind of the value.
    pub open spec fn kind(self) -> HeaderKind {
        match self {
            HeaderValueView::Address(_) => HeaderKind::Address,
            HeaderValueView::Text(_) => HeaderKind::Text,
            HeaderValueView::ContentType(_) => HeaderKind::ContentType,
            HeaderValueView::DateTime(_) => HeaderKind::DateTime,
            HeaderValueView::Other(_) => HeaderKind::Other,
        }
    }
}

/// A header field.
#[derive(Debug)]
pub struct HeaderField {
    pub name: String,
    pub value: HeaderValue,
}

/// What a [`HeaderField`] holds.
pub struct HeaderFieldView {
    pub name: Seq<char>,
    pub value: HeaderValueView,
}

impl View for HeaderField {
    type V = HeaderFieldView;

    open spec fn view(&self) -> HeaderFieldView {
        HeaderFieldView { name: self.name@, value: self.value@ }
    }
}

/// What a sequence of header fields holds.
pub open spec fn fields_view(list: Seq<HeaderField>) -> Seq<HeaderFieldView> {
    Seq::new(list.len(), |i: int| list[i]@)
}

/// An attachment part.
#[derive(Debug)]
pub struct Part {
    /// The file name that the part declares.
    pub name: Option<String>,
    /// The type and the subtype that the part declares.
    pub content_type: Option<(String, Option<String>)>,
    /// The decoded content.
    pub contents: Vec<u8>,
}

/// What a [`Part`] holds.
pub struct PartView {
    pub name: Option<Seq<char>>,
    pub content_type: Option<(Seq<char>, Option<Seq<char>>)>,
    pub contents: Seq<u8>,
}

impl View for Part {
    type V = PartView;

    open spec fn view(&self) -> PartView {
        PartView {
            name: option_view(self.name),
            content_type: match self.content_type {
                Some(ct) => Some((ct.0@, option_view(ct.1))),
                None => None,
            },
            contents: self.contents@,
        }
    }
}

/// What a sequence of attachment parts holds.
pub open spec fn parts_view(list: Seq<Part>) -> Seq<PartView> {
    Seq::new(list.len(), |i: int| list[i]@)
}

/// What a body part holds.
#[derive(Clone, Copy, Debug, PartialEq, Eq, Structural)]
pub enum BodyKind {
    /// Plain text.
    Text,
    /// HTML.
    Html,
    /// Anything else.
    Other,
}

/// A part that the parser lists as a body of the message.
#[derive(Debug)]
pub struct BodyPart {
    /// What the part holds.
    pub kind: BodyKind,
    /// The part as text.
    pub text: String,
}

/// What a [`BodyPart`] holds.
pub struct BodyPartView {
    pub kind: BodyKind,
    pub text: Seq<char>,
}

impl View for BodyPart {
    type V = BodyPartView;

    open spec fn view(&self) -> BodyPartView {
        BodyPartView { kind: self.kind, text: self.text@ }
    }
}

/// What a sequence of body parts holds.
pub open spec fn bodies_view(list: Seq<BodyPart>) -> Seq<BodyPartView> {
    Seq::new(list.len(), |i: int| list[i]@)
}

/// What the structured reading finds in a raw message.
#[derive(Debug)]
pub struct ParsedMessage {
    /// The header fields of the message, in order.
    pub headers: Vec<HeaderField>,
    /// The declared subject.
    pub subject: Option<String>,
    /// The parts that the parser lists as the text body, in order.
    pub text_parts: Vec<BodyPart>,
    /// The parts that the parser lists as the HTML body, in order.
    pub html_parts: Vec<BodyPart>,
    /// The attachment parts, in order.
    pub attachments: Vec<Part>,
}

/// What a [`ParsedMessage`] holds.
pub struct ParsedView {
    pub headers: Seq<HeaderFieldView>,
    pub subject: Option<Seq<char>>,
    pub text_parts: Seq<BodyPartView>,
    pub html_parts: Seq<BodyPartView>,
    pub attachments: Seq<PartView>,
}

impl View for ParsedMessage {
    type V = ParsedView;

    open spec fn view(&self) -> ParsedView {
        ParsedView {
            headers: fields_view(self.headers@),
            subject: option_view(self.subject),
            text_parts: bodies_view(self.text_parts@),
            html_parts: bodies_view(self.html_parts@),
            attachments: parts_view(self.attachments@),
        }
    }
}

/// A message as `mail_parser` holds it after parsing.
#[verifier::external_type_specification]
#[verifier::external_body]
pub struct ExMessage<'x>(mail_parser::Message<'x>);

/// Names what `mail_parser::MessageParser::parse`, with the default parser,
/// returns for a raw message.
pub uninterp spec fn mime_parse(data: Seq<u8>) -> Option<mail_parser::Message<'static>>;

/// Names the header fields of the root part of a parsed message, in order.
pub uninterp spec fn message_headers(message: mail_parser::Message<'static>) -> Seq<
    HeaderFieldView,
>;

/// Names the subject of a parsed message.
pub uninterp spec fn message_subject(message: mail_parser::Message<'static>) -> Option<Seq<char>>;

/// Names the parts that a parsed message lists as its text body, in order.
pub uninterp spec fn message_text_parts(message: mail_parser::Message<'static>) -> Seq<
    BodyPartView,
>;

/// Names the parts that a parsed message lists as its HTML body, in order.
pub uninterp spec fn message_html_parts(message: mail_parser::Message<'static>) -> Seq<
    BodyPartView,
>;

/// Names the attachment parts of a parsed message, in order.
pub uninterp spec fn message_attachments(message: mail_parser::Message<'static>) -> Seq<PartView>;

/// Wraps `MessageParser::default`, `MessageParser::parse` and
/// `Message::into_owned`: the result is the parse of `data`, owning its
/// content. The parser returns `None` where it finds no header field.
#[verifier::external_body]
fn parse_message(data: &[u8]) -> (out: Option<mail_parser::Message<'static>>)
    ensures
        out == mime_parse(data@),
{
    mail_parser::MessageParser::default().parse(data).map(|m| m.into_owned())
}

/// Wraps `Message::headers` and the length of the slice it returns.
#[verifier::external_body]
fn header_count(message: &mail_parser::Message<'static>) -> (out: usize)
    ensures
        out == message_headers(*message).len(),
{
    message.headers().len()
}

/// Wraps `Header::name` on the field at `index`: its name as text.
#[verifier::external_body]
fn header_name(message: &mail_parser::Message<'static>, index: usize) -> (out: String)
    requires
        index < message_headers(*message).len(),
    ensures
        out@ == message_headers(*message)[index as int].name,
{
    message.headers()[index].name().to_string()
}

/// Wraps `Header::value` and `HeaderValue::as_address`, with `Address::iter`,
/// on the field at `index`: for an address value its mailboxes, those of
/// groups included, each with its name and its address as `Addr` holds them.
#[verifier::external_body]
fn header_mailboxes(message: &mail_parser::Message<'static>, index: usize) -> (out: Option<
    Vec<Mailbox>,
>)
    requires
        index < message_headers(*message).len(),
    ensures
        match out {
            Some(list) => message_headers(*message)[index as int].value
                == HeaderValueView::Address(mailboxes_view(list@)),
            None => message_headers(*message)[index as int].value.kind() != HeaderKind::Address,
        },
{
    message.headers()[index].value().as_address().map(
        |list| list.iter().map(
            |a| Mailbox { name: a.name().map(str::to_owned), address: a.address().map(str::to_owned) },
        ).collect(),
    )
}

/// Wraps `Header::value` and `HeaderValue::as_content_type` on the field at
/// `index`: for a content-type value its type, its subtype and its
/// attributes, as `ContentType` holds them.
#[verifier::external_body]
fn header_content_type(message: &mail_parser::Message<'static>, index: usize) -> (out: Option<
    ContentType,
>)
    requires
        index < message_headers(*message).len(),
    ensures
        match out {
            Some(c) => message_headers(*message)[index as int].value
                == HeaderValueView::ContentType(c@),
            None => message_headers(*message)[index as int].value.kind()
                != HeaderKind::ContentType,
        },
{
    message.headers()[index].value().as_content_type().map(
        |c| ContentType {
            c_type: c.c_type.to_string(),
            c_subtype: c.c_subtype.as_ref().map(|s| s.to_string()),
            attributes: c.attributes.as_ref().map(
                |v| v.iter().map(|a| (a.name.to_string(), a.value.to_string())).collect(),
            ),
        },
    )
}

/// Wraps `Header::value` on the field at `index`, telling the variant
/// `Text` of `mail_parser::HeaderValue` from the others: for a text value its
/// text.
#[verifier::external_body]
fn header_plain_text(message: &mail_parser::Message<'static>, index: usize) -> (out: Option<
    String,
>)
    requires
        index < message_headers(*message).len(),
    ensures
        match out {
            Some(t) => message_headers(*message)[index as int].value == HeaderValueView::Text(t@),
            None => message_headers(*message)[index as int].value.kind() != HeaderKind::Text,
        },
{
    match message.headers()[index].value() {
        mail_parser::HeaderValue::Text(t) => Some(t.to_string()),
        _ => None,
    }
}

/// Wraps `Header::value` and `HeaderValue::as_datetime`, with the `Display`
/// of `mail_parser::DateTime` (`DateTime::to_rfc3339`), on the field at
/// `index`: for a date value its RFC 3339 form.
#[verifier::external_body]
fn header_date(message: &mail_parser::Message<'static>, index: usize) -> (out: Option<String>)
    requires
        index < message_headers(*message).len(),
    ensures
        match out {
            Some(t) => message_headers(*message)[index as int].value == HeaderValueView::DateTime(
                t@,
            ),
            None => message_headers(*message)[index as int].value.kind() != HeaderKind::DateTime,
        },
{
    message.headers()[index].value().as_datetime().map(|d| d.to_string())
}

/// Wraps the `Debug` of `mail_parser::HeaderValue` on the field at `index`:
/// for a value of none of the four kinds above, its debug form.
#[verifier::external_body]
fn header_debug(message: &mail_parser::Message<'static>, index: usize) -> (out: String)
    requires
        index < message_headers(*message).len(),
    ensures
        message_headers(*message)[index as int].value matches HeaderValueView::Other(t) ==> out@
            == t,
{
    format!("{:?}", message.headers()[index].value())
}

/// Wraps `Message::subject`.
#[verifier::external_body]
fn subject_of(message: &mail_parser::Message<'static>) -> (out: Option<String>)
    ensures
        option_view(out) == message_subject(*message),
{
    message.subject().map(str::to_owned)
}

/// Wraps `Message::text_bodies`: each part that it yields, with the variant
/// of its `PartType` as its kind and its `Display` as its text.
#[verifier::external_body]
fn text_parts(message: &mail_parser::Message<'static>) -> (out: Vec<BodyPart>)
    ensures
        bodies_view(out@) == message_text_parts(*message),
{
    message.text_bodies().map(
        |p| BodyPart {
            kind: match &p.body {
                mail_parser::PartType::Text(_) => BodyKind::Text,
                mail_parser::PartType::Html(_) => BodyKind::Html,
                _ => BodyKind::Other,
            },
            text: p.to_string(),
        },
    ).collect()
}

/// Wraps `Message::html_bodies`: each part that it yields, with the variant
/// of its `PartType` as its kind and its `Display` as its text.
#[verifier::external_body]
fn html_parts(message: &mail_parser::Message<'static>) -> (out: Vec<BodyPart>)
    ensures
        bodies_view(out@) == message_html_parts(*message),
{
    message.html_bodies().map(
        |p| BodyPart {
            kind: match &p.body {
                mail_parser::PartType::Text(_) => BodyKind::Text,
                mail_parser::PartType::Html(_) => BodyKind::Html,
                _ => BodyKind::Other,
            },
            text: p.to_string(),
        },
    ).collect()
}

/// Wraps `Message::attachments` with, for each part that it yields,
/// `MimeHeaders::attachment_name`, `MimeHeaders::content_type` and
/// `MessagePart::contents`.
#[verifier::external_body]
fn attachments_of(message: &mail_parser::Message<'static>) -> (out: Vec<Part>)
    ensures
        parts_view(out@) == message_attachments(*message),
{
    message.attachments().map(
        |p| Part {
            name: p.attachment_name().map(str::to_owned),
            content_type: p.content_type().map(
                |c| (c.c_type.to_string(), c.c_subtype.as_ref().map(|s| s.to_string())),
            ),
            contents: p.contents().to_vec(),
        },
    ).collect()
}

/// What a parsed message holds, in plain values.
pub open spec fn message_view(message: mail_parser::Message<'static>) -> ParsedView {
    ParsedView {
        headers: message_headers(message),
        subject: message_subject(message),
        text_parts: message_text_parts(message),
        html_parts: message_html_parts(message),
        attachments: message_attachments(message),
    }
}

fn header_at(message: &mail_parser::Message<'static>, index: usize) -> (out: HeaderField)
    requires
        index < message_headers(*message).len(),
    ensures
        out@ == message_headers(*message)[index as int],
{
    let name = header_name(message, index);
    let value = if let Some(list) = header_mailboxes(message, index) {
        HeaderValue::Address(list)
    } else if let Some(text) = header_plain_text(message, index) {
        HeaderValue::Text(text)
    } else if let Some(c) = header_content_type(message, index) {
        HeaderValue::ContentType(c)
    } else if let Some(date) = header_date(message, index) {
        HeaderValue::DateTime(date)
    } else {
        HeaderValue::Other(header_debug(message, index))
    };
    HeaderField { name, value }
}

/// The structured reading of a raw message, where the parser takes it.
pub fn read_message(data: &[u8]) -> (out: Option<ParsedMessage>)
    ensures
        match mime_parse(data@) {
            Some(message) => out matches Some(parsed) && parsed@ == message_view(message),
            None => out is None,
        },
{
    match parse_message(data) {
        Some(message) => {
            let count: usize = header_count(&message);
            let mut headers: Vec<HeaderField> = Vec::new();
            let mut i: usize = 0;
            while i < count
                invariant
                    i <= count == message_headers(message).len(),
                    headers@.len() == i,
                    fields_view(headers@) == message_headers(message).take(i as int),
                decreases count - i,
            {
                let ghost before = fields_view(headers@);
                let field = header_at(&message, i);
                let ghost held = field@;
                headers.push(field);
                i += 1;
                assert(fields_view(headers@) =~= before.push(held));
                assert(fields_view(headers@) =~= message_headers(message).take(i as int));
            }
            assert(message_headers(message).take(i as int) =~= message_headers(message));
            Some(
                ParsedMessage {
                    headers,
                    subject: subject_of(&message),
                    text_parts: text_parts(&message),
                    html_parts: html_parts(&message),
                    attachments: attachments_of(&message),
                },
            )
        },
        None => None,
    }
}

} // verus!
