//! The captured message and its parts.

use crate::headers::Headers;
use vstd::prelude::*;

verus! {

/// A point in time: whole seconds since the Unix epoch, and the nanoseconds
/// into that second.
#[derive(Clone, Copy, Debug, PartialEq, Eq, Structural)]
pub struct Timestamp {
    pub secs: i64,
    pub nanos: u32,
}

/// Wraps `chrono::Utc::now`, with `DateTime::timestamp` and
/// `DateTime::timestamp_subsec_nanos` to take the reading apart: the current
/// time. Nothing is claimed of the reading. chrono refuses a system clock set
/// before the Unix epoch.
#[verifier::external_body]
pub(crate) fn current_time() -> Timestamp {
    let t = chrono::Utc::now();
    Timestamp { secs: t.timestamp(), nanos: t.timestamp_subsec_nanos() }
}

/// Wraps `uuid::Uuid::new_v4` and the `Display` of the result: a random
/// identifier in its hyphenated form, for a message or an attachment.
/// Nothing is claimed of it.
#[verifier::external_body]
pub(crate) fn fresh_id() -> String {
    uuid::Uuid::new_v4().to_string()
}

/// A file carried by a message.
#[derive(Debug)]
pub struct Attachment {
    /// Identifier of the attachment.
    pub id: String,
    /// File name, `"unnamed"` where the message gives none.
    pub filename: String,
    /// Media type in the form `type/subtype`.
    pub content_type: String,
    /// Length of the content in bytes.
    pub size: usize,
    /// The content.
    pub data: Option<Vec<u8>>,
}

/// What an [`Attachment`] holds.
pub struct AttachmentView {
    pub id: Seq<char>,
    pub filename: Seq<char>,
    pub content_type: Seq<char>,
    pub size: nat,
    pub data: Option<Seq<u8>>,
}

impl View for Attachment {
    type V = AttachmentView;

    open spec fn view(&self) -> AttachmentView {
        AttachmentView {
            id: self.id@,
            filename: self.filename@,
            content_type: self.content_type@,
            size: self.size as nat,
            data: match self.data {
                Some(d) => Some(d@),
                None => None,
            },
        }
    }
}

impl AttachmentView {
    /// Where the content is present, `size` is its length.
    pub open spec fn wf(self) -> bool {
        self.data matches Some(d) ==> self.size == d.len()
    }
}

/// A copy of `bytes`.
pub fn copy_bytes(bytes: &Vec<u8>) -> (out: Vec<u8>)
    ensures
        out@ == bytes@,
{
    let mut out: Vec<u8> = Vec::new();
    let mut i: usize = 0;
    while i < bytes.len()
        invariant
            i <= bytes@.len(),
            out@ == bytes@.take(i as int),
        decreases bytes@.len() - i,
    {
        out.push(bytes[i]);
        i += 1;
        assert(out@ =~= bytes@.take(i as int));
    }
    assert(bytes@.take(i as int) =~= bytes@);
    out
}

impl Clone for Attachment {
    fn clone(&self) -> (out: Self)
        ensures
            out@ == self@,
    {
        Attachment {
            id: self.id.clone(),
            filename: self.filename.clone(),
            content_type: self.content_type.clone(),
            size: self.size,
            data: match &self.data {
                Some(d) => Some(copy_bytes(d)),
                None => None,
            },
        }
    }
}

/// The texts held by a sequence of strings.
pub open spec fn strings_view(v: Seq<String>) -> Seq<Seq<char>> {
    Seq::new(v.len(), |i: int| v[i]@)
}

/// The text held by an optional string.
pub open spec fn option_view(o: Option<String>) -> Option<Seq<char>> {
    match o {
        Some(s) => Some(s@),
        None => None,
    }
}

/// What a sequence of attachments holds.
pub open spec fn attachments_view(v: Seq<Attachment>) -> Seq<AttachmentView> {
    Seq::new(v.len(), |i: int| v[i]@)
}

/// A copy of `strings`.
pub fn copy_strings(strings: &Vec<String>) -> (out: Vec<String>)
    ensures
        strings_view(out@) == strings_view(strings@),
{
    let mut out: Vec<String> = Vec::new();
    let mut i: usize = 0;
    while i < strings.len()
        invariant
            i <= strings@.len(),
            out@.len() == i,
            forall|j: int| 0 <= j < i ==> out@[j]@ == strings@[j]@,
        decreases strings@.len() - i,
    {
        out.push(strings[i].clone());
        i += 1;
    }
    assert(strings_view(out@) =~= strings_view(strings@));
    out
}

/// A captured message.
#[derive(Debug)]
pub struct Email {
    /// Identifier of the message, given when it is captured.
    pub id: String,
    /// When the message was captured.
    pub received_at: Timestamp,
    /// Envelope sender, without angle brackets.
    pub from: String,
    /// Envelope recipients, in the order in which they were named.
    pub to: Vec<String>,
    /// Subject, `"No Subject"` where the message has none.
    pub subject: String,
    /// Plain-text body.
    pub text_body: Option<String>,
    /// HTML body.
    pub html_body: Option<String>,
    /// Header fields, one value for each name.
    pub headers: Headers,
    /// Attachments, in the order in which the message holds them.
    pub attachments: Vec<Attachment>,
}

/// What an [`Email`] holds.
pub struct EmailView {
    pub id: Seq<char>,
    pub received_at: Timestamp,
    pub from: Seq<char>,
    pub to: Seq<Seq<char>>,
    pub subject: Seq<char>,
    pub text_body: Option<Seq<char>>,
    pub html_body: Option<Seq<char>>,
    pub headers: Map<Seq<char>, Seq<char>>,
    pub attachments: Seq<AttachmentView>,
}

impl View for Email {
    type V = EmailView;

    open spec fn view(&self) -> EmailView {
        EmailView {
            id: self.id@,
            received_at: self.received_at,
            from: self.from@,
            to: strings_view(self.to@),
            subject: self.subject@,
            text_body: option_view(self.text_body),
            html_body: option_view(self.html_body),
            headers: self.headers@,
            attachments: attachments_view(self.attachments@),
        }
    }
}

impl EmailView {
    /// Every attachment is well formed.
    pub open spec fn wf(self) -> bool {
        forall|i: int| 0 <= i < self.attachments.len() ==> (#[trigger] self.attachments[i]).wf()
    }
}

impl Clone for Email {
    fn clone(&self) -> (out: Self)
        ensures
            out@ == self@,
    {
        let mut attachments: Vec<Attachment> = Vec::new();
        let mut i: usize = 0;
        while i < self.attachments.len()
            invariant
                i <= self.attachments@.len(),
                attachments@.len() == i,
                forall|j: int| 0 <= j < i ==> attachments@[j]@ == self.attachments@[j]@,
            decreases self.attachments@.len() - i,
        {
            attachments.push(self.attachments[i].clone());
            i += 1;
        }
        assert(attachments_view(attachments@) =~= attachments_view(self.attachments@));
        Email {
            id: self.id.clone(),
            received_at: self.received_at,
            from: self.from.clone(),
            to: copy_strings(&self.to),
            subject: self.subject.clone(),
            text_body: match &self.text_body {
                Some(t) => Some(t.clone()),
                None => None,
            },
            html_body: match &self.html_body {
                Some(t) => Some(t.clone()),
                None => None,
            },
            headers: self.headers.clone(),
            attachments,
        }
    }
}

} // verus!
