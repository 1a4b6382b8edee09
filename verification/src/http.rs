//! What the query surface answers, over the shared state: the listing, the
//! lookup and the removal of captured messages, attachments for download,
//! the pages, and the feed of new messages.

use crate::ingest::lossy_text;
use crate::models::{copy_bytes, Attachment, AttachmentView, Email, EmailView};
use crate::fanout::{law_late_subscriber, BroadcasterView};
use crate::state::AppState;
use crate::store::{emails_view, holds_id, position_of};
use crate::text::{
    chars_of, extension, extension_of, push_all, string_of, strip_leading, trim_start_matches,
};
use vstd::prelude::*;

verus! {

/// The status of an answer.
#[derive(Clone, Copy, Debug, PartialEq, Eq, Structural)]
pub enum StatusCode {
    /// 200.
    Success,
    /// 204.
    NoContent,
    /// 404.
    NotFound,
}

impl StatusCode {
    /// The number of the status.
    pub open spec fn code_of(self) -> int {
        match self {
            StatusCode::Success => 200,
            StatusCode::NoContent => 204,
            StatusCode::NotFound => 404,
        }
    }

    /// The number of the status.
    pub fn as_u16(&self) -> (out: u16)
        ensures
            out == self.code_of(),
    {
        match self {
            StatusCode::Success => 200,
            StatusCode::NoContent => 204,
            StatusCode::NotFound => 404,
        }
    }
}

/// Every captured message, in the order of arrival.
pub fn get_emails(state: &AppState) -> (out: Vec<Email>)
    ensures
        emails_view(out@) == state.emails@,
{
    state.emails.list()
}

/// The first captured message with the identifier `id`; `NotFound` where
/// there is none.
pub fn get_email(id: &str, state: &AppState) -> (out: Result<Email, StatusCode>)
    ensures
        match out {
            Ok(email) => holds_id(state.emails@, id@) && email@ == state.emails@[position_of(
                state.emails@,
                id@,
            )],
            Err(status) => status == StatusCode::NotFound && !holds_id(state.emails@, id@),
        },
{
    match state.emails.get(id) {
        Some(email) => Ok(email),
        None => Err(StatusCode::NotFound),
    }
}

/// The position of the first attachment with the identifier `id`, or the
/// number of attachments where none has it.
pub open spec fn attachment_position(attachments: Seq<AttachmentView>, id: Seq<char>) -> int
    decreases attachments.len(),
{
    if attachments.len() == 0 || attachments.first().id == id {
        0
    } else {
        1 + attachment_position(attachments.drop_first(), id)
    }
}

/// `attachment_position` is the least position whose attachment has the
/// identifier.
pub proof fn lemma_attachment_position(attachments: Seq<AttachmentView>, id: Seq<char>)
    ensures
        0 <= attachment_position(attachments, id) <= attachments.len(),
        forall|j: int|
            0 <= j < attachment_position(attachments, id) ==> (#[trigger] attachments[j]).id != id,
        attachment_position(attachments, id) < attachments.len() ==> attachments[attachment_position(
            attachments,
            id,
        )].id == id,
    decreases attachments.len(),
{
    if attachments.len() == 0 || attachments.first().id == id {
    } else {
        let t = attachments.drop_first();
        lemma_attachment_position(t, id);
        assert forall|j: int| 0 <= j < attachment_position(attachments, id) implies (
        #[trigger] attachments[j]).id != id by {
            if j > 0 {
                assert(attachments[j] == t[j - 1]);
            }
        }
    }
}

/// An attachment for download: the headers of the answer and its body.
#[derive(Debug)]
pub struct AttachmentResponse {
    /// Value of the header `Content-Type`.
    pub content_type: String,
    /// Value of the header `Content-Disposition`.
    pub content_disposition: String,
    /// The content of the attachment.
    pub body: Vec<u8>,
}

/// The value of `Content-Disposition` for a file name.
pub open spec fn disposition_of(filename: Seq<char>) -> Seq<char> {
    "attachment; filename=\""@ + filename + seq!['"']
}

/// The attachment that a download of `attachment_id` from the message
/// `email_id` finds: the first message with that identifier, and in it the
/// first attachment with that identifier, where its content is present.
pub open spec fn found_attachment(
    emails: Seq<EmailView>,
    email_id: Seq<char>,
    attachment_id: Seq<char>,
) -> Option<AttachmentView> {
    if holds_id(emails, email_id) {
        let attachments = emails[position_of(emails, email_id)].attachments;
        let at = attachment_position(attachments, attachment_id);
        if 0 <= at < attachments.len() && attachments[at].data is Some {
            Some(attachments[at])
        } else {
            None
        }
    } else {
        None
    }
}

/// An attachment for download; `NotFound` where the message, the attachment
/// or its content is missing.
pub fn get_attachment(email_id: &str, attachment_id: &str, state: &AppState) -> (out: Result<
    AttachmentResponse,
    StatusCode,
>)
    ensures
        match out {
            Ok(response) => found_attachment(state.emails@, email_id@, attachment_id@) matches Some(
                a,
            ) && response.content_type@ == a.content_type && response.content_disposition@
                == disposition_of(a.filename) && Some(response.body@) == a.data,
            Err(status) => status == StatusCode::NotFound && found_attachment(
                state.emails@,
                email_id@,
                attachment_id@,
            ) is None,
        },
{
    let email = match state.emails.get_ref(email_id) {
        Some(email) => email,
        None => {
            return Err(StatusCode::NotFound);
        },
    };
    let wanted: String = attachment_id.to_owned();
    let ghost all = crate::models::attachments_view(email.attachments@);
    let mut i: usize = 0;
    while i < email.attachments.len() && email.attachments[i].id != wanted
        invariant
            i <= email.attachments@.len(),
            wanted@ == attachment_id@,
            all == crate::models::attachments_view(email.attachments@),
            forall|j: int| 0 <= j < i ==> (#[trigger] all[j]).id != attachment_id@,
        decreases email.attachments@.len() - i,
    {
        i += 1;
    }
    proof {
        lemma_attachment_position(all, attachment_id@);
        let f = attachment_position(all, attachment_id@);
        if f < i {
            assert(all[f].id != attachment_id@);
        }
        if i < f {
            assert(all[i as int].id == attachment_id@);
        }
    }
    if i >= email.attachments.len() {
        return Err(StatusCode::NotFound);
    }
    let attachment: &Attachment = &email.attachments[i];
    assert(attachment@ == all[i as int]);
    match &attachment.data {
        Some(data) => {
            let mut disposition: Vec<char> = chars_of("attachment; filename=\"");
            push_all(&mut disposition, &chars_of(attachment.filename.as_str()));
            disposition.push('"');
            assert(disposition@ =~= disposition_of(attachment.filename@));
            Ok(
                AttachmentResponse {
                    content_type: attachment.content_type.clone(),
                    content_disposition: string_of(&disposition),
                    body: copy_bytes(data),
                },
            )
        },
        None => Err(StatusCode::NotFound),
    }
}

/// Removes the first captured message with the identifier `id`: `NoContent`
/// where there was one, `NotFound` where there was none.
pub fn delete_email(id: &str, state: &mut AppState) -> (out: StatusCode)
    ensures
        out == if holds_id(old(state).emails@, id@) {
            StatusCode::NoContent
        } else {
            StatusCode::NotFound
        },
        final(state).emails@ == if holds_id(old(state).emails@, id@) {
            old(state).emails@.remove(position_of(old(state).emails@, id@))
        } else {
            old(state).emails@
        },
        final(state).tx@ == old(state).tx@,
{
    if state.emails.delete(id) {
        StatusCode::NoContent
    } else {
        StatusCode::NotFound
    }
}

/// Removes every captured message.
pub fn delete_all_emails(state: &mut AppState) -> (out: StatusCode)
    ensures
        out == StatusCode::NoContent,
        final(state).emails@ == Seq::<EmailView>::empty(),
        final(state).tx@ == old(state).tx@,
{
    state.emails.clear();
    StatusCode::NoContent
}

/// Opens a feed for an observer: it joins the channel, and gets a copy of
/// every message captured so far. No feed where the channel has no
/// identifier left.
pub fn handle_socket(state: &mut AppState) -> (out: (Option<u64>, Vec<Email>))
    ensures
        emails_view(out.1@) == old(state).emails@,
        final(state).emails@ == old(state).emails@,
        old(state).tx@.issued < u64::MAX ==> out.0 == Some(old(state).tx@.issued as u64)
            && final(state).tx@ == old(state).tx@.after_subscribe(),
        old(state).tx@.issued >= u64::MAX ==> out.0 is None && final(state).tx@ == old(state).tx@,
{
    let subscriber = state.tx.subscribe();
    let snapshot = state.emails.list();
    (subscriber, snapshot)
}

/// The page shown where the main page is missing.
pub open spec fn error_page() -> Seq<char> {
    "<html><body><h1>Error loading page</h1></body></html>"@
}

/// The main page: the text of the stored page, or the error page where none
/// is stored.
pub fn index(page: Option<&[u8]>) -> (out: String)
    ensures
        out@ == match page {
            Some(bytes) => crate::ingest::utf8_lossy(bytes@),
            None => error_page(),
        },
{
    match page {
        Some(bytes) => lossy_text(bytes),
        None => "<html><body><h1>Error loading page</h1></body></html>".to_owned(),
    }
}

/// The name under which a static file is stored, given the path of the
/// request: the path without its leading `/static/`.
pub fn static_path(path: &str) -> (out: String)
    ensures
        out@ == trim_start_matches(path@, "/static/"@),
{
    string_of(&strip_leading(&chars_of(path), &chars_of("/static/")))
}

/// Names the media type that `mime_guess::from_ext`, with
/// `MimeGuess::first_or_octet_stream`, gives for a file extension.
pub uninterp spec fn guessed_media_type(extension: Seq<char>) -> Seq<char>;

/// Wraps `mime_guess::from_ext` with `MimeGuess::first_or_octet_stream`, and
/// the `Display` of the media type: the first media type known for the
/// extension. For an empty extension that is `application/octet-stream`.
#[verifier::external_body]
fn guess_media_type(extension: &str) -> (out: String)
    ensures
        out@ == guessed_media_type(extension@),
        extension@.len() == 0 ==> out@ == "application/octet-stream"@,
{
    mime_guess::from_ext(extension).first_or_octet_stream().to_string()
}

/// The media type for the file stored under `name`, by its extension.
pub fn media_type(name: &str) -> (out: String)
    ensures
        out@ == guessed_media_type(extension_of(name@)),
        extension_of(name@).len() == 0 ==> out@ == "application/octet-stream"@,
{
    let ext = string_of(&extension(&chars_of(name)));
    guess_media_type(ext.as_str())
}

/// The answer to a request for a static file.
#[derive(Debug)]
pub struct StaticResponse {
    pub status: StatusCode,
    /// Value of the header `Content-Type`, where one is set.
    pub content_type: Option<String>,
    pub body: Vec<u8>,
}

/// The answer for a static file, given its content and its media type: the
/// content under that media type where the file is stored, else `NotFound`
/// with a short text.
pub fn static_response(content: Option<Vec<u8>>, media_type: String) -> (out: StaticResponse)
    ensures
        match content {
            Some(bytes) => out.status == StatusCode::Success && out.content_type == Some(media_type)
                && out.body@ == bytes@,
            None => out.status == StatusCode::NotFound && out.content_type is None && out.body@
                == vstd::utf8::encode_utf8("File not found"@),
        },
{
    match content {
        Some(bytes) => StaticResponse {
            status: StatusCode::Success,
            content_type: Some(media_type),
            body: bytes,
        },
        None => {
            let text = "File not found";
            StaticResponse {
                status: StatusCode::NotFound,
                content_type: None,
                body: text.as_bytes_vec(),
            }
        },
    }
}

/// The answer to a request for the static file stored under `name`, given
/// its content where it is stored. The media type goes by the extension of
/// the name.
pub fn static_handler(name: &str, content: Option<Vec<u8>>) -> (out: StaticResponse)
    ensures
        match content {
            Some(bytes) => out.status == StatusCode::Success && out.body@ == bytes@
                && crate::models::option_view(out.content_type) == Some(
                guessed_media_type(extension_of(name@)),
            ),
            None => out.status == StatusCode::NotFound && out.content_type is None && out.body@
                == vstd::utf8::encode_utf8("File not found"@),
        },
{
    match content {
        Some(bytes) => static_response(Some(bytes), media_type(name)),
        None => static_response(None, String::new()),
    }
}

/// What an observer gets over a feed. `tx` is the channel when
/// [`handle_socket`] opens the feed, which hands out the messages captured
/// so far; `later` are the messages delivered after that, no more of them
/// than the channel has capacity for. The queue of the observer then holds
/// exactly the later messages, each once, in the order of their delivery,
/// and [`crate::fanout::Broadcaster::receive`] takes them from its head.
pub proof fn law_feed_follows_the_snapshot(tx: BroadcasterView, later: Seq<EmailView>)
    requires
        tx.wf(),
        tx.issued < u64::MAX,
        later.len() <= tx.capacity,
    ensures
        tx.after_subscribe().queues[tx.issued as u64] == Seq::<EmailView>::empty(),
        tx.after_subscribe().after_publishes(later).queues.contains_key(tx.issued as u64),
        tx.after_subscribe().after_publishes(later).queues[tx.issued as u64] == later,
{
    law_late_subscriber(tx, Seq::empty(), later);
}

} // verus!
