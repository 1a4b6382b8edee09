//! The mail server over the shared state: ingestion of complete messages,
//! and a whole conversation as a function of the lines received.

use crate::ingest::{assemble_fallback, fallback_email, ingest, is_ingested};
use crate::models::{current_time, fresh_id, strings_view, EmailView};
use crate::session::{
    address_in, bare_command_line, command_argument, command_line, is_command, is_terminator,
    law_address_between_brackets, lemma_bare_command_line_parts, lemma_command_line_parts,
    lemma_verbs_in_capitals, stored, Action, ActionView, EnvelopeView, Reply, Session,
    SessionView, Verb,
};
use crate::text::{is_angle, is_whitespace};
use crate::state::AppState;
use vstd::prelude::*;

verus! {

/// Ingests a raw message with its envelope and delivers it: the store gains
/// the captured message, and every subscriber a copy of it.
pub fn process_email(data: &[u8], from: String, to: Vec<String>, state: &mut AppState)
    ensures
        final(state).emails@.len() == old(state).emails@.len() + 1,
        final(state).emails@ == old(state).emails@.push(final(state).emails@.last()),
        is_ingested(data@, from@, strings_view(to@), final(state).emails@.last()),
        final(state).emails@.last().wf(),
        final(state).tx@ == old(state).tx@.after_publish(final(state).emails@.last()),
{
    let email = ingest(data, from, to);
    state.deliver(email);
}

/// Reads a raw message line by line, whatever the structured parser would
/// make of it, and delivers the captured message.
pub fn process_email_simple(email_str: &str, from: String, to: Vec<String>, state: &mut AppState)
    ensures
        final(state).emails@.len() == old(state).emails@.len() + 1,
        final(state).emails@ == old(state).emails@.push(final(state).emails@.last()),
        final(state).emails@.last() == fallback_email(
            email_str@,
            from@,
            strings_view(to@),
            final(state).emails@.last().id,
            final(state).emails@.last().received_at,
        ),
        final(state).tx@ == old(state).tx@.after_publish(final(state).emails@.last()),
{
    let email = assemble_fallback(email_str, from, to, fresh_id(), current_time());
    state.deliver(email);
}

/// A conversation so far: the state of the session, whether the client has
/// quit, the replies sent and the envelopes of the messages completed.
pub struct Conversation {
    pub session: SessionView,
    pub closed: bool,
    pub replies: Seq<Reply>,
    pub envelopes: Seq<EnvelopeView>,
}

/// The conversation that the received lines make. It opens with the
/// greeting; a line after `QUIT` has no effect.
pub open spec fn conversation(lines: Seq<Seq<char>>) -> Conversation
    decreases lines.len(),
{
    if lines.len() == 0 {
        Conversation {
            session: SessionView::initial(),
            closed: false,
            replies: seq![Reply::Greeting],
            envelopes: Seq::empty(),
        }
    } else {
        let before = conversation(lines.drop_last());
        if before.closed {
            before
        } else {
            let (session, action) = before.session.after_line(lines.last());
            match action {
                ActionView::Reply(reply) => Conversation {
                    session,
                    replies: before.replies.push(reply),
                    ..before
                },
                ActionView::Collect => Conversation { session, ..before },
                ActionView::Deliver(envelope) => Conversation {
                    session,
                    replies: before.replies.push(Reply::Accepted),
                    envelopes: before.envelopes.push(envelope),
                    ..before
                },
                ActionView::Close => Conversation {
                    session,
                    closed: true,
                    replies: before.replies.push(Reply::Closing),
                    ..before
                },
            }
        }
    }
}

/// Whether the messages are the captured messages of the envelopes, one for
/// each, in order.
pub open spec fn captured(messages: Seq<EmailView>, envelopes: Seq<EnvelopeView>) -> bool {
    &&& messages.len() == envelopes.len()
    &&& forall|k: int|
        0 <= k < messages.len() ==> is_ingested(
            envelopes[k].data,
            envelopes[k].from,
            envelopes[k].to,
            #[trigger] messages[k],
        )
}

/// Holds a whole conversation with a client, given the lines that it sends,
/// each with its line ending. Returns the replies in order, the greeting
/// first. Every message that the client completes is ingested and delivered.
pub fn handle_smtp_client(lines: &Vec<String>, state: &mut AppState) -> (out: Vec<Reply>)
    ensures
        out@ == conversation(strings_view(lines@)).replies,
        final(state).emails@.len() == old(state).emails@.len() + conversation(
            strings_view(lines@),
        ).envelopes.len(),
        final(state).emails@.take(old(state).emails@.len() as int) == old(state).emails@,
        captured(
            final(state).emails@.skip(old(state).emails@.len() as int),
            conversation(strings_view(lines@)).envelopes,
        ),
        final(state).tx@ == old(state).tx@.after_publishes(
            final(state).emails@.skip(old(state).emails@.len() as int),
        ),
{
    let ghost all = strings_view(lines@);
    let ghost start = old(state).emails@;
    let mut session = Session::new();
    let mut replies: Vec<Reply> = Vec::new();
    replies.push(Session::greeting());
    let mut closed = false;
    let mut i: usize = 0;
    proof {
        assert(all.take(0) =~= Seq::<Seq<char>>::empty());
        assert(replies@ =~= seq![Reply::Greeting]);
        assert(state.emails@.take(start.len() as int) =~= start);
        assert(state.emails@.skip(start.len() as int) =~= Seq::<EmailView>::empty());
    }
    while i < lines.len()
        invariant
            i <= lines@.len(),
            all == strings_view(lines@),
            start == old(state).emails@,
            session@ == conversation(all.take(i as int)).session,
            closed == conversation(all.take(i as int)).closed,
            replies@ == conversation(all.take(i as int)).replies,
            state.emails@.len() == start.len() + conversation(all.take(i as int)).envelopes.len(),
            state.emails@.take(start.len() as int) == start,
            captured(
                state.emails@.skip(start.len() as int),
                conversation(all.take(i as int)).envelopes,
            ),
            state.tx@ == old(state).tx@.after_publishes(state.emails@.skip(start.len() as int)),
        decreases lines@.len() - i,
    {
        proof {
            assert(all.take(i + 1).drop_last() =~= all.take(i as int));
            assert(all.take(i + 1).last() == lines@[i as int]@);
        }
        if !closed {
            let ghost stored = state.emails@;
            let ghost fresh = stored.skip(start.len() as int);
            let ghost envelopes = conversation(all.take(i as int)).envelopes;
            match session.handle_line(lines[i].as_str()) {
                Action::Reply(reply) => {
                    replies.push(reply);
                },
                Action::Collect => {},
                Action::Deliver(envelope) => {
                    let ghost sent = envelope@;
                    process_email(envelope.data.as_slice(), envelope.from, envelope.to, state);
                    replies.push(Session::delivery_reply(true));
                    proof {
                        let email = state.emails@.last();
                        let now = state.emails@.skip(start.len() as int);
                        assert(state.emails@.take(start.len() as int) =~= start);
                        assert(now =~= fresh.push(email));
                        assert(now.drop_last() =~= fresh);
                        assert forall|k: int| 0 <= k < now.len() implies is_ingested(
                            envelopes.push(sent)[k].data,
                            envelopes.push(sent)[k].from,
                            envelopes.push(sent)[k].to,
                            #[trigger] now[k],
                        ) by {
                            if k < fresh.len() {
                                assert(now[k] == fresh[k]);
                            }
                        }
                    }
                },
                Action::Close => {
                    replies.push(Reply::Closing);
                    closed = true;
                },
            }
        }
        i += 1;
    }
    assert(all.take(i as int) =~= all);
    replies
}

/// The conversation after one more line.
pub proof fn lemma_conversation_step(lines: Seq<Seq<char>>, line: Seq<char>)
    ensures
        conversation(lines.push(line)) == ({
            let before = conversation(lines);
            if before.closed {
                before
            } else {
                let (session, action) = before.session.after_line(line);
                match action {
                    ActionView::Reply(reply) => Conversation {
                        session,
                        replies: before.replies.push(reply),
                        ..before
                    },
                    ActionView::Collect => Conversation { session, ..before },
                    ActionView::Deliver(envelope) => Conversation {
                        session,
                        replies: before.replies.push(Reply::Accepted),
                        envelopes: before.envelopes.push(envelope),
                        ..before
                    },
                    ActionView::Close => Conversation {
                        session,
                        closed: true,
                        replies: before.replies.push(Reply::Closing),
                        ..before
                    },
                }
            }
        }),
{
    assert(lines.push(line).drop_last() =~= lines);
}

/// While data is taken, lines that do not end the message only add to it:
/// there is no reply, and nothing is delivered.
pub proof fn lemma_conversation_body(lines: Seq<Seq<char>>, body: Seq<Seq<char>>)
    requires
        !conversation(lines).closed,
        conversation(lines).session.in_data,
        forall|i: int| 0 <= i < body.len() ==> !is_terminator(#[trigger] body[i]),
    ensures
        conversation(lines + body) == (Conversation {
            session: SessionView {
                data: conversation(lines).session.data + stored(body),
                ..conversation(lines).session
            },
            ..conversation(lines)
        }),
    decreases body.len(),
{
    let before = conversation(lines);
    if body.len() == 0 {
        assert(lines + body =~= lines);
        assert(before.session.data + stored(body) =~= before.session.data);
    } else {
        let front = body.drop_last();
        assert forall|i: int| 0 <= i < front.len() implies !is_terminator(#[trigger] front[i]) by {
            assert(front[i] == body[i]);
        }
        lemma_conversation_body(lines, front);
        assert((lines + front).push(body.last()) =~= lines + body);
        lemma_conversation_step(lines + front, body.last());
        assert(!is_terminator(body[body.len() - 1]));
        assert(before.session.data + stored(front) + vstd::utf8::encode_utf8(
            crate::session::unstuffed(body.last()),
        ) =~= before.session.data + stored(body));
    }
}

/// A whole transaction on a new connection: `MAIL` with the sender, `RCPT`
/// with the recipient, `DATA`, the lines of the message and the lone dot.
/// The replies are the greeting, 250, 250, 354 and 250, and exactly one
/// message is delivered, from that sender to that one recipient, with the
/// lines as they are stored. The session is as new afterwards.
pub proof fn law_transaction(
    mail: Seq<char>,
    rcpt: Seq<char>,
    data: Seq<char>,
    body: Seq<Seq<char>>,
    end: Seq<char>,
    sender: Seq<char>,
    recipient: Seq<char>,
)
    requires
        is_command(mail, Verb::Mail),
        address_in(command_argument(mail), "FROM:"@) == Some(sender),
        is_command(rcpt, Verb::Rcpt),
        address_in(command_argument(rcpt), "TO:"@) == Some(recipient),
        is_command(data, Verb::Data),
        sender.len() > 0,
        recipient.len() > 0,
        forall|i: int| 0 <= i < body.len() ==> !is_terminator(#[trigger] body[i]),
        is_terminator(end),
    ensures
        conversation(seq![mail, rcpt, data] + body + seq![end]) == (Conversation {
            session: SessionView::initial(),
            closed: false,
            replies: seq![
                Reply::Greeting,
                Reply::Done,
                Reply::Done,
                Reply::StartInput,
                Reply::Accepted,
            ],
            envelopes: seq![
                EnvelopeView { from: sender, to: seq![recipient], data: stored(body) },
            ],
        }),
{
    let none = Seq::<Seq<char>>::empty();
    let one = seq![mail];
    let two = seq![mail, rcpt];
    let three = seq![mail, rcpt, data];
    lemma_conversation_step(none, mail);
    assert(none.push(mail) =~= one);
    lemma_conversation_step(one, rcpt);
    assert(one.push(rcpt) =~= two);
    lemma_conversation_step(two, data);
    assert(two.push(data) =~= three);
    let c1 = conversation(one);
    assert(c1.session.mail_from == sender);
    assert(c1.replies =~= seq![Reply::Greeting, Reply::Done]);
    let c2 = conversation(two);
    assert(c2.session.rcpt_to =~= seq![recipient]);
    assert(c2.replies =~= seq![Reply::Greeting, Reply::Done, Reply::Done]);
    let c3 = conversation(three);
    assert(c3.session.in_data);
    assert(c3.replies =~= seq![Reply::Greeting, Reply::Done, Reply::Done, Reply::StartInput]);
    lemma_conversation_body(three, body);
    lemma_conversation_step(three + body, end);
    assert((three + body).push(end) =~= three + body + seq![end]);
    let last = conversation(three + body + seq![end]);
    assert(Seq::<u8>::empty() + stored(body) =~= stored(body));
    assert(last.replies =~= seq![
        Reply::Greeting,
        Reply::Done,
        Reply::Done,
        Reply::StartInput,
        Reply::Accepted,
    ]);
    assert(last.envelopes =~= seq![
        EnvelopeView { from: sender, to: seq![recipient], data: stored(body) },
    ]);
}

/// A whole transaction on a new connection adds exactly one message to the
/// store, from the sender to the one recipient. `before` and `after` are the
/// store before and after [`handle_smtp_client`] holds the conversation.
pub proof fn law_transaction_stores_one(
    before: Seq<EmailView>,
    after: Seq<EmailView>,
    mail: Seq<char>,
    rcpt: Seq<char>,
    data: Seq<char>,
    body: Seq<Seq<char>>,
    end: Seq<char>,
    sender: Seq<char>,
    recipient: Seq<char>,
)
    requires
        is_command(mail, Verb::Mail),
        address_in(command_argument(mail), "FROM:"@) == Some(sender),
        is_command(rcpt, Verb::Rcpt),
        address_in(command_argument(rcpt), "TO:"@) == Some(recipient),
        is_command(data, Verb::Data),
        sender.len() > 0,
        recipient.len() > 0,
        forall|i: int| 0 <= i < body.len() ==> !is_terminator(#[trigger] body[i]),
        is_terminator(end),
        after.len() == before.len() + conversation(
            seq![mail, rcpt, data] + body + seq![end],
        ).envelopes.len(),
        after.take(before.len() as int) == before,
        captured(
            after.skip(before.len() as int),
            conversation(seq![mail, rcpt, data] + body + seq![end]).envelopes,
        ),
    ensures
        after == before.push(after.last()),
        after.last().from == sender,
        after.last().to == seq![recipient],
{
    law_transaction(mail, rcpt, data, body, end, sender, recipient);
    let fresh = after.skip(before.len() as int);
    assert(fresh[0] == after.last());
    assert(after =~= after.take(before.len() as int).push(after.last()));
}

/// A `DATA` that is refused for want of a sender or of a recipient is
/// answered with 503 and delivers nothing.
pub proof fn law_refused_data_delivers_nothing(lines: Seq<Seq<char>>, line: Seq<char>)
    requires
        !conversation(lines).closed,
        !conversation(lines).session.in_data,
        is_command(line, Verb::Data),
        conversation(lines).session.mail_from.len() == 0 || conversation(
            lines,
        ).session.rcpt_to.len() == 0,
    ensures
        conversation(lines.push(line)) == (Conversation {
            replies: conversation(lines).replies.push(Reply::BadSequence),
            ..conversation(lines)
        }),
{
    lemma_conversation_step(lines, line);
}

/// The line `MAIL FROM:<sender>` as a client sends it.
pub open spec fn mail_line(sender: Seq<char>) -> Seq<char> {
    command_line("MAIL"@, "FROM:"@ + (seq!['<'] + sender + seq!['>']))
}

/// The line `RCPT TO:<recipient>` as a client sends it.
pub open spec fn rcpt_line(recipient: Seq<char>) -> Seq<char> {
    command_line("RCPT"@, "TO:"@ + (seq!['<'] + recipient + seq!['>']))
}

/// The line `DATA` as a client sends it.
pub open spec fn data_command_line() -> Seq<char> {
    bare_command_line("DATA"@)
}

/// A whole transaction as a client sends it on a new connection: the lines
/// `MAIL FROM:<sender>`, `RCPT TO:<recipient>` and `DATA`, the lines of the
/// message, none of them a lone dot, and the lone dot. The replies are the
/// greeting, 250, 250, 354 and 250, and exactly one message is delivered,
/// from that sender to that one recipient.
pub proof fn law_transaction_as_sent(
    sender: Seq<char>,
    recipient: Seq<char>,
    body: Seq<Seq<char>>,
    end: Seq<char>,
)
    requires
        sender.len() > 0,
        recipient.len() > 0,
        forall|i: int| 0 <= i < sender.len() ==> !is_angle(#[trigger] sender[i]),
        forall|i: int| 0 <= i < recipient.len() ==> !is_angle(#[trigger] recipient[i]),
        forall|i: int| 0 <= i < body.len() ==> !is_terminator(#[trigger] body[i]),
        is_terminator(end),
    ensures
        conversation(
            seq![mail_line(sender), rcpt_line(recipient), data_command_line()] + body + seq![end],
        ) == (Conversation {
            session: SessionView::initial(),
            closed: false,
            replies: seq![
                Reply::Greeting,
                Reply::Done,
                Reply::Done,
                Reply::StartInput,
                Reply::Accepted,
            ],
            envelopes: seq![
                EnvelopeView { from: sender, to: seq![recipient], data: stored(body) },
            ],
        }),
{
    lemma_verbs_in_capitals();
    let from = "FROM:"@ + (seq!['<'] + sender + seq!['>']);
    let to = "TO:"@ + (seq!['<'] + recipient + seq!['>']);
    assert(!is_whitespace('>'));
    assert(from.last() == '>');
    assert(to.last() == '>');
    lemma_command_line_parts("MAIL"@, from);
    lemma_command_line_parts("RCPT"@, to);
    lemma_bare_command_line_parts("DATA"@);
    law_address_between_brackets("FROM:"@, sender);
    law_address_between_brackets("TO:"@, recipient);
    law_transaction(
        mail_line(sender),
        rcpt_line(recipient),
        data_command_line(),
        body,
        end,
        sender,
        recipient,
    );
}

} // verus!
