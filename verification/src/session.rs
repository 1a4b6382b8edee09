//! The protocol session: one state per connection, driven one line at a time.
//!
//! [`Session::handle_line`] maps the state and a received line to the next
//! state and an [`Action`] for the caller, who owns the connection.

use crate::models::strings_view;
use crate::text::{
    chars_of, is_angle, is_text, is_whitespace, lemma_first_index_is,
    lemma_trim_end_take, lemma_trim_identity,
    lemma_without_angles_bracketed, remove_angles, slice_of, split_once, split_once_chars,
    string_of, strip_ending, strip_line_ending, strip_prefix, strip_prefix_chars, trim,
    trim_chars, view_opt, without_angles,
};
use vstd::prelude::*;
use vstd::string::StringSliceAdditionalSpecFns;

verus! {

/// A reply line of the server.
#[derive(Clone, Copy, Debug, PartialEq, Eq, Structural)]
pub enum Reply {
    /// Sent once, when the connection opens.
    Greeting,
    /// Answer to `HELO` and `EHLO`.
    Hello,
    /// Generic success.
    Done,
    /// A message was taken.
    Accepted,
    /// Message data may follow.
    StartInput,
    /// An unknown command.
    Unrecognized,
    /// A known command with a malformed argument.
    SyntaxError,
    /// A command that the state does not admit.
    BadSequence,
    /// A message could not be taken.
    Failed,
    /// Answer to `QUIT`.
    Closing,
}

impl Reply {
    /// The three-digit code of the reply.
    pub open spec fn code_of(self) -> int {
        match self {
            Reply::Greeting => 220,
            Reply::Hello => 250,
            Reply::Done => 250,
            Reply::Accepted => 250,
            Reply::StartInput => 354,
            Reply::Unrecognized => 500,
            Reply::SyntaxError => 501,
            Reply::BadSequence => 503,
            Reply::Failed => 554,
            Reply::Closing => 221,
        }
    }

    /// The reply as it goes over the wire, line ending included.
    pub open spec fn line_of(self) -> Seq<char> {
        match self {
            Reply::Greeting => "220 MailHits SMTP Server ready\r\n"@,
            Reply::Hello => "250 MailHits\r\n"@,
            Reply::Done => "250 OK\r\n"@,
            Reply::Accepted => "250 OK: Message accepted\r\n"@,
            Reply::StartInput => "354 Start mail input; end with <CRLF>.<CRLF>\r\n"@,
            Reply::Unrecognized => "500 Command not recognized\r\n"@,
            Reply::SyntaxError => "501 Syntax error in parameters\r\n"@,
            Reply::BadSequence => "503 Bad sequence of commands\r\n"@,
            Reply::Failed => "554 Transaction failed\r\n"@,
            Reply::Closing => "221 MailHits closing connection\r\n"@,
        }
    }

    /// The three-digit code of the reply.
    pub fn code(&self) -> (out: u16)
        ensures
            out == self.code_of(),
    {
        match self {
            Reply::Greeting => 220,
            Reply::Hello => 250,
            Reply::Done => 250,
            Reply::Accepted => 250,
            Reply::StartInput => 354,
            Reply::Unrecognized => 500,
            Reply::SyntaxError => 501,
            Reply::BadSequence => 503,
            Reply::Failed => 554,
            Reply::Closing => 221,
        }
    }

    /// The reply as it goes over the wire, line ending included.
    pub fn line(&self) -> (out: &'static str)
        ensures
            out@ == self.line_of(),
    {
        match self {
            Reply::Greeting => "220 MailHits SMTP Server ready\r\n",
            Reply::Hello => "250 MailHits\r\n",
            Reply::Done => "250 OK\r\n",
            Reply::Accepted => "250 OK: Message accepted\r\n",
            Reply::StartInput => "354 Start mail input; end with <CRLF>.<CRLF>\r\n",
            Reply::Unrecognized => "500 Command not recognized\r\n",
            Reply::SyntaxError => "501 Syntax error in parameters\r\n",
            Reply::BadSequence => "503 Bad sequence of commands\r\n",
            Reply::Failed => "554 Transaction failed\r\n",
            Reply::Closing => "221 MailHits closing connection\r\n",
        }
    }
}

/// The commands that the server knows.
#[derive(Clone, Copy, Debug, PartialEq, Eq, Structural)]
pub enum Verb {
    Hello,
    Mail,
    Rcpt,
    Data,
    Rset,
    Noop,
    Quit,
    Unknown,
}

/// The command that an upper-case verb token stands for.
pub open spec fn verb_of(token: Seq<char>) -> Verb {
    if token == "HELO"@ || token == "EHLO"@ {
        Verb::Hello
    } else if token == "MAIL"@ {
        Verb::Mail
    } else if token == "RCPT"@ {
        Verb::Rcpt
    } else if token == "DATA"@ {
        Verb::Data
    } else if token == "RSET"@ {
        Verb::Rset
    } else if token == "NOOP"@ {
        Verb::Noop
    } else if token == "QUIT"@ {
        Verb::Quit
    } else {
        Verb::Unknown
    }
}

/// The command that an upper-case verb token stands for.
pub fn classify(token: &str) -> (out: Verb)
    ensures
        out == verb_of(token@),
{
    let t = chars_of(token);
    if is_text(&t, "HELO") || is_text(&t, "EHLO") {
        Verb::Hello
    } else if is_text(&t, "MAIL") {
        Verb::Mail
    } else if is_text(&t, "RCPT") {
        Verb::Rcpt
    } else if is_text(&t, "DATA") {
        Verb::Data
    } else if is_text(&t, "RSET") {
        Verb::Rset
    } else if is_text(&t, "NOOP") {
        Verb::Noop
    } else if is_text(&t, "QUIT") {
        Verb::Quit
    } else {
        Verb::Unknown
    }
}

/// Names what `str::to_uppercase` returns for a text that is not all ASCII:
/// its upper-case equivalent by the Unicode case mappings.
pub uninterp spec fn uppercase(s: Seq<char>) -> Seq<char>;

/// Whether every character of `s` is ASCII.
pub open spec fn is_ascii_text(s: Seq<char>) -> bool {
    forall|i: int| 0 <= i < s.len() ==> (#[trigger] s[i]) as u32 <= 0x7F
}

/// The upper-case form of an ASCII character: the capital for a small
/// letter, the character itself for any other.
pub open spec fn ascii_upper(c: char) -> char {
    if 'a' <= c <= 'z' {
        ((c as u8 - 32) as u8) as char
    } else {
        c
    }
}

/// The upper-case form of a text. For ASCII text, small letters become
/// capitals and nothing else changes.
pub open spec fn upper_cased(s: Seq<char>) -> Seq<char> {
    if is_ascii_text(s) {
        Seq::new(s.len(), |i: int| ascii_upper(s[i]))
    } else {
        uppercase(s)
    }
}

/// Wraps `str::to_uppercase`. On ASCII text it turns small letters into
/// capitals and changes nothing else.
#[verifier::external_body]
fn to_uppercase(s: &str) -> (out: String)
    ensures
        is_ascii_text(s@) ==> out@ == Seq::new(s@.len(), |i: int| ascii_upper(s@[i])),
        !is_ascii_text(s@) ==> out@ == uppercase(s@),
{
    s.to_uppercase()
}

/// The verb token of a command line: the trimmed line up to its first space.
pub open spec fn command_token(line: Seq<char>) -> Seq<char> {
    split_once(trim(line), ' ').0
}

/// The argument of a command line: what follows the first space of the
/// trimmed line.
pub open spec fn command_argument(line: Seq<char>) -> Option<Seq<char>> {
    split_once(trim(line), ' ').1
}

/// The address in the argument of `MAIL` or `RCPT`: the argument begins with
/// `keyword`; what follows is trimmed and loses its angle brackets.
pub open spec fn address_in(argument: Option<Seq<char>>, keyword: Seq<char>) -> Option<Seq<char>> {
    match argument {
        Some(a) => match strip_prefix(a, keyword) {
            Some(rest) => Some(without_angles(trim(rest))),
            None => None,
        },
        None => None,
    }
}

fn parse_address(argument: &Option<Vec<char>>, keyword: &str) -> (out: Option<String>)
    ensures
        crate::models::option_view(out) == address_in(view_opt(*argument), keyword@),
{
    match argument {
        Some(a) => match strip_prefix_chars(a, keyword) {
            Some(rest) => {
                let bare = remove_angles(&trim_chars(&rest));
                Some(string_of(&bare))
            },
            None => None,
        },
        None => None,
    }
}

/// A data line as it is stored: a line that begins with two dots loses the
/// first.
pub open spec fn unstuffed(line: Seq<char>) -> Seq<char> {
    if line.len() >= 2 && line[0] == '.' && line[1] == '.' {
        line.drop_first()
    } else {
        line
    }
}

/// Whether a data line ends the message: without its line ending it is
/// exactly one dot.
pub open spec fn is_terminator(line: Seq<char>) -> bool {
    strip_line_ending(line) == seq!['.']
}

/// The sender, the recipients and the content of a complete message.
#[derive(Debug)]
pub struct Envelope {
    pub from: String,
    pub to: Vec<String>,
    pub data: Vec<u8>,
}

/// What an [`Envelope`] holds.
pub struct EnvelopeView {
    pub from: Seq<char>,
    pub to: Seq<Seq<char>>,
    pub data: Seq<u8>,
}

impl View for Envelope {
    type V = EnvelopeView;

    open spec fn view(&self) -> EnvelopeView {
        EnvelopeView { from: self.from@, to: strings_view(self.to@), data: self.data@ }
    }
}

/// What the caller does after a line.
#[derive(Debug)]
pub enum Action {
    /// Send the reply.
    Reply(Reply),
    /// Send nothing: the line was message data.
    Collect,
    /// A message is complete. Ingest it, then send
    /// [`Session::delivery_reply`].
    Deliver(Envelope),
    /// Send [`Reply::Closing`] and close the connection.
    Close,
}

/// What an [`Action`] holds.
pub enum ActionView {
    Reply(Reply),
    Collect,
    Deliver(EnvelopeView),
    Close,
}

impl View for Action {
    type V = ActionView;

    open spec fn view(&self) -> ActionView {
        match self {
            Action::Reply(r) => ActionView::Reply(*r),
            Action::Collect => ActionView::Collect,
            Action::Deliver(e) => ActionView::Deliver(e@),
            Action::Close => ActionView::Close,
        }
    }
}

/// The state of one connection.
#[derive(Debug)]
pub struct Session {
    /// Envelope sender; empty while none is set.
    pub mail_from: String,
    /// Envelope recipients, in the order of the `RCPT` commands.
    pub rcpt_to: Vec<String>,
    /// Whether lines are taken as message data.
    pub in_data: bool,
    /// The message data taken so far.
    pub data_buffer: Vec<u8>,
}

/// What a [`Session`] holds.
pub struct SessionView {
    pub mail_from: Seq<char>,
    pub rcpt_to: Seq<Seq<char>>,
    pub in_data: bool,
    pub data: Seq<u8>,
}

impl View for Session {
    type V = SessionView;

    open spec fn view(&self) -> SessionView {
        SessionView {
            mail_from: self.mail_from@,
            rcpt_to: strings_view(self.rcpt_to@),
            in_data: self.in_data,
            data: self.data_buffer@,
        }
    }
}

/// The named states of a session.
#[derive(Clone, Copy, Debug, PartialEq, Eq, Structural)]
pub enum Phase {
    /// Neither sender nor recipient is set.
    Ready,
    /// A sender is set, no recipient.
    MailSet,
    /// At least one recipient is set.
    RcptSet,
    /// Message data is being taken.
    Data,
}

impl SessionView {
    /// The state of a new connection, and of one that was reset.
    pub open spec fn initial() -> SessionView {
        SessionView { mail_from: Seq::empty(), rcpt_to: Seq::empty(), in_data: false, data: Seq::empty() }
    }

    /// The named state that the fields stand for.
    pub open spec fn phase(self) -> Phase {
        if self.in_data {
            Phase::Data
        } else if self.rcpt_to.len() > 0 {
            Phase::RcptSet
        } else if self.mail_from.len() > 0 {
            Phase::MailSet
        } else {
            Phase::Ready
        }
    }

    /// Whether `DATA` is admitted: a sender and a recipient are set.
    pub open spec fn ready_for_data(self) -> bool {
        self.mail_from.len() > 0 && self.rcpt_to.len() > 0
    }

    /// The state and the action after a command, given its upper-case verb
    /// token and its argument.
    pub open spec fn after_command(self, token: Seq<char>, argument: Option<Seq<char>>) -> (
        SessionView,
        ActionView,
    ) {
        match verb_of(token) {
            Verb::Hello => (self, ActionView::Reply(Reply::Hello)),
            Verb::Mail => match address_in(argument, "FROM:"@) {
                Some(a) => (SessionView { mail_from: a, ..self }, ActionView::Reply(Reply::Done)),
                None => (self, ActionView::Reply(Reply::SyntaxError)),
            },
            Verb::Rcpt => match address_in(argument, "TO:"@) {
                Some(a) => (
                    SessionView { rcpt_to: self.rcpt_to.push(a), ..self },
                    ActionView::Reply(Reply::Done),
                ),
                None => (self, ActionView::Reply(Reply::SyntaxError)),
            },
            Verb::Data => if self.ready_for_data() {
                (
                    SessionView { in_data: true, data: Seq::empty(), ..self },
                    ActionView::Reply(Reply::StartInput),
                )
            } else {
                (self, ActionView::Reply(Reply::BadSequence))
            },
            Verb::Rset => (SessionView::initial(), ActionView::Reply(Reply::Done)),
            Verb::Noop => (self, ActionView::Reply(Reply::Done)),
            Verb::Quit => (self, ActionView::Close),
            Verb::Unknown => (self, ActionView::Reply(Reply::Unrecognized)),
        }
    }

    /// The state and the action after a line of message data.
    pub open spec fn after_data_line(self, line: Seq<char>) -> (SessionView, ActionView) {
        if is_terminator(line) {
            (
                SessionView::initial(),
                ActionView::Deliver(
                    EnvelopeView { from: self.mail_from, to: self.rcpt_to, data: self.data },
                ),
            )
        } else {
            (
                SessionView { data: self.data + vstd::utf8::encode_utf8(unstuffed(line)), ..self },
                ActionView::Collect,
            )
        }
    }

    /// The state and the action after a received line.
    pub open spec fn after_line(self, line: Seq<char>) -> (SessionView, ActionView) {
        if self.in_data {
            self.after_data_line(line)
        } else {
            self.after_command(upper_cased(command_token(line)), command_argument(line))
        }
    }
}

/// Appends `tail` to `out`.
pub fn push_bytes(out: &mut Vec<u8>, tail: &[u8])
    ensures
        final(out)@ == old(out)@ + tail@,
{
    let mut i: usize = 0;
    while i < tail.len()
        invariant
            i <= tail@.len(),
            out@ == old(out)@ + tail@.take(i as int),
        decreases tail@.len() - i,
    {
        out.push(tail[i]);
        i += 1;
        assert(out@ =~= old(out)@ + tail@.take(i as int));
    }
    assert(tail@.take(i as int) =~= tail@);
}

impl Session {
    /// The state of a new connection.
    pub fn new() -> (out: Session)
        ensures
            out@ == SessionView::initial(),
    {
        let out = Session {
            mail_from: String::new(),
            rcpt_to: Vec::new(),
            in_data: false,
            data_buffer: Vec::new(),
        };
        assert(strings_view(out.rcpt_to@) =~= Seq::empty());
        out
    }

    /// The named state of the session.
    pub fn phase(&self) -> (out: Phase)
        ensures
            out == self@.phase(),
    {
        if self.in_data {
            Phase::Data
        } else if self.rcpt_to.len() > 0 {
            Phase::RcptSet
        } else if !self.mail_from.as_str().is_empty() {
            Phase::MailSet
        } else {
            Phase::Ready
        }
    }

    /// The reply that opens a connection.
    pub fn greeting() -> (out: Reply)
        ensures
            out == Reply::Greeting,
    {
        Reply::Greeting
    }

    /// The reply that follows [`Action::Deliver`]: whether the message was
    /// taken.
    pub fn delivery_reply(stored: bool) -> (out: Reply)
        ensures
            out == if stored {
                Reply::Accepted
            } else {
                Reply::Failed
            },
    {
        if stored {
            Reply::Accepted
        } else {
            Reply::Failed
        }
    }

    /// Back to the state of a new connection.
    fn reset(&mut self)
        ensures
            final(self)@ == SessionView::initial(),
    {
        self.mail_from = String::new();
        self.rcpt_to = Vec::new();
        self.in_data = false;
        self.data_buffer = Vec::new();
        assert(strings_view(self.rcpt_to@) =~= Seq::empty());
    }

    /// Takes a command, given its upper-case verb token and its argument.
    pub fn command(&mut self, token: &str, argument: Option<&str>) -> (out: Action)
        ensures
            (final(self)@, out@) == old(self)@.after_command(
                token@,
                match argument {
                    Some(a) => Some(a@),
                    None => None,
                },
            ),
    {
        let arg: Option<Vec<char>> = match argument {
            Some(a) => Some(chars_of(a)),
            None => None,
        };
        match classify(token) {
            Verb::Hello => Action::Reply(Reply::Hello),
            Verb::Mail => match parse_address(&arg, "FROM:") {
                Some(a) => {
                    self.mail_from = a;
                    Action::Reply(Reply::Done)
                },
                None => Action::Reply(Reply::SyntaxError),
            },
            Verb::Rcpt => match parse_address(&arg, "TO:") {
                Some(a) => {
                    let ghost before = strings_view(self.rcpt_to@);
                    self.rcpt_to.push(a);
                    assert(strings_view(self.rcpt_to@) =~= before.push(a@));
                    Action::Reply(Reply::Done)
                },
                None => Action::Reply(Reply::SyntaxError),
            },
            Verb::Data => {
                let has_sender = !self.mail_from.as_str().is_empty();
                if has_sender && self.rcpt_to.len() > 0 {
                    self.in_data = true;
                    self.data_buffer = Vec::new();
                    Action::Reply(Reply::StartInput)
                } else {
                    Action::Reply(Reply::BadSequence)
                }
            },
            Verb::Rset => {
                self.reset();
                Action::Reply(Reply::Done)
            },
            Verb::Noop => Action::Reply(Reply::Done),
            Verb::Quit => Action::Close,
            Verb::Unknown => Action::Reply(Reply::Unrecognized),
        }
    }

    /// Takes a line of message data.
    pub fn data_line(&mut self, line: &str) -> (out: Action)
        ensures
            (final(self)@, out@) == old(self)@.after_data_line(line@),
    {
        let chars = chars_of(line);
        let bare = strip_ending(&chars);
        if bare.len() == 1 && bare[0] == '.' {
            assert(bare@ =~= seq!['.']);
            let mut from = String::new();
            let mut to: Vec<String> = Vec::new();
            let mut data: Vec<u8> = Vec::new();
            core::mem::swap(&mut self.mail_from, &mut from);
            core::mem::swap(&mut self.rcpt_to, &mut to);
            core::mem::swap(&mut self.data_buffer, &mut data);
            self.in_data = false;
            assert(strings_view(self.rcpt_to@) =~= Seq::empty());
            Action::Deliver(Envelope { from, to, data })
        } else {
            if chars.len() >= 2 && chars[0] == '.' && chars[1] == '.' {
                let rest = slice_of(&chars, 1, chars.len());
                assert(rest@ =~= line@.drop_first());
                let stored = string_of(&rest);
                push_bytes(&mut self.data_buffer, stored.as_str().as_bytes());
            } else {
                push_bytes(&mut self.data_buffer, line.as_bytes());
            }
            Action::Collect
        }
    }

    /// Takes a received line, line ending included.
    pub fn handle_line(&mut self, line: &str) -> (out: Action)
        ensures
            (final(self)@, out@) == old(self)@.after_line(line@),
    {
        if self.in_data {
            self.data_line(line)
        } else {
            let chars = chars_of(line);
            let trimmed = trim_chars(&chars);
            let (token, argument) = split_once_chars(&trimmed, ' ');
            let upper = to_uppercase(string_of(&token).as_str());
            match argument {
                Some(a) => {
                    let text = string_of(&a);
                    self.command(upper.as_str(), Some(text.as_str()))
                },
                None => self.command(upper.as_str(), None),
            }
        }
    }
}

/// What a run of data lines adds to the message: each line as it is stored,
/// first to last.
pub open spec fn stored(lines: Seq<Seq<char>>) -> Seq<u8>
    decreases lines.len(),
{
    if lines.len() == 0 {
        Seq::empty()
    } else {
        stored(lines.drop_last()) + vstd::utf8::encode_utf8(unstuffed(lines.last()))
    }
}

/// Whether a line is the command `verb`, whatever follows the verb.
pub open spec fn is_command(line: Seq<char>, verb: Verb) -> bool {
    verb_of(upper_cased(command_token(line))) == verb
}

/// A line that begins with two dots does not end the message.
pub proof fn lemma_stuffed_is_no_terminator(line: Seq<char>)
    requires
        line.len() >= 2,
        line[0] == '.',
        line[1] == '.',
    ensures
        !is_terminator(line),
{
    let bare = strip_line_ending(line);
    if line.last() == '\n' {
        let body = line.drop_last();
        assert(body.len() >= 2);
        assert(body[1] == '.');
        if body.last() == '\r' {
            assert(body.len() >= 3);
        }
    }
    assert(bare.len() >= 2);
}

/// A data line that begins with two dots is stored without the first of
/// them, and the session goes on taking data.
pub proof fn law_dot_unstuffing(s: SessionView, line: Seq<char>)
    requires
        s.in_data,
        line.len() >= 2,
        line[0] == '.',
        line[1] == '.',
    ensures
        s.after_line(line) == (
            SessionView { data: s.data + vstd::utf8::encode_utf8(line.drop_first()), ..s },
            ActionView::Collect,
        ),
{
    lemma_stuffed_is_no_terminator(line);
}

/// A data line that is exactly one dot, line ending apart, ends the message.
/// The message is what was taken before the line: the line adds nothing to
/// it. The session is as new afterwards.
pub proof fn law_lone_dot_terminates(s: SessionView, line: Seq<char>)
    requires
        s.in_data,
        is_terminator(line),
    ensures
        s.after_line(line) == (
            SessionView::initial(),
            ActionView::Deliver(EnvelopeView { from: s.mail_from, to: s.rcpt_to, data: s.data }),
        ),
{
}

/// `DATA` without a sender or without a recipient is refused as out of
/// sequence. The session does not change, and no message is delivered.
pub proof fn law_data_needs_envelope(s: SessionView, line: Seq<char>)
    requires
        !s.in_data,
        is_command(line, Verb::Data),
        s.mail_from.len() == 0 || s.rcpt_to.len() == 0,
    ensures
        s.after_line(line) == (s, ActionView::Reply(Reply::BadSequence)),
        Reply::BadSequence.code_of() == 503,
{
}

/// `MAIL` with an argument that does not begin with `FROM:`, or with no
/// argument, is refused as a syntax error. The session does not change.
pub proof fn law_mail_syntax(s: SessionView, line: Seq<char>)
    requires
        !s.in_data,
        is_command(line, Verb::Mail),
        match command_argument(line) {
            Some(argument) => !"FROM:"@.is_prefix_of(argument),
            None => true,
        },
    ensures
        s.after_line(line) == (s, ActionView::Reply(Reply::SyntaxError)),
        Reply::SyntaxError.code_of() == 501,
{
}

/// `RCPT` with an argument that does not begin with `TO:`, or with no
/// argument, is refused as a syntax error. The session does not change.
pub proof fn law_rcpt_syntax(s: SessionView, line: Seq<char>)
    requires
        !s.in_data,
        is_command(line, Verb::Rcpt),
        match command_argument(line) {
            Some(argument) => !"TO:"@.is_prefix_of(argument),
            None => true,
        },
    ensures
        s.after_line(line) == (s, ActionView::Reply(Reply::SyntaxError)),
{
}

/// `RSET`, in any state but that of taking data, makes the session as new
/// and is answered with 250. A `DATA` that follows is refused: it needs a
/// new sender and a new recipient.
pub proof fn law_reset(s: SessionView, reset: Seq<char>, data: Seq<char>)
    requires
        !s.in_data,
        is_command(reset, Verb::Rset),
        is_command(data, Verb::Data),
    ensures
        s.after_line(reset) == (SessionView::initial(), ActionView::Reply(Reply::Done)),
        Reply::Done.code_of() == 250,
        s.after_line(reset).0.after_line(data) == (
            SessionView::initial(),
            ActionView::Reply(Reply::BadSequence),
        ),
{
}

/// `MAIL` sets the sender and leaves the recipients as they are.
pub proof fn law_mail_keeps_recipients(s: SessionView, line: Seq<char>)
    requires
        !s.in_data,
        is_command(line, Verb::Mail),
    ensures
        s.after_line(line).0.rcpt_to == s.rcpt_to,
{
}

/// The address of an argument that holds, after the keyword, a text without
/// angle brackets between angle brackets, is that text.
pub proof fn law_address_between_brackets(keyword: Seq<char>, address: Seq<char>)
    requires
        forall|i: int| 0 <= i < address.len() ==> !is_angle(#[trigger] address[i]),
    ensures
        address_in(Some(keyword + (seq!['<'] + address + seq!['>'])), keyword) == Some(address),
{
    let bracketed = seq!['<'] + address + seq!['>'];
    let argument = keyword + bracketed;
    assert(argument.subrange(0, keyword.len() as int) =~= keyword);
    assert(argument.skip(keyword.len() as int) =~= bracketed);
    assert(!is_whitespace('<') && !is_whitespace('>'));
    assert(bracketed.first() == '<');
    assert(bracketed.last() == '>');
    lemma_trim_identity(bracketed);
    lemma_without_angles_bracketed(address);
}

/// A command line as a client sends it: the verb, a space, the argument, and
/// the line ending.
pub open spec fn command_line(verb: Seq<char>, argument: Seq<char>) -> Seq<char> {
    verb + seq![' '] + argument + seq!['\r', '\n']
}

/// A command line without an argument as a client sends it: the verb and the
/// line ending.
pub open spec fn bare_command_line(verb: Seq<char>) -> Seq<char> {
    verb + seq!['\r', '\n']
}

/// Whether a text can stand as a verb: it is not empty and holds no
/// whitespace.
pub open spec fn is_token(verb: Seq<char>) -> bool {
    verb.len() > 0 && forall|i: int| 0 <= i < verb.len() ==> !is_whitespace(#[trigger] verb[i])
}

/// The verb token of a command line is its verb, and its argument is its
/// argument, where the argument does not end with whitespace.
pub proof fn lemma_command_line_parts(verb: Seq<char>, argument: Seq<char>)
    requires
        is_token(verb),
        argument.len() > 0,
        !is_whitespace(argument.last()),
    ensures
        command_token(command_line(verb, argument)) == verb,
        command_argument(command_line(verb, argument)) == Some(argument),
{
    let line = command_line(verb, argument);
    let kept = verb + seq![' '] + argument;
    assert(is_whitespace('\r') && is_whitespace('\n') && is_whitespace(' '));
    assert(!is_whitespace(verb[0]));
    assert(line.first() == verb[0]);
    assert(crate::text::trim_start(line) == line);
    assert(line.take(kept.len() as int) =~= kept);
    assert forall|j: int| kept.len() <= j < line.len() implies is_whitespace(#[trigger] line[j]) by {
        assert(line[j] == seq!['\r', '\n'][j - kept.len()]);
    }
    lemma_trim_end_take(line, kept.len() as int);
    assert(kept.last() == argument.last());
    assert(crate::text::trim_end(kept) == kept);
    assert(trim(line) == kept);
    assert forall|j: int| 0 <= j < verb.len() implies kept[j] != ' ' by {
        assert(kept[j] == verb[j]);
    }
    assert(kept[verb.len() as int] == ' ');
    lemma_first_index_is(kept, ' ', verb.len() as int);
    assert(kept.take(verb.len() as int) =~= verb);
    assert(kept.skip(verb.len() as int + 1) =~= argument);
}

/// The verb token of a command line without an argument is its verb, and it
/// has no argument.
pub proof fn lemma_bare_command_line_parts(verb: Seq<char>)
    requires
        is_token(verb),
    ensures
        command_token(bare_command_line(verb)) == verb,
        command_argument(bare_command_line(verb)) == None::<Seq<char>>,
{
    let line = bare_command_line(verb);
    assert(is_whitespace('\r') && is_whitespace('\n') && is_whitespace(' '));
    assert(!is_whitespace(verb[0]));
    assert(line.first() == verb[0]);
    assert(crate::text::trim_start(line) == line);
    assert(line.take(verb.len() as int) =~= verb);
    assert forall|j: int| verb.len() <= j < line.len() implies is_whitespace(#[trigger] line[j]) by {
        assert(line[j] == seq!['\r', '\n'][j - verb.len()]);
    }
    lemma_trim_end_take(line, verb.len() as int);
    assert(!is_whitespace(verb[verb.len() - 1]));
    assert(crate::text::trim_end(verb) == verb);
    assert(trim(line) == verb);
    assert forall|j: int| 0 <= j < verb.len() implies verb[j] != ' ' by {
        assert(!is_whitespace(verb[j]));
    }
    lemma_first_index_is(verb, ' ', verb.len() as int);
}

/// Upper-casing leaves the verbs in capitals as they are, and each is the
/// command of its name.
pub proof fn lemma_verbs_in_capitals()
    ensures
        is_token("HELO"@) && verb_of(upper_cased("HELO"@)) == Verb::Hello,
        is_token("EHLO"@) && verb_of(upper_cased("EHLO"@)) == Verb::Hello,
        is_token("MAIL"@) && verb_of(upper_cased("MAIL"@)) == Verb::Mail,
        is_token("RCPT"@) && verb_of(upper_cased("RCPT"@)) == Verb::Rcpt,
        is_token("DATA"@) && verb_of(upper_cased("DATA"@)) == Verb::Data,
        is_token("RSET"@) && verb_of(upper_cased("RSET"@)) == Verb::Rset,
        is_token("NOOP"@) && verb_of(upper_cased("NOOP"@)) == Verb::Noop,
        is_token("QUIT"@) && verb_of(upper_cased("QUIT"@)) == Verb::Quit,
{
    reveal_strlit("HELO");
    reveal_strlit("EHLO");
    reveal_strlit("MAIL");
    reveal_strlit("RCPT");
    reveal_strlit("DATA");
    reveal_strlit("RSET");
    reveal_strlit("NOOP");
    reveal_strlit("QUIT");
    assert("HELO"@ =~= seq!['H', 'E', 'L', 'O']);
    assert("EHLO"@ =~= seq!['E', 'H', 'L', 'O']);
    assert("MAIL"@ =~= seq!['M', 'A', 'I', 'L']);
    assert("RCPT"@ =~= seq!['R', 'C', 'P', 'T']);
    assert("DATA"@ =~= seq!['D', 'A', 'T', 'A']);
    assert("RSET"@ =~= seq!['R', 'S', 'E', 'T']);
    assert("NOOP"@ =~= seq!['N', 'O', 'O', 'P']);
    assert("QUIT"@ =~= seq!['Q', 'U', 'I', 'T']);
    assert(upper_cased("HELO"@) =~= "HELO"@);
    assert(upper_cased("EHLO"@) =~= "EHLO"@);
    assert(upper_cased("MAIL"@) =~= "MAIL"@);
    assert(upper_cased("RCPT"@) =~= "RCPT"@);
    assert(upper_cased("DATA"@) =~= "DATA"@);
    assert(upper_cased("RSET"@) =~= "RSET"@);
    assert(upper_cased("NOOP"@) =~= "NOOP"@);
    assert(upper_cased("QUIT"@) =~= "QUIT"@);
    assert("HELO"@[0] == 'H' && "EHLO"@[0] == 'E' && "MAIL"@[0] == 'M' && "RCPT"@[0] == 'R'
        && "DATA"@[0] == 'D' && "RSET"@[0] == 'R' && "NOOP"@[0] == 'N' && "QUIT"@[0] == 'Q');
    assert("RCPT"@[1] == 'C' && "RSET"@[1] == 'S');
}

/// Case does not count in a verb: two ASCII tokens that differ only in the
/// case of their letters are the same command.
pub proof fn law_verbs_ignore_case(one: Seq<char>, other: Seq<char>)
    requires
        is_ascii_text(one),
        is_ascii_text(other),
        one.len() == other.len(),
        forall|i: int| 0 <= i < one.len() ==> ascii_upper(#[trigger] one[i]) == ascii_upper(other[i]),
    ensures
        upper_cased(one) == upper_cased(other),
        verb_of(upper_cased(one)) == verb_of(upper_cased(other)),
{
    assert(upper_cased(one) =~= upper_cased(other));
}

} // verus!
