//! The session state machine: greeting, sender, recipient, body-begin, body.
//! It decides; the caller reads lines, writes replies and hands over the
//! body bytes.

use vstd::prelude::*;
use vstd::utf8::{decode_utf8, valid_utf8};
use crate::body::{is_body_line, join_lines, read_body, body_spec, wire_body, lemma_stuffed_round_trip};
use crate::command::{
    Command, CommandView, parse_command, parse_spec, greet_prefix, sender_prefix,
    recipient_prefix, begin_body_keyword,
};
use crate::text::{
    trim_spec, trim_end_spec, trim_text, text_from_utf8, has_visible_char, lemma_trim_of_framed,
    lemma_trim_end_concat, lemma_trim_end_idempotent,
};

verus! {

/// Where a session stands.
#[derive(Debug, Clone, Copy, PartialEq, Eq, Structural)]
pub enum Stage {
    AwaitGreeting,
    AwaitSender,
    AwaitRecipient,
    AwaitBodyBegin,
    ReadingBody,
    Complete,
    Failed,
}

/// A reply line sent to the client.
#[derive(Debug, Clone, Copy, PartialEq, Eq, Structural)]
pub enum Reply {
    /// The greeting was accepted.
    Greeted,
    /// A sender or recipient was accepted.
    Accepted,
    /// The client may send the body.
    StartBody,
    /// The line is no command.
    Unrecognized,
    /// A command came before the greeting.
    GreetFirst,
    /// A command came out of order.
    OutOfSequence,
}

/// Why a session failed.
#[derive(Debug, Clone, Copy, PartialEq, Eq, Structural)]
pub enum SessionError {
    /// A line matched no command.
    ParseMismatch,
    /// A command came out of order.
    SequenceViolation,
    /// The stream ended before the body's terminator line.
    IncompleteBody,
    /// The body is not valid UTF-8.
    InvalidBodyText,
    /// Reading a line or writing a reply failed.
    TransportFailure,
}

/// What one command line does: the session goes on with a reply, or fails
/// after one.
#[derive(Debug, Clone, Copy, PartialEq, Eq, Structural)]
pub enum Step {
    Advance(Reply),
    Fail(Reply, SessionError),
}

/// The line sent to a client when it connects.
pub open spec fn greeting_spec() -> Seq<char> {
    "220 localhost SMTP\r\n"@
}

/// The wire text of each reply, line ending included.
pub open spec fn reply_line_spec(r: Reply) -> Seq<char> {
    match r {
        Reply::Greeted => "250 localhost at your service \r\n"@,
        Reply::Accepted => "250 Ok.\r\n"@,
        Reply::StartBody => "354 Go ahead\r\n"@,
        Reply::Unrecognized => "502 Unrecognized command.\r\n"@,
        Reply::GreetFirst => "503 Command out of order. Must do HELO/EHLO first.\r\n"@,
        Reply::OutOfSequence => "503 Command out of order.\r\n"@,
    }
}

impl Reply {
    /// The reply as it goes on the wire, line ending included.
    pub fn line(&self) -> (r: &'static str)
        ensures
            r@ == reply_line_spec(*self),
    {
        match self {
            Reply::Greeted => "250 localhost at your service \r\n",
            Reply::Accepted => "250 Ok.\r\n",
            Reply::StartBody => "354 Go ahead\r\n",
            Reply::Unrecognized => "502 Unrecognized command.\r\n",
            Reply::GreetFirst => "503 Command out of order. Must do HELO/EHLO first.\r\n",
            Reply::OutOfSequence => "503 Command out of order.\r\n",
        }
    }

    /// The two replies that say a command came out of order.
    pub open spec fn is_out_of_sequence(self) -> bool {
        self == Reply::GreetFirst || self == Reply::OutOfSequence
    }
}

/// A submitted message.
#[derive(Debug)]
pub struct Message {
    pub identity: String,
    pub sender: String,
    pub recipient: String,
    pub body: String,
}

/// What a `Message` holds, as character sequences.
pub struct MessageView {
    pub identity: Seq<char>,
    pub sender: Seq<char>,
    pub recipient: Seq<char>,
    pub body: Seq<char>,
}

impl View for Message {
    type V = MessageView;

    open spec fn view(&self) -> MessageView {
        MessageView {
            identity: self.identity@,
            sender: self.sender@,
            recipient: self.recipient@,
            body: self.body@,
        }
    }
}

/// One connection's session: the commands accepted so far.
#[derive(Debug)]
pub struct Session {
    stage: Stage,
    identity: String,
    sender: String,
    recipient: String,
}

/// What a `Session` holds: its stage and the payloads accepted so far.
pub struct SessionView {
    pub stage: Stage,
    pub identity: Seq<char>,
    pub sender: Seq<char>,
    pub recipient: Seq<char>,
}

impl View for Session {
    type V = SessionView;

    closed spec fn view(&self) -> SessionView {
        SessionView {
            stage: self.stage,
            identity: self.identity@,
            sender: self.sender@,
            recipient: self.recipient@,
        }
    }
}

/// A session that has accepted nothing yet.
pub open spec fn initial_session() -> SessionView {
    SessionView {
        stage: Stage::AwaitGreeting,
        identity: Seq::empty(),
        sender: Seq::empty(),
        recipient: Seq::empty(),
    }
}

/// The stages in which the session reads a command line.
pub open spec fn awaits_command(stage: Stage) -> bool {
    stage == Stage::AwaitGreeting || stage == Stage::AwaitSender || stage
        == Stage::AwaitRecipient || stage == Stage::AwaitBodyBegin
}

/// `cmd` is the command that `stage` waits for.
pub open spec fn expects(stage: Stage, cmd: CommandView) -> bool {
    match cmd {
        CommandView::Greet(_) => stage == Stage::AwaitGreeting,
        CommandView::DeclareSender(_) => stage == Stage::AwaitSender,
        CommandView::DeclareRecipient(_) => stage == Stage::AwaitRecipient,
        CommandView::BeginBody => stage == Stage::AwaitBodyBegin,
        CommandView::Unrecognized => false,
    }
}

/// `s` moved to `stage`, with what it holds kept.
pub open spec fn with_stage(s: SessionView, stage: Stage) -> SessionView {
    SessionView { stage, identity: s.identity, sender: s.sender, recipient: s.recipient }
}

/// `s` after it accepted `cmd`, which it expected.
pub open spec fn accept(s: SessionView, cmd: CommandView) -> SessionView {
    match cmd {
        CommandView::Greet(id) => SessionView {
            stage: Stage::AwaitSender,
            identity: id,
            sender: s.sender,
            recipient: s.recipient,
        },
        CommandView::DeclareSender(m) => SessionView {
            stage: Stage::AwaitRecipient,
            identity: s.identity,
            sender: m,
            recipient: s.recipient,
        },
        CommandView::DeclareRecipient(m) => SessionView {
            stage: Stage::AwaitBodyBegin,
            identity: s.identity,
            sender: s.sender,
            recipient: m,
        },
        _ => with_stage(s, Stage::ReadingBody),
    }
}

/// The acknowledgment of an accepted command.
pub open spec fn ack(cmd: CommandView) -> Reply {
    match cmd {
        CommandView::Greet(_) => Reply::Greeted,
        CommandView::BeginBody => Reply::StartBody,
        _ => Reply::Accepted,
    }
}

/// The next session and the step that one command line gives: the line is
/// trimmed, then classified.
pub open spec fn step_spec(s: SessionView, line: Seq<char>) -> (SessionView, Step) {
    let cmd = parse_spec(trim_spec(line));
    if cmd is Unrecognized {
        (with_stage(s, Stage::Failed), Step::Fail(Reply::Unrecognized, SessionError::ParseMismatch))
    } else if !expects(s.stage, cmd) {
        (
            with_stage(s, Stage::Failed),
            Step::Fail(
                if s.stage == Stage::AwaitGreeting {
                    Reply::GreetFirst
                } else {
                    Reply::OutOfSequence
                },
                SessionError::SequenceViolation,
            ),
        )
    } else {
        (accept(s, cmd), Step::Advance(ack(cmd)))
    }
}

/// The message that a session reading the body makes of the bytes `stream`,
/// or why it makes none.
pub open spec fn finish_spec(s: SessionView, stream: Seq<u8>) -> Result<MessageView, SessionError> {
    match body_spec(stream) {
        None => Err(SessionError::IncompleteBody),
        Some(b) => if valid_utf8(b) {
            Ok(
                MessageView {
                    identity: s.identity,
                    sender: s.sender,
                    recipient: s.recipient,
                    body: decode_utf8(b),
                },
            )
        } else {
            Err(SessionError::InvalidBodyText)
        },
    }
}

/// The stage that follows `stage` when it accepts its command.
pub open spec fn next_stage(stage: Stage) -> Stage {
    match stage {
        Stage::AwaitGreeting => Stage::AwaitSender,
        Stage::AwaitSender => Stage::AwaitRecipient,
        Stage::AwaitRecipient => Stage::AwaitBodyBegin,
        Stage::AwaitBodyBegin => Stage::ReadingBody,
        _ => Stage::Failed,
    }
}

/// A command line moves the session one stage along the fixed order, or
/// ends it; so a session reads a body only after it accepted a greeting, a
/// sender, a recipient and a body-begin, in that order.
pub proof fn lemma_stages_in_order(s: SessionView, line: Seq<char>)
    requires
        awaits_command(s.stage),
    ensures
        step_spec(s, line).0.stage == next_stage(s.stage) || step_spec(s, line).0.stage
            == Stage::Failed,
        step_spec(s, line).1 is Advance <==> step_spec(s, line).0.stage == next_stage(s.stage),
{
}

/// The greeting line for identity `id`.
pub open spec fn greet_line(id: Seq<char>) -> Seq<char> {
    greet_prefix() + id
}

/// The sender line for mailbox `m`.
pub open spec fn sender_line(m: Seq<char>) -> Seq<char> {
    sender_prefix() + m + seq!['>']
}

/// The recipient line for mailbox `m`.
pub open spec fn recipient_line(m: Seq<char>) -> Seq<char> {
    recipient_prefix() + m + seq!['>']
}

/// In any stage that reads a command, a line that is no command gets the
/// "unrecognized" reply and ends the session with a parse mismatch, so no
/// message comes of it.
pub proof fn lemma_unrecognized_line_fails(s: SessionView, line: Seq<char>)
    requires
        awaits_command(s.stage),
        parse_spec(trim_spec(line)) is Unrecognized,
    ensures
        step_spec(s, line).1 == Step::Fail(Reply::Unrecognized, SessionError::ParseMismatch),
        step_spec(s, line).0.stage == Stage::Failed,
{
}

/// In any stage that reads a command, a command other than the one the stage
/// waits for gets an "out of sequence" reply and ends the session with a
/// sequence violation, so no message comes of it.
pub proof fn lemma_out_of_order_command_fails(s: SessionView, line: Seq<char>)
    requires
        awaits_command(s.stage),
        !(parse_spec(trim_spec(line)) is Unrecognized),
        !expects(s.stage, parse_spec(trim_spec(line))),
    ensures
        step_spec(s, line).1 matches Step::Fail(r, e) && r.is_out_of_sequence() && e
            == SessionError::SequenceViolation,
        step_spec(s, line).0.stage == Stage::Failed,
{
}

/// Greeting, sender, recipient and body-begin lines sent in order, then a
/// body stuffed and framed for the wire, give the message that holds the
/// identity trimmed, both mailboxes as sent, and the body lines joined.
pub proof fn lemma_in_order_session_delivers(
    id: Seq<char>,
    from: Seq<char>,
    to: Seq<char>,
    lines: Seq<Seq<u8>>,
)
    requires
        has_visible_char(id),
        forall|i: int| 0 <= i < lines.len() ==> is_body_line(#[trigger] lines[i]),
        valid_utf8(join_lines(lines)),
    ensures
        ({
            let s1 = step_spec(initial_session(), greet_line(id));
            let s2 = step_spec(s1.0, sender_line(from));
            let s3 = step_spec(s2.0, recipient_line(to));
            let s4 = step_spec(s3.0, begin_body_keyword());
            &&& s1.1 == Step::Advance(Reply::Greeted)
            &&& s2.1 == Step::Advance(Reply::Accepted)
            &&& s3.1 == Step::Advance(Reply::Accepted)
            &&& s4.1 == Step::Advance(Reply::StartBody)
            &&& s4.0.stage == Stage::ReadingBody
            &&& finish_spec(s4.0, wire_body(lines)) == Ok::<MessageView, SessionError>(
                MessageView {
                    identity: trim_spec(id),
                    sender: from,
                    recipient: to,
                    body: decode_utf8(join_lines(lines)),
                },
            )
        }),
{
    // The greeting line.
    let g = greet_line(id);
    lemma_trim_end_concat(greet_prefix(), id);
    let tg = greet_prefix() + trim_end_spec(id);
    assert(trim_spec(g) == tg);
    assert(tg.subrange(0, 5) =~= greet_prefix());
    assert(tg.skip(5) =~= trim_end_spec(id));
    lemma_trim_end_idempotent(id);
    assert(parse_spec(trim_spec(g)) == CommandView::Greet(trim_spec(id)));

    // The sender line.
    let f = sender_line(from);
    lemma_trim_of_framed(f);
    assert(f.subrange(0, 5)[0] != greet_prefix()[0]);
    assert(f.subrange(0, 11) =~= sender_prefix());
    assert(f.subrange(11, f.len() - 1) =~= from);
    assert(parse_spec(trim_spec(f)) == CommandView::DeclareSender(from));

    // The recipient line.
    let t = recipient_line(to);
    lemma_trim_of_framed(t);
    assert(t.subrange(0, 5)[0] != greet_prefix()[0]);
    if t.len() >= 11 {
        assert(t.subrange(0, 11)[0] != sender_prefix()[0]);
    }
    assert(t.subrange(0, 9) =~= recipient_prefix());
    assert(t.subrange(9, t.len() - 1) =~= to);
    assert(parse_spec(trim_spec(t)) == CommandView::DeclareRecipient(to));

    // The body-begin line.
    let d = begin_body_keyword();
    lemma_trim_of_framed(d);
    assert(parse_spec(trim_spec(d)) == CommandView::BeginBody);

    lemma_stuffed_round_trip(lines);
}

impl Session {
    pub fn new() -> (r: Session)
        ensures
            r@ == initial_session(),
    {
        Session {
            stage: Stage::AwaitGreeting,
            identity: String::new(),
            sender: String::new(),
            recipient: String::new(),
        }
    }

    /// The line to send when a client connects.
    pub fn greeting() -> (r: &'static str)
        ensures
            r@ == greeting_spec(),
    {
        "220 localhost SMTP\r\n"
    }

    pub fn stage(&self) -> (r: Stage)
        ensures
            r == self@.stage,
    {
        self.stage
    }

    /// Takes one command line, stripped of its line ending, in one of the
    /// stages that read commands.
    pub fn handle_line(&mut self, line: &str) -> (r: Step)
        requires
            awaits_command(old(self)@.stage),
        ensures
            (final(self)@, r) == step_spec(old(self)@, line@),
    {
        let trimmed = trim_text(line);
        let cmd = parse_command(trimmed.as_str());
        let ghost c = cmd@;
        let stage = self.stage;
        match cmd {
            Command::Greet(id) => {
                if stage == Stage::AwaitGreeting {
                    self.identity = id;
                    self.stage = Stage::AwaitSender;
                    return Step::Advance(Reply::Greeted);
                }
            },
            Command::DeclareSender(m) => {
                if stage == Stage::AwaitSender {
                    self.sender = m;
                    self.stage = Stage::AwaitRecipient;
                    return Step::Advance(Reply::Accepted);
                }
            },
            Command::DeclareRecipient(m) => {
                if stage == Stage::AwaitRecipient {
                    self.recipient = m;
                    self.stage = Stage::AwaitBodyBegin;
                    return Step::Advance(Reply::Accepted);
                }
            },
            Command::BeginBody => {
                if stage == Stage::AwaitBodyBegin {
                    self.stage = Stage::ReadingBody;
                    return Step::Advance(Reply::StartBody);
                }
            },
            Command::Unrecognized => {
                self.stage = Stage::Failed;
                return Step::Fail(Reply::Unrecognized, SessionError::ParseMismatch);
            },
        }
        assert(!expects(stage, c));
        self.stage = Stage::Failed;
        let reply = if stage == Stage::AwaitGreeting {
            Reply::GreetFirst
        } else {
            Reply::OutOfSequence
        };
        Step::Fail(reply, SessionError::SequenceViolation)
    }

    /// Takes the bytes received after the body-begin reply and makes the
    /// message of them.
    pub fn receive_body(&mut self, stream: &[u8]) -> (r: Result<Message, SessionError>)
        requires
            old(self)@.stage == Stage::ReadingBody,
        ensures
            match finish_spec(old(self)@, stream@) {
                Ok(m) => r matches Ok(msg) && msg@ == m && final(self)@ == with_stage(
                    old(self)@,
                    Stage::Complete,
                ),
                Err(e) => r matches Err(x) && x == e && final(self)@ == with_stage(
                    old(self)@,
                    Stage::Failed,
                ),
            },
    {
        match read_body(stream) {
            None => {
                self.stage = Stage::Failed;
                Err(SessionError::IncompleteBody)
            },
            Some(bytes) => match text_from_utf8(bytes) {
                None => {
                    self.stage = Stage::Failed;
                    Err(SessionError::InvalidBodyText)
                },
                Some(body) => {
                    self.stage = Stage::Complete;
                    Ok(
                        Message {
                            identity: self.identity.clone(),
                            sender: self.sender.clone(),
                            recipient: self.recipient.clone(),
                            body,
                        },
                    )
                },
            },
        }
    }
}

} // verus!
