//! Classifying one received command line.

use vstd::prelude::*;
use crate::text::{trim_spec, trim_text};

verus! {

/// A received command.
#[derive(Debug, PartialEq, Eq)]
pub enum Command {
    /// `HELO` with the client's identity.
    Greet(String),
    /// `MAIL FROM:<...>` with the sender's mailbox.
    DeclareSender(String),
    /// `RCPT TO:<...>` with the recipient's mailbox.
    DeclareRecipient(String),
    /// `DATA`.
    BeginBody,
    /// Anything else.
    Unrecognized,
}

/// What a `Command` holds, as character sequences.
pub enum CommandView {
    Greet(Seq<char>),
    DeclareSender(Seq<char>),
    DeclareRecipient(Seq<char>),
    BeginBody,
    Unrecognized,
}

impl View for Command {
    type V = CommandView;

    open spec fn view(&self) -> CommandView {
        match self {
            Command::Greet(s) => CommandView::Greet(s@),
            Command::DeclareSender(s) => CommandView::DeclareSender(s@),
            Command::DeclareRecipient(s) => CommandView::DeclareRecipient(s@),
            Command::BeginBody => CommandView::BeginBody,
            Command::Unrecognized => CommandView::Unrecognized,
        }
    }
}

/// The greeting keyword with its separator.
pub open spec fn greet_prefix() -> Seq<char> {
    seq!['H', 'E', 'L', 'O', ' ']
}

/// What a sender command starts with.
pub open spec fn sender_prefix() -> Seq<char> {
    seq!['M', 'A', 'I', 'L', ' ', 'F', 'R', 'O', 'M', ':', '<']
}

/// What a recipient command starts with.
pub open spec fn recipient_prefix() -> Seq<char> {
    seq!['R', 'C', 'P', 'T', ' ', 'T', 'O', ':', '<']
}

/// The body-begin command.
pub open spec fn begin_body_keyword() -> Seq<char> {
    seq!['D', 'A', 'T', 'A']
}

/// `s` starts with `p`.
pub open spec fn has_prefix(s: Seq<char>, p: Seq<char>) -> bool {
    p.len() <= s.len() && s.subrange(0, p.len() as int) == p
}

/// `s` is `prefix`, some text, and a closing angle bracket.
pub open spec fn is_bracketed(s: Seq<char>, prefix: Seq<char>) -> bool {
    has_prefix(s, prefix) && s.len() > prefix.len() && s.last() == '>'
}

/// The command that a line stands for; the first rule that matches wins.
pub open spec fn parse_spec(line: Seq<char>) -> CommandView {
    if has_prefix(line, greet_prefix()) {
        CommandView::Greet(trim_spec(line.skip(5)))
    } else if is_bracketed(line, sender_prefix()) {
        CommandView::DeclareSender(line.subrange(11, line.len() - 1))
    } else if is_bracketed(line, recipient_prefix()) {
        CommandView::DeclareRecipient(line.subrange(9, line.len() - 1))
    } else if line == begin_body_keyword() {
        CommandView::BeginBody
    } else {
        CommandView::Unrecognized
    }
}

/// Whether `s` starts with `p`.
fn starts_with(s: &str, p: &str) -> (r: bool)
    ensures
        r == has_prefix(s@, p@),
{
    let n = p.unicode_len();
    let m = s.unicode_len();
    if n > m {
        return false;
    }
    let mut i: usize = 0;
    while i < n
        invariant
            n == p@.len(),
            m == s@.len(),
            n <= m,
            i <= n,
            forall|k: int| 0 <= k < i ==> s@[k] == p@[k],
        decreases n - i,
    {
        if s.get_char(i) != p.get_char(i) {
            assert(s@.subrange(0, n as int)[i as int] != p@[i as int]);
            return false;
        }
        i = i + 1;
    }
    assert(s@.subrange(0, n as int) =~= p@);
    true
}

/// The text between `prefix` and a closing angle bracket that ends `s`, if
/// `s` has that shape.
fn bracketed(s: &str, prefix: &str) -> (r: Option<String>)
    ensures
        is_bracketed(s@, prefix@) <==> r is Some,
        r matches Some(t) ==> t@ == s@.subrange(prefix@.len() as int, s@.len() - 1),
{
    if !starts_with(s, prefix) {
        return None;
    }
    let n = s.unicode_len();
    let k = prefix.unicode_len();
    if n <= k || s.get_char(n - 1) != '>' {
        return None;
    }
    Some(s.substring_char(k, n - 1).to_string())
}

/// Classifies one command line, already stripped of its line ending.
pub fn parse_command(line: &str) -> (r: Command)
    ensures
        r@ == parse_spec(line@),
{
    proof {
        reveal_strlit("HELO ");
        reveal_strlit("MAIL FROM:<");
        reveal_strlit("RCPT TO:<");
        reveal_strlit("DATA");
    }
    assert("HELO "@ =~= greet_prefix());
    assert("MAIL FROM:<"@ =~= sender_prefix());
    assert("RCPT TO:<"@ =~= recipient_prefix());
    assert("DATA"@ =~= begin_body_keyword());
    if starts_with(line, "HELO ") {
        let n = line.unicode_len();
        let rest = line.substring_char(5, n);
        assert(rest@ =~= line@.skip(5));
        return Command::Greet(trim_text(rest));
    }
    if let Some(m) = bracketed(line, "MAIL FROM:<") {
        return Command::DeclareSender(m);
    }
    if let Some(m) = bracketed(line, "RCPT TO:<") {
        return Command::DeclareRecipient(m);
    }
    if line.unicode_len() == 4 && starts_with(line, "DATA") {
        assert(line@ =~= begin_body_keyword());
        return Command::BeginBody;
    }
    assert(line@ != begin_body_keyword()) by {
        if line@ == begin_body_keyword() {
            assert(line@.subrange(0, 4) =~= line@);
        }
    }
    Command::Unrecognized
}

} // verus!
