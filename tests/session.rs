use smtp_session::session::{Reply, Session, SessionError, Stage, Step};

fn session_after(lines: &[&str]) -> Session {
    let mut s = Session::new();
    for line in lines {
        assert!(matches!(s.handle_line(line), Step::Advance(_)));
    }
    s
}

const IN_ORDER: [&str; 4] = ["HELO client.example", "MAIL FROM:<alice@example.com>", "RCPT TO:<bob@example.org>", "DATA"];

#[test]
fn full_session_gives_message() {
    let mut s = Session::new();
    assert_eq!(s.handle_line("HELO   client.example  "), Step::Advance(Reply::Greeted));
    assert_eq!(s.handle_line("MAIL FROM:<alice@example.com>"), Step::Advance(Reply::Accepted));
    assert_eq!(s.handle_line("  RCPT TO:<bob@example.org>\t"), Step::Advance(Reply::Accepted));
    assert_eq!(s.handle_line("DATA"), Step::Advance(Reply::StartBody));
    assert_eq!(s.stage(), Stage::ReadingBody);
    let m = s.receive_body(b"Subject: hi\r\n\r\n..\r\nbye.\r\n.\r\n").unwrap();
    assert_eq!(m.identity, "client.example");
    assert_eq!(m.sender, "alice@example.com");
    assert_eq!(m.recipient, "bob@example.org");
    assert_eq!(m.body, "Subject: hi\r\n\r\n.\r\nbye.");
    assert_eq!(s.stage(), Stage::Complete);
}

#[test]
fn empty_body_gives_empty_text() {
    let mut s = session_after(&IN_ORDER);
    let m = s.receive_body(b".\r\n").unwrap();
    assert_eq!(m.body, "");
}

#[test]
fn non_ascii_body_is_decoded() {
    let mut s = session_after(&IN_ORDER);
    let m = s.receive_body("grüße\r\n.\r\n".as_bytes()).unwrap();
    assert_eq!(m.body, "grüße");
}

#[test]
fn invalid_utf8_body_fails() {
    let mut s = session_after(&IN_ORDER);
    assert_eq!(s.receive_body(b"\xff\xfe\r\n.\r\n").unwrap_err(), SessionError::InvalidBodyText);
    assert_eq!(s.stage(), Stage::Failed);
}

#[test]
fn truncated_body_is_incomplete() {
    let mut s = session_after(&IN_ORDER);
    assert_eq!(s.receive_body(b"Subject: hi\r\nno end").unwrap_err(), SessionError::IncompleteBody);
    assert_eq!(s.stage(), Stage::Failed);
}

#[test]
fn unrecognized_line_fails_in_each_command_stage() {
    for n in 0..4 {
        let mut s = session_after(&IN_ORDER[..n]);
        assert_eq!(s.handle_line("NOOP"), Step::Fail(Reply::Unrecognized, SessionError::ParseMismatch));
        assert_eq!(s.stage(), Stage::Failed);
    }
}

#[test]
fn sender_before_greeting_is_out_of_sequence() {
    let mut s = Session::new();
    assert_eq!(
        s.handle_line("MAIL FROM:<alice@example.com>"),
        Step::Fail(Reply::GreetFirst, SessionError::SequenceViolation)
    );
    assert_eq!(s.stage(), Stage::Failed);
}

#[test]
fn wrong_command_fails_in_each_later_stage() {
    let wrong = ["DATA", "HELO again", "MAIL FROM:<x@y>"];
    for n in 1..4 {
        let mut s = session_after(&IN_ORDER[..n]);
        assert_eq!(s.handle_line(wrong[n - 1]), Step::Fail(Reply::OutOfSequence, SessionError::SequenceViolation));
        assert_eq!(s.stage(), Stage::Failed);
    }
}

#[test]
fn reply_lines_are_exact() {
    assert_eq!(Session::greeting(), "220 localhost SMTP\r\n");
    assert_eq!(Reply::Greeted.line(), "250 localhost at your service \r\n");
    assert_eq!(Reply::Accepted.line(), "250 Ok.\r\n");
    assert_eq!(Reply::StartBody.line(), "354 Go ahead\r\n");
    assert_eq!(Reply::Unrecognized.line(), "502 Unrecognized command.\r\n");
    assert_eq!(Reply::GreetFirst.line(), "503 Command out of order. Must do HELO/EHLO first.\r\n");
    assert_eq!(Reply::OutOfSequence.line(), "503 Command out of order.\r\n");
}

#[test]
fn blank_identity_is_unrecognized() {
    let mut s = Session::new();
    assert_eq!(s.handle_line("HELO    "), Step::Fail(Reply::Unrecognized, SessionError::ParseMismatch));
}
