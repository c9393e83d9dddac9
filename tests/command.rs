use smtp_session::command::{parse_command, Command};

#[test]
fn greet_with_identity() {
    assert_eq!(parse_command("HELO example.com"), Command::Greet("example.com".to_string()));
}

#[test]
fn greet_identity_is_trimmed() {
    assert_eq!(parse_command("HELO  \t client.local \t"), Command::Greet("client.local".to_string()));
}

#[test]
fn greet_keyword_alone_is_unrecognized() {
    assert_eq!(parse_command("HELO"), Command::Unrecognized);
}

#[test]
fn sender_with_mailbox() {
    assert_eq!(
        parse_command("MAIL FROM:<alice@example.com>"),
        Command::DeclareSender("alice@example.com".to_string())
    );
}

#[test]
fn sender_keeps_text_inside_brackets() {
    assert_eq!(parse_command("MAIL FROM:< a b >"), Command::DeclareSender(" a b ".to_string()));
}

#[test]
fn sender_with_empty_mailbox() {
    assert_eq!(parse_command("MAIL FROM:<>"), Command::DeclareSender(String::new()));
}

#[test]
fn sender_without_closing_bracket_is_unrecognized() {
    assert_eq!(parse_command("MAIL FROM:<alice@example.com"), Command::Unrecognized);
}

#[test]
fn recipient_with_mailbox() {
    assert_eq!(
        parse_command("RCPT TO:<bob@example.org>"),
        Command::DeclareRecipient("bob@example.org".to_string())
    );
}

#[test]
fn recipient_with_non_ascii_mailbox() {
    assert_eq!(parse_command("RCPT TO:<zoë@exämple.org>"), Command::DeclareRecipient("zoë@exämple.org".to_string()));
}

#[test]
fn begin_body_exact() {
    assert_eq!(parse_command("DATA"), Command::BeginBody);
}

#[test]
fn begin_body_with_extra_text_is_unrecognized() {
    assert_eq!(parse_command("DATA now"), Command::Unrecognized);
    assert_eq!(parse_command("data"), Command::Unrecognized);
}

#[test]
fn empty_line_is_unrecognized() {
    assert_eq!(parse_command(""), Command::Unrecognized);
}

#[test]
fn greeting_rule_wins_over_later_rules() {
    assert_eq!(parse_command("HELO MAIL FROM:<x>"), Command::Greet("MAIL FROM:<x>".to_string()));
}
