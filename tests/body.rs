use smtp_session::body::read_body;

#[test]
fn empty_body() {
    assert_eq!(read_body(b".\r\n"), Some(Vec::new()));
}

#[test]
fn one_line_body() {
    assert_eq!(read_body(b"hello\r\n.\r\n"), Some(b"hello".to_vec()));
}

#[test]
fn lines_keep_their_inner_line_endings() {
    assert_eq!(read_body(b"line one\r\nline two\r\n.\r\n"), Some(b"line one\r\nline two".to_vec()));
}

#[test]
fn empty_lines_are_kept() {
    assert_eq!(read_body(b"\r\n\r\nx\r\n.\r\n"), Some(b"\r\n\r\nx".to_vec()));
}

#[test]
fn stuffed_dot_line_round_trips() {
    assert_eq!(read_body(b"before\r\n..\r\nafter\r\n.\r\n"), Some(b"before\r\n.\r\nafter".to_vec()));
}

#[test]
fn stuffing_dot_is_taken_off_any_line() {
    assert_eq!(read_body(b"..hidden\r\n.x\r\n.\r\n"), Some(b".hidden\r\nx".to_vec()));
}

#[test]
fn dot_inside_a_line_is_kept() {
    assert_eq!(
        read_body(b"see you at 5.30.\r\nend.\r\n a.\r\n.\r\n"),
        Some(b"see you at 5.30.\r\nend.\r\n a.".to_vec())
    );
}

#[test]
fn dot_with_trailing_text_does_not_end_the_body() {
    assert_eq!(read_body(b".\rx\r\n.\r\n"), Some(b"\rx".to_vec()));
}

#[test]
fn bytes_after_the_terminator_are_not_body() {
    assert_eq!(read_body(b"a\r\n.\r\nQUIT\r\n"), Some(b"a".to_vec()));
}

#[test]
fn truncated_before_terminator() {
    assert_eq!(read_body(b"hello\r\n"), None);
}

#[test]
fn truncated_inside_terminator() {
    assert_eq!(read_body(b"hello\r\n.\r"), None);
    assert_eq!(read_body(b"hello\r\n."), None);
}

#[test]
fn empty_stream_is_incomplete() {
    assert_eq!(read_body(b""), None);
}

#[test]
fn bare_line_feeds_do_not_end_lines() {
    assert_eq!(read_body(b"a\n.\n.\r\n"), None);
    assert_eq!(read_body(b"a\n.\n\r\n.\r\n"), Some(b"a\n.\n".to_vec()));
}
