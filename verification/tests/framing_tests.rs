//! Reply framing against scripted byte streams.

use pop3_client::{read_response, MemStream, Pop3Error};

fn stream(bytes: &[u8]) -> MemStream {
    MemStream::new(bytes.to_vec())
}

#[test]
fn single_line_with_text() {
    let mut s = stream(b"+OK hello\r\n");
    let r = read_response(&mut s, false).unwrap();
    assert_eq!(r.raw().as_slice(), b"hello");
}

#[test]
fn single_line_bare_marker() {
    let mut s = stream(b"+OK\r\n");
    let r = read_response(&mut s, false).unwrap();
    assert_eq!(r.raw().as_slice(), b"");
}

#[test]
fn single_line_marker_and_space() {
    let mut s = stream(b"+OK \r\n");
    let r = read_response(&mut s, false).unwrap();
    assert_eq!(r.raw().as_slice(), b"");
}

#[test]
fn negative_reply_preserves_message() {
    let mut s = stream(b"-ERR no such message\r\n");
    let e = read_response(&mut s, false).unwrap_err();
    match e {
        Pop3Error::OtherString(msg) => assert_eq!(msg, "no such message"),
        other => panic!("expected OtherString, got {:?}", other),
    }
}

#[test]
fn negative_reply_short_line() {
    let mut s = stream(b"-ERR\r\n");
    let e = read_response(&mut s, false).unwrap_err();
    match e {
        Pop3Error::OtherString(msg) => assert_eq!(msg, "-ERR"),
        other => panic!("expected OtherString, got {:?}", other),
    }
}

#[test]
fn negative_reply_invalid_utf8() {
    let mut s = stream(b"-ERR \xff\xfe\r\n");
    let e = read_response(&mut s, false).unwrap_err();
    assert!(matches!(e, Pop3Error::InvalidString));
}

#[test]
fn closed_before_any_line() {
    let mut s = stream(b"");
    let e = read_response(&mut s, false).unwrap_err();
    assert!(matches!(e, Pop3Error::ConnectionClosed));
}

#[test]
fn multiline_body() {
    let mut s = stream(b"+OK\r\nline1\r\nline2\r\n.\r\n");
    let r = read_response(&mut s, true).unwrap();
    assert_eq!(r.raw().as_slice(), b"line1\r\nline2\r\n");
}

#[test]
fn multiline_payload_never_holds_terminator_line() {
    // However many body lines precede the terminator (none, one, many), the
    // terminator line's bytes are not delivered as a line of the payload.
    let scripts: [&[u8]; 3] = [
        b"+OK\r\n.\r\n",
        b"+OK\r\nx\r\n.\r\n",
        b"+OK\r\na\r\nbb\r\nccc\r\n.\r\n",
    ];
    for script in scripts {
        let mut s = stream(script);
        let r = read_response(&mut s, true).unwrap();
        let lines: Vec<&[u8]> = r.raw().split_inclusive(|&b| b == b'\n').collect();
        assert!(lines.iter().all(|l| *l != b".\r\n"));
    }
}

#[test]
fn multiline_zero_body_lines() {
    let mut s = stream(b"+OK\r\n.\r\n");
    let r = read_response(&mut s, true).unwrap();
    assert_eq!(r.raw().as_slice(), b"");
}

#[test]
fn multiline_inline_text_then_body() {
    let mut s = stream(b"+OK 2 messages\r\nfirst\r\n.\r\n");
    let r = read_response(&mut s, true).unwrap();
    assert_eq!(r.raw().as_slice(), b"2 messagesfirst\r\n");
}

#[test]
fn closed_during_body_is_connection_closed() {
    let mut s = stream(b"+OK\r\nline1\r\n");
    let e = read_response(&mut s, true).unwrap_err();
    assert!(matches!(e, Pop3Error::ConnectionClosed));
}

#[test]
fn line_starting_with_dot_is_not_terminator() {
    // Only a line that is exactly ".\r\n" ends the body; a line merely
    // starting with a dot is body text. Note that a compliant server
    // dot-escapes such lines and this client does not reverse the escaping:
    // the bytes arrive verbatim.
    let mut s = stream(b"+OK\r\n.x\r\n..\r\n.\r\n");
    let r = read_response(&mut s, true).unwrap();
    assert_eq!(r.raw().as_slice(), b".x\r\n..\r\n");
}

#[test]
fn dot_with_bare_line_feed_is_not_terminator() {
    let mut s = stream(b"+OK\r\n.\n.\r\n");
    let r = read_response(&mut s, true).unwrap();
    assert_eq!(r.raw().as_slice(), b".\n");
}

#[test]
fn response_to_string_decodes_utf8() {
    let mut s = stream(b"+OK tenl\xc3\xa4der\r\n");
    let r = read_response(&mut s, false).unwrap();
    assert_eq!(r.to_string().unwrap(), "tenl\u{e4}der");
}

#[test]
fn response_to_string_rejects_invalid_utf8() {
    let mut s = stream(b"+OK \xff\r\n");
    let r = read_response(&mut s, false).unwrap();
    assert!(matches!(r.to_string().unwrap_err(), Pop3Error::InvalidString));
}

#[test]
fn framing_consumes_exactly_one_reply() {
    let mut s = stream(b"+OK one\r\n+OK two\r\n");
    let first = read_response(&mut s, false).unwrap();
    assert_eq!(first.raw().as_slice(), b"one");
    let second = read_response(&mut s, false).unwrap();
    assert_eq!(second.raw().as_slice(), b"two");
    assert_eq!(s.remaining().as_slice(), b"");
}
