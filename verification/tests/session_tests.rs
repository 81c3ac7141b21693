//! Session behavior against scripted server replies, mirroring the
//! scenarios of a live-server suite on the deterministic transport.

use pop3_client::{MemStream, Pop3Error, Session};

/// A session whose server will say `script`, the greeting included.
fn connect(script: &[u8]) -> Session<MemStream> {
    Session::connect(MemStream::new(script.to_vec())).unwrap()
}

const GREETING: &[u8] = b"+OK POP3 server ready\r\n";

fn with_replies(replies: &[&[u8]]) -> Session<MemStream> {
    let mut script = GREETING.to_vec();
    for r in replies {
        script.extend_from_slice(r);
    }
    connect(&script)
}

#[test]
fn connect_consumes_positive_greeting() {
    let session = with_replies(&[]);
    assert_eq!(session.stream().remaining().as_slice(), b"");
    assert_eq!(session.stream().output().as_slice(), b"");
}

#[test]
fn connect_refuses_negative_greeting() {
    let r = Session::connect(MemStream::new(b"-ERR busy\r\n".to_vec()));
    match r.unwrap_err() {
        Pop3Error::OtherString(msg) => assert_eq!(msg, "busy"),
        other => panic!("expected OtherString, got {:?}", other),
    }
}

#[test]
fn connect_refuses_silent_peer() {
    let r = Session::connect(MemStream::new(Vec::new()));
    assert!(matches!(r.unwrap_err(), Pop3Error::ConnectionClosed));
}

#[test]
fn login_success() {
    let mut session = with_replies(&[b"+OK\r\n", b"+OK logged in\r\n"]);
    let result = session.login("e913202b66b623", "1ddf1a9bd7fc45");
    assert!(result.is_ok());
    assert_eq!(
        session.stream().output().as_slice(),
        b"USER e913202b66b623\r\nPASS 1ddf1a9bd7fc45\r\n"
    );
}

#[test]
fn login_wrong_login() {
    let mut session = with_replies(&[b"-ERR unknown user\r\n"]);
    let result = session.login("e913202b66b62", "1ddf1a9bd7fc45");
    assert!(result.is_err());
    assert!(!matches!(result.unwrap_err(), Pop3Error::ConnectionClosed));
    // The username stage failed, so the password line was never written.
    assert_eq!(session.stream().output().as_slice(), b"USER e913202b66b62\r\n");
}

#[test]
fn login_wrong_password() {
    let mut session = with_replies(&[b"+OK\r\n", b"-ERR wrong password\r\n"]);
    let result = session.login("e913202b66b623", "1ddf1a9bd7fc4");
    assert!(result.is_err());
    assert!(!matches!(result.unwrap_err(), Pop3Error::ConnectionClosed));
}

#[test]
fn login_wrong_stage() {
    let mut session = with_replies(&[b"+OK\r\n", b"+OK logged in\r\n"]);
    session.login("e913202b66b623", "1ddf1a9bd7fc45").ok();
    let written = session.stream().output().len();
    let result = session.login("e913202b66b623", "1ddf1a9bd7fc45");
    assert!(result.is_err());
    assert!(matches!(result.unwrap_err(), Pop3Error::AlreadyAuthenticated));
    // The second attempt is refused client-side: no bytes were written.
    assert_eq!(session.stream().output().len(), written);
}

#[test]
fn login_already_locked() {
    // A second session against a maildrop another session holds: the server
    // refuses the credentials stage with its lock message.
    let mut first = with_replies(&[b"+OK\r\n", b"+OK logged in\r\n"]);
    first.login("e913202b66b623", "1ddf1a9bd7fc45").ok();
    let mut second = with_replies(&[b"+OK\r\n", b"-ERR maildrop already locked\r\n"]);
    let result = second.login("e913202b66b623", "1ddf1a9bd7fc45");
    assert!(result.is_err())
}

#[test]
fn apop_success_then_refused() {
    let mut session = with_replies(&[b"+OK maildrop locked\r\n"]);
    let result = session.apop("user", "c4c9334bac560ecc979e58001b3e22fb");
    assert!(result.is_ok());
    assert_eq!(
        session.stream().output().as_slice(),
        b"APOP user c4c9334bac560ecc979e58001b3e22fb\r\n"
    );
    let written = session.stream().output().len();
    let again = session.apop("user", "c4c9334bac560ecc979e58001b3e22fb");
    assert!(matches!(again.unwrap_err(), Pop3Error::AlreadyAuthenticated));
    assert_eq!(session.stream().output().len(), written);
}

#[test]
fn login_after_apop_is_refused() {
    let mut session = with_replies(&[b"+OK\r\n"]);
    session.apop("user", "token").unwrap();
    let result = session.login("user", "pass");
    assert!(matches!(result.unwrap_err(), Pop3Error::AlreadyAuthenticated));
}

#[test]
fn quit() {
    let session = with_replies(&[b"+OK bye\r\n"]);
    session.quit().unwrap()
}

#[test]
fn stat_success() {
    let mut session = with_replies(&[b"+OK 2 340\r\n"]);
    let result = session.stat();
    assert_eq!(result.unwrap(), (2, 340));
    assert_eq!(session.stream().output().as_slice(), b"STAT\r\n");
}

#[test]
fn stat_missing_field() {
    let mut session = with_replies(&[b"+OK 2\r\n"]);
    assert!(matches!(session.stat().unwrap_err(), Pop3Error::InvalidResponse));
}

#[test]
fn stat_non_numeric_field() {
    let mut session = with_replies(&[b"+OK x 340\r\n"]);
    assert!(matches!(session.stat().unwrap_err(), Pop3Error::InvalidNumber));
}

#[test]
fn stat_wrong_stage() {
    let mut session = with_replies(&[b"-ERR authorize first\r\n"]);
    let result = session.stat();
    assert!(result.is_err());
    assert!(!matches!(result.unwrap_err(), Pop3Error::ConnectionClosed));
}

#[test]
fn list_all() {
    let mut session = with_replies(&[b"+OK 2 messages\r\n1 120\r\n2 220\r\n.\r\n"]);
    let result = session.list(None);
    let response = result.unwrap();
    assert_eq!(response.raw().as_slice(), b"2 messages1 120\r\n2 220\r\n");
    assert_eq!(session.stream().output().as_slice(), b"LIST\r\n");
}

#[test]
fn list_one() {
    let mut session = with_replies(&[b"+OK 1 120\r\n"]);
    let result = session.list(Some(1));
    assert_eq!(result.unwrap().raw().as_slice(), b"1 120");
    assert_eq!(session.stream().output().as_slice(), b"LIST 1\r\n");
}

#[test]
fn list_wrong_stage() {
    let mut session = with_replies(&[b"-ERR authorize first\r\n"]);
    let result = session.list(None);
    assert!(result.is_err());
    assert!(!matches!(result.unwrap_err(), Pop3Error::ConnectionClosed));
}

#[test]
fn retr_drops_first_line_and_joins() {
    let mut session = with_replies(&[b"+OK\r\nHeader: x\r\nline1\r\nline2\r\n.\r\n"]);
    let body = session.retr(5).unwrap();
    assert_eq!(body.as_slice(), b"line1\nline2");
    assert_eq!(session.stream().output().as_slice(), b"RETR 5\r\n");
}

#[test]
fn retr_not_found() {
    let mut session = with_replies(&[b"-ERR no such message\r\n"]);
    let result = session.retr(8);
    assert!(result.is_err());
    assert!(!matches!(result.unwrap_err(), Pop3Error::ConnectionClosed));
}

#[test]
fn retr_wrong_stage() {
    let mut session = with_replies(&[b"-ERR authorize first\r\n"]);
    let result = session.retr(10);
    assert!(result.is_err());
    assert!(!matches!(result.unwrap_err(), Pop3Error::ConnectionClosed));
}

#[test]
fn retr_truncated_body_is_connection_closed() {
    let mut session = with_replies(&[b"+OK\r\nHeader: x\r\nline1\r\n"]);
    let result = session.retr(1);
    assert!(matches!(result.unwrap_err(), Pop3Error::ConnectionClosed));
}

#[test]
fn dele_not_found() {
    let mut session = with_replies(&[b"-ERR no such message\r\n"]);
    let result = session.dele(8);
    assert!(result.is_err());
    assert!(!matches!(result.unwrap_err(), Pop3Error::ConnectionClosed));
}

#[test]
fn dele_wrong_stage() {
    let mut session = with_replies(&[b"-ERR authorize first\r\n"]);
    let result = session.dele(10);
    assert!(result.is_err());
    assert!(!matches!(result.unwrap_err(), Pop3Error::ConnectionClosed));
}

#[test]
fn dele_success() {
    let mut session = with_replies(&[b"+OK message 3 deleted\r\n"]);
    let result = session.dele(3);
    assert_eq!(result.unwrap().raw().as_slice(), b"message 3 deleted");
    assert_eq!(session.stream().output().as_slice(), b"DELE 3\r\n");
}

#[test]
fn noop_success() {
    let mut session = with_replies(&[b"+OK\r\n"]);
    assert!(session.noop().is_ok());
    assert_eq!(session.stream().output().as_slice(), b"NOOP\r\n");
}

#[test]
fn rset_all() {
    let mut session = with_replies(&[b"+OK\r\n"]);
    let result = session.rset();
    assert!(result.is_ok());
    assert_eq!(session.stream().output().as_slice(), b"RSET\r\n");
}

#[test]
fn rset_wrong_stage() {
    let mut session = with_replies(&[b"-ERR authorize first\r\n"]);
    let result = session.rset();
    assert!(result.is_err());
    assert!(!matches!(result.unwrap_err(), Pop3Error::ConnectionClosed));
}

#[test]
fn top_not_found() {
    let mut session = with_replies(&[b"-ERR no such message\r\n"]);
    let result = session.top(8, 3);
    assert!(result.is_err());
    assert!(!matches!(result.unwrap_err(), Pop3Error::ConnectionClosed));
}

#[test]
fn top_wrong_stage() {
    let mut session = with_replies(&[b"-ERR authorize first\r\n"]);
    let result = session.top(10, 4);
    assert!(result.is_err());
    assert!(!matches!(result.unwrap_err(), Pop3Error::ConnectionClosed));
}

#[test]
fn top_success() {
    let mut session = with_replies(&[b"+OK\r\nSubject: hi\r\n\r\nbody\r\n.\r\n"]);
    let result = session.top(1, 2);
    assert_eq!(result.unwrap().raw().as_slice(), b"Subject: hi\r\n\r\nbody\r\n");
    assert_eq!(session.stream().output().as_slice(), b"TOP 1 2\r\n");
}

#[test]
fn uidl_all() {
    let mut session = with_replies(&[b"+OK\r\n1 whqtswO00WBw418f9t5JxYwZ\r\n.\r\n"]);
    let result = session.uidl(None);
    assert_eq!(result.unwrap().raw().as_slice(), b"1 whqtswO00WBw418f9t5JxYwZ\r\n");
    assert_eq!(session.stream().output().as_slice(), b"UIDL\r\n");
}

#[test]
fn uidl_one() {
    let mut session = with_replies(&[b"+OK 1 whqtswO00WBw418f9t5JxYwZ\r\n"]);
    let result = session.uidl(Some(1));
    assert_eq!(result.unwrap().raw().as_slice(), b"1 whqtswO00WBw418f9t5JxYwZ");
    assert_eq!(session.stream().output().as_slice(), b"UIDL 1\r\n");
}
