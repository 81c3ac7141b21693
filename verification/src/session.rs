//! The session: one verb per protocol command over an owned transport, plus
//! the one piece of client-local sequencing — no second authentication.

use vstd::prelude::*;

use crate::error::Pop3Error;
use crate::framer::read_response;
use crate::lines::{extract_retr_body, retr_body};
use crate::request::Command;
use crate::response::Response;
use crate::stat::{parse_stat_payload, stat_matches};
use crate::transport::Transport;
use crate::wire::{frame_reply, negative_err, FrameResult};
use vstd::utf8::encode_utf8;

verus! {

/// One protocol session bound to a transport: it owns the stream and the
/// authorization flag.
///
/// The flag starts false (the greeting has been consumed, nothing more), is
/// set exactly once, by a successful authentication exchange, and a second
/// authentication attempt is refused before any bytes are written. Ending
/// the session consumes the value, so no further call is representable. The
/// protocol is strictly half-duplex: each method is one request/reply
/// exchange (two for the two-step login), never overlapped.
#[derive(Debug)]
pub struct Session<S: Transport> {
    stream: S,
    authorized: bool,
}

/// What one simple round trip of `cmd` does to a session: the command's wire
/// line is written once, and the reply that `frame_reply` carves out of the
/// incoming bytes decides the result — unless the transport itself faulted.
pub open spec fn simple_call<'a, S: Transport>(
    pre: Session<S>,
    post: Session<S>,
    cmd: Command<'a>,
    r: Result<Response, Pop3Error>,
) -> bool {
    (r matches Err(e) && e is Io && !pre.reliable()) || {
        &&& post.outgoing() == pre.outgoing() + encode_utf8(cmd.spec_request())
        &&& match frame_reply(pre.incoming(), cmd.spec_is_multiline()) {
            FrameResult::Closed => r matches Err(e) && e is ConnectionClosed,
            FrameResult::Negative(m) => r matches Err(e) && negative_err(e, m),
            FrameResult::Complete(payload, rest) => (r matches Ok(resp) && resp@ == payload)
                && post.incoming() == rest,
        }
    }
}

impl<S: Transport> Session<S> {
    /// Whether the session has authenticated.
    pub closed spec fn authorized(&self) -> bool {
        self.authorized
    }

    /// The bytes the session's stream will still yield.
    pub closed spec fn incoming(&self) -> Seq<u8> {
        self.stream.incoming()
    }

    /// The bytes written to the session's stream so far.
    pub closed spec fn outgoing(&self) -> Seq<u8> {
        self.stream.outgoing()
    }

    /// Whether the session's transport never faults; see
    /// [`Transport::reliable`].
    pub closed spec fn reliable(&self) -> bool {
        self.stream.reliable()
    }

    /// Borrow the transport.
    pub fn stream(&self) -> (r: &S)
        ensures
            r.incoming() == self.incoming(),
            r.outgoing() == self.outgoing(),
    {
        &self.stream
    }

    /// Open a session over an established transport: consume the server's
    /// unsolicited greeting line, which must be positive. Nothing is
    /// written, and the session starts unauthorized.
    pub fn connect(stream: S) -> (r: Result<Self, Pop3Error>)
        ensures
            (r matches Err(e) && e is Io && !stream.reliable()) || (match frame_reply(
                stream.incoming(),
                false,
            ) {
                FrameResult::Closed => r matches Err(e) && e is ConnectionClosed,
                FrameResult::Negative(m) => r matches Err(e) && negative_err(e, m),
                FrameResult::Complete(payload, rest) => r matches Ok(s) && !s.authorized()
                    && s.incoming() == rest && s.outgoing() == stream.outgoing()
                    && (stream.reliable() ==> s.reliable()),
            }),
    {
        let mut session = Session { stream, authorized: false };
        match read_response(&mut session.stream, false) {
            Ok(_) => Ok(session),
            Err(e) => Err(e),
        }
    }

    /// Adopt a transport whose greeting has already been consumed — an
    /// upgraded stream, for instance, where the greeting arrived before the
    /// upgrade. Nothing is read or written; the session starts unauthorized.
    pub fn resume(stream: S) -> (r: Self)
        ensures
            !r.authorized(),
            r.incoming() == stream.incoming(),
            r.outgoing() == stream.outgoing(),
            r.reliable() == stream.reliable(),
    {
        Session { stream, authorized: false }
    }

    /// One round trip: serialize `cmd`, write its line, read and frame the
    /// reply shape the command expects.
    fn request(&mut self, cmd: &Command<'_>) -> (r: Result<Response, Pop3Error>)
        ensures
            final(self).authorized() == old(self).authorized(),
            old(self).reliable() ==> final(self).reliable(),
            simple_call(*old(self), *final(self), *cmd, r),
    {
        let line = cmd.to_request();
        match self.stream.write_all(line.as_str().as_bytes()) {
            Ok(_) => {},
            Err(e) => {
                return Err(e);
            },
        }
        read_response(&mut self.stream, cmd.is_response_multiline())
    }

    /// Authenticate with a plaintext credential pair: the username command
    /// first, and, only if the server accepts it, the password command. A
    /// username-stage failure short-circuits before the password is ever
    /// sent. On an already-authorized session the call is refused before any
    /// bytes are written. On success the session becomes authorized.
    pub fn login(&mut self, username: &str, password: &str) -> (r: Result<(), Pop3Error>)
        ensures
            old(self).authorized() ==> (r matches Err(e) && e is AlreadyAuthenticated)
                && final(self).authorized()
                && final(self).incoming() == old(self).incoming()
                && final(self).outgoing() == old(self).outgoing(),
            !old(self).authorized() ==> final(self).authorized() == (r is Ok),
            old(self).reliable() ==> final(self).reliable(),
            !old(self).authorized() ==> ((r matches Err(e) && e is Io && !old(self).reliable())
                || ({
                let user_line = encode_utf8(Command::User { data: username }.spec_request());
                let pass_line = encode_utf8(Command::Pass { data: password }.spec_request());
                match frame_reply(old(self).incoming(), false) {
                    FrameResult::Closed => (r matches Err(e) && e is ConnectionClosed)
                        && final(self).outgoing() == old(self).outgoing() + user_line,
                    FrameResult::Negative(m) => (r matches Err(e) && negative_err(e, m))
                        && final(self).outgoing() == old(self).outgoing() + user_line,
                    FrameResult::Complete(p1, rest1) => final(self).outgoing()
                        == old(self).outgoing() + user_line + pass_line
                        && (match frame_reply(rest1, false) {
                        FrameResult::Closed => r matches Err(e) && e is ConnectionClosed,
                        FrameResult::Negative(m) => r matches Err(e) && negative_err(e, m),
                        FrameResult::Complete(p2, rest2) => r is Ok && final(self).incoming()
                            == rest2,
                    }),
                }
            })),
    {
        if self.authorized {
            return Err(Pop3Error::AlreadyAuthenticated);
        }
        match self.request(&Command::User { data: username }) {
            Ok(_) => {},
            Err(e) => {
                return Err(e);
            },
        }
        match self.request(&Command::Pass { data: password }) {
            Ok(_) => {
                self.authorized = true;
                Ok(())
            },
            Err(e) => Err(e),
        }
    }

    /// Authenticate with the digest scheme: one round trip. The same
    /// client-side guard as for the plaintext login applies; on success the
    /// session becomes authorized.
    pub fn apop(&mut self, id: &str, token: &str) -> (r: Result<Response, Pop3Error>)
        ensures
            old(self).authorized() ==> (r matches Err(e) && e is AlreadyAuthenticated)
                && final(self).authorized()
                && final(self).incoming() == old(self).incoming()
                && final(self).outgoing() == old(self).outgoing(),
            !old(self).authorized() ==> final(self).authorized() == (r is Ok),
            old(self).reliable() ==> final(self).reliable(),
            !old(self).authorized() ==> simple_call(
                *old(self),
                *final(self),
                Command::Apop { id, token },
                r,
            ),
    {
        if self.authorized {
            return Err(Pop3Error::AlreadyAuthenticated);
        }
        match self.request(&Command::Apop { id, token }) {
            Ok(resp) => {
                self.authorized = true;
                Ok(resp)
            },
            Err(e) => Err(e),
        }
    }

    /// End the session: one round trip, and the session value is consumed
    /// whatever the outcome, so no further call can be written.
    pub fn quit(self) -> (r: Result<(), Pop3Error>)
        ensures
            (r matches Err(e) && e is Io && !self.reliable()) || (match frame_reply(
                self.incoming(),
                false,
            ) {
                FrameResult::Closed => r matches Err(e) && e is ConnectionClosed,
                FrameResult::Negative(m) => r matches Err(e) && negative_err(e, m),
                FrameResult::Complete(payload, rest) => r is Ok,
            }),
    {
        let mut session = self;
        match session.request(&Command::Quit) {
            Ok(_) => Ok(()),
            Err(e) => Err(e),
        }
    }

    /// Mailbox statistics: the reply's first two fields as the message count
    /// and the total octet count.
    pub fn stat(&mut self) -> (r: Result<(u64, u64), Pop3Error>)
        ensures
            final(self).authorized() == old(self).authorized(),
            old(self).reliable() ==> final(self).reliable(),
            (r matches Err(e) && e is Io && !old(self).reliable()) || ({
                &&& final(self).outgoing() == old(self).outgoing() + encode_utf8(
                    Command::Stat.spec_request(),
                )
                &&& match frame_reply(old(self).incoming(), false) {
                    FrameResult::Closed => r matches Err(e) && e is ConnectionClosed,
                    FrameResult::Negative(m) => r matches Err(e) && negative_err(e, m),
                    FrameResult::Complete(payload, rest) => stat_matches(payload, r)
                        && final(self).incoming() == rest,
                }
            }),
    {
        let resp = match self.request(&Command::Stat) {
            Ok(x) => x,
            Err(e) => {
                return Err(e);
            },
        };
        parse_stat_payload(resp.raw())
    }

    /// Statistics on one message, or on every message when no identifier is
    /// given; the open-ended form replies over several lines.
    pub fn list(&mut self, id: Option<u64>) -> (r: Result<Response, Pop3Error>)
        ensures
            final(self).authorized() == old(self).authorized(),
            old(self).reliable() ==> final(self).reliable(),
            simple_call(*old(self), *final(self), Command::List { id }, r),
    {
        self.request(&Command::List { id })
    }

    /// The full content of one message, its first payload line dropped and
    /// the remaining lines joined with a line feed.
    pub fn retr(&mut self, id: u64) -> (r: Result<Vec<u8>, Pop3Error>)
        ensures
            final(self).authorized() == old(self).authorized(),
            old(self).reliable() ==> final(self).reliable(),
            (r matches Err(e) && e is Io && !old(self).reliable()) || ({
                &&& final(self).outgoing() == old(self).outgoing() + encode_utf8(
                    Command::Retr { id }.spec_request(),
                )
                &&& match frame_reply(old(self).incoming(), true) {
                    FrameResult::Closed => r matches Err(e) && e is ConnectionClosed,
                    FrameResult::Negative(m) => r matches Err(e) && negative_err(e, m),
                    FrameResult::Complete(payload, rest) => (r matches Ok(body) && body@
                        == retr_body(payload)) && final(self).incoming() == rest,
                }
            }),
    {
        let resp = match self.request(&Command::Retr { id }) {
            Ok(x) => x,
            Err(e) => {
                return Err(e);
            },
        };
        Ok(extract_retr_body(resp.raw()))
    }

    /// Mark one message as deleted on the server; no client-local
    /// bookkeeping.
    pub fn dele(&mut self, id: u64) -> (r: Result<Response, Pop3Error>)
        ensures
            final(self).authorized() == old(self).authorized(),
            old(self).reliable() ==> final(self).reliable(),
            simple_call(*old(self), *final(self), Command::Dele { id }, r),
    {
        self.request(&Command::Dele { id })
    }

    /// Do nothing and read the positive reply; keeps an idle connection
    /// alive.
    pub fn noop(&mut self) -> (r: Result<(), Pop3Error>)
        ensures
            final(self).authorized() == old(self).authorized(),
            old(self).reliable() ==> final(self).reliable(),
            (r matches Err(e) && e is Io && !old(self).reliable()) || ({
                &&& final(self).outgoing() == old(self).outgoing() + encode_utf8(
                    Command::Noop.spec_request(),
                )
                &&& match frame_reply(old(self).incoming(), false) {
                    FrameResult::Closed => r matches Err(e) && e is ConnectionClosed,
                    FrameResult::Negative(m) => r matches Err(e) && negative_err(e, m),
                    FrameResult::Complete(payload, rest) => r is Ok && final(self).incoming()
                        == rest,
                }
            }),
    {
        match self.request(&Command::Noop) {
            Ok(_) => Ok(()),
            Err(e) => Err(e),
        }
    }

    /// Undo the pending deletions server-side; no client-local state to
    /// reconcile.
    pub fn rset(&mut self) -> (r: Result<Response, Pop3Error>)
        ensures
            final(self).authorized() == old(self).authorized(),
            old(self).reliable() ==> final(self).reliable(),
            simple_call(*old(self), *final(self), Command::Rset, r),
    {
        self.request(&Command::Rset)
    }

    /// The first `lines` lines of one message; replies over several lines.
    pub fn top(&mut self, id: u64, lines: u64) -> (r: Result<Response, Pop3Error>)
        ensures
            final(self).authorized() == old(self).authorized(),
            old(self).reliable() ==> final(self).reliable(),
            simple_call(*old(self), *final(self), Command::Top { id, lines }, r),
    {
        self.request(&Command::Top { id, lines })
    }

    /// The session-independent unique-id listing, for one message or for all
    /// of them; the open-ended form replies over several lines.
    pub fn uidl(&mut self, id: Option<u64>) -> (r: Result<Response, Pop3Error>)
        ensures
            final(self).authorized() == old(self).authorized(),
            old(self).reliable() ==> final(self).reliable(),
            simple_call(*old(self), *final(self), Command::Uidl { id }, r),
    {
        self.request(&Command::Uidl { id })
    }
}

} // verus!
