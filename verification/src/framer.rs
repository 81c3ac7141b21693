//! The response framer: carving one reply out of the incoming stream.
//!
//! [`read_response`] is the executable counterpart of [`frame_reply`]: it
//! reads the status line, classifies it, and — when a multi-line reply is
//! expected — accumulates body lines until the terminator line, which is
//! discarded. Its contract holds for every transport outcome; only a
//! transport fault ([`Pop3Error::Io`]) escapes the exact correspondence.

use vstd::prelude::*;

use crate::error::Pop3Error;
use crate::response::{utf8_to_string, Response};
use crate::transport::Transport;
use crate::wire::{
    body_lines, frame_reply, is_positive, lemma_line_len_bounds, line_content, negative_err,
    negative_message, positive_payload, skip_line, take_line, terminator_line, FrameResult, CR,
    DOT, LF,
};

verus! {

/// A copy of `v[from..to]`.
pub(crate) fn copy_range(v: &Vec<u8>, from: usize, to: usize) -> (r: Vec<u8>)
    requires
        from <= to <= v@.len(),
    ensures
        r@ == v@.subrange(from as int, to as int),
{
    let mut r: Vec<u8> = Vec::new();
    let mut i = from;
    while i < to
        invariant
            from <= i <= to <= v@.len(),
            r@ == v@.subrange(from as int, i as int),
        decreases to - i,
    {
        r.push(v[i]);
        proof {
            assert(r@ =~= v@.subrange(from as int, i + 1));
        }
        i = i + 1;
    }
    r
}

/// Where the content of `line` ends: its length minus the end-of-line marker.
fn content_end(line: &Vec<u8>) -> (e: usize)
    ensures
        e <= line@.len(),
        line@.subrange(0, e as int) == line_content(line@),
{
    let n = line.len();
    let e = if n >= 2 && line[n - 2] == CR && line[n - 1] == LF {
        n - 2
    } else if n >= 1 && line[n - 1] == LF {
        n - 1
    } else {
        n
    };
    proof {
        assert(line@.subrange(0, e as int) =~= line_content(line@));
    }
    e
}

/// Whether `line` begins with the positive marker.
fn line_is_positive(line: &Vec<u8>) -> (b: bool)
    ensures
        b == is_positive(line@),
{
    line.len() >= 3 && line[0] == 43 && line[1] == 79 && line[2] == 75
}

/// Whether `line` is exactly the multi-line terminator line.
fn line_is_terminator(line: &Vec<u8>) -> (b: bool)
    ensures
        b == (line@ == terminator_line()),
{
    let b = line.len() == 3 && line[0] == DOT && line[1] == CR && line[2] == LF;
    proof {
        if b {
            assert(line@ =~= terminator_line());
        }
        if line@ == terminator_line() {
            assert(line@.len() == 3);
            assert(line@[0] == DOT && line@[1] == CR && line@[2] == LF);
        }
    }
    b
}

/// The inline text of a positive status line.
fn extract_positive_payload(line: &Vec<u8>) -> (r: Vec<u8>)
    ensures
        r@ == positive_payload(line@),
{
    let e = content_end(line);
    if e >= 4 {
        let r = copy_range(line, 4, e);
        proof {
            assert(r@ =~= line_content(line@).skip(4));
        }
        r
    } else {
        Vec::new()
    }
}

/// The message text of a negative status line.
fn extract_negative_message(line: &Vec<u8>) -> (r: Vec<u8>)
    ensures
        r@ == negative_message(line@),
{
    let e = content_end(line);
    if e >= 5 {
        let r = copy_range(line, 5, e);
        proof {
            assert(r@ =~= line_content(line@).skip(5));
        }
        r
    } else {
        let r = copy_range(line, 0, e);
        proof {
            assert(r@ =~= line_content(line@));
        }
        r
    }
}

/// Read and frame one reply from `stream`.
///
/// The first line decides: a zero-byte read is [`Pop3Error::ConnectionClosed`],
/// a line not starting with the positive marker becomes the error carrying the
/// server's message, and a positive line opens the payload. When `multiline`
/// holds, body lines are appended verbatim until the line that is exactly the
/// terminator, which is discarded; a zero-byte read in the middle of the body
/// is again [`Pop3Error::ConnectionClosed`].
pub fn read_response<S: Transport>(stream: &mut S, multiline: bool) -> (r: Result<
    Response,
    Pop3Error,
>)
    ensures
        final(stream).outgoing() == old(stream).outgoing(),
        old(stream).reliable() ==> final(stream).reliable(),
        (r matches Err(e) && e is Io && !old(stream).reliable()) || (match frame_reply(
            old(stream).incoming(),
            multiline,
        ) {
            FrameResult::Closed => r matches Err(e) && e is ConnectionClosed,
            FrameResult::Negative(m) => r matches Err(e) && negative_err(e, m),
            FrameResult::Complete(payload, rest) => r matches Ok(resp) && resp@ == payload
                && final(stream).incoming() == rest,
        }),
{
    broadcast use vstd::seq_lib::group_seq_properties;

    let first = match stream.read_line() {
        Ok(l) => l,
        Err(e) => return Err(e),
    };
    proof {
        lemma_line_len_bounds(old(stream).incoming());
    }
    if first.len() == 0 {
        return Err(Pop3Error::ConnectionClosed);
    }
    if !line_is_positive(&first) {
        let msg = extract_negative_message(&first);
        match utf8_to_string(msg.as_slice()) {
            Some(s) => {
                return Err(Pop3Error::other(s.as_str()));
            },
            None => {
                return Err(Pop3Error::InvalidString);
            },
        }
    }
    let mut payload = extract_positive_payload(&first);
    if !multiline {
        return Ok(Response::new(payload));
    }
    let ghost head: Seq<u8> = positive_payload(first@);
    let ghost rest0: Seq<u8> = stream.incoming();
    let ghost mut acc: Seq<Seq<u8>> = Seq::empty();
    proof {
        assert(head + acc.flatten() =~= head);
        assert(body_lines(rest0) matches Some(tail) ==> acc + tail.0 =~= tail.0);
    }
    loop
        invariant
            multiline,
            old(stream).reliable() ==> stream.reliable(),
            stream.outgoing() == old(stream).outgoing(),
            payload@ == head + acc.flatten(),
            body_lines(rest0) == (match body_lines(stream.incoming()) {
                None => None::<(Seq<Seq<u8>>, Seq<u8>)>,
                Some(tail) => Some((acc + tail.0, tail.1)),
            }),
            frame_reply(old(stream).incoming(), true) == (match body_lines(rest0) {
                None => FrameResult::Closed,
                Some(tail) => FrameResult::Complete(head + tail.0.flatten(), tail.1),
            }),
        decreases stream.incoming().len(),
    {
        let ghost cur = stream.incoming();
        let mut line = match stream.read_line() {
            Ok(l) => l,
            Err(e) => return Err(e),
        };
        proof {
            lemma_line_len_bounds(cur);
        }
        if line.len() == 0 {
            return Err(Pop3Error::ConnectionClosed);
        }
        if line_is_terminator(&line) {
            proof {
                assert(body_lines(cur) == Some((Seq::<Seq<u8>>::empty(), skip_line(cur))));
                assert(acc + Seq::<Seq<u8>>::empty() =~= acc);
            }
            return Ok(Response::new(payload));
        }
        proof {
            let rest = skip_line(cur);
            match body_lines(rest) {
                Some(tail) => {
                    assert(body_lines(cur) == Some((seq![line@] + tail.0, tail.1)));
                    assert(acc + (seq![line@] + tail.0) =~= acc.push(line@) + tail.0);
                },
                None => {
                    assert(body_lines(cur) is None);
                },
            }
            acc.lemma_flatten_push(line@);
            assert(head + acc.flatten() + line@ =~= head + acc.push(line@).flatten());
            acc = acc.push(line@);
        }
        payload.append(&mut line);
    }
}

} // verus!
