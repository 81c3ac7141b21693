//! The wire format of server replies, as a specification-level model.
//!
//! A reply is carved out of the incoming byte stream purely lexically: one
//! line for the status, and, for multi-line replies, further lines up to a
//! sentinel line holding exactly a dot. The functions here say what each
//! piece of that carving is; the executable framer is proved against them.

use vstd::prelude::*;

verus! {

/// Line feed, the byte that ends a line.
pub const LF: u8 = 10;

/// Carriage return, the byte before the line feed in a well-formed line end.
pub const CR: u8 = 13;

/// The dot that makes up a multi-line terminator line.
pub const DOT: u8 = 46;

/// How many bytes the first line of `input` spans: everything up to and
/// including the first line feed, or all of `input` if it holds none.
pub open spec fn line_len(input: Seq<u8>) -> nat
    decreases input.len(),
{
    if input.len() == 0 {
        0
    } else if input[0] == LF {
        1
    } else {
        1 + line_len(input.skip(1))
    }
}

/// The first line of `input`, line feed included.
pub open spec fn take_line(input: Seq<u8>) -> Seq<u8> {
    input.take(line_len(input) as int)
}

/// Everything of `input` after its first line.
pub open spec fn skip_line(input: Seq<u8>) -> Seq<u8> {
    input.skip(line_len(input) as int)
}

/// The first line spans at least one byte of a nonempty stream and never
/// more than the whole stream.
pub proof fn lemma_line_len_bounds(input: Seq<u8>)
    ensures
        line_len(input) <= input.len(),
        input.len() > 0 ==> line_len(input) >= 1,
    decreases input.len(),
{
    if input.len() > 0 && input[0] != LF {
        lemma_line_len_bounds(input.skip(1));
    }
}

/// A line ends at the first line feed: before it there is none, and the line
/// either ends with one or runs to the end of the stream.
pub proof fn lemma_line_shape(input: Seq<u8>)
    ensures
        forall|j: int| 0 <= j < line_len(input) as int - 1 ==> input[j] != LF,
        line_len(input) > 0 ==> (input[line_len(input) as int - 1] == LF || line_len(input)
            == input.len()),
    decreases input.len(),
{
    lemma_line_len_bounds(input);
    if input.len() > 0 && input[0] != LF {
        lemma_line_shape(input.skip(1));
        lemma_line_len_bounds(input.skip(1));
        assert forall|j: int| 0 <= j < line_len(input) as int - 1 implies input[j] != LF by {
            if j > 0 {
                assert(input.skip(1)[j - 1] != LF);
            }
        }
    }
}

/// The inverse direction: a scan that stopped at position `k` (the first
/// line feed, or the end) has found exactly the first line.
pub proof fn lemma_line_len_from_scan(input: Seq<u8>, k: int)
    requires
        0 <= k <= input.len(),
        forall|j: int| 0 <= j < k ==> input[j] != LF,
        k < input.len() ==> input[k] == LF,
    ensures
        line_len(input) == if k < input.len() {
            k + 1
        } else {
            k
        },
    decreases input.len(),
{
    if input.len() > 0 && input[0] != LF {
        assert(input.skip(1).len() == input.len() - 1);
        assert forall|j: int| 0 <= j < k - 1 implies input.skip(1)[j] != LF by {
            assert(input[j + 1] != LF);
        }
        lemma_line_len_from_scan(input.skip(1), k - 1);
    }
}

/// The bytes of a line without its end-of-line marker: a trailing CR LF or a
/// trailing lone LF is dropped.
pub open spec fn line_content(line: Seq<u8>) -> Seq<u8> {
    if line.len() >= 2 && line[line.len() - 2] == CR && line[line.len() - 1] == LF {
        line.take(line.len() - 2)
    } else if line.len() >= 1 && line[line.len() - 1] == LF {
        line.take(line.len() - 1)
    } else {
        line
    }
}

/// Whether a status line begins with the positive marker `+OK`.
pub open spec fn is_positive(line: Seq<u8>) -> bool {
    line.len() >= 3 && line[0] == 43 && line[1] == 79 && line[2] == 75
}

/// The payload of a positive status line: what follows the marker and its
/// separator, with the line end already dropped; empty when the line carries
/// no inline text.
pub open spec fn positive_payload(line: Seq<u8>) -> Seq<u8> {
    let content = line_content(line);
    if content.len() >= 4 {
        content.skip(4)
    } else {
        Seq::empty()
    }
}

/// The message of a negative status line: what follows the negative marker
/// and its separator, or the whole line when it is too short to hold them.
pub open spec fn negative_message(line: Seq<u8>) -> Seq<u8> {
    let content = line_content(line);
    if content.len() >= 5 {
        content.skip(5)
    } else {
        content
    }
}

/// The line that closes a multi-line body: exactly one dot and CR LF.
pub open spec fn terminator_line() -> Seq<u8> {
    seq![DOT, CR, LF]
}

/// The body lines of a multi-line reply read from `input`: every line up to,
/// and excluding, the terminator line, paired with the input left after the
/// terminator. `None` when the stream ends (a zero-byte read) first.
pub open spec fn body_lines(input: Seq<u8>) -> Option<(Seq<Seq<u8>>, Seq<u8>)>
    decreases input.len(),
{
    if input.len() == 0 {
        None
    } else {
        let line = take_line(input);
        let rest = skip_line(input);
        proof {
            lemma_line_len_bounds(input);
        }
        if line == terminator_line() {
            Some((Seq::empty(), rest))
        } else {
            match body_lines(rest) {
                None => None,
                Some(tail) => Some((seq![line] + tail.0, tail.1)),
            }
        }
    }
}

/// What framing one reply out of `input` yields, at the specification level.
pub enum FrameResult {
    /// The stream ended (a zero-byte read) before the reply was complete.
    Closed,
    /// The first line was a negative reply; carries its message bytes.
    Negative(Seq<u8>),
    /// A complete positive reply: the payload, and the input left over.
    Complete(Seq<u8>, Seq<u8>),
}

/// The reply framed out of `input`. The payload of a single-line reply is
/// the first line's inline text; a multi-line payload appends every body
/// line verbatim, the terminator line excluded.
pub open spec fn frame_reply(input: Seq<u8>, multiline: bool) -> FrameResult {
    if input.len() == 0 {
        FrameResult::Closed
    } else {
        let first = take_line(input);
        let rest = skip_line(input);
        if !is_positive(first) {
            FrameResult::Negative(negative_message(first))
        } else if !multiline {
            FrameResult::Complete(positive_payload(first), rest)
        } else {
            match body_lines(rest) {
                None => FrameResult::Closed,
                Some(tail) => FrameResult::Complete(
                    positive_payload(first) + tail.0.flatten(),
                    tail.1,
                ),
            }
        }
    }
}

/// No body line of a multi-line reply is the terminator line: the line that
/// closes the body is discarded, never delivered. Together with the payload
/// being exactly the concatenation of the body lines (see [`frame_reply`]),
/// this is the sense in which a payload never contains the terminator.
pub proof fn lemma_body_lines_exclude_terminator(input: Seq<u8>)
    ensures
        body_lines(input) matches Some(tail) ==> forall|i: int|
            0 <= i < tail.0.len() ==> tail.0[i] != terminator_line(),
    decreases input.len(),
{
    if input.len() > 0 {
        lemma_line_len_bounds(input);
        if take_line(input) != terminator_line() {
            lemma_body_lines_exclude_terminator(skip_line(input));
        }
    }
}

/// A multi-line payload never contains the terminator line: whenever a
/// multi-line reply completes, its payload is exactly the concatenation of
/// the body lines read before the terminator — however many there are,
/// including none — and no such line is the terminator line.
pub proof fn lemma_multiline_payload_excludes_terminator(input: Seq<u8>)
    ensures
        frame_reply(input, true) matches FrameResult::Complete(payload, rest) ==> (body_lines(
            skip_line(input),
        ) matches Some(tail) && payload == positive_payload(take_line(input)) + tail.0.flatten()
            && rest == tail.1 && forall|i: int|
            0 <= i < tail.0.len() ==> tail.0[i] != terminator_line()),
{
    if input.len() > 0 {
        lemma_body_lines_exclude_terminator(skip_line(input));
    }
}

/// How a negative reply surfaces as an error: the message text verbatim when
/// it decodes as UTF-8, and a decoding failure otherwise.
pub open spec fn negative_err(e: crate::error::Pop3Error, msg: Seq<u8>) -> bool {
    if vstd::utf8::valid_utf8(msg) {
        e matches crate::error::Pop3Error::OtherString(s) && s@ == vstd::utf8::decode_utf8(msg)
    } else {
        e is InvalidString
    }
}

} // verus!
