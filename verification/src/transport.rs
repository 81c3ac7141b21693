//! The abstract byte stream a session runs over.
//!
//! The protocol engine needs exactly two things of its transport: reading one
//! line and writing raw bytes. [`Transport`] states both over two ghost
//! projections — the bytes the stream will yield, and the bytes written so
//! far — and [`MemStream`], a deterministic in-memory stream, implements it
//! with full proofs. A blocking or cooperative socket adapter can implement
//! the same two operations at the application boundary.

use vstd::prelude::*;

use crate::error::Pop3Error;
use crate::wire::{line_len, skip_line, take_line, LF};

verus! {

/// A connected, bidirectional byte stream, readable line by line and
/// writable as raw bytes.
pub trait Transport: Sized {
    /// The bytes this stream will yield to its reader, in order. The default
    /// is only a placeholder: a transport models its own stream.
    open spec fn incoming(&self) -> Seq<u8> {
        Seq::empty()
    }

    /// The bytes successfully written to the stream so far. The default is
    /// only a placeholder: a transport models its own stream.
    open spec fn outgoing(&self) -> Seq<u8> {
        Seq::empty()
    }

    /// Whether this transport never faults: its reads and writes always
    /// succeed. An in-memory stream is; a socket is not.
    open spec fn reliable(&self) -> bool {
        false
    }

    /// Read one line: the bytes up to and including the next line feed, the
    /// whole rest of the stream if it holds none, and an empty buffer when
    /// the stream is exhausted (the zero-byte read of a closed peer).
    fn read_line(&mut self) -> (r: Result<Vec<u8>, Pop3Error>)
        ensures
            final(self).outgoing() == old(self).outgoing(),
            r matches Ok(line) ==> line@ == take_line(old(self).incoming())
                && final(self).incoming() == skip_line(old(self).incoming()),
            r matches Err(e) ==> e is Io && final(self).incoming() == old(self).incoming(),
            old(self).reliable() ==> r is Ok && final(self).reliable(),
    ;

    /// Write all of `data` to the stream.
    fn write_all(&mut self, data: &[u8]) -> (r: Result<(), Pop3Error>)
        ensures
            final(self).incoming() == old(self).incoming(),
            r is Ok ==> final(self).outgoing() == old(self).outgoing() + data@,
            r matches Err(e) ==> e is Io && final(self).outgoing() == old(self).outgoing(),
            old(self).reliable() ==> r is Ok && final(self).reliable(),
    ;
}

/// A deterministic in-memory stream: it yields a fixed byte sequence and
/// records everything written to it. This is the transport the proofs and
/// tests exercise the engine on.
#[derive(Debug)]
pub struct MemStream {
    input: Vec<u8>,
    output: Vec<u8>,
}

impl MemStream {
    /// A stream that will yield exactly `input` and has seen no writes.
    pub fn new(input: Vec<u8>) -> (r: Self)
        ensures
            r.incoming() == input@,
            r.outgoing() == Seq::<u8>::empty(),
    {
        MemStream { input, output: Vec::new() }
    }

    /// Everything written to the stream so far.
    pub fn output(&self) -> (r: &Vec<u8>)
        ensures
            r@ == self.outgoing(),
    {
        &self.output
    }

    /// The bytes not yet read.
    pub fn remaining(&self) -> (r: &Vec<u8>)
        ensures
            r@ == self.incoming(),
    {
        &self.input
    }
}

impl Transport for MemStream {
    closed spec fn incoming(&self) -> Seq<u8> {
        self.input@
    }

    closed spec fn outgoing(&self) -> Seq<u8> {
        self.output@
    }

    open spec fn reliable(&self) -> bool {
        true
    }

    fn read_line(&mut self) -> (r: Result<Vec<u8>, Pop3Error>) {
        let n = self.input.len();
        let mut end: usize = 0;
        while end < n && self.input[end] != LF
            invariant
                end <= n,
                n == self.input@.len(),
                forall|j: int| 0 <= j < end ==> self.input@[j] != LF,
            decreases n - end,
        {
            end = end + 1;
        }
        let line_end = if end < n {
            end + 1
        } else {
            end
        };
        proof {
            crate::wire::lemma_line_len_from_scan(self.input@, end as int);
            assert(line_len(self.input@) == line_end);
        }
        let mut line = self.input.split_off(line_end);
        core::mem::swap(&mut self.input, &mut line);
        Ok(line)
    }

    fn write_all(&mut self, data: &[u8]) -> (r: Result<(), Pop3Error>) {
        let n = data.len();
        let mut i: usize = 0;
        while i < n
            invariant
                i <= n,
                n == data@.len(),
                self.input@ == old(self).input@,
                self.output@ == old(self).output@ + data@.take(i as int),
            decreases n - i,
        {
            self.output.push(data[i]);
            proof {
                assert(self.output@ == old(self).output@ + data@.take(i + 1));
            }
            i = i + 1;
        }
        proof {
            assert(data@.take(n as int) == data@);
        }
        Ok(())
    }
}

} // verus!
