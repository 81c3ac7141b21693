//! The payload a completed reply hands to the caller.

use vstd::prelude::*;

use crate::error::Pop3Error;
use vstd::utf8::{decode_utf8, valid_utf8};

verus! {

/// An owned, immutable reply payload: everything after the status marker of
/// a single-line reply, or the accumulated body of a multi-line one. It
/// never includes the status token or the terminator line.
#[derive(Debug)]
pub struct Response {
    data: Vec<u8>,
}

impl View for Response {
    type V = Seq<u8>;

    closed spec fn view(&self) -> Seq<u8> {
        self.data@
    }
}

/// Relies on `String::from_utf8`: it returns `Ok` exactly when the bytes are
/// valid UTF-8, and then holds their decoding.
#[verifier::external_body]
pub(crate) fn utf8_to_string(data: &[u8]) -> (r: Option<String>)
    ensures
        r is Some <==> valid_utf8(data@),
        r matches Some(s) ==> s@ == decode_utf8(data@),
{
    match String::from_utf8(data.to_vec()) {
        Ok(s) => Some(s),
        Err(_) => None,
    }
}

impl Response {
    /// Wrap an already-framed payload.
    pub fn new(data: Vec<u8>) -> (r: Self)
        ensures
            r@ == data@,
    {
        Response { data }
    }

    /// The raw payload bytes.
    pub fn raw(&self) -> (r: &Vec<u8>)
        ensures
            r@ == self@,
    {
        &self.data
    }

    /// The payload reinterpreted as text: its UTF-8 decoding, or
    /// [`Pop3Error::InvalidString`] when it is not valid UTF-8.
    pub fn to_string(&self) -> (r: Result<String, Pop3Error>)
        ensures
            valid_utf8(self@) ==> (r matches Ok(s) && s@ == decode_utf8(self@)),
            !valid_utf8(self@) ==> (r matches Err(e) && e is InvalidString),
    {
        match utf8_to_string(self.data.as_slice()) {
            Some(s) => Ok(s),
            None => Err(Pop3Error::InvalidString),
        }
    }
}

} // verus!
