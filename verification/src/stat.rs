//! Parsing the statistics reply: two unsigned decimal fields separated by
//! whitespace.

use vstd::prelude::*;

use crate::digits::{dec_value, is_dec_token, parse_u64_dec};
use crate::error::Pop3Error;
use crate::framer::copy_range;
use crate::response::utf8_to_string;
use vstd::utf8::valid_utf8;

verus! {

/// Whether `b` separates reply fields: space, tab, or a stray line-end byte.
pub open spec fn is_space(b: u8) -> bool {
    b == 32 || b == 9 || b == 13 || b == 10
}

/// How many whitespace bytes `s` starts with.
pub open spec fn space_len(s: Seq<u8>) -> nat
    decreases s.len(),
{
    if s.len() == 0 {
        0
    } else if is_space(s[0]) {
        1 + space_len(s.skip(1))
    } else {
        0
    }
}

/// How many non-whitespace bytes `s` starts with.
pub open spec fn token_len(s: Seq<u8>) -> nat
    decreases s.len(),
{
    if s.len() == 0 {
        0
    } else if is_space(s[0]) {
        0
    } else {
        1 + token_len(s.skip(1))
    }
}

/// The first whitespace-delimited token of `s`; empty when `s` holds none.
pub open spec fn first_token(s: Seq<u8>) -> Seq<u8> {
    let t = s.skip(space_len(s) as int);
    t.take(token_len(t) as int)
}

/// What is left of `s` after its first token.
pub open spec fn after_first_token(s: Seq<u8>) -> Seq<u8> {
    let t = s.skip(space_len(s) as int);
    t.skip(token_len(t) as int)
}

proof fn lemma_space_len_bounds(s: Seq<u8>)
    ensures
        space_len(s) <= s.len(),
    decreases s.len(),
{
    if s.len() > 0 && is_space(s[0]) {
        lemma_space_len_bounds(s.skip(1));
    }
}

proof fn lemma_token_len_bounds(s: Seq<u8>)
    ensures
        token_len(s) <= s.len(),
    decreases s.len(),
{
    if s.len() > 0 && !is_space(s[0]) {
        lemma_token_len_bounds(s.skip(1));
    }
}

proof fn lemma_space_len_from_scan(s: Seq<u8>, k: int)
    requires
        0 <= k <= s.len(),
        forall|j: int| 0 <= j < k ==> is_space(#[trigger] s[j]),
        k < s.len() ==> !is_space(s[k]),
    ensures
        space_len(s) == k,
    decreases s.len(),
{
    if s.len() > 0 && is_space(s[0]) {
        assert forall|j: int| 0 <= j < k - 1 implies is_space(#[trigger] s.skip(1)[j]) by {
            assert(is_space(s[j + 1]));
        }
        lemma_space_len_from_scan(s.skip(1), k - 1);
    }
}

proof fn lemma_token_len_from_scan(s: Seq<u8>, k: int)
    requires
        0 <= k <= s.len(),
        forall|j: int| 0 <= j < k ==> !is_space(#[trigger] s[j]),
        k < s.len() ==> is_space(s[k]),
    ensures
        token_len(s) == k,
    decreases s.len(),
{
    if s.len() > 0 && !is_space(s[0]) {
        assert forall|j: int| 0 <= j < k - 1 implies !is_space(#[trigger] s.skip(1)[j]) by {
            assert(!is_space(s[j + 1]));
        }
        lemma_token_len_from_scan(s.skip(1), k - 1);
    }
}

/// Whether `b` separates reply fields; see [`is_space`].
fn byte_is_space(b: u8) -> (r: bool)
    ensures
        r == is_space(b),
{
    b == 32 || b == 9 || b == 13 || b == 10
}

/// The index where the whitespace run starting at `from` ends.
fn scan_spaces(v: &Vec<u8>, from: usize) -> (r: usize)
    requires
        from <= v@.len(),
    ensures
        from <= r <= v@.len(),
        r - from == space_len(v@.skip(from as int)),
{
    let n = v.len();
    let mut r = from;
    while r < n && byte_is_space(v[r])
        invariant
            from <= r <= n,
            n == v@.len(),
            forall|j: int| from <= j < r ==> is_space(#[trigger] v@[j]),
        decreases n - r,
    {
        r = r + 1;
    }
    proof {
        let s = v@.skip(from as int);
        assert forall|j: int| 0 <= j < r - from implies is_space(#[trigger] s[j]) by {
            assert(is_space(v@[from + j]));
        }
        lemma_space_len_from_scan(s, r - from as int);
    }
    r
}

/// The index where the token starting at `from` ends.
fn scan_token(v: &Vec<u8>, from: usize) -> (r: usize)
    requires
        from <= v@.len(),
    ensures
        from <= r <= v@.len(),
        r - from == token_len(v@.skip(from as int)),
{
    let n = v.len();
    let mut r = from;
    while r < n && !byte_is_space(v[r])
        invariant
            from <= r <= n,
            n == v@.len(),
            forall|j: int| from <= j < r ==> !is_space(#[trigger] v@[j]),
        decreases n - r,
    {
        r = r + 1;
    }
    proof {
        let s = v@.skip(from as int);
        assert forall|j: int| 0 <= j < r - from implies !is_space(#[trigger] s[j]) by {
            assert(!is_space(v@[from + j]));
        }
        lemma_token_len_from_scan(s, r - from as int);
    }
    r
}

/// How the statistics reply parses. The payload must be text (else the
/// decoding failure surfaces); its first two whitespace-separated fields are
/// the message count and the octet count. A missing field is a malformed
/// reply; a field that is not a decimal numeral a `u64` holds is a number
/// error. Fields are checked left to right; anything after the second is
/// ignored.
pub open spec fn stat_matches(payload: Seq<u8>, r: Result<(u64, u64), Pop3Error>) -> bool {
    if !valid_utf8(payload) {
        r matches Err(e) && e is InvalidString
    } else {
        let t1 = first_token(payload);
        let t2 = first_token(after_first_token(payload));
        if t1.len() == 0 {
            r matches Err(e) && e is InvalidResponse
        } else if !is_dec_token(t1) {
            r matches Err(e) && e is InvalidNumber
        } else if t2.len() == 0 {
            r matches Err(e) && e is InvalidResponse
        } else if !is_dec_token(t2) {
            r matches Err(e) && e is InvalidNumber
        } else {
            r matches Ok(v) && v.0 as int == dec_value(t1) && v.1 as int == dec_value(t2)
        }
    }
}

/// Read the message count and octet count out of a statistics payload.
pub fn parse_stat_payload(payload: &Vec<u8>) -> (r: Result<(u64, u64), Pop3Error>)
    ensures
        stat_matches(payload@, r),
{
    if utf8_to_string(payload.as_slice()).is_none() {
        return Err(Pop3Error::InvalidString);
    }
    let i1 = scan_spaces(payload, 0);
    let j1 = scan_token(payload, i1);
    let t1 = copy_range(payload, i1, j1);
    proof {
        assert(payload@.skip(0) =~= payload@);
        let t = payload@.skip(space_len(payload@) as int);
        assert(t =~= payload@.skip(i1 as int));
        lemma_token_len_bounds(t);
        assert(first_token(payload@) =~= payload@.subrange(i1 as int, j1 as int));
        assert(after_first_token(payload@) =~= payload@.skip(j1 as int));
    }
    if t1.len() == 0 {
        return Err(Pop3Error::InvalidResponse);
    }
    let v1 = match parse_u64_dec(t1.as_slice()) {
        Some(v) => v,
        None => {
            return Err(Pop3Error::InvalidNumber);
        },
    };
    let i2 = scan_spaces(payload, j1);
    let j2 = scan_token(payload, i2);
    let t2 = copy_range(payload, i2, j2);
    proof {
        let rest = after_first_token(payload@);
        let t = rest.skip(space_len(rest) as int);
        assert(space_len(rest) == i2 - j1);
        assert(t =~= payload@.skip(i2 as int));
        lemma_token_len_bounds(t);
        assert(first_token(rest) =~= payload@.subrange(i2 as int, j2 as int));
    }
    if t2.len() == 0 {
        return Err(Pop3Error::InvalidResponse);
    }
    let v2 = match parse_u64_dec(t2.as_slice()) {
        Some(v) => v,
        None => {
            return Err(Pop3Error::InvalidNumber);
        },
    };
    Ok((v1, v2))
}

} // verus!
