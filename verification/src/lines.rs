//! Splitting a payload into its lines and joining lines back together —
//! the post-processing a retrieved message goes through.

use vstd::prelude::*;

use crate::framer::copy_range;
use crate::wire::{
    lemma_line_len_bounds, lemma_line_len_from_scan, line_content, line_len, skip_line, take_line,
    CR, LF,
};

verus! {

/// The views of a sequence of byte vectors.
pub open spec fn views_of(parts: Seq<Vec<u8>>) -> Seq<Seq<u8>> {
    Seq::new(parts.len(), |i: int| parts[i]@)
}

/// The lines of `payload`, in order, each without its end-of-line marker. A
/// final line without a marker still counts as a line; the empty tail after
/// a final line feed does not.
pub open spec fn split_lines(payload: Seq<u8>) -> Seq<Seq<u8>>
    decreases payload.len(),
{
    if payload.len() == 0 {
        Seq::empty()
    } else {
        let line = take_line(payload);
        let rest = skip_line(payload);
        proof {
            lemma_line_len_bounds(payload);
        }
        seq![line_content(line)] + split_lines(rest)
    }
}

/// `parts` joined with `separator` between consecutive parts.
pub open spec fn joined(parts: Seq<Seq<u8>>, separator: u8) -> Seq<u8>
    decreases parts.len(),
{
    if parts.len() == 0 {
        Seq::empty()
    } else if parts.len() == 1 {
        parts[0]
    } else {
        parts[0] + seq![separator] + joined(parts.skip(1), separator)
    }
}

/// Joining one more part appends one separator and the part.
proof fn lemma_joined_push(parts: Seq<Seq<u8>>, separator: u8, x: Seq<u8>)
    ensures
        joined(parts.push(x), separator) == if parts.len() == 0 {
            x
        } else {
            joined(parts, separator) + seq![separator] + x
        },
    decreases parts.len(),
{
    if parts.len() == 0 {
        assert(parts.push(x)[0] == x);
    } else if parts.len() == 1 {
        assert(parts.push(x).skip(1) =~= seq![x]);
        assert(joined(seq![x], separator) == x);
    } else {
        assert(parts.push(x).skip(1) =~= parts.skip(1).push(x));
        lemma_joined_push(parts.skip(1), separator, x);
        assert(parts.push(x)[0] == parts[0]);
        assert(parts[0] + seq![separator] + (joined(parts.skip(1), separator) + seq![separator]
            + x) =~= (parts[0] + seq![separator] + joined(parts.skip(1), separator))
            + seq![separator] + x);
    }
}

/// Split `payload` into its lines, each without its end-of-line marker.
pub fn split_message_lines(payload: &Vec<u8>) -> (r: Vec<Vec<u8>>)
    ensures
        views_of(r@) == split_lines(payload@),
{
    let n = payload.len();
    let mut r: Vec<Vec<u8>> = Vec::new();
    let mut i: usize = 0;
    proof {
        assert(payload@.skip(0) =~= payload@);
        assert(views_of(r@) + split_lines(payload@) =~= split_lines(payload@));
    }
    while i < n
        invariant
            i <= n,
            n == payload@.len(),
            split_lines(payload@) == views_of(r@) + split_lines(payload@.skip(i as int)),
        decreases n - i,
    {
        let mut j = i;
        while j < n && payload[j] != LF
            invariant
                i <= j <= n,
                n == payload@.len(),
                forall|k: int| i <= k < j ==> payload@[k] != LF,
            decreases n - j,
        {
            j = j + 1;
        }
        let line_end = if j < n {
            j + 1
        } else {
            j
        };
        let content_end = if j < n && j > i && payload[j - 1] == CR {
            j - 1
        } else {
            j
        };
        let content = copy_range(payload, i, content_end);
        proof {
            let suffix = payload@.skip(i as int);
            assert forall|k: int| 0 <= k < j - i implies suffix[k] != LF by {
                assert(payload@[i + k] != LF);
            }
            lemma_line_len_from_scan(suffix, (j - i) as int);
            assert(line_len(suffix) == line_end - i);
            assert(take_line(suffix) =~= payload@.subrange(i as int, line_end as int));
            assert(line_content(take_line(suffix)) =~= payload@.subrange(
                i as int,
                content_end as int,
            ));
            assert(skip_line(suffix) =~= payload@.skip(line_end as int));
            assert(views_of(r@.push(content)) =~= views_of(r@).push(content@));
            assert(views_of(r@) + (seq![content@] + split_lines(payload@.skip(line_end as int)))
                =~= views_of(r@).push(content@) + split_lines(payload@.skip(line_end as int)));
        }
        r.push(content);
        i = line_end;
    }
    proof {
        assert(views_of(r@) + split_lines(payload@.skip(n as int)) =~= views_of(r@));
    }
    r
}

/// Concatenate `parts`, writing `separator` between consecutive parts and
/// nothing around them; empty when `parts` is.
pub fn join_bytes(parts: &Vec<Vec<u8>>, separator: u8) -> (r: Vec<u8>)
    ensures
        r@ == joined(views_of(parts@), separator),
{
    let n = parts.len();
    let mut r: Vec<u8> = Vec::new();
    if n == 0 {
        return r;
    }
    let mut first = copy_range(&parts[0], 0, parts[0].len());
    r.append(&mut first);
    proof {
        assert(r@ =~= views_of(parts@).take(1)[0]);
        assert(joined(views_of(parts@).take(1), separator) == views_of(parts@).take(1)[0]);
    }
    let mut k: usize = 1;
    while k < n
        invariant
            1 <= k <= n,
            n == parts@.len(),
            r@ == joined(views_of(parts@).take(k as int), separator),
        decreases n - k,
    {
        r.push(separator);
        let mut part = copy_range(&parts[k], 0, parts[k].len());
        r.append(&mut part);
        proof {
            let vs = views_of(parts@);
            lemma_joined_push(vs.take(k as int), separator, vs[k as int]);
            assert(vs.take(k + 1) =~= vs.take(k as int).push(vs[k as int]));
            assert(parts@[k as int]@.subrange(0, parts@[k as int]@.len() as int) =~= vs[k as int]);
            assert(r@ =~= joined(vs.take(k as int), separator) + seq![separator] + vs[k as int]);
        }
        k = k + 1;
    }
    proof {
        assert(views_of(parts@).take(n as int) =~= views_of(parts@));
    }
    r
}

/// What a retrieved message hands the caller: the payload with its first
/// line dropped and the remaining lines joined with a single line feed.
pub open spec fn retr_body(payload: Seq<u8>) -> Seq<u8> {
    let ls = split_lines(payload);
    if ls.len() <= 1 {
        Seq::empty()
    } else {
        joined(ls.skip(1), LF)
    }
}

/// See [`retr_body`].
pub(crate) fn extract_retr_body(payload: &Vec<u8>) -> (r: Vec<u8>)
    ensures
        r@ == retr_body(payload@),
{
    let mut ls = split_message_lines(payload);
    if ls.len() <= 1 {
        return Vec::new();
    }
    let ghost before = ls@;
    let _first = ls.remove(0);
    proof {
        assert(views_of(ls@) =~= views_of(before).skip(1));
    }
    join_bytes(&ls, LF)
}

} // verus!
