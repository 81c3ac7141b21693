//! Decimal numerals: writing a `u64` for a command line and reading one out
//! of a reply field.

use vstd::prelude::*;

use vstd::string::StringExecFns;

verus! {

/// The character for the decimal digit `d % 10`.
pub open spec fn digit_char(d: nat) -> char {
    ((48 + (d % 10)) as u8) as char
}

/// The decimal numeral for `n`, most significant digit first, no sign and no
/// leading zeros (a single zero for zero itself).
pub open spec fn dec_chars(n: nat) -> Seq<char>
    decreases n,
{
    if n < 10 {
        seq![digit_char(n)]
    } else {
        dec_chars(n / 10) + seq![digit_char(n % 10)]
    }
}

/// The one-character string for decimal digit `d`.
fn digit_str(d: u64) -> (r: &'static str)
    requires
        d < 10,
    ensures
        r@ == seq![digit_char(d as nat)],
{
    let r = if d == 0 {
        "0"
    } else if d == 1 {
        "1"
    } else if d == 2 {
        "2"
    } else if d == 3 {
        "3"
    } else if d == 4 {
        "4"
    } else if d == 5 {
        "5"
    } else if d == 6 {
        "6"
    } else if d == 7 {
        "7"
    } else if d == 8 {
        "8"
    } else {
        "9"
    };
    proof {
        reveal_strlit("0");
        reveal_strlit("1");
        reveal_strlit("2");
        reveal_strlit("3");
        reveal_strlit("4");
        reveal_strlit("5");
        reveal_strlit("6");
        reveal_strlit("7");
        reveal_strlit("8");
        reveal_strlit("9");
        assert(r@ =~= seq![digit_char(d as nat)]);
    }
    r
}

/// The decimal numeral of `n` as a string.
pub fn u64_to_dec(n: u64) -> (r: String)
    ensures
        r@ == dec_chars(n as nat),
    decreases n,
{
    if n < 10 {
        digit_str(n).to_owned()
    } else {
        let mut s = u64_to_dec(n / 10);
        s.append(digit_str(n % 10));
        s
    }
}

/// Whether `b` is an ASCII decimal digit.
pub open spec fn is_digit(b: u8) -> bool {
    48 <= b <= 57
}

/// The value of `t` read as a decimal numeral, most significant digit first.
pub open spec fn dec_value(t: Seq<u8>) -> int
    decreases t.len(),
{
    if t.len() == 0 {
        0
    } else {
        dec_value(t.drop_last()) * 10 + (t.last() - 48)
    }
}

/// Whether `t` is a decimal numeral whose value a `u64` can hold: nonempty,
/// digits only, value at most `u64::MAX`. Leading zeros are accepted.
pub open spec fn is_dec_token(t: Seq<u8>) -> bool {
    &&& t.len() > 0
    &&& forall|i: int| 0 <= i < t.len() ==> is_digit(#[trigger] t[i])
    &&& dec_value(t) <= u64::MAX
}

proof fn lemma_dec_value_nonneg(t: Seq<u8>)
    requires
        forall|i: int| 0 <= i < t.len() ==> is_digit(#[trigger] t[i]),
    ensures
        dec_value(t) >= 0,
    decreases t.len(),
{
    if t.len() > 0 {
        lemma_dec_value_nonneg(t.drop_last());
    }
}

/// Reading more digits never shrinks the value.
proof fn lemma_dec_value_grows(t: Seq<u8>, i: int)
    requires
        0 <= i <= t.len(),
        forall|k: int| 0 <= k < t.len() ==> is_digit(#[trigger] t[k]),
    ensures
        dec_value(t.take(i)) <= dec_value(t),
    decreases t.len() - i,
{
    if i < t.len() {
        lemma_dec_value_grows(t, i + 1);
        lemma_dec_value_nonneg(t.take(i));
        assert(t.take(i + 1).drop_last() =~= t.take(i));
        assert(t.take(i + 1).last() == t[i]);
    } else {
        assert(t.take(i) =~= t);
    }
}

/// Read `t` as a decimal `u64`: its value when `t` is a numeral a `u64` can
/// hold, and `None` otherwise (empty, a non-digit byte, or overflow).
pub fn parse_u64_dec(t: &[u8]) -> (r: Option<u64>)
    ensures
        r is Some <==> is_dec_token(t@),
        r matches Some(v) ==> v as int == dec_value(t@),
{
    let n = t.len();
    if n == 0 {
        return None;
    }
    let mut acc: u64 = 0;
    let mut i: usize = 0;
    while i < n
        invariant
            0 < n == t@.len(),
            i <= n,
            forall|k: int| 0 <= k < i ==> is_digit(#[trigger] t@[k]),
            acc as int == dec_value(t@.take(i as int)),
        decreases n - i,
    {
        let b = t[i];
        if b < 48 || b > 57 {
            return None;
        }
        let d = (b - 48) as u64;
        proof {
            assert(t@.take(i + 1).drop_last() =~= t@.take(i as int));
            assert(t@.take(i + 1).last() == t@[i as int]);
        }
        if acc > (u64::MAX - d) / 10 {
            proof {
                vstd::arithmetic::div_mod::lemma_fundamental_div_mod((u64::MAX - d) as int, 10);
                assert(acc * 10 + d > u64::MAX);
                if is_dec_token(t@) {
                    lemma_dec_value_grows(t@, i + 1);
                }
            }
            return None;
        }
        proof {
            vstd::arithmetic::div_mod::lemma_fundamental_div_mod((u64::MAX - d) as int, 10);
            assert(acc * 10 <= u64::MAX - d);
        }
        acc = acc * 10 + d;
        i = i + 1;
    }
    proof {
        assert(t@.take(n as int) =~= t@);
    }
    Some(acc)
}

} // verus!
