//! Decimal rendering of integers and the conversion signature string.
//!
//! The conversion endpoint expects a payload of the form
//! `"{tap_epoch_ms}-{now_ms}-{taps}"`; the functions here build that string
//! and are proved to produce exactly the decimal notation of each number.

use vstd::prelude::*;
use vstd::arithmetic::div_mod::lemma_fundamental_div_mod;
use vstd::utf8::{is_ascii_chars, is_ascii_chars_concat};

verus! {

/// The character for one decimal digit.
pub open spec fn digit_char(d: int) -> char {
    if d == 0 {
        '0'
    } else if d == 1 {
        '1'
    } else if d == 2 {
        '2'
    } else if d == 3 {
        '3'
    } else if d == 4 {
        '4'
    } else if d == 5 {
        '5'
    } else if d == 6 {
        '6'
    } else if d == 7 {
        '7'
    } else if d == 8 {
        '8'
    } else {
        '9'
    }
}

/// The decimal notation of a natural number, most significant digit first,
/// with no leading zeros (`0` itself is written as one digit).
pub open spec fn dec_digits(n: nat) -> Seq<char>
    decreases n,
{
    if n < 10 {
        seq![digit_char(n as int)]
    } else {
        dec_digits(n / 10).push(digit_char((n % 10) as int))
    }
}

/// The decimal notation of an integer: a `-` sign for negative values,
/// then the digits of the magnitude.
pub open spec fn dec_int(n: int) -> Seq<char> {
    if n < 0 {
        seq!['-'] + dec_digits((-n) as nat)
    } else {
        dec_digits(n as nat)
    }
}

fn digit_str(d: u64) -> (s: &'static str)
    requires
        d < 10,
    ensures
        s@ == seq![digit_char(d as int)],
{
    let s: &'static str = if d == 0 {
        "0"
    } else if d == 1 {
        "1"
    } else if d == 2 {
        "2"
    } else if d == 3 {
        "3"
    } else if d == 4 {
        "4"
    } else if d == 5 {
        "5"
    } else if d == 6 {
        "6"
    } else if d == 7 {
        "7"
    } else if d == 8 {
        "8"
    } else {
        "9"
    };
    proof {
        reveal_strlit("0");
        reveal_strlit("1");
        reveal_strlit("2");
        reveal_strlit("3");
        reveal_strlit("4");
        reveal_strlit("5");
        reveal_strlit("6");
        reveal_strlit("7");
        reveal_strlit("8");
        reveal_strlit("9");
        assert(s@ =~= seq![digit_char(d as int)]);
    }
    s
}

/// Renders a `u64` in decimal.
pub fn u64_to_dec(n: u64) -> (s: String)
    ensures
        s@ == dec_digits(n as nat),
    decreases n,
{
    if n < 10 {
        digit_str(n).to_owned()
    } else {
        let mut s = u64_to_dec(n / 10);
        s.append(digit_str(n % 10));
        proof {
            assert(s@ =~= dec_digits(n as nat));
        }
        s
    }
}

/// Renders an `i64` in decimal, with a `-` sign for negative values.
pub fn i64_to_dec(n: i64) -> (s: String)
    ensures
        s@ == dec_int(n as int),
{
    if n >= 0 {
        u64_to_dec(n as u64)
    } else {
        let wide: i128 = -(n as i128);
        let mag: u64 = wide as u64;
        let mut s = "-".to_owned();
        let digits = u64_to_dec(mag);
        s.append(digits.as_str());
        proof {
            reveal_strlit("-");
            assert(s@ =~= dec_int(n as int));
        }
        s
    }
}

/// The payload the conversion endpoint is given: the three numbers in
/// decimal, separated by `-`.
pub open spec fn spec_signature(tap_epoch_ms: int, now_ms: int, taps: int) -> Seq<char> {
    dec_int(tap_epoch_ms) + seq!['-'] + dec_int(now_ms) + seq!['-'] + dec_int(taps)
}

/// Builds `"{tap_epoch_ms}-{now_ms}-{taps}"`.
pub fn signature_for(tap_epoch_ms: i64, now_ms: i64, taps: i64) -> (r: String)
    ensures
        r@ == spec_signature(tap_epoch_ms as int, now_ms as int, taps as int),
{
    let mut out = i64_to_dec(tap_epoch_ms);
    out.append("-");
    let mid = i64_to_dec(now_ms);
    out.append(mid.as_str());
    out.append("-");
    let last = i64_to_dec(taps);
    out.append(last.as_str());
    proof {
        reveal_strlit("-");
        assert(out@ =~= spec_signature(tap_epoch_ms as int, now_ms as int, taps as int));
    }
    out
}

/// Ten to the `k`-th power.
pub open spec fn pow10(k: nat) -> nat
    decreases k,
{
    if k == 0 {
        1
    } else {
        10 * pow10((k - 1) as nat)
    }
}

/// A number below `10^digits` is written with at most `digits` digits.
pub proof fn lemma_dec_digits_len(n: nat, digits: nat)
    requires
        1 <= digits,
        n < pow10(digits),
    ensures
        1 <= dec_digits(n).len() <= digits,
    decreases digits,
{
    if n < 10 {
    } else {
        if digits == 1 {
            assert(pow10(0) == 1);
            assert(pow10(1) == 10);
            assert(false);
        }
        let d1 = (digits - 1) as nat;
        assert(pow10(digits) == 10 * pow10(d1));
        assert(n / 10 < pow10(d1)) by {
            lemma_fundamental_div_mod(n as int, 10);
            if n / 10 >= pow10(d1) {
                assert(10 * (n / 10) >= 10 * pow10(d1)) by (nonlinear_arith)
                    requires
                        n / 10 >= pow10(d1),
                ;
                assert(false);
            }
        }
        lemma_dec_digits_len(n / 10, d1);
    }
}

/// Any `u64` is written with at most twenty digits.
pub proof fn lemma_dec_digits_len_u64(n: nat)
    requires
        n <= 0xffff_ffff_ffff_ffff,
    ensures
        1 <= dec_digits(n).len() <= 20,
{
    reveal_with_fuel(pow10, 21);
    assert(pow10(20) == 100000000000000000000);
    lemma_dec_digits_len(n, 20);
}

/// Decimal digits are ASCII characters.
pub proof fn lemma_dec_digits_ascii(n: nat)
    ensures
        is_ascii_chars(dec_digits(n)),
    decreases n,
{
    if n < 10 {
    } else {
        lemma_dec_digits_ascii(n / 10);
    }
}

/// The notation of any value in `i64` range: ASCII throughout, at most
/// twenty-one characters.
pub proof fn lemma_dec_int_bounds(n: int)
    requires
        i64::MIN <= n <= i64::MAX,
    ensures
        is_ascii_chars(dec_int(n)),
        1 <= dec_int(n).len() <= 21,
{
    if n < 0 {
        let mag = (-n) as nat;
        lemma_dec_digits_ascii(mag);
        lemma_dec_digits_len_u64(mag);
        assert(dec_int(n) == seq!['-'] + dec_digits(mag));
        assert(is_ascii_chars(seq!['-']));
        is_ascii_chars_concat(dec_int(n), seq!['-'], dec_digits(mag));
    } else {
        lemma_dec_digits_ascii(n as nat);
        lemma_dec_digits_len_u64(n as nat);
    }
}

/// The signature of any three values in `i64` range: ASCII throughout, at
/// most sixty-five characters.
pub proof fn lemma_signature_bounds(a: int, b: int, c: int)
    requires
        i64::MIN <= a <= i64::MAX,
        i64::MIN <= b <= i64::MAX,
        i64::MIN <= c <= i64::MAX,
    ensures
        is_ascii_chars(spec_signature(a, b, c)),
        spec_signature(a, b, c).len() <= 65,
{
    lemma_dec_int_bounds(a);
    lemma_dec_int_bounds(b);
    lemma_dec_int_bounds(c);
    assert(is_ascii_chars(seq!['-']));
    let p1 = dec_int(a) + seq!['-'];
    let p2 = p1 + dec_int(b);
    let p3 = p2 + seq!['-'];
    let p4 = p3 + dec_int(c);
    is_ascii_chars_concat(p1, dec_int(a), seq!['-']);
    is_ascii_chars_concat(p2, p1, dec_int(b));
    is_ascii_chars_concat(p3, p2, seq!['-']);
    is_ascii_chars_concat(p4, p3, dec_int(c));
    assert(spec_signature(a, b, c) =~= p4);
}

/// Builds `"{s}-{ts}-{d}"` where `ts` is the clock's reading at the moment
/// of the call. The clock's value is not pinned, so the contract only says
/// the result is the signature of the two arguments and some such reading.
pub fn concat_str(s: i64, d: i64) -> (r: String)
    ensures
        exists|ts: int|
            i64::MIN <= ts <= i64::MAX && r@ == #[trigger] spec_signature(
                s as int,
                ts,
                d as int,
            ),
{
    let ts = crate::utils::get_current_timestamp();
    let r = signature_for(s, ts, d);
    proof {
        assert(r@ == spec_signature(s as int, ts as int, d as int));
    }
    r
}

} // verus!
