//! Rendering numbers as text, for error messages and file names.

use vstd::prelude::*;

use crate::decimal::{Dec, SCALE};

verus! {

/// Base-ten ASCII digits of `n`, most significant first.
pub open spec fn digits10(n: nat) -> Seq<u8>
    decreases n,
{
    if n < 10 {
        seq![(48 + n) as u8]
    } else {
        digits10(n / 10).push((48 + n % 10) as u8)
    }
}

/// Every digit byte is ASCII.
pub proof fn lemma_digits10_ascii(n: nat)
    ensures
        forall|i: int| 0 <= i < digits10(n).len() ==> 48 <= #[trigger] digits10(n)[i] < 58,
    decreases n,
{
    if n >= 10 {
        lemma_digits10_ascii(n / 10);
        let s = digits10(n / 10);
        assert forall|i: int| 0 <= i < digits10(n).len() implies 48 <= #[trigger] digits10(n)[i]
            < 58 by {
            if i < s.len() {
                assert(digits10(n)[i] == s[i]);
            } else {
                assert(digits10(n)[i] == (48 + n % 10) as u8);
            }
        }
    }
}

/// Relies on String::from_utf8: ASCII bytes decode to the string of
/// exactly those characters.
#[verifier::external_body]
pub fn ascii_string(v: Vec<u8>) -> (r: String)
    requires
        forall|i: int| 0 <= i < v@.len() ==> #[trigger] v@[i] < 128,
    ensures
        r@ == v@.map_values(|b: u8| b as char),
{
    String::from_utf8(v).unwrap_or_default()
}

/// Append the base-ten digits of `n` to `out`.
pub fn push_digits(n: u128, out: &mut Vec<u8>)
    ensures
        final(out)@ == old(out)@ + digits10(n as nat),
    decreases n,
{
    if n < 10 {
        out.push((48 + n) as u8);
    } else {
        push_digits(n / 10, out);
        out.push((48 + (n % 10)) as u8);
    }
}

/// The base-ten text of `n`.
pub fn u64_text(n: u64) -> (r: String)
    ensures
        r@ == digits10(n as nat).map_values(|b: u8| b as char),
{
    let mut out: Vec<u8> = Vec::new();
    push_digits(n as u128, &mut out);
    proof {
        lemma_digits10_ascii(n as nat);
    }
    ascii_string(out)
}

/// The base-ten text of `n`.
pub fn u128_text(n: u128) -> (r: String)
    ensures
        r@ == digits10(n as nat).map_values(|b: u8| b as char),
{
    let mut out: Vec<u8> = Vec::new();
    push_digits(n, &mut out);
    proof {
        lemma_digits10_ascii(n as nat);
    }
    ascii_string(out)
}

/// The six digits of a fraction of one, in millionths.
pub open spec fn frac_digits(f: nat) -> Seq<u8> {
    seq![
        (48 + (f / 100000) % 10) as u8,
        (48 + (f / 10000) % 10) as u8,
        (48 + (f / 1000) % 10) as u8,
        (48 + (f / 100) % 10) as u8,
        (48 + (f / 10) % 10) as u8,
        (48 + f % 10) as u8,
    ]
}

/// Characters of the base-ten rendering of a fixed-point value: the
/// sign, the integer part, and - when the value is not integral - a
/// point followed by the six-digit fraction.
pub open spec fn dec_text_bytes(m: int) -> Seq<u8> {
    let a = if m < 0 {
        -m
    } else {
        m
    };
    let whole = (a / (SCALE as int)) as nat;
    let frac = (a % (SCALE as int)) as nat;
    let sign: Seq<u8> = if m < 0 {
        seq![45u8]
    } else {
        Seq::empty()
    };
    if frac == 0 {
        sign + digits10(whole)
    } else {
        sign + digits10(whole) + seq![46u8] + frac_digits(frac)
    }
}

/// Render a fixed-point value, e.g. `-3.5` is rendered with its full
/// six-digit fraction as `-3.500000`, and `1000` as `1000`.
pub fn dec_text(d: Dec) -> (r: String)
    requires
        d.m > i128::MIN,
    ensures
        r@ == dec_text_bytes(d.m as int).map_values(|b: u8| b as char),
{
    let mut out: Vec<u8> = Vec::new();
    let a: i128 = if d.m < 0 {
        out.push(45);
        -d.m
    } else {
        d.m
    };
    let whole: u128 = (a / SCALE) as u128;
    let frac: u64 = (a % SCALE) as u64;
    proof {
        vstd::arithmetic::div_mod::lemma_div_pos_is_pos(a as int, SCALE as int);
        vstd::arithmetic::div_mod::lemma_mod_division_less_than_divisor(a as int, SCALE as int);
    }
    push_digits(whole, &mut out);
    if frac != 0 {
        out.push(46);
        out.push(48 + ((frac / 100000) % 10) as u8);
        out.push(48 + ((frac / 10000) % 10) as u8);
        out.push(48 + ((frac / 1000) % 10) as u8);
        out.push(48 + ((frac / 100) % 10) as u8);
        out.push(48 + ((frac / 10) % 10) as u8);
        out.push(48 + (frac % 10) as u8);
    }
    proof {
        lemma_digits10_ascii(whole as nat);
        assert(out@ =~= dec_text_bytes(d.m as int));
    }
    ascii_string(out)
}

} // verus!
