//! Rendering of a byte count, plain or scaled to a binary unit.

use vstd::prelude::*;
use crate::text::{decimal, digit, digit_char, push_decimal, text_of};

verus! {

/// `1024` to the power `k`.
pub open spec fn pow1024(k: nat) -> nat
    decreases k,
{
    if k == 0 { 1 } else { 1024 * pow1024((k - 1) as nat) }
}

/// The unit reached by dividing by 1024 while the value is at least 1024 and
/// a larger unit remains, counting from unit `k`.
pub open spec fn tier_from(size: nat, k: nat) -> nat
    decreases 5 - k,
{
    if k < 5 && size >= pow1024(k + 1) { tier_from(size, k + 1) } else { k }
}

/// The letters of the units: bytes, kibi-, mebi-, gibi-, tebi-, pebibytes.
pub open spec fn unit_char(k: nat) -> char {
    if k == 0 { 'B' }
    else if k == 1 { 'K' }
    else if k == 2 { 'M' }
    else if k == 3 { 'G' }
    else if k == 4 { 'T' }
    else { 'P' }
}

/// `n / d` rounded to the nearest integer, ties to the even one.
pub open spec fn round_half_even(n: nat, d: nat) -> nat
    recommends
        d > 0,
{
    let q = n / d;
    let r = n % d;
    if 2 * r > d || (2 * r == d && q % 2 == 1) { q + 1 } else { q }
}

/// The human-readable size: whole bytes below 1024; one decimal place for a
/// scaled value below 10; none above.
pub open spec fn human_size(size: nat) -> Seq<char> {
    if size == 0 {
        seq!['0', 'B']
    } else {
        let k = tier_from(size, 0);
        let d = pow1024(k);
        if k == 0 {
            decimal(size).push('B')
        } else if size >= 10 * d {
            decimal(round_half_even(size, d)).push(unit_char(k))
        } else {
            let t = round_half_even(10 * size, d);
            decimal(t / 10).push('.').push(digit_char(t % 10)).push(unit_char(k))
        }
    }
}

/// The size field: the plain byte count, or the human-readable form.
pub open spec fn size_text(size: nat, human: bool) -> Seq<char> {
    if human { human_size(size) } else { decimal(size) }
}

proof fn lemma_pow_values()
    ensures
        pow1024(0) == 1,
        pow1024(1) == 1024,
        pow1024(2) == 1048576,
        pow1024(3) == 1073741824,
        pow1024(4) == 1099511627776,
        pow1024(5) == 1125899906842624,
{
    reveal_with_fuel(pow1024, 6);
}

fn unit(k: u64) -> (c: char)
    ensures
        c == unit_char(k as nat),
{
    if k == 0 { 'B' }
    else if k == 1 { 'K' }
    else if k == 2 { 'M' }
    else if k == 3 { 'G' }
    else if k == 4 { 'T' }
    else { 'P' }
}

fn round_div(n: u64, d: u64) -> (r: u64)
    requires
        0 < d <= 1125899906842624,
    ensures
        r == round_half_even(n as nat, d as nat),
{
    let q = n / d;
    let rem = n % d;
    assert(q <= n) by (nonlinear_arith)
        requires q == n / d, d > 0;
    if 2 * rem > d || (2 * rem == d && q % 2 == 1) {
        assert(q < 0xffff_ffff_ffff_ffff) by (nonlinear_arith)
            requires q == n / d, d >= 2, n <= 0xffff_ffff_ffff_ffff;
        q + 1
    } else {
        q
    }
}

/// The scaled size text for a nonzero size.
fn human_chars(size: u64) -> (r: Vec<char>)
    ensures
        r@ == human_size(size as nat),
{
    let mut out: Vec<char> = Vec::new();
    if size == 0 {
        out.push('0');
        out.push('B');
        assert(out@ =~= human_size(0));
        return out;
    }
    proof { lemma_pow_values(); }
    let mut k: u64 = 0;
    let mut d: u64 = 1;
    while k < 5 && size >= d * 1024
        invariant
            k <= 5,
            d as nat == pow1024(k as nat),
            tier_from(size as nat, 0) == tier_from(size as nat, k as nat),
            pow1024(0) == 1,
            pow1024(1) == 1024,
            pow1024(2) == 1048576,
            pow1024(3) == 1073741824,
            pow1024(4) == 1099511627776,
            pow1024(5) == 1125899906842624,
        decreases 5 - k,
    {
        assert(pow1024((k + 1) as nat) == 1024 * pow1024(k as nat));
        d = d * 1024;
        k = k + 1;
    }
    assert(tier_from(size as nat, k as nat) == k);
    if k == 0 {
        push_decimal(&mut out, size);
        out.push('B');
    } else if size / 10 >= d {
        push_decimal(&mut out, round_div(size, d));
        out.push(unit(k));
    } else {
        assert(size < 10 * d);
        let t = round_div(10 * size, d);
        assert(t <= 100) by (nonlinear_arith)
            requires
                t == round_half_even((10 * size) as nat, d as nat),
                size < 10 * d,
                d > 0;
        push_decimal(&mut out, t / 10);
        out.push('.');
        out.push(digit(t % 10));
        out.push(unit(k));
    }
    assert(out@ =~= human_size(size as nat));
    out
}

/// The size field of the long listing.
pub fn size_chars(size: u64, human_readable: bool) -> (r: Vec<char>)
    ensures
        r@ == size_text(size as nat, human_readable),
{
    if human_readable {
        human_chars(size)
    } else {
        let mut out: Vec<char> = Vec::new();
        push_decimal(&mut out, size);
        assert(out@ =~= decimal(size as nat));
        out
    }
}

/// A byte count as text: `1536` is `1536`, or `1.5K` when human-readable.
pub fn format_size(size: u64, human_readable: bool) -> (r: String)
    ensures
        r@ == size_text(size as nat, human_readable),
{
    let v = size_chars(size, human_readable);
    text_of(&v)
}

} // verus!
