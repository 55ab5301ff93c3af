//! Byte-level building blocks for canonical messages and hash preimages.

use vstd::prelude::*;

verus! {

/// ASCII code of the digit `0`.
pub const DIGIT_ZERO: u8 = 48;

/// Number of fractional units in one whole token amount.
pub const AMOUNT_SCALE: u64 = 1000000;

/// The decimal rendering of `n`, most significant digit first, without
/// leading zeros.
pub open spec fn decimal(n: nat) -> Seq<u8>
    decreases n,
{
    if n < 10 {
        seq![(DIGIT_ZERO + n) as u8]
    } else {
        decimal(n / 10).push((DIGIT_ZERO + n % 10) as u8)
    }
}

/// The last `k` decimal digits of `n`, zero-padded on the left.
pub open spec fn fixed_digits(n: nat, k: nat) -> Seq<u8>
    decreases k,
{
    if k == 0 {
        Seq::empty()
    } else {
        fixed_digits(n / 10, (k - 1) as nat).push((DIGIT_ZERO + n % 10) as u8)
    }
}

/// Drops trailing `0` digits while more than one digit is left.
pub open spec fn trim_zeros(s: Seq<u8>) -> Seq<u8>
    decreases s.len(),
{
    if s.len() > 1 && s.last() == DIGIT_ZERO {
        trim_zeros(s.drop_last())
    } else {
        s
    }
}

/// The textual form of an amount counted in millionths: the whole part, a
/// point, and the fractional digits without trailing zeros (at least one).
pub open spec fn amount_text(units: nat) -> Seq<u8> {
    decimal(units / AMOUNT_SCALE as nat) + seq![46u8] + trim_zeros(
        fixed_digits(units % AMOUNT_SCALE as nat, 6),
    )
}

/// Eight bytes, most significant first.
pub open spec fn be64(n: u64) -> Seq<u8> {
    seq![
        (n >> 56u64) as u8,
        (n >> 48u64) as u8,
        (n >> 40u64) as u8,
        (n >> 32u64) as u8,
        (n >> 24u64) as u8,
        (n >> 16u64) as u8,
        (n >> 8u64) as u8,
        n as u8,
    ]
}

/// A byte string preceded by its length, so that fields cannot run into
/// one another.
pub open spec fn framed(b: Seq<u8>) -> Seq<u8> {
    be64(b.len() as u64) + b
}

/// Appends the decimal rendering of `n`.
pub fn push_decimal(out: &mut Vec<u8>, n: u64)
    ensures
        final(out)@ == old(out)@ + decimal(n as nat),
    decreases n,
{
    if n >= 10 {
        push_decimal(out, n / 10);
    }
    out.push(DIGIT_ZERO + (n % 10) as u8);
}

fn push_fixed_digits(out: &mut Vec<u8>, n: u64, k: u64)
    ensures
        final(out)@ == old(out)@ + fixed_digits(n as nat, k as nat),
    decreases k,
{
    if k > 0 {
        push_fixed_digits(out, n / 10, k - 1);
        out.push(DIGIT_ZERO + (n % 10) as u8);
    }
}

/// Appends every byte of `b`.
pub fn push_bytes(out: &mut Vec<u8>, b: &[u8])
    ensures
        final(out)@ == old(out)@ + b@,
{
    let ghost start = out@;
    let mut i: usize = 0;
    while i < b.len()
        invariant
            i <= b@.len(),
            out@ == start + b@.subrange(0, i as int),
        decreases b@.len() - i,
    {
        out.push(b[i]);
        i = i + 1;
    }
    assert(b@.subrange(0, b@.len() as int) == b@);
}

/// Appends the eight big-endian bytes of `n`.
pub fn push_be64(out: &mut Vec<u8>, n: u64)
    ensures
        final(out)@ == old(out)@ + be64(n),
{
    out.push((n >> 56u64) as u8);
    out.push((n >> 48u64) as u8);
    out.push((n >> 40u64) as u8);
    out.push((n >> 32u64) as u8);
    out.push((n >> 24u64) as u8);
    out.push((n >> 16u64) as u8);
    out.push((n >> 8u64) as u8);
    out.push(n as u8);
    assert(final(out)@ =~= old(out)@ + be64(n));
}

/// Appends `b` preceded by its length.
pub fn push_framed(out: &mut Vec<u8>, b: &[u8])
    ensures
        final(out)@ == old(out)@ + framed(b@),
{
    push_be64(out, b.len() as u64);
    push_bytes(out, b);
    assert(final(out)@ =~= old(out)@ + framed(b@));
}

/// Appends the textual form of an amount counted in millionths.
pub fn push_amount(out: &mut Vec<u8>, units: u64)
    ensures
        final(out)@ == old(out)@ + amount_text(units as nat),
{
    let ghost start = out@;
    push_decimal(out, units / AMOUNT_SCALE);
    out.push(46u8);
    let mut frac: Vec<u8> = Vec::new();
    push_fixed_digits(&mut frac, units % AMOUNT_SCALE, 6);
    let ghost full = frac@;
    assert(full =~= fixed_digits((units % AMOUNT_SCALE) as nat, 6));
    while frac.len() > 1 && frac[frac.len() - 1] == DIGIT_ZERO
        invariant
            trim_zeros(frac@) == trim_zeros(full),
        decreases frac@.len(),
    {
        frac.pop();
    }
    push_bytes(out, frac.as_slice());
    assert(out@ =~= start + amount_text(units as nat));
}

} // verus!
