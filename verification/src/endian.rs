//! Big-endian byte strings of a fixed width.

use vstd::prelude::*;

verus! {

/// The number that a byte string denotes, most significant byte first.
pub open spec fn be_value(bytes: Seq<u8>) -> nat
    decreases bytes.len(),
{
    if bytes.len() == 0 {
        0
    } else {
        be_value(bytes.drop_last()) * 256 + bytes.last() as nat
    }
}

/// The `width` low-order bytes of `value`, most significant byte first.
pub open spec fn be_bytes(value: nat, width: nat) -> Seq<u8>
    decreases width,
{
    if width == 0 {
        Seq::empty()
    } else {
        be_bytes(value / 256, (width - 1) as nat).push((value % 256) as u8)
    }
}

/// Whether `value` can be written in `width` bytes.
pub open spec fn fits(value: nat, width: nat) -> bool
    decreases width,
{
    if width == 0 {
        value == 0
    } else {
        fits(value / 256, (width - 1) as nat)
    }
}

/// A byte string of `n` zero bytes.
pub open spec fn zeros(n: nat) -> Seq<u8> {
    Seq::new(n, |i: int| 0u8)
}

/// `be_bytes` gives exactly `width` bytes.
pub proof fn lemma_be_bytes_len(value: nat, width: nat)
    ensures
        be_bytes(value, width).len() == width,
    decreases width,
{
    if width > 0 {
        lemma_be_bytes_len(value / 256, (width - 1) as nat);
    }
}

/// Writing a number that fits and reading it again gives the number back.
pub proof fn lemma_value_of_bytes(value: nat, width: nat)
    requires
        fits(value, width),
    ensures
        be_value(be_bytes(value, width)) == value,
    decreases width,
{
    if width > 0 {
        let rest = be_bytes(value / 256, (width - 1) as nat);
        lemma_value_of_bytes(value / 256, (width - 1) as nat);
        assert(be_bytes(value, width).drop_last() =~= rest);
        assert(be_bytes(value, width).last() == (value % 256) as u8);
    }
}

/// Every byte string is the writing of the number it denotes, and that number fits.
pub proof fn lemma_bytes_of_value(bytes: Seq<u8>)
    ensures
        fits(be_value(bytes), bytes.len()),
        be_bytes(be_value(bytes), bytes.len()) == bytes,
    decreases bytes.len(),
{
    if bytes.len() > 0 {
        let front = bytes.drop_last();
        lemma_bytes_of_value(front);
        let v = be_value(bytes);
        assert(v / 256 == be_value(front));
        assert(v % 256 == bytes.last() as nat);
        assert(be_bytes(v, bytes.len()) =~= bytes);
    }
}

/// Two numbers that fit and are written alike are the same number.
pub proof fn lemma_be_bytes_injective(a: nat, b: nat, width: nat)
    requires
        fits(a, width),
        fits(b, width),
        be_bytes(a, width) == be_bytes(b, width),
    ensures
        a == b,
{
    lemma_value_of_bytes(a, width);
    lemma_value_of_bytes(b, width);
}

/// A number that fits in `width` bytes fits in any greater width, where it is
/// written with zero bytes in front.
pub proof fn lemma_be_bytes_padding(value: nat, width: nat, pad: nat)
    requires
        fits(value, width),
    ensures
        fits(value, width + pad),
        be_bytes(value, width + pad) == zeros(pad) + be_bytes(value, width),
    decreases width,
{
    if width == 0 {
        lemma_zero_bytes(pad);
        assert(zeros(pad) + be_bytes(value, 0) =~= zeros(pad));
    } else {
        lemma_be_bytes_padding(value / 256, (width - 1) as nat, pad);
        let low = (value % 256) as u8;
        assert((width + pad - 1) as nat == (width - 1) as nat + pad);
        assert((zeros(pad) + be_bytes(value / 256, (width - 1) as nat)).push(low) =~= zeros(pad)
            + be_bytes(value, width));
    }
}

/// Zero fits in any width and is written with zero bytes only.
pub proof fn lemma_zero_bytes(width: nat)
    ensures
        fits(0, width),
        be_bytes(0, width) == zeros(width),
    decreases width,
{
    if width > 0 {
        lemma_zero_bytes((width - 1) as nat);
        assert(be_bytes(0, width) =~= zeros(width));
    }
}

/// What fits in a `u32`, a `u64` and a `u128`.
pub proof fn lemma_fits_machine_words(value: nat)
    ensures
        fits(value, 4) <==> value <= u32::MAX,
        fits(value, 8) <==> value <= u64::MAX,
        fits(value, 16) <==> value <= u128::MAX,
{
    reveal_with_fuel(fits, 17);
}

/// A byte string denotes at least what any of its prefixes denotes.
pub proof fn lemma_prefix_value(bytes: Seq<u8>, len: int)
    requires
        0 <= len <= bytes.len(),
    ensures
        be_value(bytes.subrange(0, len)) <= be_value(bytes),
    decreases bytes.len() - len,
{
    if len < bytes.len() {
        lemma_prefix_value(bytes.drop_last(), len);
        assert(bytes.drop_last().subrange(0, len) =~= bytes.subrange(0, len));
    } else {
        assert(bytes.subrange(0, len) =~= bytes);
    }
}

/// Writes `value` in `width` bytes, most significant byte first. A value that
/// does not fit is refused, never cut short.
pub fn be_encode(value: u128, width: usize) -> (out: Option<Vec<u8>>)
    ensures
        out is Some <==> fits(value as nat, width as nat),
        out matches Some(bytes) ==> bytes@ == be_bytes(value as nat, width as nat),
{
    let mut bytes: Vec<u8> = Vec::new();
    let mut k: usize = 0;
    while k < width
        invariant
            k <= width,
            bytes.len() == k,
        decreases width - k,
    {
        bytes.push(0u8);
        k += 1;
    }
    let mut rest: u128 = value;
    let mut i: usize = 0;
    assert(bytes@.subrange(width as int, width as int) =~= Seq::<u8>::empty());
    assert(be_bytes(value as nat, width as nat) =~= be_bytes(value as nat, width as nat)
        + Seq::<u8>::empty());
    while i < width
        invariant
            i <= width,
            bytes.len() == width,
            be_bytes(value as nat, width as nat) == be_bytes(rest as nat, (width - i) as nat)
                + bytes@.subrange(width - i, width as int),
            fits(value as nat, width as nat) == fits(rest as nat, (width - i) as nat),
        decreases width - i,
    {
        let ghost before = bytes@;
        let low: u8 = (rest % 256) as u8;
        bytes.set(width - 1 - i, low);
        assert(bytes@.subrange(width - i - 1, width as int) =~= seq![low] + before.subrange(
            width - i,
            width as int,
        ));
        assert(be_bytes(rest as nat, (width - i) as nat) == be_bytes(
            rest as nat / 256,
            (width - i - 1) as nat,
        ).push(low));
        assert(be_bytes(rest as nat / 256, (width - i - 1) as nat).push(low) + before.subrange(
            width - i,
            width as int,
        ) =~= be_bytes(rest as nat / 256, (width - i - 1) as nat) + (seq![low] + before.subrange(
            width - i,
            width as int,
        )));
        rest = rest / 256;
        i += 1;
    }
    assert(bytes@.subrange(0, width as int) =~= bytes@);
    assert(Seq::<u8>::empty() + bytes@ =~= bytes@);
    if rest == 0 {
        Some(bytes)
    } else {
        None
    }
}

/// Reads the number that `bytes` denote, most significant byte first. A
/// number beyond 128 bits is refused.
pub fn be_decode(bytes: &[u8]) -> (out: Option<u128>)
    ensures
        out is Some <==> be_value(bytes@) <= u128::MAX,
        out matches Some(value) ==> value == be_value(bytes@),
{
    let mut acc: u128 = 0;
    let mut i: usize = 0;
    assert(bytes@.subrange(0, 0) =~= Seq::<u8>::empty());
    while i < bytes.len()
        invariant
            i <= bytes.len(),
            acc == be_value(bytes@.subrange(0, i as int)),
        decreases bytes.len() - i,
    {
        let byte = bytes[i];
        let ghost next = bytes@.subrange(0, i + 1);
        assert(next.drop_last() =~= bytes@.subrange(0, i as int));
        assert(next.last() == byte);
        if acc > (u128::MAX - byte as u128) / 256 {
            proof {
                lemma_prefix_value(bytes@, i + 1);
            }
            return None;
        }
        acc = acc * 256 + byte as u128;
        i += 1;
    }
    assert(bytes@.subrange(0, bytes@.len() as int) =~= bytes@);
    Some(acc)
}

} // verus!
