//! Little-endian encoding of the 32-bit size field of the container header.

use vstd::arithmetic::div_mod::{
    lemma_div_denominator, lemma_fundamental_div_mod, lemma_small_mod,
};
use vstd::prelude::*;

verus! {

/// The value that four bytes encode as a little-endian unsigned 32-bit
/// integer.
pub open spec fn le32_value(s: Seq<u8>) -> nat
    recommends
        s.len() == 4,
{
    (s[0] + 0x100 * s[1] + 0x1_0000 * s[2] + 0x100_0000 * s[3]) as nat
}

/// The four-byte little-endian encoding of `n`.
pub open spec fn le32_bytes(n: nat) -> Seq<u8>
    recommends
        n < 0x1_0000_0000,
{
    seq![
        (n % 0x100) as u8,
        ((n / 0x100) % 0x100) as u8,
        ((n / 0x1_0000) % 0x100) as u8,
        ((n / 0x100_0000) % 0x100) as u8,
    ]
}

/// Decoding the encoding of a 32-bit value gives the value back.
pub proof fn lemma_le32_round_trip(n: nat)
    requires
        n < 0x1_0000_0000,
    ensures
        le32_value(le32_bytes(n)) == n,
{
    lemma_fundamental_div_mod(n as int, 0x100);
    lemma_fundamental_div_mod(n as int / 0x100, 0x100);
    lemma_fundamental_div_mod(n as int / 0x1_0000, 0x100);
    lemma_fundamental_div_mod(n as int, 0x100_0000);
    lemma_div_denominator(n as int, 0x100, 0x100);
    lemma_div_denominator(n as int, 0x1_0000, 0x100);
    lemma_small_mod(n / 0x100_0000, 0x100);
}

/// Append the little-endian encoding of `n` to `out`.
pub fn push_le32(out: &mut Vec<u8>, n: u32)
    ensures
        final(out)@ == old(out)@ + le32_bytes(n as nat),
{
    out.push((n % 0x100) as u8);
    out.push(((n / 0x100) % 0x100) as u8);
    out.push(((n / 0x1_0000) % 0x100) as u8);
    out.push(((n / 0x100_0000) % 0x100) as u8);
    assert(out@ =~= old(out)@ + le32_bytes(n as nat));
}

/// Read four bytes as a little-endian unsigned 32-bit integer.
pub fn read_le32(b0: u8, b1: u8, b2: u8, b3: u8) -> (r: u32)
    ensures
        r as nat == le32_value(seq![b0, b1, b2, b3]),
{
    b0 as u32 + 0x100 * (b1 as u32) + 0x1_0000 * (b2 as u32) + 0x100_0000 * (b3 as u32)
}

} // verus!
