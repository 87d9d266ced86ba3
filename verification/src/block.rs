//! The boundary to the LZ4 block primitive.
//!
//! The codec delegates the payload transform to `lz4_flex`'s block codec.
//! Both directions are deterministic functions of their arguments, so their
//! results are given names (`lz4_block`, `lz4_unblock`) that the codec's
//! contracts speak of; nothing else is assumed of the compressed
//! representation itself.

use vstd::prelude::*;

verus! {

/// The LZ4 block that compressing `input` produces. Compression is a pure,
/// deterministic function of the input bytes alone.
pub uninterp spec fn lz4_block(input: Seq<u8>) -> Seq<u8>;

/// What decoding `block` with output capacity `capacity` yields: the decoded
/// bytes, or `None` where the block is rejected as malformed or its decoded
/// form would not fit in `capacity` bytes. A pure, deterministic function of
/// the two arguments.
pub uninterp spec fn lz4_unblock(block: Seq<u8>, capacity: nat) -> Option<Seq<u8>>;

#[verifier::external_type_specification]
#[verifier::external_body]
pub struct ExDecompressError(lz4_flex::block::DecompressError);

/// Relies on `lz4_flex::block::compress`: it compresses the whole input into
/// a freshly allocated LZ4 block, deterministically, and cannot fail.
#[verifier::external_body]
pub(crate) fn lz4_compress(input: &[u8]) -> (r: Vec<u8>)
    requires
        input@.len() <= u32::MAX,
    ensures
        r@ == lz4_block(input@),
{
    lz4_flex::block::compress(input)
}

/// Relies on `lz4_flex::block::decompress` (safe decoder): it decodes a block
/// into at most `capacity` bytes, returns an error on any malformed or
/// oversized block rather than panicking, and returns exactly the original
/// bytes when handed a block that `lz4_flex::block::compress` produced and a
/// capacity at least as large as that original input.
#[verifier::external_body]
pub(crate) fn lz4_decompress(block: &[u8], capacity: usize) -> (r: Result<
    Vec<u8>,
    lz4_flex::block::DecompressError,
>)
    ensures
        r matches Ok(v) ==> lz4_unblock(block@, capacity as nat) == Some(v@),
        r is Err ==> lz4_unblock(block@, capacity as nat) is None,
        forall|b: Seq<u8>|
            block@ == #[trigger] lz4_block(b) && b.len() <= capacity ==> r is Ok && r->Ok_0@ == b,
{
    lz4_flex::block::decompress(block, capacity)
}

} // verus!
