//! The format codec: validates and parses the container on decoding, and
//! assembles it on encoding.
//!
//! Container layout, bit-exact for interoperability:
//!
//! ```text
//! offset 0      : 8 bytes, ASCII "mozLz40" + 0x00    (magic)
//! offset 8      : 4 bytes, little-endian uint32      (uncompressed size)
//! offset 12..   : LZ4 block payload
//! ```

use crate::block::{lz4_block, lz4_compress, lz4_decompress, lz4_unblock};
use crate::bytes::{le32_bytes, le32_value, lemma_le32_round_trip, push_le32, read_le32};
use vstd::prelude::*;
use vstd::slice::slice_subrange;

verus! {

/// The fixed eight magic bytes: ASCII `mozLz40` followed by a NUL byte.
pub open spec fn magic() -> Seq<u8> {
    seq![109u8, 111u8, 122u8, 76u8, 122u8, 52u8, 48u8, 0u8]
}

/// A buffer is recognized when it is long enough to hold a full header and
/// begins with the magic bytes.
pub open spec fn recognized(s: Seq<u8>) -> bool {
    s.len() >= 12 && s.subrange(0, 8) == magic()
}

/// The uncompressed size that a recognized buffer's header declares.
pub open spec fn declared_size(s: Seq<u8>) -> nat
    recommends
        recognized(s),
{
    le32_value(s.subrange(8, 12))
}

/// The compressed payload of a recognized buffer: everything after the
/// header.
pub open spec fn payload(s: Seq<u8>) -> Seq<u8>
    recommends
        recognized(s),
{
    s.skip(12)
}

/// The container that `compress` builds for `input`.
pub open spec fn container(input: Seq<u8>) -> Seq<u8> {
    magic() + le32_bytes(input.len()) + lz4_block(input)
}

/// Why a codec operation failed. Every failure is terminal: no partial
/// output is ever returned beside an error.
#[derive(Clone, Copy, Debug, PartialEq, Eq, Structural)]
pub enum Error {
    /// The input is too short to hold a header, or does not begin with the
    /// magic bytes.
    UnrecognizedFormat,
    /// The block decoder rejected the payload, or its decoded form would
    /// exceed the declared size.
    MalformedPayload,
    /// The input is too large for its length to fit in the 32-bit size
    /// field.
    CompressionFailed,
}

impl Error {
    /// The diagnostic message for this error, as a caller would print it.
    pub fn message(&self) -> (r: &'static str)
        ensures
            *self == Error::UnrecognizedFormat ==> r@ == "Unrecognized input file"@,
            *self == Error::MalformedPayload ==> r@ == "Malformed input file"@,
            *self == Error::CompressionFailed ==> r@ == "Compression failed"@,
    {
        match self {
            Error::UnrecognizedFormat => "Unrecognized input file",
            Error::MalformedPayload => "Malformed input file",
            Error::CompressionFailed => "Compression failed",
        }
    }
}

/// Header correctness: a container built from `input` begins with the magic
/// bytes, and its size field decodes to `input`'s length.
pub proof fn lemma_header_correct(input: Seq<u8>)
    requires
        input.len() <= u32::MAX,
    ensures
        container(input).len() >= 12,
        container(input).subrange(0, 8) == magic(),
        le32_value(container(input).subrange(8, 12)) == input.len(),
{
    assert(container(input).subrange(0, 8) =~= magic());
    assert(container(input).subrange(8, 12) =~= le32_bytes(input.len()));
    lemma_le32_round_trip(input.len());
}

/// Round trip: a container built from `input` is recognized, declares
/// `input`'s length, and carries exactly `input`'s compressed block — so by
/// `decompress`'s contract, decoding a buffer that `compress` built from
/// `input` returns `input` itself.
pub proof fn lemma_round_trip(input: Seq<u8>)
    requires
        input.len() <= u32::MAX,
    ensures
        recognized(container(input)),
        declared_size(container(input)) == input.len(),
        payload(container(input)) == lz4_block(input),
{
    lemma_header_correct(input);
    assert(payload(container(input)) =~= lz4_block(input));
}

/// True exactly when the first eight bytes of `v` are the magic bytes.
fn has_magic(v: &Vec<u8>) -> (r: bool)
    requires
        v@.len() >= 8,
    ensures
        r <==> v@.subrange(0, 8) == magic(),
{
    let r = v[0] == 109 && v[1] == 111 && v[2] == 122 && v[3] == 76 && v[4] == 122 && v[5] == 52
        && v[6] == 48 && v[7] == 0;
    proof {
        assert(forall|i: int| 0 <= i < 8 ==> v@.subrange(0, 8)[i] == v@[i]);
        if r {
            assert(v@.subrange(0, 8) =~= magic());
        } else {
            if v@.subrange(0, 8) == magic() {
                assert(v@[0] == 109 && v@[1] == 111 && v@[2] == 122 && v@[3] == 76 && v@[4] == 122
                    && v@[5] == 52 && v@[6] == 48 && v@[7] == 0);
            }
        }
    }
    r
}

/// Decode a container: validate the header, then hand the payload to the
/// block decoder with the declared size as the output capacity.
///
/// A buffer that is not recognized is rejected outright; a recognized buffer
/// whose payload the block decoder rejects yields `MalformedPayload`; and a
/// buffer that `compress` built is decoded back to the exact original bytes.
pub fn decompress(ibuffer: Vec<u8>) -> (r: Result<Vec<u8>, Error>)
    ensures
        !recognized(ibuffer@) ==> r == Err::<Vec<u8>, Error>(Error::UnrecognizedFormat),
        recognized(ibuffer@) ==> match lz4_unblock(payload(ibuffer@), declared_size(ibuffer@)) {
            Option::Some(b) => r is Ok && r->Ok_0@ == b,
            Option::None => r == Err::<Vec<u8>, Error>(Error::MalformedPayload),
        },
        forall|b: Seq<u8>|
            b.len() <= u32::MAX && ibuffer@ == #[trigger] container(b) ==> r is Ok && r->Ok_0@
                == b,
{
    if ibuffer.len() < 12 || !has_magic(&ibuffer) {
        proof {
            assert forall|b: Seq<u8>|
                b.len() <= u32::MAX && ibuffer@ == container(b) implies false by {
                lemma_round_trip(b);
            }
        }
        return Err(Error::UnrecognizedFormat);
    }
    let expected_size = read_le32(ibuffer[8], ibuffer[9], ibuffer[10], ibuffer[11]) as usize;
    proof {
        assert(seq![ibuffer@[8], ibuffer@[9], ibuffer@[10], ibuffer@[11]] =~= ibuffer@.subrange(
            8,
            12,
        ));
    }
    let block = slice_subrange(ibuffer.as_slice(), 12, ibuffer.len());
    proof {
        assert(block@ =~= payload(ibuffer@));
    }
    match lz4_decompress(block, expected_size) {
        Ok(obuffer) => {
            proof {
                assert forall|b: Seq<u8>|
                    b.len() <= u32::MAX && ibuffer@ == container(b) implies obuffer@ == b by {
                    lemma_round_trip(b);
                }
            }
            Ok(obuffer)
        },
        Err(_) => {
            proof {
                assert forall|b: Seq<u8>|
                    b.len() <= u32::MAX && ibuffer@ == container(b) implies false by {
                    lemma_round_trip(b);
                }
            }
            Err(Error::MalformedPayload)
        },
    }
}

/// Encode a container: write the magic bytes and the input's length, then
/// the block that the compressor produces for the input.
///
/// Succeeds on every input whose length fits the 32-bit size field, and
/// returns exactly the container for that input; a longer input is rejected
/// rather than silently truncated.
pub fn compress(ibuffer: Vec<u8>) -> (r: Result<Vec<u8>, Error>)
    ensures
        ibuffer@.len() > u32::MAX ==> r == Err::<Vec<u8>, Error>(Error::CompressionFailed),
        ibuffer@.len() <= u32::MAX ==> r is Ok && r->Ok_0@ == container(ibuffer@),
{
    if ibuffer.len() > u32::MAX as usize {
        return Err(Error::CompressionFailed);
    }
    let uncompressed_size: u32 = ibuffer.len() as u32;
    let mut obuffer: Vec<u8> = Vec::new();
    obuffer.push(109);
    obuffer.push(111);
    obuffer.push(122);
    obuffer.push(76);
    obuffer.push(122);
    obuffer.push(52);
    obuffer.push(48);
    obuffer.push(0);
    proof {
        assert(obuffer@ =~= magic());
    }
    push_le32(&mut obuffer, uncompressed_size);
    let mut cbuffer = lz4_compress(ibuffer.as_slice());
    obuffer.append(&mut cbuffer);
    proof {
        assert(obuffer@ =~= container(ibuffer@));
    }
    Ok(obuffer)
}

} // verus!
