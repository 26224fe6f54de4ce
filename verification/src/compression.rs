//! The two block codecs the container uses, behind trusted wrappers. Both
//! codecs are deterministic: what they return is a function of the compressed
//! bytes (and, for the block codec, the size bound) alone, so each result is
//! named by an uninterpreted spec function and the callers' contracts are
//! stated over that name.

use vstd::prelude::*;

verus! {

/// What the LZ4 block codec yields for the given compressed bytes and size
/// bound: the decompressed bytes, or nothing when the stream is not a valid
/// block (or needs more room than the bound allows).
pub uninterp spec fn lz4_block_decompressed(input: Seq<u8>, min_size: nat) -> Option<Seq<u8>>;

/// What the zlib codec yields for the given compressed bytes: the
/// decompressed bytes, or nothing when the stream is not a valid zlib
/// stream.
pub uninterp spec fn zlib_decompressed(input: Seq<u8>) -> Option<Seq<u8>>;

/// Relies on lz4_flex::decompress (block format, built with its default
/// bounds-checked decoding): the outcome is a function of the compressed
/// bytes and the size bound alone, and malformed input yields an error, not
/// a panic.
#[verifier::external_body]
pub(crate) fn lz4_decompress(input: &[u8], min_size: usize) -> (r: Option<Vec<u8>>)
    ensures
        match r {
            Some(v) => lz4_block_decompressed(input@, min_size as nat) == Some(v@),
            None => lz4_block_decompressed(input@, min_size as nat) is None,
        },
{
    match lz4_flex::decompress(input, min_size) {
        Ok(v) => Some(v),
        Err(_) => None,
    }
}

/// Relies on flate2::read::ZlibDecoder, driven by std::io::Read::read_to_end:
/// inflating a byte slice is a function of those bytes alone, and malformed
/// input yields an error, not a panic.
#[verifier::external_body]
pub(crate) fn zlib_decompress(input: &[u8]) -> (r: Option<Vec<u8>>)
    ensures
        match r {
            Some(v) => zlib_decompressed(input@) == Some(v@),
            None => zlib_decompressed(input@) is None,
        },
{
    let mut decoder = flate2::read::ZlibDecoder::new(input);
    let mut out: Vec<u8> = Vec::new();
    match std::io::Read::read_to_end(&mut decoder, &mut out) {
        Ok(_) => Some(out),
        Err(_) => None,
    }
}

} // verus!
