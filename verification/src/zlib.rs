//! The compression layer: zlib framing of the raw object bytes, through
//! the flate2 crate.

use vstd::prelude::*;

use std::io::Read;
use std::io::Write;

verus! {

/// What zlib decompression yields on `s`: the decompressed bytes, or
/// `None` when `s` is not a well-formed zlib stream. Decompression is a
/// pure function of the input bytes.
pub uninterp spec fn inflate_of(s: Seq<u8>) -> Option<Seq<u8>>;

/// Relies on flate2's `write::ZlibEncoder` (with `finish`) over an
/// in-memory `Vec` sink: zlib compression is lossless, so decompressing
/// the compressed bytes gives back the input. Compressing into a `Vec`
/// cannot fail: `Vec`'s `Write` never errors, and the deflate stream
/// reports no terminal error on this path.
#[verifier::external_body]
pub(crate) fn deflate(data: &[u8]) -> (r: Vec<u8>)
    ensures
        inflate_of(r@) == Some(data@),
{
    let mut enc = flate2::write::ZlibEncoder::new(Vec::new(), flate2::Compression::default());
    enc.write_all(data).expect("writing into a Vec cannot fail");
    enc.finish().expect("finishing into a Vec cannot fail")
}

/// Relies on flate2's `read::ZlibDecoder` (with `read_to_end`): it
/// computes exactly the zlib decompression of the input bytes, reporting
/// an error exactly on inputs that are not a well-formed stream.
#[verifier::external_body]
pub(crate) fn inflate(data: &[u8]) -> (r: Option<Vec<u8>>)
    ensures
        match r {
            Some(v) => inflate_of(data@) == Some(v@),
            None => inflate_of(data@) is None,
        },
{
    let mut dec = flate2::read::ZlibDecoder::new(data);
    let mut out = Vec::new();
    match dec.read_to_end(&mut out) {
        Ok(_) => Some(out),
        Err(_) => None,
    }
}

} // verus!
