//! The digest: the SHA-1 hash of the uncompressed header-plus-payload
//! bytes, which serves as the store key of an object.

use vstd::prelude::*;

use sha1::Digest;

use crate::bytes::copy_range;
use crate::header::encode_header;
use crate::kind::Kind;
use crate::object::obj_bytes;

verus! {

/// What SHA-1 yields on `s`. The digest is a function of the input bytes
/// alone.
pub uninterp spec fn sha1_of(s: Seq<u8>) -> Seq<u8>;

/// Relies on sha1's `Sha1` through the `Digest` trait: the digest is
/// always 20 bytes long and depends on the input bytes alone.
#[verifier::external_body]
pub(crate) fn sha1_digest(data: &[u8]) -> (r: Vec<u8>)
    ensures
        r@ == sha1_of(data@),
        r@.len() == 20,
{
    sha1::Sha1::digest(data).to_vec()
}

/// Build the uncompressed representation of an object: the header for the
/// payload's exact length, then the payload.
pub fn frame_object(kind: Kind, payload: &[u8]) -> (r: Vec<u8>)
    ensures
        r@ == obj_bytes(kind, payload@),
{
    let mut raw = encode_header(kind, payload.len() as u64);
    let mut body = copy_range(payload, 0, payload.len());
    proof {
        assert(body@ =~= payload@);
    }
    raw.append(&mut body);
    raw
}

/// Compute the digest of an object without persisting anything: the
/// SHA-1 of the uncompressed header-plus-payload bytes.
pub fn digest_object(kind: Kind, payload: &[u8]) -> (r: Vec<u8>)
    ensures
        r@ == sha1_of(obj_bytes(kind, payload@)),
        r@.len() == 20,
{
    let raw = frame_object(kind, payload);
    sha1_digest(raw.as_slice())
}

/// Digest determinism: the store key depends only on the kind and the
/// payload bytes, never on compression parameters — so writing the same
/// pair twice yields the identical digest.
pub proof fn lemma_digest_deterministic(k1: Kind, c1: Seq<u8>, k2: Kind, c2: Seq<u8>)
    requires
        k1 == k2,
        c1 == c2,
    ensures
        sha1_of(obj_bytes(k1, c1)) == sha1_of(obj_bytes(k2, c2)),
{
}

} // verus!
