//! The store representation: compressed object bytes keyed by the hex
//! rendering of their digest, split into a two-character prefix directory
//! and a filename suffix.

use vstd::prelude::*;

use crate::bytes::copy_range;
use crate::digest::{frame_object, sha1_digest, sha1_of};
use crate::error::ObjError;
use crate::kind::Kind;
use crate::object::{
    lemma_object_round_trip, obj_bytes, obj_matches, parse_object, read_spec, Object,
};
use crate::zlib::{deflate, inflate, inflate_of};

verus! {

/// The lowercase hex digit for a nibble value.
pub open spec fn hex_digit(n: int) -> char {
    if n == 0 {
        '0'
    } else if n == 1 {
        '1'
    } else if n == 2 {
        '2'
    } else if n == 3 {
        '3'
    } else if n == 4 {
        '4'
    } else if n == 5 {
        '5'
    } else if n == 6 {
        '6'
    } else if n == 7 {
        '7'
    } else if n == 8 {
        '8'
    } else if n == 9 {
        '9'
    } else if n == 10 {
        'a'
    } else if n == 11 {
        'b'
    } else if n == 12 {
        'c'
    } else if n == 13 {
        'd'
    } else if n == 14 {
        'e'
    } else {
        'f'
    }
}

/// The lowercase hex rendering of a byte sequence, high nibble first.
pub open spec fn hex_of(s: Seq<u8>) -> Seq<char> {
    Seq::new(
        2 * s.len(),
        |i: int|
            if i % 2 == 0 {
                hex_digit((s[i / 2] as int) / 16)
            } else {
                hex_digit((s[i / 2] as int) % 16)
            },
    )
}

/// Relies on hex::encode: each byte becomes two lowercase hex digits,
/// high nibble first.
#[verifier::external_body]
fn to_hex(data: &[u8]) -> (r: String)
    ensures
        r@ == hex_of(data@),
{
    hex::encode(data)
}

/// The full hex key under which a digest's object is stored.
pub fn object_hex_key(digest: &[u8]) -> (r: String)
    ensures
        r@ == hex_of(digest@),
{
    to_hex(digest)
}

/// The hex rendering of a split byte sequence is the split of its hex
/// rendering.
pub proof fn lemma_hex_split(d: Seq<u8>)
    requires
        d.len() >= 1,
    ensures
        hex_of(d.take(1)) + hex_of(d.skip(1)) == hex_of(d),
{
    let a = hex_of(d.take(1)) + hex_of(d.skip(1));
    assert forall|i: int| 0 <= i < 2 * d.len() implies a[i] == hex_of(d)[i] by {
        if i < 2 {
            assert(i / 2 == 0);
        } else {
            assert((i - 2) / 2 == i / 2 - 1);
            assert((i - 2) % 2 == i % 2);
        }
    }
    assert(a =~= hex_of(d));
}

/// The canonical path parts for a digest: the first two hex characters
/// name the subdirectory, the remaining 38 name the file; together they
/// are exactly the hex key.
pub fn object_path_parts(digest: &[u8]) -> (r: (String, String))
    requires
        digest@.len() == 20,
    ensures
        r.0@ == hex_of(digest@.take(1)),
        r.0@.len() == 2,
        r.1@ == hex_of(digest@.skip(1)),
        r.1@.len() == 38,
        r.0@ + r.1@ == hex_of(digest@),
{
    let pre = copy_range(digest, 0, 1);
    let suf = copy_range(digest, 1, digest.len());
    proof {
        assert(pre@ =~= digest@.take(1));
        assert(suf@ =~= digest@.skip(1));
        lemma_hex_split(digest@);
    }
    (to_hex(pre.as_slice()), to_hex(suf.as_slice()))
}

/// An object as the writer persists it: the compressed bytes, and the
/// digest that keys their canonical path.
pub struct EncodedObject {
    pub digest: Vec<u8>,
    pub compressed: Vec<u8>,
}

/// Frame, digest and compress an object in one pass. The digest covers
/// the uncompressed header-plus-payload bytes, never the compressed form,
/// and every input is owed its digest and compressed bytes.
pub fn encode_object(kind: Kind, payload: &[u8]) -> (r: EncodedObject)
    ensures
        r.digest@ == sha1_of(obj_bytes(kind, payload@)),
        r.digest@.len() == 20,
        inflate_of(r.compressed@) == Some(obj_bytes(kind, payload@)),
{
    let raw = frame_object(kind, payload);
    let digest = sha1_digest(raw.as_slice());
    let compressed = deflate(raw.as_slice());
    EncodedObject { digest, compressed }
}

/// What reading stored bytes yields: decompress, then parse the header
/// and bound the payload; a compression failure surfaces as IoFailure.
pub open spec fn decode_stored_spec(s: Seq<u8>) -> Result<(Kind, u64, Seq<u8>), ObjError> {
    match inflate_of(s) {
        Some(raw) => read_spec(raw),
        None => Err(ObjError::IoFailure),
    }
}

/// Read an object back from its stored, compressed bytes.
pub fn decode_object(stored: &[u8]) -> (r: Result<Object, ObjError>)
    ensures
        obj_matches(r, decode_stored_spec(stored@)),
{
    match inflate(stored) {
        Some(raw) => parse_object(raw.as_slice()),
        None => Err(ObjError::IoFailure),
    }
}

/// What printing an object as a blob yields: the payload, only when the
/// object is a blob and its payload matches the declared size exactly.
pub open spec fn blob_payload_spec(s: Seq<u8>) -> Result<Seq<u8>, ObjError> {
    match decode_stored_spec(s) {
        Err(e) => Err(e),
        Ok((k, n, p)) => if k != Kind::Blob {
            Err(ObjError::UnsupportedOperation)
        } else if p.len() != n {
            Err(ObjError::SizeMismatch)
        } else {
            Ok(p)
        },
    }
}

/// The payload of a stored blob: decode, require kind Blob, and check
/// that the bytes actually present equal the declared size.
pub fn blob_payload(stored: &[u8]) -> (r: Result<Vec<u8>, ObjError>)
    ensures
        match (r, blob_payload_spec(stored@)) {
            (Ok(v), Ok(p)) => v@ == p,
            (Err(a), Err(b)) => a == b,
            _ => false,
        },
{
    let o = match decode_object(stored) {
        Ok(o) => o,
        Err(e) => {
            return Err(e);
        },
    };
    if o.kind != Kind::Blob {
        return Err(ObjError::UnsupportedOperation);
    }
    if o.payload.len() as u64 != o.size {
        return Err(ObjError::SizeMismatch);
    }
    Ok(o.payload)
}

/// The store round trip: stored bytes that decompress to the writer's
/// framing of a kind and payload decode to that kind, the payload's exact
/// length, and the payload itself.
pub proof fn lemma_store_round_trip(k: Kind, c: Seq<u8>, stored: Seq<u8>)
    requires
        c.len() <= u64::MAX,
        inflate_of(stored) == Some(obj_bytes(k, c)),
    ensures
        decode_stored_spec(stored) == Ok::<(Kind, u64, Seq<u8>), ObjError>(
            (k, c.len() as u64, c),
        ),
{
    lemma_object_round_trip(k, c);
}

/// The blob round trip: stored bytes that decompress to the writer's
/// framing of a blob payload print back exactly that payload.
pub proof fn lemma_blob_round_trip(c: Seq<u8>, stored: Seq<u8>)
    requires
        c.len() <= u64::MAX,
        inflate_of(stored) == Some(obj_bytes(Kind::Blob, c)),
    ensures
        blob_payload_spec(stored) == Ok::<Seq<u8>, ObjError>(c),
{
    lemma_store_round_trip(Kind::Blob, c, stored);
}

} // verus!
