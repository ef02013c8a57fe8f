//! The object codec: parsing the uncompressed representation
//! `"<kind> <size>\0" || payload`, and the laws that govern it.

use vstd::prelude::*;

use crate::bytes::{
    copy_range, find_byte, find_byte_spec, lemma_find_from, lemma_find_from_at,
};
use crate::digits::{
    dec_rep, lemma_dec_rep_digits, lemma_dec_round_trip, parse_dec, parse_size_spec,
};
use crate::error::ObjError;
use crate::header::header_spec;
use crate::kind::{
    kind_of_token, lemma_kind_token_round, lemma_token_bytes, parse_kind, token_of, Kind,
};
use crate::utf8::{check_utf8, is_utf8, lemma_ascii_is_utf8};

verus! {

/// An object recovered from its uncompressed representation: the kind and
/// declared size from the header, and at most `size` payload bytes.
///
/// The reader only bounds the payload; whether the bytes actually present
/// match the declared size is the caller's post-read check.
#[derive(Debug)]
pub struct Object {
    pub kind: Kind,
    pub size: u64,
    pub payload: Vec<u8>,
}

/// The uncompressed representation of an object of kind `k` with payload
/// `c`: the header declaring the payload's exact length, then the payload.
pub open spec fn obj_bytes(k: Kind, c: Seq<u8>) -> Seq<u8> {
    header_spec(k, c.len() as u64) + c
}

/// At most the first `n` elements of `c`.
pub open spec fn take_at_most(c: Seq<u8>, n: int) -> Seq<u8> {
    if n <= c.len() {
        c.take(n)
    } else {
        c
    }
}

/// What parsing an uncompressed object representation yields.
///
/// The scan fails Malformed when no NUL is present, when the text before
/// the NUL is not valid UTF-8, or when it has no space; it fails
/// UnknownKind when the part before the space is not a supported token,
/// and InvalidSize when the part after it is not a 64-bit decimal size.
/// On success the payload is bounded to the declared size.
pub open spec fn read_spec(raw: Seq<u8>) -> Result<(Kind, u64, Seq<u8>), ObjError> {
    let p = find_byte_spec(raw, 0);
    if p == raw.len() {
        Err(ObjError::Malformed)
    } else {
        let h = raw.subrange(0, p);
        if !is_utf8(h) {
            Err(ObjError::Malformed)
        } else {
            let q = find_byte_spec(h, 32);
            if q == h.len() {
                Err(ObjError::Malformed)
            } else {
                match kind_of_token(h.subrange(0, q)) {
                    None => Err(ObjError::UnknownKind),
                    Some(k) => match parse_size_spec(h.subrange(q + 1, h.len() as int)) {
                        None => Err(ObjError::InvalidSize),
                        Some(n) => Ok(
                            (k, n, take_at_most(raw.subrange(p + 1, raw.len() as int), n as int)),
                        ),
                    },
                }
            }
        }
    }
}

/// Whether the parser's result agrees with the specification's.
pub open spec fn obj_matches(
    r: Result<Object, ObjError>,
    s: Result<(Kind, u64, Seq<u8>), ObjError>,
) -> bool {
    match (r, s) {
        (Ok(o), Ok(t)) => o.kind == t.0 && o.size == t.1 && o.payload@ == t.2,
        (Err(e1), Err(e2)) => e1 == e2,
        _ => false,
    }
}

/// Parse the uncompressed representation of an object: decode the header
/// and hand back at most the declared number of payload bytes.
pub fn parse_object(raw: &[u8]) -> (r: Result<Object, ObjError>)
    ensures
        obj_matches(r, read_spec(raw@)),
{
    proof {
        lemma_find_from(raw@, 0u8, 0);
    }
    let p = find_byte(raw, 0);
    if p == raw.len() {
        return Err(ObjError::Malformed);
    }
    let h = copy_range(raw, 0, p);
    if !check_utf8(h.as_slice()) {
        return Err(ObjError::Malformed);
    }
    proof {
        lemma_find_from(h@, 32u8, 0);
    }
    let q = find_byte(h.as_slice(), 32);
    if q == h.len() {
        return Err(ObjError::Malformed);
    }
    let tok = copy_range(h.as_slice(), 0, q);
    let kind = match parse_kind(tok.as_slice()) {
        Some(k) => k,
        None => {
            return Err(ObjError::UnknownKind);
        },
    };
    let szb = copy_range(h.as_slice(), q + 1, h.len());
    let size = match parse_dec(szb.as_slice()) {
        Some(n) => n,
        None => {
            return Err(ObjError::InvalidSize);
        },
    };
    let avail = raw.len() - p - 1;
    let tk: usize = if size <= avail as u64 {
        size as usize
    } else {
        avail
    };
    let payload = copy_range(raw, p + 1, p + 1 + tk);
    proof {
        let body = raw@.subrange(p + 1, raw@.len() as int);
        if size as int <= body.len() {
            assert(raw@.subrange(p + 1, p + 1 + tk) =~= body.take(size as int));
        } else {
            assert(raw@.subrange(p + 1, p + 1 + tk) =~= body);
        }
    }
    Ok(Object { kind, size, payload })
}

/// Parsing an encoded header followed by any payload bytes recovers the
/// kind, the declared size, and at most that many payload bytes.
pub proof fn lemma_read_encoded(k: Kind, n: u64, c: Seq<u8>)
    ensures
        read_spec(header_spec(k, n) + c) == Ok::<(Kind, u64, Seq<u8>), ObjError>(
            (k, n, take_at_most(c, n as int)),
        ),
{
    let raw = header_spec(k, n) + c;
    let tok = token_of(k);
    let dec = dec_rep(n as nat);
    let hlen = tok.len() + 1 + dec.len() + 1;
    lemma_token_bytes(k);
    lemma_dec_rep_digits(n as nat);
    assert(raw.len() == hlen + c.len());
    assert(raw[hlen - 1] == 0);
    assert forall|j: int| 0 <= j < hlen - 1 implies raw[j] != 0 by {
        if j < tok.len() {
            assert(raw[j] == tok[j]);
        } else if j == tok.len() {
            assert(raw[j] == 32);
        } else {
            assert(raw[j] == dec[j - tok.len() - 1]);
        }
    }
    lemma_find_from_at(raw, 0, 0, hlen - 1);
    let h = raw.subrange(0, hlen - 1);
    assert(h =~= tok + seq![32u8] + dec);
    assert forall|j: int| 0 <= j < h.len() implies #[trigger] h[j] < 128 by {
        if j < tok.len() {
            assert(h[j] == tok[j]);
        } else if j == tok.len() {
            assert(h[j] == 32);
        } else {
            assert(h[j] == dec[j - tok.len() - 1]);
        }
    }
    lemma_ascii_is_utf8(h);
    assert(h[tok.len() as int] == 32);
    assert forall|j: int| 0 <= j < tok.len() implies h[j] != 32 by {
        assert(h[j] == tok[j]);
    }
    lemma_find_from_at(h, 32, 0, tok.len() as int);
    assert(h.subrange(0, tok.len() as int) =~= tok);
    lemma_kind_token_round(k);
    assert(h.subrange(tok.len() as int + 1, h.len() as int) =~= dec);
    lemma_dec_round_trip(n);
    assert(raw.subrange(hlen - 1 + 1, raw.len() as int) =~= c);
}

/// The header round trip: for every supported kind and every size in
/// range, decoding an encoded bare header yields that kind, that size and
/// an empty payload.
pub proof fn lemma_header_round_trip(k: Kind, n: u64)
    ensures
        read_spec(header_spec(k, n)) == Ok::<(Kind, u64, Seq<u8>), ObjError>(
            (k, n, Seq::<u8>::empty()),
        ),
{
    lemma_read_encoded(k, n, Seq::<u8>::empty());
    assert(header_spec(k, n) + Seq::<u8>::empty() =~= header_spec(k, n));
    assert(take_at_most(Seq::<u8>::empty(), n as int) =~= Seq::<u8>::empty());
}

/// The object round trip: framing a payload of any kind and parsing the
/// frame back recovers the kind, the payload's exact length, and the
/// payload itself.
pub proof fn lemma_object_round_trip(k: Kind, c: Seq<u8>)
    requires
        c.len() <= u64::MAX,
    ensures
        read_spec(header_spec(k, c.len() as u64) + c) == Ok::<(Kind, u64, Seq<u8>), ObjError>(
            (k, c.len() as u64, c),
        ),
{
    lemma_read_encoded(k, c.len() as u64, c);
    assert(take_at_most(c, c.len() as u64 as int) =~= c);
}

/// The bounded read: when the stream after the header holds more bytes
/// than the header declares, parsing yields exactly the declared number of
/// bytes and no more.
pub proof fn lemma_bounded_read(k: Kind, n: u64, c: Seq<u8>)
    requires
        c.len() > n,
    ensures
        read_spec(header_spec(k, n) + c) == Ok::<(Kind, u64, Seq<u8>), ObjError>(
            (k, n, c.take(n as int)),
        ),
        c.take(n as int).len() == n,
{
    lemma_read_encoded(k, n, c);
}

} // verus!
