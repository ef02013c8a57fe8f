use std::io::Write;

use mini_git::digest::digest_object;
use mini_git::error::ObjError;
use mini_git::kind::Kind;
use mini_git::store::{
    blob_payload, decode_object, encode_object, object_hex_key, object_path_parts,
};

/// Compress raw bytes the way the store does on disk, independently of the
/// library, so reads can be exercised against hand-made objects.
fn zlib_pack(raw: &[u8]) -> Vec<u8> {
    let mut enc = flate2::write::ZlibEncoder::new(Vec::new(), flate2::Compression::default());
    enc.write_all(raw).unwrap();
    enc.finish().unwrap()
}

#[test]
fn round_trip_blob() {
    let payload = b"hello world\n";
    let enc = encode_object(Kind::Blob, payload);
    let o = decode_object(&enc.compressed).unwrap();
    assert_eq!(o.kind, Kind::Blob);
    assert_eq!(o.size, payload.len() as u64);
    assert_eq!(o.payload, payload.to_vec());
}

#[test]
fn round_trip_all_kinds() {
    for kind in [Kind::Blob, Kind::Tree, Kind::Commit] {
        for payload in [&b""[..], b"x", b"some\0binary\xff\xfe bytes"] {
            let enc = encode_object(kind, payload);
            let o = decode_object(&enc.compressed).unwrap();
            assert_eq!(o.kind, kind);
            assert_eq!(o.size, payload.len() as u64);
            assert_eq!(o.payload, payload.to_vec());
        }
    }
}

#[test]
fn digest_determinism() {
    let payload = b"determinism check";
    let d1 = digest_object(Kind::Blob, payload);
    let d2 = digest_object(Kind::Blob, payload);
    assert_eq!(d1, d2);
    let enc = encode_object(Kind::Blob, payload);
    assert_eq!(enc.digest, d1);
}

#[test]
fn digests_differ_by_kind() {
    let payload = b"same bytes";
    let blob = digest_object(Kind::Blob, payload);
    let tree = digest_object(Kind::Tree, payload);
    assert_ne!(blob, tree);
}

#[test]
fn golden_vector_digest() {
    let digest = digest_object(Kind::Blob, b"hello world\n");
    assert_eq!(
        object_hex_key(&digest),
        "3b18e512dba79e4c8300dd08aeb37f8e728b8dad"
    );
}

#[test]
fn golden_vector_read_back() {
    let enc = encode_object(Kind::Blob, b"hello world\n");
    assert_eq!(
        object_hex_key(&enc.digest),
        "3b18e512dba79e4c8300dd08aeb37f8e728b8dad"
    );
    let payload = blob_payload(&enc.compressed).unwrap();
    assert_eq!(payload, b"hello world\n".to_vec());
}

#[test]
fn canonical_path_parts() {
    let digest = digest_object(Kind::Blob, b"hello world\n");
    let (prefix, suffix) = object_path_parts(&digest);
    assert_eq!(prefix, "3b");
    assert_eq!(suffix, "18e512dba79e4c8300dd08aeb37f8e728b8dad");
    assert_eq!(format!("{prefix}{suffix}"), object_hex_key(&digest));
}

#[test]
fn hex_key_of_known_bytes() {
    assert_eq!(object_hex_key(&[0x3b, 0x18, 0x00, 0xff]), "3b1800ff");
}

#[test]
fn read_hand_packed_object() {
    let stored = zlib_pack(b"blob 5\0hello");
    let payload = blob_payload(&stored).unwrap();
    assert_eq!(payload, b"hello".to_vec());
}

#[test]
fn size_mismatch_on_truncated_payload() {
    let stored = zlib_pack(b"blob 5\0abc");
    assert_eq!(blob_payload(&stored).unwrap_err(), ObjError::SizeMismatch);
}

#[test]
fn oversized_stream_is_truncated_to_declared_size() {
    // The bounded reader caps delivery at the declared size; it does not
    // itself detect that the stream held more, so the post-read count
    // check sees exactly the declared number of bytes.
    let stored = zlib_pack(b"blob 2\0abcdef");
    assert_eq!(blob_payload(&stored).unwrap(), b"ab".to_vec());
}

#[test]
fn unsupported_operation_on_tree() {
    let stored = zlib_pack(b"tree 0\0");
    assert_eq!(
        blob_payload(&stored).unwrap_err(),
        ObjError::UnsupportedOperation
    );
}

#[test]
fn io_failure_on_garbage_stream() {
    assert_eq!(
        decode_object(b"this is not a zlib stream").unwrap_err(),
        ObjError::IoFailure
    );
}

#[test]
fn malformed_inside_valid_stream() {
    let stored = zlib_pack(b"no nul byte here");
    assert_eq!(decode_object(&stored).unwrap_err(), ObjError::Malformed);
}
