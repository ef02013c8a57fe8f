use mini_git::error::ObjError;
use mini_git::header::encode_header;
use mini_git::kind::Kind;
use mini_git::object::parse_object;

#[test]
fn header_bytes_golden() {
    assert_eq!(encode_header(Kind::Blob, 12), b"blob 12\0".to_vec());
    assert_eq!(encode_header(Kind::Tree, 0), b"tree 0\0".to_vec());
    assert_eq!(encode_header(Kind::Commit, 256), b"commit 256\0".to_vec());
    assert_eq!(
        encode_header(Kind::Blob, u64::MAX),
        b"blob 18446744073709551615\0".to_vec()
    );
}

#[test]
fn header_round_trip_blob() {
    let o = parse_object(&encode_header(Kind::Blob, 12)).unwrap();
    assert_eq!(o.kind, Kind::Blob);
    assert_eq!(o.size, 12);
    assert!(o.payload.is_empty());
}

#[test]
fn header_round_trip_all_kinds() {
    for kind in [Kind::Blob, Kind::Tree, Kind::Commit] {
        for size in [0u64, 1, 9, 10, 12345, u64::MAX] {
            let o = parse_object(&encode_header(kind, size)).unwrap();
            assert_eq!(o.kind, kind);
            assert_eq!(o.size, size);
            assert!(o.payload.is_empty());
        }
    }
}

#[test]
fn malformed_without_nul() {
    assert_eq!(parse_object(b"blob 12").unwrap_err(), ObjError::Malformed);
    assert_eq!(parse_object(b"").unwrap_err(), ObjError::Malformed);
}

#[test]
fn malformed_without_space() {
    assert_eq!(parse_object(b"blob\0").unwrap_err(), ObjError::Malformed);
}

#[test]
fn malformed_invalid_utf8() {
    let raw: Vec<u8> = vec![98, 108, 255, 111, 98, 32, 51, 0];
    assert_eq!(parse_object(&raw).unwrap_err(), ObjError::Malformed);
}

#[test]
fn invalid_size_not_unknown_kind() {
    assert_eq!(
        parse_object(b"tree abc\0").unwrap_err(),
        ObjError::InvalidSize
    );
}

#[test]
fn unknown_kind_not_invalid_size() {
    assert_eq!(
        parse_object(b"widget 3\0").unwrap_err(),
        ObjError::UnknownKind
    );
}

#[test]
fn invalid_size_empty_field() {
    assert_eq!(parse_object(b"blob \0").unwrap_err(), ObjError::InvalidSize);
}

#[test]
fn invalid_size_overflow() {
    assert_eq!(
        parse_object(b"blob 18446744073709551616\0").unwrap_err(),
        ObjError::InvalidSize
    );
    assert_eq!(
        parse_object(b"blob 99999999999999999999999\0").unwrap_err(),
        ObjError::InvalidSize
    );
}

#[test]
fn size_with_leading_plus_sign() {
    let o = parse_object(b"blob +12\0abc").unwrap();
    assert_eq!(o.size, 12);
    assert_eq!(o.payload, b"abc".to_vec());
}

#[test]
fn bounded_read_oversized_stream() {
    let o = parse_object(b"blob 3\0hello world").unwrap();
    assert_eq!(o.kind, Kind::Blob);
    assert_eq!(o.size, 3);
    assert_eq!(o.payload, b"hel".to_vec());
}

#[test]
fn short_stream_yields_fewer_bytes() {
    let o = parse_object(b"blob 10\0hi").unwrap();
    assert_eq!(o.size, 10);
    assert_eq!(o.payload, b"hi".to_vec());
}
