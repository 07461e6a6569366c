use auth_core::base64url::{b64u_decode, b64u_encode};
use auth_core::claims::{claims_json_of, parse_claims_bytes, parse_uuid_at, push_uuid_text, Claims};
use auth_core::numeral::{dec_value_capped, dec_value_u64, push_dec_u64, push_hex_u128};

#[test]
fn test_base64url_known_vectors() {
    assert_eq!(b64u_encode(&b"Man".to_vec()), b"TWFu".to_vec());
    assert_eq!(b64u_encode(&b"Ma".to_vec()), b"TWE".to_vec());
    assert_eq!(b64u_encode(&b"M".to_vec()), b"TQ".to_vec());
    assert_eq!(b64u_encode(&Vec::new()), Vec::<u8>::new());
    // 0xfb 0xff exercises the url-safe alphabet: - and _
    assert_eq!(b64u_encode(&vec![0xfbu8, 0xff]), b"-_8".to_vec());
}

#[test]
fn test_base64url_decode_inverts_encode() {
    let inputs: Vec<Vec<u8>> = vec![
        Vec::new(),
        vec![0],
        vec![255],
        vec![1, 2],
        vec![1, 2, 3],
        vec![1, 2, 3, 4],
        (0u8..=255).collect(),
    ];
    for input in inputs {
        let encoded = b64u_encode(&input);
        assert_eq!(b64u_decode(&encoded), Some(input));
    }
}

#[test]
fn test_base64url_decode_is_strict() {
    // a lone symbol can encode nothing
    assert_eq!(b64u_decode(&b"T".to_vec()), None);
    // nonzero trailing bits are rejected
    assert_eq!(b64u_decode(&b"TR".to_vec()), None);
    // padding is not part of the unpadded form
    assert_eq!(b64u_decode(&b"TQ==".to_vec()), None);
    // characters outside the alphabet
    assert_eq!(b64u_decode(&b"T@Fu".to_vec()), None);
    assert_eq!(b64u_decode(&b"TW+u".to_vec()), None);
}

#[test]
fn test_decimal_numeral_exact() {
    let mut v: Vec<u8> = Vec::new();
    push_dec_u64(&mut v, 0);
    assert_eq!(v, b"0".to_vec());
    let mut v: Vec<u8> = Vec::new();
    push_dec_u64(&mut v, 12345);
    assert_eq!(v, b"12345".to_vec());
    let mut v: Vec<u8> = Vec::new();
    push_dec_u64(&mut v, u64::MAX);
    assert_eq!(v, b"18446744073709551615".to_vec());
}

#[test]
fn test_decimal_parse_exact() {
    let v = b"9007199254740993".to_vec();
    assert_eq!(dec_value_u64(&v, 0, v.len()), 9007199254740993);
    assert_eq!(dec_value_capped(&b"0042".to_vec(), 65535), Some(42));
    assert_eq!(dec_value_capped(&b"65536".to_vec(), 65535), None);
    assert_eq!(dec_value_capped(&b"".to_vec(), 65535), None);
    assert_eq!(dec_value_capped(&b"12a".to_vec(), 65535), None);
}

#[test]
fn test_hex_numeral_and_uuid_text() {
    let mut v: Vec<u8> = Vec::new();
    push_hex_u128(&mut v, 0xdeadbeef, 8);
    assert_eq!(v, b"deadbeef".to_vec());
    let mut v: Vec<u8> = Vec::new();
    push_uuid_text(&mut v, 0x0123_4567_89ab_cdef_0123_4567_89ab_cdef);
    assert_eq!(v, b"01234567-89ab-cdef-0123-456789abcdef".to_vec());
    assert_eq!(parse_uuid_at(&v, 0), Some(0x0123_4567_89ab_cdef_0123_4567_89ab_cdef));
    // a hyphen out of place
    let bad = b"0123456789-ab-cdef-0123-456789abcdef".to_vec();
    assert_eq!(parse_uuid_at(&bad, 0), None);
    // upper-case digits are not the canonical form
    let upper = b"01234567-89AB-cdef-0123-456789abcdef".to_vec();
    assert_eq!(parse_uuid_at(&upper, 0), None);
}

#[test]
fn test_claims_json_round_trip_and_exact_shape() {
    let c = Claims { sub: 0x0123_4567_89ab_cdef_0123_4567_89ab_cdef, iat: 1700000000, exp: 1700086400 };
    let j = claims_json_of(&c);
    assert_eq!(
        String::from_utf8(j.clone()).unwrap(),
        "{\"sub\":\"01234567-89ab-cdef-0123-456789abcdef\",\"iat\":1700000000,\"exp\":1700086400}",
    );
    assert_eq!(parse_claims_bytes(&j), Some(c));
}

#[test]
fn test_claims_parser_is_strict() {
    let ok = "{\"sub\":\"01234567-89ab-cdef-0123-456789abcdef\",\"iat\":1700000000,\"exp\":1700086400}";
    assert!(parse_claims_bytes(&ok.as_bytes().to_vec()).is_some());
    // leading zero in a timestamp is not canonical
    let lz = "{\"sub\":\"01234567-89ab-cdef-0123-456789abcdef\",\"iat\":01700000000,\"exp\":1700086400}";
    assert_eq!(parse_claims_bytes(&lz.as_bytes().to_vec()), None);
    // reordered fields are not the canonical form
    let reordered = "{\"iat\":1700000000,\"sub\":\"01234567-89ab-cdef-0123-456789abcdef\",\"exp\":1700086400}";
    assert_eq!(parse_claims_bytes(&reordered.as_bytes().to_vec()), None);
    // trailing garbage
    let trailing = format!("{} ", ok);
    assert_eq!(parse_claims_bytes(&trailing.into_bytes()), None);
    // a timestamp beyond i64 is rejected
    let big = "{\"sub\":\"01234567-89ab-cdef-0123-456789abcdef\",\"iat\":9223372036854775808,\"exp\":1700086400}";
    assert_eq!(parse_claims_bytes(&big.as_bytes().to_vec()), None);
}
