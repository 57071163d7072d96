use bedrock::primitives::types::{
    concat_bytes, hash_to_hex, u32_from_le_bytes, u32_to_le_bytes, u64_from_le_bytes,
    u64_to_le_bytes, API_VERSION, MAX_KEY_LEN, MAX_VALUE_LEN, ZERO_ADDRESS, ZERO_HASH,
};

#[test]
fn test_hash_to_hex() {
    let hash = [0xab; 32];
    let hex = hash_to_hex(&hash);
    assert_eq!(hex.len(), 66);
    assert!(hex.starts_with("0x"));
    assert!(hex[2..].chars().all(|c| c == 'a' || c == 'b'));
}

#[test]
fn test_u64_le_roundtrip() {
    let val = 0xDEAD_BEEF_CAFE_BABE_u64;
    let bytes = u64_to_le_bytes(val);
    assert_eq!(u64_from_le_bytes(&bytes), Some(val));
}

#[test]
fn test_u32_le_roundtrip() {
    let val = 0xDEAD_BEEF_u32;
    let bytes = u32_to_le_bytes(val);
    assert_eq!(u32_from_le_bytes(&bytes), Some(val));
}

#[test]
fn test_u64_from_short_slice() {
    assert_eq!(u64_from_le_bytes(&[0, 1, 2]), None);
}

#[test]
fn test_concat_bytes() {
    let result = concat_bytes(&[b"hello", b" ", b"world"]);
    assert_eq!(result, b"hello world");
}

#[test]
fn test_zero_constants() {
    assert_eq!(ZERO_HASH, [0u8; 32]);
    assert_eq!(ZERO_ADDRESS, [0u8; 32]);
}

#[test]
fn test_api_version() {
    assert_eq!(API_VERSION, 1);
}

#[test]
fn hash_to_hex_exact_digits() {
    let mut hash = [0u8; 32];
    hash[0] = 0x01;
    hash[1] = 0xfe;
    hash[31] = 0x9c;
    let hex = hash_to_hex(&hash);
    let mut expected = String::from("0x01fe");
    for _ in 0..29 {
        expected.push_str("00");
    }
    expected.push_str("9c");
    assert_eq!(hex, expected);
}

#[test]
fn little_endian_exact_bytes() {
    assert_eq!(u64_to_le_bytes(3000), [0xb8, 0x0b, 0, 0, 0, 0, 0, 0]);
    assert_eq!(u64_to_le_bytes(0x0102030405060708), [8, 7, 6, 5, 4, 3, 2, 1]);
    assert_eq!(u32_to_le_bytes(0x01020304), [4, 3, 2, 1]);
    assert_eq!(u64_from_le_bytes(&[8, 7, 6, 5, 4, 3, 2, 1, 0xff]), Some(0x0102030405060708));
    assert_eq!(u32_from_le_bytes(&[4, 3, 2, 1, 9, 9]), Some(0x01020304));
    assert_eq!(u32_from_le_bytes(&[4, 3, 2]), None);
}

#[test]
fn concat_of_nothing_is_empty() {
    assert_eq!(concat_bytes(&[]), Vec::<u8>::new());
    assert_eq!(concat_bytes(&[b"", b"a", b""]), b"a".to_vec());
}

#[test]
fn size_limits() {
    assert_eq!(MAX_KEY_LEN, 256);
    assert_eq!(MAX_VALUE_LEN, 65_536);
}
