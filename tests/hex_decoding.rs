use cargo_contract::hexcode::{decode_hex, HexError};

#[test]
fn prefixed_and_bare_hex_decode_alike() {
    let with = decode_hex("0xDEAD");
    let without = decode_hex("DEAD");
    assert_eq!(with, without);
    assert_eq!(without, Ok(vec![0xDE, 0xAD]));
}

#[test]
fn non_hex_input_fails() {
    assert!(decode_hex("xyz").is_err());
}

#[test]
fn odd_length_is_reported_first() {
    assert_eq!(decode_hex("xyz"), Err(HexError::OddLength));
    assert_eq!(decode_hex("0xabc"), Err(HexError::OddLength));
}

#[test]
fn first_bad_digit_is_reported_with_its_position() {
    assert_eq!(
        decode_hex("0a1g"),
        Err(HexError::InvalidHexCharacter { c: 'g', index: 3 })
    );
    assert_eq!(
        decode_hex("0xzz00"),
        Err(HexError::InvalidHexCharacter { c: 'z', index: 0 })
    );
}

#[test]
fn mixed_case_digits_decode() {
    assert_eq!(decode_hex("f9B4Ca"), Ok(vec![0xF9, 0xB4, 0xCA]));
}

#[test]
fn empty_and_bare_prefix_decode_to_nothing() {
    assert_eq!(decode_hex(""), Ok(vec![]));
    assert_eq!(decode_hex("0x"), Ok(vec![]));
}

#[test]
fn only_one_prefix_is_stripped() {
    assert_eq!(decode_hex("0x0x12"), Err(HexError::InvalidHexCharacter { c: 'x', index: 1 }));
    assert!(decode_hex("0x0xAB").is_err());
    assert_eq!(decode_hex("0x0xz1"), Err(HexError::InvalidHexCharacter { c: 'x', index: 1 }));
}
