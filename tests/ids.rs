use arcadia_tracker::hex::{hex_decode, hex_encode, InvalidHexDigit};
use arcadia_tracker::ids::{bytes_equal, DecodeError, InfoHash, Passkey, PeerId};

#[test]
fn hex_encode_uses_upper_case_digits() {
    assert_eq!(hex_encode(0x00), [b'0', b'0']);
    assert_eq!(hex_encode(0x9F), [b'9', b'F']);
    assert_eq!(hex_encode(0xA0), [b'A', b'0']);
    assert_eq!(hex_encode(0xFF), [b'F', b'F']);
}

#[test]
fn hex_decode_accepts_both_cases() {
    assert_eq!(hex_decode([b'a', b'B']), Ok(0xAB));
    assert_eq!(hex_decode([b'0', b'9']), Ok(0x09));
    assert_eq!(hex_decode([b'F', b'f']), Ok(0xFF));
}

#[test]
fn hex_decode_rejects_other_characters() {
    assert_eq!(hex_decode([b'g', b'0']), Err(InvalidHexDigit));
    assert_eq!(hex_decode([b'0', b'%']), Err(InvalidHexDigit));
}

#[test]
fn hex_round_trip_every_byte() {
    for b in 0..=255u8 {
        assert_eq!(hex_decode(hex_encode(b)), Ok(b));
    }
}

#[test]
fn info_hash_from_hex_string() {
    let s = "00112233445566778899aabbccddeeffAABBCCDD";
    let h: InfoHash = s.parse().unwrap();
    assert_eq!(
        h.0,
        [
            0x00, 0x11, 0x22, 0x33, 0x44, 0x55, 0x66, 0x77, 0x88, 0x99, 0xAA, 0xBB, 0xCC, 0xDD,
            0xEE, 0xFF, 0xAA, 0xBB, 0xCC, 0xDD
        ]
    );
    assert_eq!(InfoHash::from_hex(s), Ok(h));
}

#[test]
fn info_hash_from_hex_rejects_bad_input() {
    assert_eq!(InfoHash::from_hex("0011"), Err(DecodeError::WrongLength));
    assert_eq!(InfoHash::from_hex(&"0".repeat(41)), Err(DecodeError::WrongLength));
    let bad = format!("{}zz", "0".repeat(38));
    assert_eq!(InfoHash::from_hex(&bad), Err(DecodeError::InvalidHexDigit));
}

#[test]
fn identifiers_need_exact_lengths() {
    assert_eq!(InfoHash::from_bytes(&[1; 20]), Ok(InfoHash([1; 20])));
    assert_eq!(InfoHash::from_bytes(&[1; 19]), Err(DecodeError::WrongLength));
    assert_eq!(PeerId::from_bytes(&[2; 20]), Ok(PeerId([2; 20])));
    assert_eq!(PeerId::from_bytes(&[2; 21]), Err(DecodeError::WrongLength));
    assert_eq!(PeerId::from_bytes(&[]), Err(DecodeError::WrongLength));
    assert_eq!(Passkey::from_bytes(&[3; 32]), Ok(Passkey([3; 32])));
    assert_eq!(Passkey::from_bytes(&[3; 31]), Err(DecodeError::WrongLength));
}

#[test]
fn identifiers_compare_by_bytes() {
    assert!(InfoHash([1; 20]).same(&InfoHash([1; 20])));
    let mut other = [1u8; 20];
    other[19] = 2;
    assert!(!PeerId([1; 20]).same(&PeerId(other)));
    assert!(Passkey([5; 32]).same(&Passkey([5; 32])));
    assert!(!bytes_equal(&[1u8, 2, 3], &[1u8, 2, 4]));
}
