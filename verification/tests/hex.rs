use rpmoci::hex::hex_encode;

#[test]
fn hex_encode_writes_two_lower_case_digits_per_byte() {
    assert_eq!(hex_encode(&[0x00, 0x0f, 0xa5, 0xff]), "000fa5ff");
    assert_eq!(hex_encode(&[0x09, 0x0a, 0x90, 0xa0]), "090a90a0");
}

#[test]
fn hex_of_nothing_is_empty() {
    assert_eq!(hex_encode(&[]), "");
}

#[test]
fn every_byte_has_its_two_digits() {
    for byte in 0..=255u8 {
        assert_eq!(hex_encode(&[byte]), format!("{:02x}", byte));
    }
}

#[test]
fn different_bytes_have_different_text() {
    assert_ne!(hex_encode(&[0x01, 0x10]), hex_encode(&[0x10, 0x01]));
    assert_ne!(hex_encode(&[0x00]), hex_encode(&[0x00, 0x00]));
}
