use esp32_ble::ble::uuid::{BleUUID, UuidError};
use esp32_ble::steam_controller::{EVENTS_CHR_UUID, SERVICE_UUID};

#[test]
fn parse_16_bit_big_endian() {
    assert_eq!(BleUUID::parse("2902").unwrap(), BleUUID::Uuid16(0x2902));
    assert_eq!(BleUUID::parse("0229").unwrap(), BleUUID::Uuid16(0x0229));
}

#[test]
fn format_16_bit_is_inverse_of_parse() {
    assert_eq!(BleUUID::parse("2902").unwrap().to_string(), "2902");
    assert_eq!(BleUUID::Uuid16(0x2902).to_string(), "2902");
    assert_eq!(BleUUID::Uuid16(0x000f).to_string(), "000f");
    assert_eq!(BleUUID::parse("AbCd").unwrap().to_string(), "abcd");
    assert_eq!(BleUUID::parse("a-b-c-d").unwrap().to_string(), "abcd");
}

#[test]
fn parse_128_bit_stores_bytes_reversed() {
    let u = BleUUID::parse("00112233-4455-6677-8899-aabbccddeeff").unwrap();
    let expected = [
        0xff, 0xee, 0xdd, 0xcc, 0xbb, 0xaa, 0x99, 0x88, 0x77, 0x66, 0x55, 0x44, 0x33, 0x22, 0x11,
        0x00,
    ];
    assert_eq!(u, BleUUID::Uuid128(expected));
}

#[test]
fn round_trip_128_bit_canonical() {
    let u = BleUUID::parse(EVENTS_CHR_UUID).unwrap();
    assert_eq!(u.to_string(), "100f6c33-1735-4313-b402-38567131e5f3");
    let plain = BleUUID::parse("100F6C3217354313B40238567131E5F3").unwrap();
    assert_eq!(plain.to_string(), SERVICE_UUID);
}

#[test]
fn same_text_parses_equal() {
    let a = BleUUID::parse(SERVICE_UUID).unwrap();
    let b = BleUUID::parse(SERVICE_UUID).unwrap();
    assert!(a == b);
    assert!(BleUUID::parse(EVENTS_CHR_UUID).unwrap() != a);
}

#[test]
fn widths_never_equal() {
    let short = BleUUID::Uuid16(0);
    let long = BleUUID::Uuid128([0; 16]);
    assert!(short != long);
    assert!(long != short);
}

#[test]
fn parse_rejects_bad_lengths() {
    assert_eq!(BleUUID::parse(""), Err(UuidError::InvalidLength(0)));
    assert_eq!(BleUUID::parse("123"), Err(UuidError::InvalidLength(3)));
    assert_eq!(BleUUID::parse("12345"), Err(UuidError::InvalidLength(5)));
    assert_eq!(BleUUID::parse("--12-3--"), Err(UuidError::InvalidLength(3)));
}

#[test]
fn parse_rejects_non_hex_digits() {
    assert_eq!(BleUUID::parse("12g4"), Err(UuidError::InvalidDigit));
    assert_eq!(BleUUID::parse("+123"), Err(UuidError::InvalidDigit));
    assert_eq!(
        BleUUID::parse("100f6c32-1735-4313-b402-38567131e5fz"),
        Err(UuidError::InvalidDigit)
    );
}
