use pin_block::error::PinError;
use pin_block::hex_text::xor_hex;
use pin_block::pin_block::extract_pin_from_block;
use pin_block::pin_block::generate_pin_block;
use pin_block::pin_block::pin_from_field;

const PAN: &str = "1234567890123456";

#[test]
fn pin_block_of_sample_card() {
    let block = generate_pin_block("1234", PAN).unwrap();
    // PIN field 041234FFFFFFFFFF, PAN field 0000567890123456
    assert_eq!(block, "041262876FEDCBA9");
}

#[test]
fn pin_block_fields_of_sample_card_xor() {
    let block = xor_hex("041234FFFFFFFFFF", "0000567890123456").unwrap();
    assert_eq!(block, generate_pin_block("1234", PAN).unwrap());
}

#[test]
fn pin_block_of_six_digit_pin() {
    let block = generate_pin_block("987654", "4000001234567899").unwrap();
    // PIN field 06987654FFFFFFFF, PAN field 0000001234567899
    assert_eq!(block, "06987646CBA98766");
}

#[test]
fn pin_block_is_sixteen_hex_characters() {
    for pin in ["1234", "00000", "999999"] {
        for pan in ["1234567890123", "1234567890123456", "9999999999999999999"] {
            let block = generate_pin_block(pin, pan).unwrap();
            assert_eq!(block.len(), 16);
            assert!(block.chars().all(|c| c.is_ascii_digit() || ('A'..='F').contains(&c)));
        }
    }
}

#[test]
fn pin_length_three_is_rejected() {
    assert_eq!(generate_pin_block("123", PAN), Err(PinError::InvalidPinLength));
}

#[test]
fn pin_length_seven_is_rejected() {
    assert_eq!(generate_pin_block("1234567", PAN), Err(PinError::InvalidPinLength));
}

#[test]
fn empty_pin_is_rejected() {
    assert_eq!(generate_pin_block("", PAN), Err(PinError::InvalidPinLength));
}

#[test]
fn pan_length_twelve_is_rejected() {
    assert_eq!(generate_pin_block("1234", "123456789012"), Err(PinError::InvalidPanLength));
}

#[test]
fn pan_length_thirteen_is_accepted() {
    // PAN field 0000234567890123
    assert_eq!(generate_pin_block("1234", "1234567890123").unwrap(), "041217BA9876FEDC");
}

#[test]
fn pin_length_is_checked_before_pan_length() {
    assert_eq!(generate_pin_block("12", "1"), Err(PinError::InvalidPinLength));
}

#[test]
fn non_hex_pin_is_an_encoding_error() {
    assert_eq!(generate_pin_block("12G4", PAN), Err(PinError::InvalidEncoding));
}

#[test]
fn round_trip_recovers_pin() {
    for pin in ["1234", "0000", "13579", "999999", "000123"] {
        for pan in ["1234567890123", PAN, "4000001234567899", "5555555555554444000"] {
            let block = generate_pin_block(pin, pan).unwrap();
            assert_eq!(extract_pin_from_block(&block, pan).unwrap(), pin);
        }
    }
}

#[test]
fn extract_sample_block() {
    assert_eq!(extract_pin_from_block("041262876FEDCBA9", PAN).unwrap(), "1234");
}

#[test]
fn extract_accepts_lowercase_block() {
    assert_eq!(extract_pin_from_block("041262876fedcba9", PAN).unwrap(), "1234");
}

#[test]
fn extract_rejects_short_block() {
    assert_eq!(extract_pin_from_block("041262876FEDCBA", PAN), Err(PinError::InvalidBlockLength));
}

#[test]
fn extract_rejects_long_block() {
    assert_eq!(
        extract_pin_from_block("041262876FEDCBA90", PAN),
        Err(PinError::InvalidBlockLength)
    );
}

#[test]
fn extract_rejects_short_pan() {
    assert_eq!(
        extract_pin_from_block("041262876FEDCBA9", "123456789012"),
        Err(PinError::InvalidPanLength)
    );
}

#[test]
fn extract_rejects_non_hex_block() {
    assert_eq!(extract_pin_from_block("041262876FEDCBAZ", PAN), Err(PinError::InvalidEncoding));
}

#[test]
fn extract_rejects_non_digit_length() {
    let block = xor_hex("A412FFFFFFFFFFFF", "0000567890123456").unwrap();
    assert_eq!(extract_pin_from_block(&block, PAN), Err(PinError::InvalidLengthDigit));
}

#[test]
fn extract_rejects_zero_length() {
    let block = xor_hex("00FFFFFFFFFFFFFF", "0000567890123456").unwrap();
    assert_eq!(extract_pin_from_block(&block, PAN), Err(PinError::PinOutOfRange));
}

#[test]
fn extract_rejects_length_seven() {
    let block = xor_hex("071234567FFFFFFF", "0000567890123456").unwrap();
    assert_eq!(extract_pin_from_block(&block, PAN), Err(PinError::PinOutOfRange));
}

#[test]
fn extract_under_other_pan_differs() {
    let block = generate_pin_block("1234", PAN).unwrap();
    assert_ne!(extract_pin_from_block(&block, "4000001234567899"), Ok("1234".to_string()));
}

#[test]
fn field_gives_pin() {
    assert_eq!(pin_from_field("041234FFFFFFFFFF").unwrap(), "1234");
    assert_eq!(pin_from_field("06123456FFFFFFFF").unwrap(), "123456");
    assert_eq!(pin_from_field("01").unwrap_err(), PinError::PinOutOfRange);
    assert_eq!(pin_from_field("1").unwrap_err(), PinError::InvalidLengthDigit);
    assert_eq!(pin_from_field("0F").unwrap_err(), PinError::InvalidLengthDigit);
    assert_eq!(pin_from_field("10123456789FFFFF").unwrap_err(), PinError::PinOutOfRange);
}

#[test]
fn xor_hex_values() {
    assert_eq!(xor_hex("0F", "FF").unwrap(), "F0");
    assert_eq!(xor_hex("ab", "00").unwrap(), "AB");
    assert_eq!(xor_hex("", "").unwrap(), "");
    assert_eq!(xor_hex("0412FFFFFFFFFFFF", "0000234567890123").unwrap(), "0412DCBA9876FEDC");
}

#[test]
fn xor_hex_keeps_length() {
    let a = "00112233445566778899AABBCCDDEEFF";
    let b = "FFEEDDCCBBAA99887766554433221100";
    let r = xor_hex(a, b).unwrap();
    assert_eq!(r.len(), a.len());
    assert_eq!(r, "FFFFFFFFFFFFFFFFFFFFFFFFFFFFFFFF");
}

#[test]
fn xor_hex_length_mismatch() {
    assert_eq!(xor_hex("00", "0000"), Err(PinError::LengthMismatch));
}

#[test]
fn xor_hex_odd_length() {
    assert_eq!(xor_hex("ABC", "123"), Err(PinError::InvalidEncoding));
}

#[test]
fn xor_hex_non_hex() {
    assert_eq!(xor_hex("0G", "00"), Err(PinError::InvalidEncoding));
    assert_eq!(xor_hex("00", "x0"), Err(PinError::InvalidEncoding));
}
