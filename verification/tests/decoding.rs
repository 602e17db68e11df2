use datagenerator::{AppError, Base64Error, Extracted, HexError, InputDataType};

fn bytes_of(input: InputDataType) -> Vec<u8> {
    match input.get_bytes() {
        Ok(Extracted::Bytes(bytes)) => bytes,
        other => panic!("no bytes: {:?}", other),
    }
}

fn hex_error_of(text: &str) -> HexError {
    match InputDataType::Hex(text.to_string()).get_bytes() {
        Err(AppError::HexParse(e)) => e,
        other => panic!("no hexadecimal error: {:?}", other),
    }
}

fn base64_error_of(text: &str) -> Base64Error {
    match InputDataType::Base64(text.to_string()).get_bytes() {
        Err(AppError::Base64Parse(e)) => e,
        other => panic!("no base64 error: {:?}", other),
    }
}

#[test]
fn hex_text_decodes_to_its_bytes() {
    assert_eq!(bytes_of(InputDataType::Hex("48656c6c6f".to_string())), b"Hello".to_vec());
    assert_eq!(bytes_of(InputDataType::Hex("00ff10".to_string())), vec![0x00, 0xff, 0x10]);
}

#[test]
fn hex_text_takes_both_cases() {
    assert_eq!(bytes_of(InputDataType::Hex("4A4b".to_string())), vec![0x4a, 0x4b]);
    assert_eq!(bytes_of(InputDataType::Hex("aBcDeF".to_string())), vec![0xab, 0xcd, 0xef]);
}

#[test]
fn empty_hex_text_is_no_bytes() {
    assert_eq!(bytes_of(InputDataType::Hex(String::new())), Vec::<u8>::new());
}

#[test]
fn hex_zz_fails_with_a_decode_error() {
    assert_eq!(hex_error_of("zz"), HexError::InvalidHexCharacter { c: 'z', index: 0 });
}

#[test]
fn hex_reports_the_first_byte_that_is_no_digit() {
    assert_eq!(hex_error_of("0g"), HexError::InvalidHexCharacter { c: 'g', index: 1 });
    assert_eq!(hex_error_of("12x4y6"), HexError::InvalidHexCharacter { c: 'x', index: 2 });
    assert_eq!(hex_error_of("0x41"), HexError::InvalidHexCharacter { c: 'x', index: 1 });
}

#[test]
fn hex_reports_an_odd_length_before_a_bad_digit() {
    assert_eq!(hex_error_of("abc"), HexError::OddLength);
    assert_eq!(hex_error_of("zzz"), HexError::OddLength);
}

#[test]
fn hex_reads_text_byte_by_byte() {
    // U+00E9 is two bytes in UTF-8, 0xC3 and 0xA9, neither of them a digit.
    assert_eq!(hex_error_of("\u{e9}"), HexError::InvalidHexCharacter { c: '\u{c3}', index: 0 });
    assert_eq!(hex_error_of("ab\u{e9}"), HexError::InvalidHexCharacter { c: '\u{c3}', index: 2 });
}

#[test]
fn base64_text_decodes_to_its_bytes() {
    assert_eq!(
        bytes_of(InputDataType::Base64("aGVsbG8gd29ybGQ=".to_string())),
        b"hello world".to_vec()
    );
    assert_eq!(bytes_of(InputDataType::Base64("AAEC/w==".to_string())), vec![0, 1, 2, 255]);
}

#[test]
fn base64_padding_may_be_left_out() {
    assert_eq!(bytes_of(InputDataType::Base64("aGVsbG8=".to_string())), b"hello".to_vec());
    assert_eq!(bytes_of(InputDataType::Base64("aGVsbG8".to_string())), b"hello".to_vec());
    assert_eq!(bytes_of(InputDataType::Base64("Zg==".to_string())), b"f".to_vec());
    assert_eq!(bytes_of(InputDataType::Base64("Zg".to_string())), b"f".to_vec());
}

#[test]
fn base64_takes_the_standard_alphabet_only() {
    assert_eq!(bytes_of(InputDataType::Base64("+/+/".to_string())), vec![0xfb, 0xff, 0xbf]);
    assert_eq!(base64_error_of("-_-_"), Base64Error::InvalidByte(0, b'-'));
}

#[test]
fn empty_base64_text_is_no_bytes() {
    assert_eq!(bytes_of(InputDataType::Base64(String::new())), Vec::<u8>::new());
}

#[test]
fn base64_a_fails_with_a_decode_error() {
    assert_eq!(base64_error_of("a"), Base64Error::InvalidLength);
}

#[test]
fn base64_reports_a_byte_outside_the_alphabet() {
    assert_eq!(base64_error_of("aGVs*G8="), Base64Error::InvalidByte(4, b'*'));
}

#[test]
fn base64_reports_a_last_symbol_with_stray_bits() {
    assert_eq!(base64_error_of("aGVsbG9="), Base64Error::InvalidLastSymbol(6, b'9'));
}

#[test]
fn text_is_its_utf8_encoding() {
    assert_eq!(bytes_of(InputDataType::U8String("abc".to_string())), vec![0x61, 0x62, 0x63]);
    assert_eq!(
        bytes_of(InputDataType::U8String("h\u{e9}\u{20ac}".to_string())),
        vec![0x68, 0xc3, 0xa9, 0xe2, 0x82, 0xac]
    );
    assert_eq!(bytes_of(InputDataType::U8String(String::new())), Vec::<u8>::new());
}

#[test]
fn decode_base64_is_what_the_base64_input_gives() {
    assert_eq!(datagenerator::decode_base64(b"Zm9v"), Ok(b"foo".to_vec()));
    assert_eq!(datagenerator::decode_base64(b"Zm9"), Err(Base64Error::InvalidLastSymbol(2, b'9')));
}
