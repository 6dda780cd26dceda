use binary_gen_web::DecodeResult;
use binary_gen_web::decode;
use binary_gen_web::encode;

#[test]
fn decode_empty_is_valid_empty() {
    assert_eq!(decode(""), DecodeResult::Valid(vec![]));
}

#[test]
fn decode_canonical_pair() {
    assert_eq!(decode("0FFF"), DecodeResult::Valid(vec![0x0F, 0xFF]));
}

#[test]
fn decode_rejects_non_hex() {
    assert_eq!(decode("0G"), DecodeResult::Invalid);
}

#[test]
fn decode_drops_trailing_digit() {
    assert_eq!(decode("ABC"), DecodeResult::Valid(vec![0xAB]));
}

#[test]
fn decode_single_digit_is_empty_buffer() {
    assert_eq!(decode("F"), DecodeResult::Valid(vec![]));
}

#[test]
fn decode_is_case_insensitive() {
    assert_eq!(decode("0fff"), DecodeResult::Valid(vec![0x0F, 0xFF]));
    assert_eq!(decode("aBcD"), DecodeResult::Valid(vec![0xAB, 0xCD]));
}

#[test]
fn decode_even_length_hex_gives_half_as_many_bytes() {
    assert_eq!(
        decode("deadBEEF"),
        DecodeResult::Valid(vec![0xDE, 0xAD, 0xBE, 0xEF])
    );
    let text = "00112233445566778899";
    match decode(text) {
        DecodeResult::Valid(v) => assert_eq!(v.len(), text.len() / 2),
        DecodeResult::Invalid => panic!("hex text rejected"),
    }
}

#[test]
fn decode_odd_length_hex_gives_floor_half_bytes() {
    assert_eq!(decode("12345"), DecodeResult::Valid(vec![0x12, 0x34]));
    let text = "123456789";
    match decode(text) {
        DecodeResult::Valid(v) => assert_eq!(v.len(), text.len() / 2),
        DecodeResult::Invalid => panic!("hex text rejected"),
    }
}

#[test]
fn decode_bad_character_poisons_everything() {
    assert_eq!(decode("G0"), DecodeResult::Invalid);
    assert_eq!(decode("00G000"), DecodeResult::Invalid);
    assert_eq!(decode("0000G"), DecodeResult::Invalid);
    assert_eq!(decode("0x0F"), DecodeResult::Invalid);
    assert_eq!(decode("0 0"), DecodeResult::Invalid);
    assert_eq!(decode("FF!"), DecodeResult::Invalid);
}

#[test]
fn encode_canonical_pair() {
    assert_eq!(encode(&vec![0x0F, 0xFF]), "0FFF");
}

#[test]
fn encode_empty_buffer_is_empty_text() {
    assert_eq!(encode(&vec![]), "");
}

#[test]
fn encode_uses_uppercase_digits() {
    assert_eq!(
        encode(&vec![0x01, 0x23, 0x45, 0x67, 0x89, 0xAB, 0xCD, 0xEF]),
        "0123456789ABCDEF"
    );
    assert_eq!(encode(&vec![0x00]), "00");
}

#[test]
fn round_trip_over_every_byte_value() {
    let bytes: Vec<u8> = (0u16..=255).map(|v| v as u8).collect();
    let text = encode(&bytes);
    assert_eq!(decode(&text), DecodeResult::Valid(bytes));
}
