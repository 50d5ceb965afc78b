use field_codec::error::CodecError;
use field_codec::name::Name;

#[test]
fn encode_joins_tokens_with_one_space() {
    let name = Name { first: "Muhammad".to_string(), last: "Aqil".to_string() };
    assert_eq!(name.encode(), "Muhammad Aqil");
}

#[test]
fn round_trip_of_space_free_pair() {
    let name = Name { first: "Muhammad".to_string(), last: "Aqil".to_string() };
    let text = name.encode();
    let decoded = Name::decode(&text).unwrap();
    assert_eq!(decoded.first, "Muhammad");
    assert_eq!(decoded.last, "Aqil");
}

#[test]
fn decode_single_token_is_format_error() {
    assert_eq!(Name::decode("Muhammad").unwrap_err(), CodecError::FormatError);
}

#[test]
fn decode_empty_text_is_format_error() {
    assert_eq!(Name::decode("").unwrap_err(), CodecError::FormatError);
}

#[test]
fn decode_three_tokens_is_format_error() {
    assert_eq!(Name::decode("Muhammad Aqil Junior").unwrap_err(), CodecError::FormatError);
}

#[test]
fn decode_two_adjacent_spaces_is_format_error() {
    assert_eq!(Name::decode("Muhammad  Aqil").unwrap_err(), CodecError::FormatError);
}

#[test]
fn decode_splits_at_the_only_space() {
    let decoded = Name::decode("Muhammad Aqil").unwrap();
    assert_eq!(decoded.first, "Muhammad");
    assert_eq!(decoded.last, "Aqil");
}

#[test]
fn decode_keeps_empty_tokens() {
    let decoded = Name::decode("Muhammad ").unwrap();
    assert_eq!(decoded.first, "Muhammad");
    assert_eq!(decoded.last, "");

    let decoded = Name::decode(" ").unwrap();
    assert_eq!(decoded.first, "");
    assert_eq!(decoded.last, "");
}

#[test]
fn decode_handles_non_ascii_tokens() {
    let name = Name { first: "José".to_string(), last: "Ángel".to_string() };
    let text = name.encode();
    assert_eq!(text, "José Ángel");
    let decoded = Name::decode(&text).unwrap();
    assert_eq!(decoded.first, "José");
    assert_eq!(decoded.last, "Ángel");
}

#[test]
fn format_error_names_the_expected_shape() {
    let err = Name::decode("Muhammad").unwrap_err();
    assert_eq!(err.message(), "Expecting first and last name");
}
