use rustxtf::{parse_size_and_type, parse_type_code, DecodeError, FieldType};

#[test]
fn count_and_letter_codes_split() {
    assert_eq!(parse_size_and_type("64s"), Ok((64, 's')));
    assert_eq!(parse_size_and_type("2H"), Ok((2, 'H')));
    assert_eq!(parse_size_and_type("12z"), Ok((12, 'z')));
    assert_eq!(parse_size_and_type("007s"), Ok((7, 's')));
}

#[test]
fn bare_letter_counts_once() {
    assert_eq!(parse_size_and_type("b"), Ok((1, 'b')));
    assert_eq!(parse_size_and_type("d"), Ok((1, 'd')));
}

#[test]
fn malformed_codes_are_refused() {
    for code in ["x9", "", "9", "s9", "2", "H2", "2HH", " 2H", "2H\n", "-1s", "1.5s", "\u{663}s"] {
        assert_eq!(parse_size_and_type(code), Err(DecodeError::MalformedTypeCode), "{:?}", code);
    }
}

#[test]
fn count_too_large_is_malformed() {
    assert_eq!(
        parse_size_and_type("99999999999999999999999999s"),
        Err(DecodeError::MalformedTypeCode)
    );
}

#[test]
fn codes_resolve_to_primitives() {
    assert_eq!(parse_type_code("b"), Ok(FieldType::Byte));
    assert_eq!(parse_type_code("H"), Ok(FieldType::Short));
    assert_eq!(parse_type_code("2H"), Ok(FieldType::Long));
    assert_eq!(parse_type_code("f"), Ok(FieldType::Float));
    assert_eq!(parse_type_code("d"), Ok(FieldType::Double));
    assert_eq!(parse_type_code("16s"), Ok(FieldType::Text(16)));
    assert_eq!(parse_type_code("53z"), Ok(FieldType::Padding(53)));
}

#[test]
fn unknown_tags_are_reported() {
    assert_eq!(parse_type_code("3H"), Err(DecodeError::UnknownTypeTag));
    assert_eq!(parse_type_code("q"), Err(DecodeError::UnknownTypeTag));
    assert_eq!(parse_type_code("2b"), Err(DecodeError::UnknownTypeTag));
    assert_eq!(parse_type_code("x9"), Err(DecodeError::MalformedTypeCode));
}

#[test]
fn sizes_follow_the_primitive() {
    assert_eq!(FieldType::Byte.size(), 1);
    assert_eq!(FieldType::Short.size(), 2);
    assert_eq!(FieldType::Long.size(), 4);
    assert_eq!(FieldType::Float.size(), 4);
    assert_eq!(FieldType::Double.size(), 8);
    assert_eq!(FieldType::Text(64).size(), 64);
    assert_eq!(FieldType::Padding(6).size(), 6);
}
