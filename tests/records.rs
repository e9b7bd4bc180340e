use rustxtf::{read_headers, DecodeError, DecodedRecord, FieldSpec, FieldValue};

fn value<'r>(rec: &'r DecodedRecord, name: &str) -> &'r Option<FieldValue> {
    let i = rec.find(name).expect("field present");
    &rec.fields[i].value
}

fn sample_schema() -> Vec<FieldSpec<'static>> {
    vec![
        FieldSpec::new("Kind", "b", 0),
        FieldSpec::new("Count", "H", 1),
        FieldSpec::new("Both", "2H", 3),
        FieldSpec::new("Gain", "f", 7),
        FieldSpec::new("Lat", "d", 11),
        FieldSpec::new("Name", "8s", 19),
        FieldSpec::new("Spare", "4z", 27),
    ]
}

fn sample_buffer(base: usize) -> Vec<u8> {
    let mut data = vec![0xEEu8; base];
    data.push(7);
    data.extend_from_slice(&0xBEEFu16.to_le_bytes());
    data.extend_from_slice(&0xDEAD_BEEFu32.to_le_bytes());
    data.extend_from_slice(&0.5f32.to_le_bytes());
    data.extend_from_slice(&12.75f64.to_le_bytes());
    data.extend_from_slice(b"SONAR\0\0\0");
    data.extend_from_slice(&[0xAB; 4]);
    data
}

#[test]
fn decode_recovers_encoded_values() {
    let data = sample_buffer(5);
    let (rec, next) = read_headers(&sample_schema(), &data, 5).unwrap();
    assert_eq!(rec.fields.len(), 7);
    assert_eq!(rec.fields[0].name, "Kind");
    assert_eq!(value(&rec, "Kind"), &Some(FieldValue::Byte(7)));
    assert_eq!(value(&rec, "Count"), &Some(FieldValue::Short(0xBEEF)));
    assert_eq!(value(&rec, "Both"), &Some(FieldValue::Long(0xDEAD_BEEF)));
    assert_eq!(value(&rec, "Gain"), &Some(FieldValue::Float(0.5f32.to_bits())));
    assert_eq!(value(&rec, "Lat"), &Some(FieldValue::Double(12.75f64.to_bits())));
    assert_eq!(value(&rec, "Name"), &Some(FieldValue::Text("SONAR".to_string())));
    assert_eq!(value(&rec, "Spare"), &Some(FieldValue::Zero));
    assert_eq!(next, 5 + 27 + 4);
    assert!(rec.unreadable().is_empty());
}

#[test]
fn next_offset_skips_a_trailing_text_region() {
    let schema = vec![FieldSpec::new("Id", "H", 0), FieldSpec::new("Note", "64s", 2)];
    let data = vec![0u8; 10];
    let (rec, next) = read_headers(&schema, &data, 3).unwrap();
    assert_eq!(next, 3 + 2 + 64);
    assert_eq!(value(&rec, "Id"), &Some(FieldValue::Short(0)));
    assert_eq!(value(&rec, "Note"), &None);
}

#[test]
fn next_offset_uses_last_field_not_largest() {
    let schema = vec![FieldSpec::new("Wide", "32s", 0), FieldSpec::new("Small", "b", 4)];
    let data = vec![0u8; 40];
    let (_, next) = read_headers(&schema, &data, 0).unwrap();
    assert_eq!(next, 5);
}

#[test]
fn truncated_field_is_absent_and_decoding_goes_on() {
    let schema = vec![
        FieldSpec::new("A", "b", 0),
        FieldSpec::new("B", "d", 1),
        FieldSpec::new("C", "b", 2),
    ];
    let data = vec![1u8, 2, 3];
    let (rec, next) = read_headers(&schema, &data, 0).unwrap();
    assert_eq!(value(&rec, "A"), &Some(FieldValue::Byte(1)));
    assert_eq!(value(&rec, "B"), &None);
    assert_eq!(value(&rec, "C"), &Some(FieldValue::Byte(3)));
    assert_eq!(next, 3);
    assert_eq!(rec.unreadable(), vec![1]);
}

#[test]
fn invalid_text_field_is_absent() {
    let schema = vec![FieldSpec::new("T", "2s", 0), FieldSpec::new("N", "b", 2)];
    let data = vec![0xC3u8, 0x28, 9];
    let (rec, _) = read_headers(&schema, &data, 0).unwrap();
    assert_eq!(value(&rec, "T"), &None);
    assert_eq!(value(&rec, "N"), &Some(FieldValue::Byte(9)));
}

#[test]
fn padding_is_never_read() {
    let schema = vec![FieldSpec::new("Pad", "100z", 0)];
    let data: Vec<u8> = Vec::new();
    let (rec, next) = read_headers(&schema, &data, 0).unwrap();
    assert_eq!(value(&rec, "Pad"), &Some(FieldValue::Zero));
    assert_eq!(next, 100);
}

#[test]
fn empty_schema_is_an_error() {
    let schema: Vec<FieldSpec> = Vec::new();
    assert_eq!(read_headers(&schema, &[1u8, 2], 0).err(), Some(DecodeError::EmptySchema));
}

#[test]
fn malformed_code_fails_the_record() {
    let mut schema = sample_schema();
    schema[3] = FieldSpec::new("Gain", "x9", 7);
    let data = sample_buffer(0);
    assert_eq!(read_headers(&schema, &data, 0).err(), Some(DecodeError::MalformedTypeCode));
}

#[test]
fn unknown_tag_fails_the_record() {
    let schema = vec![FieldSpec::new("A", "b", 0), FieldSpec::new("B", "3H", 1)];
    assert_eq!(read_headers(&schema, &[0u8; 8], 0).err(), Some(DecodeError::UnknownTypeTag));
}

#[test]
fn record_end_past_usize_is_truncated() {
    let schema = vec![FieldSpec::new("A", "b", usize::MAX)];
    assert_eq!(read_headers(&schema, &[0u8; 8], 1).err(), Some(DecodeError::TruncatedRecord));
}

#[test]
fn lookup_finds_the_first_field_of_a_name() {
    let schema = vec![
        FieldSpec::new("A", "H", 0),
        FieldSpec::new("B", "b", 2),
        FieldSpec::new("A", "H", 3),
    ];
    let data = vec![5u8, 0, 1, 6, 0];
    let (rec, _) = read_headers(&schema, &data, 0).unwrap();
    assert_eq!(rec.find("A"), Some(0));
    assert_eq!(rec.find("B"), Some(1));
    assert_eq!(rec.find("Z"), None);
    assert_eq!(rec.short_value("A"), Some(5));
    assert_eq!(rec.short_value("B"), None);
    assert_eq!(rec.short_value("Z"), None);
}
