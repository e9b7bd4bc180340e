//! Schema-driven decoding of XTF sonar files: little-endian primitive readers,
//! compact type codes, a record decoder, the ping magic-number scanner and the
//! pipeline that walks a whole file.

mod error;
mod laws;
mod layout;
mod pipeline;
mod readers;
mod record;
mod scanner;
mod type_code;

pub use error::DecodeError;
pub use readers::{
    le_value, pow256, read_and_decode_byte_as_number_u8, read_and_decode_bytes_as_string,
    read_double, read_float_from_binary_at_offset, read_unsigned_long, read_unsigned_short, text_of,
    without_nulls,
};
pub use type_code::{
    all_ascii_digits, decimal_value, field_type_of, is_ascii_digit, is_ascii_letter,
    is_count_and_letter, parse_size_and_type, parse_type_code, size_and_type_of, tag_of,
    type_of_code, FieldType, COUNT_AND_LETTER,
};
pub use record::{
    absent_indices, decode_result_model, decode_spec, decoded_fields, field_value_at,
    position_of, read_headers, record_end, schema_types, shifted, short_value_of, value_model,
    DecodedField, DecodedRecord, FieldModel, FieldSpec, FieldValue, FieldValueModel,
};
pub use scanner::{
    find_byte_offset_for_value, find_next_ping, find_next_ping_of_type, first_match_from,
    first_ping_of_type_from, lemma_first_match_bounds, short_at, PING_MAGIC,
};
pub use pipeline::{
    chain_result_model, chain_spec, count_of, decode_file, file_spec, pings_from, prepend,
    read_records, records_model, scan_room, FileLayout, Ping, PingModel, XtfFile, XtfFileModel,
    CHANNEL_COUNT_FIELD, PING_CHANNEL_COUNT_FIELD,
};
pub use layout::{
    channel_info_schema, file_header_schema, ping_channel_schema, ping_header_schema, xtf_layout,
};
pub use laws::{
    ascii_without_nul, field_bytes, lemma_decode_round_trip, lemma_field_round_trip,
    lemma_le_bytes_round_trip, lemma_le_value_long, lemma_le_value_short, lemma_magic_bytes,
    lemma_malformed_code_fails, lemma_next_offset, lemma_scan_finds_first, lemma_scan_finds_none,
    lemma_scan_magic_at, lemma_text_nulls, le_bytes, zeros,
};
