use rustxtf::{
    decode_file, find_byte_offset_for_value, find_next_ping, find_next_ping_of_type,
    parse_type_code, xtf_layout, FieldValue, PING_MAGIC,
};

#[test]
fn magic_found_at_unaligned_offset() {
    let mut data = vec![0u8; 20];
    data[7] = 0xCE;
    data[8] = 0xFA;
    assert_eq!(PING_MAGIC, 0xFACE);
    assert_eq!(find_next_ping(&data, 0), Some(7));
    assert_eq!(find_next_ping(&data, 7), Some(7));
    assert_eq!(find_next_ping(&data, 8), None);
}

#[test]
fn scan_returns_first_of_several() {
    let data = vec![0u8, 0xCE, 0xFA, 0xCE, 0xFA];
    assert_eq!(find_next_ping(&data, 0), Some(1));
    assert_eq!(find_next_ping(&data, 2), Some(3));
    assert_eq!(find_next_ping(&data, 4), None);
}

#[test]
fn scan_of_short_buffers_finds_nothing() {
    assert_eq!(find_next_ping(&[], 0), None);
    assert_eq!(find_next_ping(&[0xCE], 0), None);
    assert_eq!(find_next_ping(&[0xCE, 0xFA], 5), None);
}

#[test]
fn scan_for_any_value() {
    let data = vec![1u8, 2, 3, 4];
    assert_eq!(find_byte_offset_for_value(&data, 0, 0x0302), Some(1));
    assert_eq!(find_byte_offset_for_value(&data, 0, 0x0201), Some(0));
    assert_eq!(find_byte_offset_for_value(&data, 1, 0x0201), None);
}

fn put_u16(data: &mut [u8], at: usize, v: u16) {
    data[at..at + 2].copy_from_slice(&v.to_le_bytes());
}

#[test]
fn whole_file_with_two_channels_and_one_ping() {
    // The file header's last field is a float at 252, so it ends at 256.
    let mut data = vec![0u8; 256 + 2 * 128 + 256 + 64];
    put_u16(&mut data, 166, 2);
    data[256] = 3;
    data[384] = 4;
    let ping = 256 + 2 * 128;
    put_u16(&mut data, ping, PING_MAGIC);
    put_u16(&mut data, ping + 4, 1);
    put_u16(&mut data, ping + 256, 42);

    let file = decode_file(&xtf_layout(), &data).unwrap();
    assert_eq!(file.file_header.short_value("NumberOfSonarChannels"), Some(2));
    assert_eq!(file.channels.len(), 2);
    let kind = file.channels[1].find("TypeOfChannel").unwrap();
    assert_eq!(file.channels[1].fields[kind].value, Some(FieldValue::Byte(4)));
    assert_eq!(file.pings.len(), 1);
    assert_eq!(file.pings[0].header.short_value("MagicNumber"), Some(PING_MAGIC));
    assert_eq!(file.pings[0].header.short_value("NumChansToFollow"), Some(1));
    assert_eq!(file.pings[0].channels.len(), 1);
    assert_eq!(file.pings[0].channels[0].short_value("ChannelNumber"), Some(42));
}

#[test]
fn pings_follow_one_another() {
    let mut data = vec![0u8; 256 + 256 + 64 + 10 + 256];
    let first = 256;
    put_u16(&mut data, first, PING_MAGIC);
    put_u16(&mut data, first + 4, 1);
    let second = first + 256 + 64 + 10;
    put_u16(&mut data, second, PING_MAGIC);

    let file = decode_file(&xtf_layout(), &data).unwrap();
    assert_eq!(file.channels.len(), 0);
    assert_eq!(file.pings.len(), 2);
    assert_eq!(file.pings[0].channels.len(), 1);
    assert_eq!(file.pings[1].channels.len(), 0);
}

#[test]
fn file_without_pings() {
    let data = vec![0u8; 300];
    let file = decode_file(&xtf_layout(), &data).unwrap();
    assert_eq!(file.file_header.short_value("NumberOfSonarChannels"), Some(0));
    assert_eq!(file.pings.len(), 0);
}

#[test]
fn truncated_file_header_leaves_fields_absent() {
    let data = vec![0u8; 10];
    let file = decode_file(&xtf_layout(), &data).unwrap();
    assert_eq!(file.file_header.short_value("NumberOfSonarChannels"), None);
    assert_eq!(file.channels.len(), 0);
    assert_eq!(file.pings.len(), 0);
}

#[test]
fn typed_scan_skips_magic_with_other_header_type() {
    let data = vec![0xCEu8, 0xFA, 3, 0, 0xCE, 0xFA, 0, 9];
    assert_eq!(find_next_ping(&data, 0), Some(0));
    assert_eq!(find_next_ping_of_type(&data, 0, 0), Some(4));
    assert_eq!(find_next_ping_of_type(&data, 0, 3), Some(0));
    assert_eq!(find_next_ping_of_type(&data, 5, 0), None);
    assert_eq!(find_next_ping_of_type(&[0xCE, 0xFA], 0, 0), None);
}

#[test]
fn standard_layout_tables() {
    let layout = xtf_layout();
    assert_eq!(layout.file_header.len(), 33);
    assert_eq!(layout.channel_info.len(), 21);
    assert_eq!(layout.ping_header.len(), 79);
    assert_eq!(layout.ping_channel.len(), 24);
    assert_eq!(layout.file_header[9].name, "NumberOfSonarChannels");
    assert_eq!(layout.file_header[9].offset, 166);
    assert_eq!(layout.ping_header[3].name, "NumChansToFollow");
    let schemas = [&layout.file_header, &layout.channel_info, &layout.ping_header, &layout.ping_channel];
    for schema in schemas {
        for field in schema.iter() {
            assert!(parse_type_code(field.code).is_ok(), "{}", field.code);
        }
    }
}
