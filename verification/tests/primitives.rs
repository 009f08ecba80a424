//! Tests of the primitive layer: length-encoded integers, bitmaps, packed
//! decimals, temporal renderings, and the UTF-8-or-base64 fallback.

use std::collections::HashMap;

use mariadb_binlog_parse::bytes::{encode_lenenc, parse_bitmap, parse_lenenc};
use mariadb_binlog_parse::decimal::{
    bin_to_decimal, encode_newdecimal, parse_quantity_of_bytes_for_decimal_part,
};
use mariadb_binlog_parse::model::EventBodyTypeCode19;
use mariadb_binlog_parse::render::u64_to_dec;
use mariadb_binlog_parse::rows::parse_column_data_for_row_event;
use mariadb_binlog_parse::temporal::{date_render, datetime2_render, time2_render};

#[test]
fn lenenc_widths() {
    assert_eq!(parse_lenenc(&[0xFA]).unwrap(), (250, 1));
    assert_eq!(parse_lenenc(&[0xFC, 0x01, 0x01]).unwrap(), (257, 3));
    assert_eq!(parse_lenenc(&[0xFD, 0x00, 0x00, 0x01]).unwrap(), (65536, 4));
    assert_eq!(
        parse_lenenc(&[0xFE, 0, 0, 0, 0, 1, 0, 0, 0]).unwrap(),
        (1u64 << 32, 9)
    );
}

#[test]
fn lenenc_reserved_bytes_fail() {
    assert_eq!(parse_lenenc(&[0xFB]).unwrap_err().0, "lenenc parse error");
    assert_eq!(parse_lenenc(&[0xFF]).unwrap_err().0, "lenenc parse error");
}

#[test]
fn lenenc_truncation_fails() {
    assert_eq!(parse_lenenc(&[]).unwrap_err().0, "truncated input");
    assert_eq!(parse_lenenc(&[0xFC, 0x01]).unwrap_err().0, "truncated input");
    assert_eq!(
        parse_lenenc(&[0xFE, 0, 0, 0, 0]).unwrap_err().0,
        "truncated input"
    );
}

#[test]
fn lenenc_round_trips() {
    for v in [
        0u64,
        1,
        250,
        251,
        257,
        65535,
        65536,
        (1 << 24) - 1,
        1 << 24,
        1 << 32,
        u64::MAX,
    ] {
        let encoded = encode_lenenc(v);
        let expected_len = if v < 251 {
            1
        } else if v < 1 << 16 {
            3
        } else if v < 1 << 24 {
            4
        } else {
            9
        };
        assert_eq!(encoded.len(), expected_len);
        assert_eq!(parse_lenenc(&encoded).unwrap(), (v, expected_len as u8));
    }
}

#[test]
fn bitmap_expands_lsb_first_and_truncates() {
    assert_eq!(parse_bitmap(&[0b00001110], 4), vec![false, true, true, true]);
    assert_eq!(
        parse_bitmap(&[0b00000001, 0b00000001], 9),
        vec![true, false, false, false, false, false, false, false, true]
    );
    assert_eq!(parse_bitmap(&[0xFF], 3), vec![true, true, true]);
    // asking for more bits than the bytes hold yields all of them
    assert_eq!(parse_bitmap(&[0x01], 20).len(), 8);
}

#[test]
fn bitmap_covers_whole_columns() {
    // a row event with N columns carries ceil(N/8) bitmap bytes and the
    // decoded vector has exactly N entries
    for n in [1u64, 7, 8, 9, 16, 17] {
        let bytes = vec![0u8; ((n + 7) / 8) as usize];
        assert_eq!(parse_bitmap(&bytes, n).len(), n as usize);
    }
}

#[test]
fn decimal_bytes_per_digit_run() {
    assert_eq!(parse_quantity_of_bytes_for_decimal_part(0), 0);
    assert_eq!(parse_quantity_of_bytes_for_decimal_part(2), 1);
    assert_eq!(parse_quantity_of_bytes_for_decimal_part(3), 2);
    assert_eq!(parse_quantity_of_bytes_for_decimal_part(9), 4);
    assert_eq!(parse_quantity_of_bytes_for_decimal_part(10), 5);
}

#[test]
fn newdecimal_negative_value_decodes_with_sign() {
    // DECIMAL(5,2) value -123.45: 3 bytes
    let (rendered, consumed) = bin_to_decimal(&[0x7F, 0x84, 0xD2], 5, 2).unwrap();
    assert_eq!(rendered, "-123.45");
    assert_eq!(consumed, 3);
}

#[test]
fn newdecimal_signs_round_trip() {
    let magnitude = [0u8, 123, 45];
    let positive = encode_newdecimal(&magnitude, false);
    let negative = encode_newdecimal(&magnitude, true);
    assert_eq!(positive, vec![0x80, 123, 45]);
    assert_eq!(negative, vec![0x7F, 0x84, 0xD2]);
    let (pos_rendered, _) = bin_to_decimal(&positive, 5, 2).unwrap();
    let (neg_rendered, _) = bin_to_decimal(&negative, 5, 2).unwrap();
    assert_eq!(pos_rendered, "123.45");
    assert_eq!(neg_rendered, "-123.45");
    assert_eq!(neg_rendered[1..], pos_rendered[..]);
}

#[test]
fn newdecimal_impossible_precision_fails() {
    assert_eq!(
        bin_to_decimal(&[0x80, 0, 0], 2, 5).unwrap_err().0,
        "invalid decimal field"
    );
}

#[test]
fn decimal_rendering_of_integers() {
    assert_eq!(u64_to_dec(0), "0");
    assert_eq!(u64_to_dec(12345), "12345");
    assert_eq!(u64_to_dec(u64::MAX), "18446744073709551615");
}

#[test]
fn date_renders_unpadded() {
    // 2024-06-15 packed as day in 5 bits, month in 4, year above
    assert_eq!(date_render((2024 << 9) | (6 << 5) | 15), "2024-6-15");
}

#[test]
fn time2_renders_padded() {
    let v = 0x800000u32 + ((13 << 12) | (45 << 6) | 30);
    assert_eq!(time2_render(v), "13:45:30");
    let early = 0x800000u32 + ((3 << 12) | (5 << 6) | 7);
    assert_eq!(time2_render(early), "03:05:07");
}

#[test]
fn datetime2_renders_calendar_fields() {
    let ym = 2024 * 13 + 6;
    let date_val = (ym << 5) | 15u64;
    let time_val = ((13 << 12) | (45 << 6) | 30) as u64;
    let val = (date_val << 17) | time_val;
    assert_eq!(datetime2_render(val), "2024-06-15 13:45:30");
}

/// A hand-built Table-Map entry exercising the temporal and blob column
/// types: DATETIME2, TIME2, TIMESTAMP2, DATE and BLOB.
fn temporal_table() -> EventBodyTypeCode19 {
    EventBodyTypeCode19 {
        table_id: 7,
        reserved_for_future_use: 0,
        database_name_length: 1,
        database_name: "d".to_string(),
        table_name_length: 1,
        table_name: "t".to_string(),
        number_of_columns: 5,
        column_types: vec![18, 19, 17, 10, 252],
        column_types_string_for_human: vec![
            "MYSQL_TYPE_DATETIME2".to_string(),
            "MYSQL_TYPE_TIME2".to_string(),
            "MYSQL_TYPE_TIMESTAMP2".to_string(),
            "MYSQL_TYPE_DATE".to_string(),
            "MYSQL_TYPE_BLOB".to_string(),
        ],
        number_of_metadata_block: 4,
        metadata_block: vec![0, 0, 0, 2],
        metadata_block_string_for_human: vec![],
        metadata_block_data_raw: vec![vec![0], vec![0], vec![0], vec![2]],
        columns_can_be_null: vec![true, true, true, true, true],
        optional_metadata_block: vec![],
    }
}

#[test]
fn temporal_and_blob_columns_decode() {
    let table = temporal_table();
    let null_bitmap = vec![false, false, false, false, false];
    let mut buffer: Vec<u8> = Vec::new();
    // DATETIME2 2024-06-15 13:45:30, 5 bytes big-endian offset form
    buffer.extend_from_slice(&[153, 179, 158, 219, 94]);
    // TIME2 13:45:30, 3 bytes big-endian offset form
    buffer.extend_from_slice(&[0x80, 0xDB, 0x5E]);
    // TIMESTAMP2: unix second zero, big-endian
    buffer.extend_from_slice(&[0, 0, 0, 0]);
    // DATE 2024-06-15, 3 bytes little-endian
    buffer.extend_from_slice(&[207, 208, 15]);
    // BLOB with a 2-byte length prefix and bytes that are not UTF-8
    buffer.extend_from_slice(&[2, 0, 0xFF, 0xFE]);
    let (values, consumed) =
        parse_column_data_for_row_event(&buffer, &table, &null_bitmap).unwrap();
    assert_eq!(consumed, buffer.len());
    assert_eq!(
        values,
        vec![
            "2024-06-15 13:45:30".to_string(),
            "13:45:30".to_string(),
            "1970-01-01 08:00:00".to_string(),
            "2024-6-15".to_string(),
            "this is not a String, value with base64 is //4=".to_string(),
        ]
    );
}

#[test]
fn blob_length_width_outside_range_fails() {
    let mut table = temporal_table();
    table.metadata_block_data_raw = vec![vec![0], vec![0], vec![0], vec![5]];
    let null_bitmap = vec![true, true, true, true, false];
    let buffer = vec![1, 0xAA];
    let e = parse_column_data_for_row_event(&buffer, &table, &null_bitmap).unwrap_err();
    assert_eq!(e.0, "blob length by byte is only in range [1,4]");
}

#[test]
fn signed_integer_columns_render_in_decimal() {
    let table = EventBodyTypeCode19 {
        table_id: 8,
        reserved_for_future_use: 0,
        database_name_length: 1,
        database_name: "d".to_string(),
        table_name_length: 1,
        table_name: "t".to_string(),
        number_of_columns: 4,
        column_types: vec![1, 2, 3, 8],
        column_types_string_for_human: vec![
            "MYSQL_TYPE_TINY".to_string(),
            "MYSQL_TYPE_SHORT".to_string(),
            "MYSQL_TYPE_LONG".to_string(),
            "MYSQL_TYPE_LONGLONG".to_string(),
        ],
        number_of_metadata_block: 0,
        metadata_block: vec![],
        metadata_block_string_for_human: vec![],
        metadata_block_data_raw: vec![],
        columns_can_be_null: vec![true, true, true, true],
        optional_metadata_block: vec![],
    };
    let null_bitmap = vec![false, false, false, false];
    let mut buffer: Vec<u8> = Vec::new();
    buffer.extend_from_slice(&(-5i8).to_le_bytes());
    buffer.extend_from_slice(&(-300i16).to_le_bytes());
    buffer.extend_from_slice(&(70000i32).to_le_bytes());
    buffer.extend_from_slice(&(-9000000000i64).to_le_bytes());
    let (values, consumed) =
        parse_column_data_for_row_event(&buffer, &table, &null_bitmap).unwrap();
    assert_eq!(consumed, 15);
    assert_eq!(
        values,
        vec![
            "-5".to_string(),
            "-300".to_string(),
            "70000".to_string(),
            "-9000000000".to_string(),
        ]
    );
}

#[test]
fn metadata_iterator_stays_in_lock_step_for_null_columns() {
    // The first column is VARCHAR and NULL: its metadata entry must still
    // be consumed, so the second VARCHAR uses its own entry (max length
    // 300, which takes a two-byte value length).
    let table = EventBodyTypeCode19 {
        table_id: 9,
        reserved_for_future_use: 0,
        database_name_length: 1,
        database_name: "d".to_string(),
        table_name_length: 1,
        table_name: "t".to_string(),
        number_of_columns: 2,
        column_types: vec![15, 15],
        column_types_string_for_human: vec![
            "MYSQL_TYPE_VARCHAR".to_string(),
            "MYSQL_TYPE_VARCHAR".to_string(),
        ],
        number_of_metadata_block: 4,
        metadata_block: vec![10, 0, 44, 1],
        metadata_block_string_for_human: vec![],
        metadata_block_data_raw: vec![vec![10, 0], vec![44, 1]],
        columns_can_be_null: vec![true, true],
        optional_metadata_block: vec![],
    };
    let null_bitmap = vec![true, false];
    let buffer = vec![2, 0, b'o', b'k'];
    let (values, consumed) =
        parse_column_data_for_row_event(&buffer, &table, &null_bitmap).unwrap();
    assert_eq!(consumed, 4);
    assert_eq!(values, vec!["this is a String, value is `ok`".to_string()]);
}

#[test]
fn unknown_column_type_in_table_map_fails() {
    let mut registry: HashMap<u64, EventBodyTypeCode19> = HashMap::new();
    let mut tm_body = vec![42, 0, 0, 0, 0, 0];
    tm_body.extend_from_slice(&[0, 0]);
    tm_body.push(1);
    tm_body.extend_from_slice(b"a");
    tm_body.push(0);
    tm_body.push(1);
    tm_body.extend_from_slice(b"b");
    tm_body.push(0);
    tm_body.push(1); // one column
    tm_body.push(77); // a type code the catalogue does not know
    tm_body.push(0); // no metadata
    tm_body.push(0); // null bitmap
    let e = mariadb_binlog_parse::rows::deal_type_code_19(tm_body, &mut registry).unwrap_err();
    assert_eq!(e.0, "unknown field type");
    assert_eq!(registry.len(), 0);
}

#[test]
fn metadata_block_entry_renders_its_line() {
    let (line, raw, width) =
        mariadb_binlog_parse::rows::parse_metadata_block(&vec![100, 0], 0, 15).unwrap();
    assert_eq!(
        line,
        "field type id is: 15, field type name is: MYSQL_TYPE_VARCHAR, infomation is [the maximum length of the string is 100 byte]"
    );
    assert_eq!(raw, vec![100, 0]);
    assert_eq!(width, 2);
}

#[test]
fn metadata_block_entry_for_plain_type_is_empty() {
    let (line, raw, width) =
        mariadb_binlog_parse::rows::parse_metadata_block(&vec![], 0, 3).unwrap();
    assert_eq!(line, "");
    assert_eq!(raw, Vec::<u8>::new());
    assert_eq!(width, 0);
}

#[test]
fn registry_is_replaced_per_table_id() {
    let mut registry: HashMap<u64, EventBodyTypeCode19> = HashMap::new();
    let mut tm_body = vec![42, 0, 0, 0, 0, 0];
    tm_body.extend_from_slice(&[0, 0]);
    tm_body.push(1);
    tm_body.extend_from_slice(b"a");
    tm_body.push(0);
    tm_body.push(1);
    tm_body.extend_from_slice(b"b");
    tm_body.push(0);
    tm_body.push(1); // one column
    tm_body.push(3); // LONG
    tm_body.push(0); // no metadata
    tm_body.push(0); // null bitmap
    let tm = mariadb_binlog_parse::rows::deal_type_code_19(tm_body, &mut registry).unwrap();
    assert_eq!(tm.table_id, 42);
    assert_eq!(tm.database_name, "a");
    assert_eq!(registry.len(), 1);
    assert_eq!(registry.get(&42).unwrap().table_name, "b");
}
