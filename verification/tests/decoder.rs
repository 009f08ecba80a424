//! End-to-end tests of the binlog decoder: magic validation, framing,
//! the iterator, and the format-description event.

use std::collections::HashMap;

use mariadb_binlog_parse::check_file_magic_number;
use mariadb_binlog_parse::events::{decode_events, parse_event_header};
use mariadb_binlog_parse::model::{EventBody, EventBodyTypeCode19};

fn magic() -> Vec<u8> {
    vec![0xFE, 0x62, 0x69, 0x6E]
}

#[test]
fn magic_accepted() {
    assert_eq!(check_file_magic_number(&magic()).unwrap(), true);
}

#[test]
fn magic_rejected() {
    assert_eq!(
        check_file_magic_number(&[0xFE, 0x62, 0x69, 0x6F]).unwrap(),
        false
    );
    assert_eq!(check_file_magic_number(&[0x00, 0x00, 0x00, 0x00]).unwrap(), false);
}

#[test]
fn magic_short_read_is_error() {
    assert!(check_file_magic_number(&[0xFE, 0x62]).is_err());
}

#[test]
fn empty_file_with_magic_only_yields_no_events() {
    let events = decode_events(&magic()).unwrap();
    assert_eq!(events.len(), 0);
}

#[test]
fn wrong_magic_fails_decoding() {
    let e = decode_events(&[0x00, 0x62, 0x69, 0x6E]).unwrap_err();
    assert_eq!(e.0, "malformed event framing");
}

#[test]
fn short_file_fails_decoding() {
    let e = decode_events(&[0xFE, 0x62]).unwrap_err();
    assert_eq!(e.0, "truncated input");
}

fn header_bytes(
    timestamp: u32,
    type_code: u8,
    server_id: u32,
    event_length: u32,
    next: u32,
    flags: u16,
) -> Vec<u8> {
    let mut h = Vec::new();
    h.extend_from_slice(&timestamp.to_le_bytes());
    h.push(type_code);
    h.extend_from_slice(&server_id.to_le_bytes());
    h.extend_from_slice(&event_length.to_le_bytes());
    h.extend_from_slice(&next.to_le_bytes());
    h.extend_from_slice(&flags.to_le_bytes());
    h
}

fn format_description_file() -> Vec<u8> {
    // A synthetic 119-byte format-description event right after the magic.
    let mut body = Vec::new();
    body.extend_from_slice(&4u16.to_le_bytes());
    let mut version = b"5.5.5-10.5.0-MariaDB".to_vec();
    version.resize(50, 0);
    body.extend_from_slice(&version);
    body.extend_from_slice(&0u32.to_le_bytes());
    body.push(19);
    body.resize(100, 0);
    let mut file = magic();
    file.extend_from_slice(&header_bytes(0, 15, 1, 119, 123, 0));
    file.extend_from_slice(&body);
    file
}

#[test]
fn format_description_event_decodes() {
    let file = format_description_file();
    let events = decode_events(&file).unwrap();
    assert_eq!(events.len(), 1);
    let (header, body) = &events[0];
    assert_eq!(header.type_code, 15);
    assert_eq!(header.event_length, 119);
    assert_eq!(header.next_event_position, 123);
    match body {
        EventBody::FormatDescription(b) => {
            assert_eq!(b.binlog_version, 4);
            assert_eq!(b.server_version, "5.5.5-10.5.0-MariaDB");
            assert_eq!(b.create_timestamp, 0);
            assert_eq!(b.header_length, 19);
        }
        other => panic!("expected a format description, got {:?}", other),
    }
}

#[test]
fn event_length_below_header_size_fails() {
    let mut file = magic();
    file.extend_from_slice(&header_bytes(0, 15, 1, 18, 22, 0));
    let e = decode_events(&file).unwrap_err();
    assert_eq!(e.0, "malformed event framing");
}

#[test]
fn next_position_must_continue_the_stream() {
    // Two events' worth of bytes, but the first header points into the
    // middle of its own body.
    let mut file = magic();
    file.extend_from_slice(&header_bytes(0, 16, 1, 20, 10, 0));
    file.push(7);
    file.extend_from_slice(&header_bytes(0, 16, 1, 20, 44, 0));
    file.push(7);
    let e = decode_events(&file).unwrap_err();
    assert_eq!(e.0, "malformed event framing");
}

#[test]
fn xid_events_chain_through_next_positions() {
    // Two 20-byte xid events; the second one's next position runs past the
    // end of the file, which ends the iteration cleanly.
    let mut file = magic();
    file.extend_from_slice(&header_bytes(11, 16, 1, 20, 24, 0));
    file.push(7);
    file.extend_from_slice(&header_bytes(12, 16, 1, 20, 44, 0));
    file.push(8);
    let events = decode_events(&file).unwrap();
    assert_eq!(events.len(), 2);
    assert_eq!(events[0].0.timestamp, 11);
    assert_eq!(events[1].0.timestamp, 12);
    match (&events[0].1, &events[1].1) {
        (EventBody::Xid(a), EventBody::Xid(b)) => {
            assert_eq!(a.xid_transaction_number, 7);
            assert_eq!(b.xid_transaction_number, 8);
        }
        other => panic!("expected two xid events, got {:?}", other),
    }
}

#[test]
fn unsupported_type_code_is_skipped() {
    let mut file = magic();
    file.extend_from_slice(&header_bytes(0, 200, 1, 20, 24, 0));
    file.push(0);
    let events = decode_events(&file).unwrap();
    assert_eq!(events.len(), 1);
    match &events[0].1 {
        EventBody::Skip(s) => assert_eq!(s.0, 200),
        other => panic!("expected a skipped event, got {:?}", other),
    }
}

#[test]
fn row_event_without_table_map_fails_the_stream() {
    // A type-23 row event naming table id 99 with no prior Table-Map.
    let mut body = vec![99, 0, 0, 0, 0, 0, 1, 0];
    body.push(1); // one column (lenenc)
    body.push(1); // columns-used bitmap
    body.push(0); // null bitmap
    body.extend_from_slice(&[5]); // tiny value
    let mut file = magic();
    file.extend_from_slice(&header_bytes(0, 23, 1, 19 + body.len() as u32, 100, 0));
    file.extend_from_slice(&body);
    let e = decode_events(&file).unwrap_err();
    assert_eq!(e.0, "no table map event for this table id");
}

#[test]
fn parse_event_header_reads_little_endian_fields() {
    let h = header_bytes(0x01020304, 15, 0x0A0B0C0D, 119, 123, 0x0102);
    let header = parse_event_header(&h).unwrap();
    assert_eq!(header.timestamp, 0x01020304);
    assert_eq!(header.type_code, 15);
    assert_eq!(header.server_id, 0x0A0B0C0D);
    assert_eq!(header.event_length, 119);
    assert_eq!(header.next_event_position, 123);
    assert_eq!(header.flags, 0x0102);
}

#[test]
fn parse_event_header_needs_nineteen_bytes() {
    assert!(parse_event_header(&[0u8; 18]).is_err());
}

#[test]
fn table_map_then_insert_decodes_through_the_stream() {
    // A Table-Map for t(id INT, name VARCHAR(100)) at table id 42, then an
    // insert of (1, "hi"), both through the full iterator.
    let mut tm_body = vec![42, 0, 0, 0, 0, 0]; // table id
    tm_body.extend_from_slice(&[0, 0]); // reserved
    tm_body.push(4);
    tm_body.extend_from_slice(b"test");
    tm_body.push(0);
    tm_body.push(1);
    tm_body.extend_from_slice(b"t");
    tm_body.push(0);
    tm_body.push(2); // column count
    tm_body.extend_from_slice(&[3, 15]); // LONG, VARCHAR
    tm_body.push(2); // metadata length
    tm_body.extend_from_slice(&[100, 0]); // VARCHAR max length 100
    tm_body.push(2); // null bitmap: name nullable
    let mut row_body = vec![42, 0, 0, 0, 0, 0]; // table id
    row_body.extend_from_slice(&[1, 0]); // flags
    row_body.push(2); // column count
    row_body.push(3); // columns used
    row_body.push(0); // null bitmap
    row_body.extend_from_slice(&[1, 0, 0, 0]); // id = 1
    row_body.push(2);
    row_body.extend_from_slice(b"hi"); // name = "hi"
    let tm_len = 19 + tm_body.len() as u32;
    let row_len = 19 + row_body.len() as u32;
    let mut file = magic();
    file.extend_from_slice(&header_bytes(0, 19, 1, tm_len, 4 + tm_len, 0));
    file.extend_from_slice(&tm_body);
    file.extend_from_slice(&header_bytes(0, 23, 1, row_len, 4 + tm_len + row_len, 0));
    file.extend_from_slice(&row_body);
    let events = decode_events(&file).unwrap();
    assert_eq!(events.len(), 2);
    match &events[0].1 {
        EventBody::TableMap(tm) => {
            assert_eq!(tm.table_id, 42);
            assert_eq!(tm.database_name, "test");
            assert_eq!(tm.table_name, "t");
            assert_eq!(tm.number_of_columns, 2);
            assert_eq!(tm.column_types, vec![3, 15]);
        }
        other => panic!("expected a table map, got {:?}", other),
    }
    match &events[1].1 {
        EventBody::Row(rb) => {
            assert_eq!(rb.type_string_for_human, "insert");
            assert_eq!(rb.table_id, 42);
            assert_eq!(rb.null_bitmap, vec![false, false]);
            assert_eq!(
                rb.column_data,
                vec![
                    "1".to_string(),
                    "this is a String, value is `hi`".to_string()
                ]
            );
        }
        other => panic!("expected a row event, got {:?}", other),
    }
}

/// The Table-Map entry for t(id INT, name VARCHAR(100)) used by the direct
/// row-event tests.
pub fn sample_table_map() -> EventBodyTypeCode19 {
    EventBodyTypeCode19 {
        table_id: 42,
        reserved_for_future_use: 0,
        database_name_length: 4,
        database_name: "test".to_string(),
        table_name_length: 1,
        table_name: "t".to_string(),
        number_of_columns: 2,
        column_types: vec![3, 15],
        column_types_string_for_human: vec![
            "MYSQL_TYPE_LONG".to_string(),
            "MYSQL_TYPE_VARCHAR".to_string(),
        ],
        number_of_metadata_block: 2,
        metadata_block: vec![100, 0],
        metadata_block_string_for_human: vec![
            "field type id is: 15, field type name is: MYSQL_TYPE_VARCHAR, infomation is [the maximum length of the string is 100 byte]".to_string(),
        ],
        metadata_block_data_raw: vec![vec![100, 0]],
        columns_can_be_null: vec![false, true],
        optional_metadata_block: vec![],
    }
}

#[test]
fn update_event_decodes_both_images() {
    let mut registry: HashMap<u64, EventBodyTypeCode19> = HashMap::new();
    registry.insert(42, sample_table_map());
    let mut body = vec![42, 0, 0, 0, 0, 0];
    body.extend_from_slice(&[1, 0]); // flags
    body.push(2); // column count
    body.push(3); // columns used
    body.push(3); // columns used for update
    body.push(0); // null bitmap (before image)
    body.extend_from_slice(&[1, 0, 0, 0]);
    body.push(2);
    body.extend_from_slice(b"hi");
    body.push(0); // null bitmap (after image)
    body.extend_from_slice(&[1, 0, 0, 0]);
    body.push(3);
    body.extend_from_slice(b"bye");
    let rb = mariadb_binlog_parse::rows::deal_type_code_23_to_25(body, 24, &registry).unwrap();
    assert_eq!(rb.type_string_for_human, "update");
    assert_eq!(rb.columns_used_for_update, Some(vec![true, true]));
    assert_eq!(
        rb.column_data,
        vec![
            "1".to_string(),
            "this is a String, value is `hi`".to_string()
        ]
    );
    assert_eq!(rb.null_bitmap_for_update, Some(vec![false, false]));
    assert_eq!(
        rb.column_data_for_update,
        Some(vec![
            "1".to_string(),
            "this is a String, value is `bye`".to_string()
        ])
    );
}

#[test]
fn null_columns_are_absent_from_the_values() {
    let mut registry: HashMap<u64, EventBodyTypeCode19> = HashMap::new();
    registry.insert(42, sample_table_map());
    let mut body = vec![42, 0, 0, 0, 0, 0];
    body.extend_from_slice(&[1, 0]);
    body.push(2);
    body.push(3); // columns used
    body.push(2); // null bitmap: second column is NULL
    body.extend_from_slice(&[7, 0, 0, 0]); // only the id is stored
    let rb = mariadb_binlog_parse::rows::deal_type_code_23_to_25(body, 23, &registry).unwrap();
    assert_eq!(rb.null_bitmap, vec![false, true]);
    assert_eq!(rb.column_data, vec!["7".to_string()]);
    // one value decoded: the column count minus the popcount of the bitmap
    assert_eq!(rb.column_data.len(), 2 - 1);
}
