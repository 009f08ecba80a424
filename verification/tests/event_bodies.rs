//! Tests of the individual event-body decoders and of the Query event's
//! status-variable sub-language.

use mariadb_binlog_parse::events::{
    deal_type_code_13, deal_type_code_14, deal_type_code_15, deal_type_code_16,
    deal_type_code_160, deal_type_code_161, deal_type_code_162, deal_type_code_163,
    deal_type_code_164, deal_type_code_2, deal_type_code_38, deal_type_code_4, deal_type_code_5,
};
use mariadb_binlog_parse::status_vars::parse_status_variables;

#[test]
fn format_description_body() {
    let mut body = Vec::new();
    body.extend_from_slice(&4u16.to_le_bytes());
    let mut version = b"5.5.5-10.5.0-MariaDB".to_vec();
    version.resize(50, 0);
    body.extend_from_slice(&version);
    body.extend_from_slice(&1718451600u32.to_le_bytes());
    body.push(19);
    let b = deal_type_code_15(body).unwrap();
    assert_eq!(b.binlog_version, 4);
    assert_eq!(b.server_version, "5.5.5-10.5.0-MariaDB");
    assert_eq!(b.create_timestamp, 1718451600);
    assert_eq!(b.header_length, 19);
}

#[test]
fn annotate_strips_the_crc_tail() {
    let mut body = b"INSERT INTO t VALUES (1)".to_vec();
    body.extend_from_slice(&[1, 2, 3, 4]);
    let b = deal_type_code_160(body).unwrap();
    assert_eq!(b.sql, "INSERT INTO t VALUES (1)");
}

#[test]
fn annotate_rejects_invalid_utf8() {
    let body = vec![0xFF, 0xFF, 1, 2, 3, 4];
    assert_eq!(
        deal_type_code_160(body).unwrap_err().0,
        "invalid utf-8 string"
    );
}

#[test]
fn rotate_reads_position_and_name() {
    let mut body = Vec::new();
    body.extend_from_slice(&4u64.to_le_bytes());
    body.extend_from_slice(b"mysql-bin.000002");
    body.extend_from_slice(&[9, 9, 9, 9]);
    let b = deal_type_code_4(body).unwrap();
    assert_eq!(b.position_of_the_first_event_in_next_log_file, 4);
    assert_eq!(b.file_name_of_next_binary_log, "mysql-bin.000002");
}

#[test]
fn intvar_reads_type_and_value() {
    let mut body = vec![2u8];
    body.extend_from_slice(&77u64.to_le_bytes());
    let b = deal_type_code_5(body).unwrap();
    assert_eq!(b.data_type, 2);
    assert_eq!(b.value, 77);
}

#[test]
fn intvar_truncated_fails() {
    assert_eq!(
        deal_type_code_5(vec![2, 0, 0]).unwrap_err().0,
        "truncated input"
    );
}

#[test]
fn rand_reads_both_seeds() {
    let mut body = Vec::new();
    body.extend_from_slice(&11u64.to_le_bytes());
    body.extend_from_slice(&22u64.to_le_bytes());
    let b = deal_type_code_13(body).unwrap();
    assert_eq!(b.first_seed, 11);
    assert_eq!(b.second_seed, 22);
}

#[test]
fn xid_reads_one_byte() {
    let b = deal_type_code_16(vec![9, 0, 0, 0, 0, 0, 0, 0]).unwrap();
    assert_eq!(b.xid_transaction_number, 9);
}

#[test]
fn xa_prepare_reads_the_xid_bytes() {
    let mut body = vec![1u8];
    body.extend_from_slice(&7u32.to_le_bytes());
    body.extend_from_slice(&3u32.to_le_bytes());
    body.push(2);
    body.extend_from_slice(&[0xAA, 0xBB, 0xCC, 0xDD, 0xEE]);
    let b = deal_type_code_38(body).unwrap();
    assert_eq!(b.one_phase_commit, 1);
    assert_eq!(b.format_id, 7);
    assert_eq!(b.length_of_gtrid, 3);
    assert_eq!(b.length_of_bqual, 2);
    assert_eq!(b.xid, vec![0xAA, 0xBB, 0xCC, 0xDD, 0xEE]);
}

#[test]
fn binlog_checkpoint_reads_the_filename() {
    let mut body = Vec::new();
    body.extend_from_slice(&16u32.to_le_bytes());
    body.extend_from_slice(b"mysql-bin.000001");
    let b = deal_type_code_161(body).unwrap();
    assert_eq!(b.log_filename_length, 16);
    assert_eq!(b.log_filename, "mysql-bin.000001");
}

#[test]
fn gtid_without_optional_fields() {
    let mut body = Vec::new();
    body.extend_from_slice(&5u64.to_le_bytes());
    body.extend_from_slice(&0u32.to_le_bytes());
    body.push(1); // FL_STANDALONE only
    let b = deal_type_code_162(body).unwrap();
    assert_eq!(b.gtid_sequence, 5);
    assert_eq!(b.replication_domain_id, 0);
    assert_eq!(b.flags, 1);
    assert_eq!(b.commit_id, None);
    assert_eq!(b.format_id, None);
    assert_eq!(b.xid, None);
}

#[test]
fn gtid_with_group_commit_id() {
    let mut body = Vec::new();
    body.extend_from_slice(&5u64.to_le_bytes());
    body.extend_from_slice(&0u32.to_le_bytes());
    body.push(2); // FL_GROUP_COMMIT_ID
    body.extend_from_slice(&99u64.to_le_bytes());
    let b = deal_type_code_162(body).unwrap();
    assert_eq!(b.commit_id, Some(99));
    assert_eq!(b.format_id, None);
}

#[test]
fn gtid_with_xa_fields() {
    let mut body = Vec::new();
    body.extend_from_slice(&5u64.to_le_bytes());
    body.extend_from_slice(&0u32.to_le_bytes());
    body.push(64); // FL_PREPARED_XA
    body.extend_from_slice(&1u32.to_le_bytes());
    body.push(2);
    body.push(1);
    body.extend_from_slice(&[0x61, 0x62, 0x63]);
    let b = deal_type_code_162(body).unwrap();
    assert_eq!(b.commit_id, None);
    assert_eq!(b.format_id, Some(1));
    assert_eq!(b.gtid_length, Some(2));
    assert_eq!(b.bqual_length, Some(1));
    assert_eq!(b.xid, Some(vec![0x61, 0x62, 0x63]));
}

#[test]
fn gtid_list_reads_every_triple() {
    let mut body = Vec::new();
    body.extend_from_slice(&2u32.to_le_bytes());
    body.extend_from_slice(&1u32.to_le_bytes());
    body.extend_from_slice(&10u32.to_le_bytes());
    body.extend_from_slice(&100u64.to_le_bytes());
    body.extend_from_slice(&2u32.to_le_bytes());
    body.extend_from_slice(&20u32.to_le_bytes());
    body.extend_from_slice(&200u64.to_le_bytes());
    let b = deal_type_code_163(body).unwrap();
    assert_eq!(b.number_of_gtids, 2);
    assert_eq!(b.gtids.len(), 2);
    assert_eq!(b.gtids[0].replication_domain_id, 1);
    assert_eq!(b.gtids[0].server_id, 10);
    assert_eq!(b.gtids[0].gtid_sequence, 100);
    assert_eq!(b.gtids[1].replication_domain_id, 2);
    assert_eq!(b.gtids[1].server_id, 20);
    assert_eq!(b.gtids[1].gtid_sequence, 200);
}

#[test]
fn start_encryption_reads_the_nonce() {
    let mut body = vec![1u8];
    body.extend_from_slice(&3u32.to_le_bytes());
    body.extend_from_slice(&[9u8; 12]);
    let b = deal_type_code_164(body).unwrap();
    assert_eq!(b.encryption_scheme, 1);
    assert_eq!(b.encryption_key_version, 3);
    assert_eq!(b.nonce, vec![9u8; 12]);
}

#[test]
fn user_var_with_value() {
    let mut body = Vec::new();
    body.extend_from_slice(&3u32.to_le_bytes());
    body.extend_from_slice(b"foo");
    body.push(1); // value present
    body.push(0); // STRING_RESULT
    body.extend_from_slice(&33u32.to_le_bytes());
    body.extend_from_slice(&3u32.to_le_bytes());
    body.extend_from_slice(b"bar");
    body.push(0); // flags
    let b = deal_type_code_14(body).unwrap();
    assert_eq!(b.length_of_user_variable_name, 3);
    assert_eq!(b.name_of_user_variable, "foo");
    assert_eq!(b.null_indicator, 1);
    assert_eq!(b.variable_type, Some(0));
    assert_eq!(
        b.variable_type_string_for_human,
        Some("STRING_RESULT".to_string())
    );
    assert_eq!(b.collation_number, Some(33));
    assert_eq!(b.length_of_value, Some(3));
    assert_eq!(b.value, Some("bar".to_string()));
    assert_eq!(b.flags, Some(0));
}

#[test]
fn user_var_null_value() {
    let mut body = Vec::new();
    body.extend_from_slice(&1u32.to_le_bytes());
    body.extend_from_slice(b"x");
    body.push(0);
    let b = deal_type_code_14(body).unwrap();
    assert_eq!(b.null_indicator, 0);
    assert_eq!(b.variable_type, None);
    assert_eq!(b.value, None);
}

fn query_body(status: &[u8], db: &[u8], sql: &[u8]) -> Vec<u8> {
    let mut body = Vec::new();
    body.extend_from_slice(&10u32.to_le_bytes()); // thread id
    body.extend_from_slice(&3u32.to_le_bytes()); // execution time
    body.push(db.len() as u8);
    body.extend_from_slice(&0u16.to_le_bytes()); // error code
    body.extend_from_slice(&(status.len() as u16).to_le_bytes());
    body.extend_from_slice(status);
    body.extend_from_slice(db);
    body.push(0);
    body.extend_from_slice(sql);
    body.extend_from_slice(&[0, 1, 2, 3, 4]); // separator and CRC tail
    body
}

#[test]
fn query_without_status_variables() {
    let body = query_body(&[], b"shop", b"SELECT 1");
    let b = deal_type_code_2(body).unwrap();
    assert_eq!(b.id_of_thread, 10);
    assert_eq!(b.execute_time, 3);
    assert_eq!(b.length_of_database_name, 4);
    assert_eq!(b.error_code, 0);
    assert_eq!(b.length_of_status_variable_block, 0);
    assert_eq!(b.status_variables, Vec::<u8>::new());
    assert_eq!(b.status_variables_string_vec_for_human, Vec::<String>::new());
    assert_eq!(b.database_name, "shop");
    assert_eq!(b.sql, "SELECT 1");
}

#[test]
fn query_with_status_variables() {
    // FLAGS2 with the auto-is-null option, then the charset triple
    let mut status = vec![0u8];
    status.extend_from_slice(&0x00004000u32.to_le_bytes());
    status.push(4);
    status.extend_from_slice(&8u16.to_le_bytes());
    status.extend_from_slice(&33u16.to_le_bytes());
    status.extend_from_slice(&45u16.to_le_bytes());
    let body = query_body(&status, b"shop", b"UPDATE t SET a = 1");
    let b = deal_type_code_2(body).unwrap();
    assert_eq!(b.length_of_status_variable_block, 12);
    assert_eq!(
        b.status_variables_string_vec_for_human,
        vec![
            "FLAGS2 is [OPTION_AUTO_IS_NULL]".to_string(),
            "client character set is 8, collation connection is 33, collation server is 45, for detail please run query `SELECT id, character_set_name, collation_name FROM information_schema.COLLATIONS;`".to_string(),
        ]
    );
    assert_eq!(b.sql, "UPDATE t SET a = 1");
}

#[test]
fn status_variables_render_per_code() {
    // SQL_MODE with two mode bits
    let mut block = vec![1u8];
    block.extend_from_slice(&0x00200002u64.to_le_bytes());
    let r = parse_status_variables(&block).unwrap();
    assert_eq!(
        r,
        vec!["SQL_MODE is [MODE_PIPES_AS_CONCAT | MODE_STRICT_TRANS_TABLES]".to_string()]
    );

    // auto-increment pair
    let mut block = vec![3u8];
    block.extend_from_slice(&2u16.to_le_bytes());
    block.extend_from_slice(&1u16.to_le_bytes());
    let r = parse_status_variables(&block).unwrap();
    assert_eq!(
        r,
        vec!["auto_increment increment is 2, auto increment offset is 1".to_string()]
    );

    // timezone name
    let mut block = vec![5u8, 6];
    block.extend_from_slice(b"SYSTEM");
    let r = parse_status_variables(&block).unwrap();
    assert_eq!(r, vec!["SYSTEM".to_string()]);

    // catalog name
    let mut block = vec![6u8, 3];
    block.extend_from_slice(b"std");
    let r = parse_status_variables(&block).unwrap();
    assert_eq!(r, vec!["catalog name is std".to_string()]);

    // lc-time-names and charset-database codes
    let mut block = vec![7u8];
    block.extend_from_slice(&5u16.to_le_bytes());
    block.push(8);
    block.extend_from_slice(&33u16.to_le_bytes());
    let r = parse_status_variables(&block).unwrap();
    assert_eq!(
        r,
        vec![
            "lc time names code is 5".to_string(),
            "charset database code is 33".to_string(),
        ]
    );

    // table-map-for-update bitmap
    let block = vec![9u8, 0b0000_0101];
    let r = parse_status_variables(&block).unwrap();
    assert_eq!(r, vec!["table map for update code is 00000101".to_string()]);

    // invoker
    let mut block = vec![11u8, 4];
    block.extend_from_slice(b"root");
    block.push(9);
    block.extend_from_slice(b"localhost");
    let r = parse_status_variables(&block).unwrap();
    assert_eq!(
        r,
        vec!["user name is root, host name is localhost".to_string()]
    );

    // hrnow and xid
    let mut block = vec![128u8, 0x01, 0x02, 0x00];
    block.push(129);
    block.extend_from_slice(&7u64.to_le_bytes());
    let r = parse_status_variables(&block).unwrap();
    assert_eq!(r, vec!["hrnow is 513".to_string(), "xid is 7".to_string()]);
}

#[test]
fn unknown_status_variable_code_fails() {
    let e = parse_status_variables(&vec![99u8, 0, 0]).unwrap_err();
    assert_eq!(e.0, "unhandled status variables code");
}

#[test]
fn status_variable_truncation_fails() {
    let e = parse_status_variables(&vec![0u8, 1, 2]).unwrap_err();
    assert_eq!(e.0, "truncated input");
}
