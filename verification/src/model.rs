//! Event headers, event bodies and the decoder's error type.

use vstd::prelude::*;

verus! {

/// The error type shared by every decoder in this crate.
///
/// The payload is a human-readable description; the contracts of the
/// decoders state exactly on which inputs an error is returned.
#[derive(Debug, Clone, PartialEq)]
pub struct MyError(pub String);

/// Message used for every form of truncated input: a slice shorter than a
/// field the format requires.
pub open spec fn msg_truncated() -> Seq<char> {
    "truncated input"@
}

/// Message used when a length-encoded integer starts with a reserved byte.
pub open spec fn msg_lenenc() -> Seq<char> {
    "lenenc parse error"@
}

/// Message used when a row event names a table id with no prior Table-Map
/// event in the registry.
pub open spec fn msg_missing_table_map() -> Seq<char> {
    "no table map event for this table id"@
}

/// Message used when bytes that must be UTF-8 are not.
pub open spec fn msg_invalid_utf8() -> Seq<char> {
    "invalid utf-8 string"@
}

/// Message used when a Query event holds a status-variable code this
/// decoder does not know.
pub open spec fn msg_unknown_status_code() -> Seq<char> {
    "unhandled status variables code"@
}

/// Message used when a BLOB column announces a length-of-length outside 1..=4.
pub open spec fn msg_blob_length() -> Seq<char> {
    "blob length by byte is only in range [1,4]"@
}

/// Message used when a packed-decimal field announces impossible precision
/// or decimal counts.
pub open spec fn msg_decimal() -> Seq<char> {
    "invalid decimal field"@
}

/// Message used when a Table-Map event names a column type the catalogue
/// does not know.
pub open spec fn msg_unknown_field_type() -> Seq<char> {
    "unknown field type"@
}

/// Message used when the framing of an event is wrong: a missing magic,
/// an `event_length` below 19, or a `next_event_position` that does not
/// advance the cursor.
pub open spec fn msg_framing() -> Seq<char> {
    "malformed event framing"@
}

impl MyError {
    /// Error for a buffer too short for the field being read.
    pub fn truncated() -> (r: MyError)
        ensures
            r.0@ == msg_truncated(),
    {
        MyError(String::from_str("truncated input"))
    }

    /// Error for a reserved first byte in a length-encoded integer.
    pub fn lenenc() -> (r: MyError)
        ensures
            r.0@ == msg_lenenc(),
    {
        MyError(String::from_str("lenenc parse error"))
    }

    /// Error for a row event whose table id has no registry entry.
    pub fn missing_table_map() -> (r: MyError)
        ensures
            r.0@ == msg_missing_table_map(),
    {
        MyError(String::from_str("no table map event for this table id"))
    }

    /// Error for bytes that must decode as UTF-8 but do not.
    pub fn invalid_utf8() -> (r: MyError)
        ensures
            r.0@ == msg_invalid_utf8(),
    {
        MyError(String::from_str("invalid utf-8 string"))
    }

    /// Error for an unknown status-variable code in a Query event.
    pub fn unknown_status_code() -> (r: MyError)
        ensures
            r.0@ == msg_unknown_status_code(),
    {
        MyError(String::from_str("unhandled status variables code"))
    }

    /// Error for a BLOB length-of-length outside 1..=4.
    pub fn blob_length() -> (r: MyError)
        ensures
            r.0@ == msg_blob_length(),
    {
        MyError(String::from_str("blob length by byte is only in range [1,4]"))
    }

    /// Error for a packed-decimal field with impossible precision counts.
    pub fn decimal() -> (r: MyError)
        ensures
            r.0@ == msg_decimal(),
    {
        MyError(String::from_str("invalid decimal field"))
    }

    /// Error for a column-type code the catalogue does not know.
    pub fn unknown_field_type() -> (r: MyError)
        ensures
            r.0@ == msg_unknown_field_type(),
    {
        MyError(String::from_str("unknown field type"))
    }

    /// Error for malformed event framing.
    pub fn framing() -> (r: MyError)
        ensures
            r.0@ == msg_framing(),
    {
        MyError(String::from_str("malformed event framing"))
    }
}

/// The fixed 19-byte frame in front of every event body.
#[derive(Debug, Clone, Copy, PartialEq)]
pub struct EventHeader {
    pub timestamp: u32,
    pub type_code: u8,
    pub server_id: u32,
    pub event_length: u32,
    pub next_event_position: u32,
    pub flags: u16,
}

/// Format-description event (type code 15).
#[derive(Debug, Clone, PartialEq)]
pub struct EventBodyTypeCode15 {
    pub binlog_version: u16,
    pub server_version: String,
    pub create_timestamp: u32,
    pub header_length: u8,
}

/// Annotate-rows event (type code 160): the SQL text of the statement.
#[derive(Debug, Clone, PartialEq)]
pub struct EventBodyTypeCode160 {
    pub sql: String,
}

/// One global transaction id inside a Gtid-list event.
#[derive(Debug, Clone, PartialEq)]
pub struct GTID {
    pub replication_domain_id: u32,
    pub server_id: u32,
    pub gtid_sequence: u64,
}

/// Gtid-list event (type code 163).
#[derive(Debug, Clone, PartialEq)]
pub struct EventBodyTypeCode163 {
    pub number_of_gtids: u32,
    pub gtids: Vec<GTID>,
}

/// Table-Map event (type code 19): the schema a later row event needs.
///
/// The table id is stored on disk in 6 bytes and widened to a u64 here.
#[derive(Debug, Clone, PartialEq)]
pub struct EventBodyTypeCode19 {
    pub table_id: u64,
    pub reserved_for_future_use: u16,
    pub database_name_length: u8,
    pub database_name: String,
    pub table_name_length: u8,
    pub table_name: String,
    pub number_of_columns: u64,
    pub column_types: Vec<u8>,
    pub column_types_string_for_human: Vec<String>,
    pub number_of_metadata_block: u64,
    pub metadata_block: Vec<u8>,
    pub metadata_block_string_for_human: Vec<String>,
    pub metadata_block_data_raw: Vec<Vec<u8>>,
    pub columns_can_be_null: Vec<bool>,
    pub optional_metadata_block: Vec<u8>,
}

/// Xid event (type code 16).
#[derive(Debug, Clone, PartialEq)]
pub struct EventBodyTypeCode16 {
    pub xid_transaction_number: u8,
}

/// Query event (type code 2).
#[derive(Debug, Clone, PartialEq)]
pub struct EventBodyTypeCode2 {
    pub id_of_thread: u32,
    pub execute_time: u32,
    pub length_of_database_name: u8,
    pub error_code: u16,
    pub length_of_status_variable_block: u16,
    pub status_variables: Vec<u8>,
    pub status_variables_string_vec_for_human: Vec<String>,
    pub database_name: String,
    pub sql: String,
}

/// Binlog-checkpoint event (type code 161).
#[derive(Debug, Clone, PartialEq)]
pub struct EventBodyTypeCode161 {
    pub log_filename_length: u32,
    pub log_filename: String,
}

/// Gtid event (type code 162). The optional fields are read only when the
/// corresponding flag bits are set.
#[derive(Debug, Clone, PartialEq)]
pub struct EventBodyTypeCode162 {
    pub gtid_sequence: u64,
    pub replication_domain_id: u32,
    pub flags: u8,
    pub commit_id: Option<u64>,
    pub format_id: Option<u32>,
    pub gtid_length: Option<u8>,
    pub bqual_length: Option<u8>,
    pub xid: Option<Vec<u8>>,
}

/// Intvar event (type code 5).
#[derive(Debug, Clone, PartialEq)]
pub struct EventBodyTypeCode5 {
    pub data_type: u8,
    pub value: u64,
}

/// Rotate event (type code 4).
#[derive(Debug, Clone, PartialEq)]
pub struct EventBodyTypeCode4 {
    pub position_of_the_first_event_in_next_log_file: u64,
    pub file_name_of_next_binary_log: String,
}

/// Row event: insert (23), update (24) or delete (25). The `for_update`
/// fields are filled only for updates, which carry an after image.
#[derive(Debug, Clone, PartialEq)]
pub struct EventBodyTypeCode23To25 {
    pub type_string_for_human: String,
    pub table_id: u64,
    pub flags: u16,
    pub number_of_columns: u64,
    pub columns_used: Vec<bool>,
    pub columns_used_for_update: Option<Vec<bool>>,
    pub null_bitmap: Vec<bool>,
    pub column_data: Vec<String>,
    pub null_bitmap_for_update: Option<Vec<bool>>,
    pub column_data_for_update: Option<Vec<String>>,
}

/// Rand event (type code 13).
#[derive(Debug, Clone, PartialEq)]
pub struct EventBodyTypeCode13 {
    pub first_seed: u64,
    pub second_seed: u64,
}

/// Start-encryption event (type code 164).
#[derive(Debug, Clone, PartialEq)]
pub struct EventBodyTypeCode164 {
    pub encryption_scheme: u8,
    pub encryption_key_version: u32,
    pub nonce: Vec<u8>,
}

/// XA-prepare event (type code 38).
#[derive(Debug, Clone, PartialEq)]
pub struct EventBodyTypeCode38 {
    pub one_phase_commit: u8,
    pub format_id: u32,
    pub length_of_gtrid: u32,
    pub length_of_bqual: u8,
    pub xid: Vec<u8>,
}

/// User-var event (type code 14). The optional fields are read only when the
/// null indicator says the value is present.
#[derive(Debug, Clone, PartialEq)]
pub struct EventBodyTypeCode14 {
    pub length_of_user_variable_name: u32,
    pub name_of_user_variable: String,
    pub null_indicator: u8,
    pub variable_type: Option<u8>,
    pub variable_type_string_for_human: Option<String>,
    pub collation_number: Option<u32>,
    pub length_of_value: Option<u32>,
    pub value: Option<String>,
    pub flags: Option<u8>,
}

/// Body of an event whose type code this decoder does not interpret;
/// it carries the type code itself.
#[derive(Debug, Clone, PartialEq)]
pub struct EventBodyTypeSkip(pub u8);

/// A decoded event body: one variant for every supported type code, plus a
/// variant for codes the decoder skips. A closed sum lets consumers match
/// exhaustively.
#[derive(Debug, Clone, PartialEq)]
pub enum EventBody {
    Query(EventBodyTypeCode2),
    Rotate(EventBodyTypeCode4),
    Intvar(EventBodyTypeCode5),
    Rand(EventBodyTypeCode13),
    UserVar(EventBodyTypeCode14),
    FormatDescription(EventBodyTypeCode15),
    Xid(EventBodyTypeCode16),
    TableMap(EventBodyTypeCode19),
    Row(EventBodyTypeCode23To25),
    XaPrepare(EventBodyTypeCode38),
    Annotate(EventBodyTypeCode160),
    BinlogCheckpoint(EventBodyTypeCode161),
    Gtid(EventBodyTypeCode162),
    GtidList(EventBodyTypeCode163),
    StartEncryption(EventBodyTypeCode164),
    Skip(EventBodyTypeSkip),
}

} // verus!
