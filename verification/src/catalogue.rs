//! The column-type catalogue of the MariaDB replication protocol: the name
//! of each column-type code, the width of its entry in a Table-Map metadata
//! block, and whether row-event decoding consumes a metadata entry for it.
//! These tables are fixed by the protocol, so they are embedded here.

use vstd::prelude::*;
use vstd::string::StringExecFns;

verus! {

/// Whether `code` is a column-type code this catalogue knows.
pub open spec fn spec_field_type_known(code: u8) -> bool {
    code <= 20 || code >= 243
}

/// The protocol name of the column-type `code`; unknown codes name
/// themselves as such.
pub open spec fn spec_field_type_name(code: u8) -> Seq<char> {
    match code {
        0u8 => "MYSQL_TYPE_DECIMAL"@,
        1u8 => "MYSQL_TYPE_TINY"@,
        2u8 => "MYSQL_TYPE_SHORT"@,
        3u8 => "MYSQL_TYPE_LONG"@,
        4u8 => "MYSQL_TYPE_FLOAT"@,
        5u8 => "MYSQL_TYPE_DOUBLE"@,
        6u8 => "MYSQL_TYPE_NULL"@,
        7u8 => "MYSQL_TYPE_TIMESTAMP"@,
        8u8 => "MYSQL_TYPE_LONGLONG"@,
        9u8 => "MYSQL_TYPE_INT24"@,
        10u8 => "MYSQL_TYPE_DATE"@,
        11u8 => "MYSQL_TYPE_TIME"@,
        12u8 => "MYSQL_TYPE_DATETIME"@,
        13u8 => "MYSQL_TYPE_YEAR"@,
        14u8 => "MYSQL_TYPE_NEWDATE"@,
        15u8 => "MYSQL_TYPE_VARCHAR"@,
        16u8 => "MYSQL_TYPE_BIT"@,
        17u8 => "MYSQL_TYPE_TIMESTAMP2"@,
        18u8 => "MYSQL_TYPE_DATETIME2"@,
        19u8 => "MYSQL_TYPE_TIME2"@,
        20u8 => "MYSQL_TYPE_TYPED_ARRAY"@,
        243u8 => "MYSQL_TYPE_INVALID"@,
        244u8 => "MYSQL_TYPE_BOOL"@,
        245u8 => "MYSQL_TYPE_JSON"@,
        246u8 => "MYSQL_TYPE_NEWDECIMAL"@,
        247u8 => "MYSQL_TYPE_ENUM"@,
        248u8 => "MYSQL_TYPE_SET"@,
        249u8 => "MYSQL_TYPE_TINY_BLOB"@,
        250u8 => "MYSQL_TYPE_MEDIUM_BLOB"@,
        251u8 => "MYSQL_TYPE_LONG_BLOB"@,
        252u8 => "MYSQL_TYPE_BLOB"@,
        253u8 => "MYSQL_TYPE_VAR_STRING"@,
        254u8 => "MYSQL_TYPE_STRING"@,
        255u8 => "MYSQL_TYPE_GEOMETRY"@,
        _ => "MYSQL_TYPE_UNKNOWN"@,
    }
}

/// The width in bytes of the Table-Map metadata entry for column-type
/// `code`; zero for types that carry no metadata.
pub open spec fn spec_metadata_width(code: u8) -> u8 {
    match code {
        4u8 => 1u8,
        5u8 => 1u8,
        15u8 => 2u8,
        16u8 => 2u8,
        17u8 => 1u8,
        18u8 => 1u8,
        19u8 => 1u8,
        246u8 => 2u8,
        252u8 => 1u8,
        253u8 => 2u8,
        254u8 => 2u8,
        255u8 => 1u8,
        _ => 0u8,
    }
}

/// Whether decoding a row-event column of type `code` consumes the next
/// per-column metadata entry, even when the column's value is null.
pub open spec fn spec_is_metadata_dependent(code: u8) -> bool {
    match code {
        0u8 => true,  // DECIMAL
        4u8 => true,  // FLOAT
        5u8 => true,  // DOUBLE
        15u8 => true,  // VARCHAR
        16u8 => true,  // BIT
        17u8 => true,  // TIMESTAMP2
        18u8 => true,  // DATETIME2
        19u8 => true,  // TIME2
        246u8 => true,  // NEWDECIMAL
        247u8 => true,  // ENUM
        248u8 => true,  // SET
        249u8 => true,  // TINY_BLOB
        250u8 => true,  // MEDIUM_BLOB
        251u8 => true,  // LONG_BLOB
        252u8 => true,  // BLOB
        253u8 => true,  // VAR_STRING
        254u8 => true,  // STRING
        _ => false,
    }
}

/// Whether `code` is a column-type code this catalogue knows.
pub fn field_type_known(code: u8) -> (r: bool)
    ensures
        r == spec_field_type_known(code),
{
    code <= 20 || code >= 243
}

/// The protocol name of the column-type `code`.
pub fn field_type_name(code: u8) -> (r: String)
    ensures
        r@ == spec_field_type_name(code),
{
    match code {
        0u8 => String::from_str("MYSQL_TYPE_DECIMAL"),
        1u8 => String::from_str("MYSQL_TYPE_TINY"),
        2u8 => String::from_str("MYSQL_TYPE_SHORT"),
        3u8 => String::from_str("MYSQL_TYPE_LONG"),
        4u8 => String::from_str("MYSQL_TYPE_FLOAT"),
        5u8 => String::from_str("MYSQL_TYPE_DOUBLE"),
        6u8 => String::from_str("MYSQL_TYPE_NULL"),
        7u8 => String::from_str("MYSQL_TYPE_TIMESTAMP"),
        8u8 => String::from_str("MYSQL_TYPE_LONGLONG"),
        9u8 => String::from_str("MYSQL_TYPE_INT24"),
        10u8 => String::from_str("MYSQL_TYPE_DATE"),
        11u8 => String::from_str("MYSQL_TYPE_TIME"),
        12u8 => String::from_str("MYSQL_TYPE_DATETIME"),
        13u8 => String::from_str("MYSQL_TYPE_YEAR"),
        14u8 => String::from_str("MYSQL_TYPE_NEWDATE"),
        15u8 => String::from_str("MYSQL_TYPE_VARCHAR"),
        16u8 => String::from_str("MYSQL_TYPE_BIT"),
        17u8 => String::from_str("MYSQL_TYPE_TIMESTAMP2"),
        18u8 => String::from_str("MYSQL_TYPE_DATETIME2"),
        19u8 => String::from_str("MYSQL_TYPE_TIME2"),
        20u8 => String::from_str("MYSQL_TYPE_TYPED_ARRAY"),
        243u8 => String::from_str("MYSQL_TYPE_INVALID"),
        244u8 => String::from_str("MYSQL_TYPE_BOOL"),
        245u8 => String::from_str("MYSQL_TYPE_JSON"),
        246u8 => String::from_str("MYSQL_TYPE_NEWDECIMAL"),
        247u8 => String::from_str("MYSQL_TYPE_ENUM"),
        248u8 => String::from_str("MYSQL_TYPE_SET"),
        249u8 => String::from_str("MYSQL_TYPE_TINY_BLOB"),
        250u8 => String::from_str("MYSQL_TYPE_MEDIUM_BLOB"),
        251u8 => String::from_str("MYSQL_TYPE_LONG_BLOB"),
        252u8 => String::from_str("MYSQL_TYPE_BLOB"),
        253u8 => String::from_str("MYSQL_TYPE_VAR_STRING"),
        254u8 => String::from_str("MYSQL_TYPE_STRING"),
        255u8 => String::from_str("MYSQL_TYPE_GEOMETRY"),
        _ => String::from_str("MYSQL_TYPE_UNKNOWN"),
    }
}

/// The width in bytes of the Table-Map metadata entry for `code`.
pub fn metadata_width(code: u8) -> (r: u8)
    ensures
        r == spec_metadata_width(code),
{
    match code {
        4u8 => 1u8,
        5u8 => 1u8,
        15u8 => 2u8,
        16u8 => 2u8,
        17u8 => 1u8,
        18u8 => 1u8,
        19u8 => 1u8,
        246u8 => 2u8,
        252u8 => 1u8,
        253u8 => 2u8,
        254u8 => 2u8,
        255u8 => 1u8,
        _ => 0u8,
    }
}

/// Whether decoding a column of type `code` consumes a metadata entry.
pub fn is_metadata_dependent(code: u8) -> (r: bool)
    ensures
        r == spec_is_metadata_dependent(code),
{
    match code {
        0u8 | 4u8 | 5u8 | 15u8 | 16u8 | 17u8 | 18u8 | 19u8 | 246u8 | 247u8 | 248u8 | 249u8
            | 250u8 | 251u8 | 252u8 | 253u8 | 254u8 => true,
        _ => false,
    }
}

} // verus!
