//! The status-variable block of a Query event: a sequence of entries, each a
//! one-byte code followed by a code-specific payload, rendered into one
//! human-readable string per entry.

use vstd::prelude::*;
use vstd::string::StringExecFns;
use vstd::utf8::{valid_utf8, decode_utf8};

use crate::bytes::{le_nat, read_le, utf8_to_string};
use crate::model::MyError;
use crate::render::{dec_digits, bin8, join_with, join_strings, string_views, u64_to_dec, byte_to_bin8};

verus! {

/// The names of the four FLAGS2 option bits this decoder reports, in the
/// order they are tested.
pub open spec fn flags2_names(v: u32) -> Seq<Seq<char>> {
    (if v & 0x00004000 != 0 {
        seq!["OPTION_AUTO_IS_NULL"@]
    } else {
        Seq::empty()
    }) + (if v & 0x00080000 != 0 {
        seq!["OPTION_NOT_AUTOCOMMIT"@]
    } else {
        Seq::empty()
    }) + (if v & 0x04000000 != 0 {
        seq!["OPTION_NO_FOREIGN_KEY_CHECKS"@]
    } else {
        Seq::empty()
    }) + (if v & 0x08000000 != 0 {
        seq!["OPTION_RELAXED_UNIQUE_CHECKS"@]
    } else {
        Seq::empty()
    })
}

/// The name of SQL-mode bit `i`.
pub open spec fn spec_sql_mode_name(i: u8) -> Seq<char> {
    match i {
        0u8 => "MODE_REAL_AS_FLOAT"@,
        1u8 => "MODE_PIPES_AS_CONCAT"@,
        2u8 => "MODE_ANSI_QUOTES"@,
        3u8 => "MODE_IGNORE_SPACE"@,
        4u8 => "MODE_NOT_USED"@,
        5u8 => "MODE_ONLY_FULL_GROUP_BY"@,
        6u8 => "MODE_NO_UNSIGNED_SUBTRACTION"@,
        7u8 => "MODE_NO_DIR_IN_CREATE"@,
        8u8 => "MODE_POSTGRESQL"@,
        9u8 => "MODE_ORACLE"@,
        10u8 => "MODE_MSSQL"@,
        11u8 => "MODE_DB2"@,
        12u8 => "MODE_MAXDB"@,
        13u8 => "MODE_NO_KEY_OPTIONS"@,
        14u8 => "MODE_NO_TABLE_OPTIONS"@,
        15u8 => "MODE_NO_FIELD_OPTIONS"@,
        16u8 => "MODE_MYSQL323"@,
        17u8 => "MODE_MYSQL40"@,
        18u8 => "MODE_ANSI"@,
        19u8 => "MODE_NO_AUTO_VALUE_ON_ZERO"@,
        20u8 => "MODE_NO_BACKSLASH_ESCAPES"@,
        21u8 => "MODE_STRICT_TRANS_TABLES"@,
        22u8 => "MODE_STRICT_ALL_TABLES"@,
        23u8 => "MODE_NO_ZERO_IN_DATE"@,
        24u8 => "MODE_NO_ZERO_DATE"@,
        25u8 => "MODE_INVALID_DATES"@,
        26u8 => "MODE_ERROR_FOR_DIVISION_BY_ZERO"@,
        27u8 => "MODE_TRADITIONAL"@,
        28u8 => "MODE_NO_AUTO_CREATE_USER"@,
        29u8 => "MODE_HIGH_NOT_PRECEDENCE"@,
        30u8 => "MODE_NO_ENGINE_SUBSTITUTION"@,
        31u8 => "MODE_PAD_CHAR_TO_FULL_LENGTH"@,
        _ => Seq::empty(),
    }
}

/// The names of the SQL-mode bits below `i` that are set in `v`, in bit
/// order.
pub open spec fn sql_mode_names_upto(v: u64, i: nat) -> Seq<Seq<char>>
    decreases i,
{
    if i == 0 {
        Seq::empty()
    } else {
        sql_mode_names_upto(v, (i - 1) as nat) + (
        if v & (1u64 << ((i - 1) as u64)) != 0 {
            seq![spec_sql_mode_name((i - 1) as u8)]
        } else {
            Seq::empty()
        })
    }
}

/// The name of SQL-mode bit `i`, matching `spec_sql_mode_name`.
pub fn sql_mode_name(i: u8) -> (r: String)
    ensures
        r@ == spec_sql_mode_name(i),
{
    match i {
        0u8 => String::from_str("MODE_REAL_AS_FLOAT"),
        1u8 => String::from_str("MODE_PIPES_AS_CONCAT"),
        2u8 => String::from_str("MODE_ANSI_QUOTES"),
        3u8 => String::from_str("MODE_IGNORE_SPACE"),
        4u8 => String::from_str("MODE_NOT_USED"),
        5u8 => String::from_str("MODE_ONLY_FULL_GROUP_BY"),
        6u8 => String::from_str("MODE_NO_UNSIGNED_SUBTRACTION"),
        7u8 => String::from_str("MODE_NO_DIR_IN_CREATE"),
        8u8 => String::from_str("MODE_POSTGRESQL"),
        9u8 => String::from_str("MODE_ORACLE"),
        10u8 => String::from_str("MODE_MSSQL"),
        11u8 => String::from_str("MODE_DB2"),
        12u8 => String::from_str("MODE_MAXDB"),
        13u8 => String::from_str("MODE_NO_KEY_OPTIONS"),
        14u8 => String::from_str("MODE_NO_TABLE_OPTIONS"),
        15u8 => String::from_str("MODE_NO_FIELD_OPTIONS"),
        16u8 => String::from_str("MODE_MYSQL323"),
        17u8 => String::from_str("MODE_MYSQL40"),
        18u8 => String::from_str("MODE_ANSI"),
        19u8 => String::from_str("MODE_NO_AUTO_VALUE_ON_ZERO"),
        20u8 => String::from_str("MODE_NO_BACKSLASH_ESCAPES"),
        21u8 => String::from_str("MODE_STRICT_TRANS_TABLES"),
        22u8 => String::from_str("MODE_STRICT_ALL_TABLES"),
        23u8 => String::from_str("MODE_NO_ZERO_IN_DATE"),
        24u8 => String::from_str("MODE_NO_ZERO_DATE"),
        25u8 => String::from_str("MODE_INVALID_DATES"),
        26u8 => String::from_str("MODE_ERROR_FOR_DIVISION_BY_ZERO"),
        27u8 => String::from_str("MODE_TRADITIONAL"),
        28u8 => String::from_str("MODE_NO_AUTO_CREATE_USER"),
        29u8 => String::from_str("MODE_HIGH_NOT_PRECEDENCE"),
        30u8 => String::from_str("MODE_NO_ENGINE_SUBSTITUTION"),
        31u8 => String::from_str("MODE_PAD_CHAR_TO_FULL_LENGTH"),
        _ => String::new(),
    }
}

/// What one status-variable entry with code `code` and payload starting at
/// `off` renders to, and how many payload bytes it consumes. `None` for an
/// unknown code, a payload that runs past the buffer, or a name that is not
/// UTF-8.
pub open spec fn spec_status_entry(code: u8, s: Seq<u8>, off: nat) -> Option<(Seq<char>, nat)> {
    match code {
        0u8 => if off + 4 <= s.len() {
            let v = le_nat(s.subrange(off as int, off as int + 4)) as u32;
            Some(
                ("FLAGS2 is ["@ + join_with(flags2_names(v), " | "@) + "]"@, 4nat),
            )
        } else {
            None
        },
        1u8 => if off + 8 <= s.len() {
            let v = le_nat(s.subrange(off as int, off as int + 8)) as u64;
            Some(
                ("SQL_MODE is ["@ + join_with(sql_mode_names_upto(v, 32), " | "@) + "]"@, 8nat),
            )
        } else {
            None
        },
        3u8 => if off + 4 <= s.len() {
            let inc = le_nat(s.subrange(off as int, off as int + 2));
            let ofs = le_nat(s.subrange(off as int + 2, off as int + 4));
            Some(
                ("auto_increment increment is "@ + dec_digits(inc)
                    + ", auto increment offset is "@ + dec_digits(ofs), 4nat),
            )
        } else {
            None
        },
        4u8 => if off + 6 <= s.len() {
            let c1 = le_nat(s.subrange(off as int, off as int + 2));
            let c2 = le_nat(s.subrange(off as int + 2, off as int + 4));
            let c3 = le_nat(s.subrange(off as int + 4, off as int + 6));
            Some(
                ("client character set is "@ + dec_digits(c1) + ", collation connection is "@
                    + dec_digits(c2) + ", collation server is "@ + dec_digits(c3)
                    + ", for detail please run query `SELECT id, character_set_name, collation_name FROM information_schema.COLLATIONS;`"@,
                6nat),
            )
        } else {
            None
        },
        5u8 => if off < s.len() && off + 1 + s[off as int] <= s.len() {
            let name = s.subrange(off as int + 1, off as int + 1 + s[off as int]);
            if valid_utf8(name) {
                Some((decode_utf8(name), (s[off as int] + 1) as nat))
            } else {
                None
            }
        } else {
            None
        },
        6u8 => if off < s.len() && off + 1 + s[off as int] <= s.len() {
            let name = s.subrange(off as int + 1, off as int + 1 + s[off as int]);
            if valid_utf8(name) {
                Some(
                    ("catalog name is "@ + decode_utf8(name), (s[off as int] + 1) as nat),
                )
            } else {
                None
            }
        } else {
            None
        },
        7u8 => if off + 2 <= s.len() {
            Some(
                ("lc time names code is "@ + dec_digits(le_nat(s.subrange(off as int, off as int + 2))),
                2nat),
            )
        } else {
            None
        },
        8u8 => if off + 2 <= s.len() {
            Some(
                ("charset database code is "@ + dec_digits(
                    le_nat(s.subrange(off as int, off as int + 2)),
                ), 2nat),
            )
        } else {
            None
        },
        9u8 => if off + 1 <= s.len() {
            Some(
                ("table map for update code is "@ + bin8(s[off as int]), 1nat),
            )
        } else {
            None
        },
        11u8 => if off < s.len() && off + 1 + s[off as int] <= s.len() {
            let ulen = s[off as int] as nat;
            let user = s.subrange(off as int + 1, off as int + 1 + ulen);
            let hoff = off + 1 + ulen;
            if hoff < s.len() && hoff + 1 + s[hoff as int] <= s.len() {
                let hlen = s[hoff as int] as nat;
                let host = s.subrange(hoff as int + 1, hoff as int + 1 + hlen);
                if valid_utf8(user) && valid_utf8(host) {
                    Some(
                        ("user name is "@ + decode_utf8(user) + ", host name is "@
                            + decode_utf8(host), ulen + 1 + hlen + 1),
                    )
                } else {
                    None
                }
            } else {
                None
            }
        } else {
            None
        },
        128u8 => if off + 3 <= s.len() {
            Some(
                ("hrnow is "@ + dec_digits(le_nat(s.subrange(off as int, off as int + 3))), 3nat),
            )
        } else {
            None
        },
        129u8 => if off + 8 <= s.len() {
            Some(
                ("xid is "@ + dec_digits(le_nat(s.subrange(off as int, off as int + 8))), 8nat),
            )
        } else {
            None
        },
        _ => None,
    }
}

/// The renderings of the status-variable entries from `off` to the end of
/// `s`, entry after entry; `None` as soon as one entry is malformed.
pub open spec fn spec_status_vars(s: Seq<u8>, off: nat) -> Option<Seq<Seq<char>>>
    decreases s.len() - off,
{
    if off >= s.len() {
        None
    } else {
        match spec_status_entry(s[off as int], s, off + 1) {
            None => None,
            Some((entry, consumed)) => {
                let noff = off + 1 + consumed;
                if noff >= s.len() {
                    Some(seq![entry])
                } else {
                    match spec_status_vars(s, noff) {
                        None => None,
                        Some(rest) => Some(seq![entry] + rest),
                    }
                }
            },
        }
    }
}

/// Decodes the FLAGS2 entry payload at `off`.
fn parse_status_variables_q_flag32_code(b: &[u8], off: usize) -> (r: Result<
    (String, usize),
    MyError,
>)
    ensures
        r is Ok <==> spec_status_entry(0, b@, off as nat) is Some,
        r matches Ok(v) ==> spec_status_entry(0, b@, off as nat) == Some((v.0@, v.1 as nat))
            && off + 1 <= off + v.1 <= b@.len(),
{
    if b.len() < 4 || off > b.len() - 4 {
        return Err(MyError::truncated());
    }
    let data = read_le(b, off, 4) as u32;
    proof {
        crate::bytes::lemma_le_nat_bound(b@.subrange(off as int, off + 4));
        crate::bytes::lemma_pow256_values();
    }
    let mut middle_result: Vec<String> = Vec::new();
    let ghost seg1: Seq<Seq<char>> = if data & 0x00004000 != 0 {
        seq!["OPTION_AUTO_IS_NULL"@]
    } else {
        Seq::empty()
    };
    let ghost seg2: Seq<Seq<char>> = if data & 0x00080000 != 0 {
        seq!["OPTION_NOT_AUTOCOMMIT"@]
    } else {
        Seq::empty()
    };
    let ghost seg3: Seq<Seq<char>> = if data & 0x04000000 != 0 {
        seq!["OPTION_NO_FOREIGN_KEY_CHECKS"@]
    } else {
        Seq::empty()
    };
    let ghost seg4: Seq<Seq<char>> = if data & 0x08000000 != 0 {
        seq!["OPTION_RELAXED_UNIQUE_CHECKS"@]
    } else {
        Seq::empty()
    };
    if data & 0x00004000 != 0 {
        middle_result.push(String::from_str("OPTION_AUTO_IS_NULL"));
    }
    proof {
        assert(string_views(middle_result@) =~= seg1);
    }
    if data & 0x00080000 != 0 {
        middle_result.push(String::from_str("OPTION_NOT_AUTOCOMMIT"));
    }
    proof {
        assert(string_views(middle_result@) =~= seg1 + seg2);
    }
    if data & 0x04000000 != 0 {
        middle_result.push(String::from_str("OPTION_NO_FOREIGN_KEY_CHECKS"));
    }
    proof {
        assert(string_views(middle_result@) =~= seg1 + seg2 + seg3);
    }
    if data & 0x08000000 != 0 {
        middle_result.push(String::from_str("OPTION_RELAXED_UNIQUE_CHECKS"));
    }
    proof {
        assert(string_views(middle_result@) =~= seg1 + seg2 + seg3 + seg4);
        assert(string_views(middle_result@) =~= flags2_names(data));
    }
    let joined = join_strings(&middle_result, " | ");
    let mut result = String::from_str("FLAGS2 is [");
    result.append(joined.as_str());
    result.append("]");
    proof {
        assert(result@ =~= spec_status_entry(0, b@, off as nat).unwrap().0);
    }
    Ok((result, 4))
}

/// Decodes the SQL_MODE entry payload at `off`.
fn parse_status_variables_q_sql_mode_code(b: &[u8], off: usize) -> (r: Result<
    (String, usize),
    MyError,
>)
    ensures
        r is Ok <==> spec_status_entry(1, b@, off as nat) is Some,
        r matches Ok(v) ==> spec_status_entry(1, b@, off as nat) == Some((v.0@, v.1 as nat))
            && off + 1 <= off + v.1 <= b@.len(),
{
    if b.len() < 8 || off > b.len() - 8 {
        return Err(MyError::truncated());
    }
    let data = read_le(b, off, 8);
    let mut middle_result: Vec<String> = Vec::new();
    let mut i: u8 = 0;
    while i < 32
        invariant
            i <= 32,
            string_views(middle_result@) =~= sql_mode_names_upto(data, i as nat),
        decreases 32 - i,
    {
        let ghost before = string_views(middle_result@);
        if data & (1u64 << (i as u64)) != 0 {
            let name = sql_mode_name(i);
            middle_result.push(name);
        }
        proof {
            let step: Seq<Seq<char>> = if data & (1u64 << (i as u64)) != 0 {
                seq![spec_sql_mode_name(i)]
            } else {
                Seq::empty()
            };
            assert(sql_mode_names_upto(data, (i + 1) as nat) == sql_mode_names_upto(
                data,
                i as nat,
            ) + step);
            assert(string_views(middle_result@) =~= before + step);
            assert(string_views(middle_result@) =~= sql_mode_names_upto(data, (i + 1) as nat));
        }
        i = i + 1;
    }
    let joined = join_strings(&middle_result, " | ");
    let mut result = String::from_str("SQL_MODE is [");
    result.append(joined.as_str());
    result.append("]");
    proof {
        assert(result@ =~= spec_status_entry(1, b@, off as nat).unwrap().0);
    }
    Ok((result, 8))
}

/// Decodes the auto-increment entry payload at `off`.
fn parse_status_variables_q_auto_increment(b: &[u8], off: usize) -> (r: Result<
    (String, usize),
    MyError,
>)
    ensures
        r is Ok <==> spec_status_entry(3, b@, off as nat) is Some,
        r matches Ok(v) ==> spec_status_entry(3, b@, off as nat) == Some((v.0@, v.1 as nat))
            && off + 1 <= off + v.1 <= b@.len(),
{
    if b.len() < 4 || off > b.len() - 4 {
        return Err(MyError::truncated());
    }
    let increment = read_le(b, off, 2);
    let offset_v = read_le(b, off + 2, 2);
    let mut result = String::from_str("auto_increment increment is ");
    let d1 = u64_to_dec(increment);
    result.append(d1.as_str());
    result.append(", auto increment offset is ");
    let d2 = u64_to_dec(offset_v);
    result.append(d2.as_str());
    proof {
        assert(result@ =~= spec_status_entry(3, b@, off as nat).unwrap().0);
    }
    Ok((result, 4))
}

/// Decodes the charset entry payload at `off`.
fn parse_status_variables_q_charset_code(b: &[u8], off: usize) -> (r: Result<
    (String, usize),
    MyError,
>)
    ensures
        r is Ok <==> spec_status_entry(4, b@, off as nat) is Some,
        r matches Ok(v) ==> spec_status_entry(4, b@, off as nat) == Some((v.0@, v.1 as nat))
            && off + 1 <= off + v.1 <= b@.len(),
{
    if b.len() < 6 || off > b.len() - 6 {
        return Err(MyError::truncated());
    }
    let client_character_set = read_le(b, off, 2);
    let collation_connection = read_le(b, off + 2, 2);
    let collation_server = read_le(b, off + 4, 2);
    let mut result = String::from_str("client character set is ");
    let d1 = u64_to_dec(client_character_set);
    result.append(d1.as_str());
    result.append(", collation connection is ");
    let d2 = u64_to_dec(collation_connection);
    result.append(d2.as_str());
    result.append(", collation server is ");
    let d3 = u64_to_dec(collation_server);
    result.append(d3.as_str());
    result.append(
        ", for detail please run query `SELECT id, character_set_name, collation_name FROM information_schema.COLLATIONS;`",
    );
    proof {
        assert(result@ =~= spec_status_entry(4, b@, off as nat).unwrap().0);
    }
    Ok((result, 6))
}

/// Decodes a length-prefixed name at `off`, shared by the timezone and
/// catalog entries; returns the name and the bytes consumed.
fn parse_length_prefixed_name(b: &[u8], off: usize) -> (r: Result<(String, usize), MyError>)
    ensures
        r is Ok <==> (off < b@.len() && off + 1 + b@[off as int] <= b@.len() && valid_utf8(
            b@.subrange(off as int + 1, off as int + 1 + b@[off as int]),
        )),
        r matches Ok(v) ==> {
            &&& v.0@ == decode_utf8(b@.subrange(off as int + 1, off as int + 1 + b@[off as int]))
            &&& v.1 == b@[off as int] + 1
            &&& off + 1 + v.1 <= b@.len() + 1
        },
{
    if off >= b.len() {
        return Err(MyError::truncated());
    }
    let length = b[off] as usize;
    if b.len() - off - 1 < length {
        return Err(MyError::truncated());
    }
    let name_bytes = vstd::slice::slice_subrange(b, off + 1, off + 1 + length);
    match utf8_to_string(name_bytes) {
        Some(s) => Ok((s, length + 1)),
        None => Err(MyError::invalid_utf8()),
    }
}

/// Decodes the timezone entry payload at `off`.
fn parse_status_variables_q_timezone_code(b: &[u8], off: usize) -> (r: Result<
    (String, usize),
    MyError,
>)
    ensures
        r is Ok <==> spec_status_entry(5, b@, off as nat) is Some,
        r matches Ok(v) ==> spec_status_entry(5, b@, off as nat) == Some((v.0@, v.1 as nat))
            && off + 1 <= off + v.1 <= b@.len(),
{
    let (name, consumed) = parse_length_prefixed_name(b, off)?;
    Ok((name, consumed))
}

/// Decodes the catalog entry payload at `off`.
fn parse_status_variables_q_catalog_nz_code(b: &[u8], off: usize) -> (r: Result<
    (String, usize),
    MyError,
>)
    ensures
        r is Ok <==> spec_status_entry(6, b@, off as nat) is Some,
        r matches Ok(v) ==> spec_status_entry(6, b@, off as nat) == Some((v.0@, v.1 as nat))
            && off + 1 <= off + v.1 <= b@.len(),
{
    let (name, consumed) = parse_length_prefixed_name(b, off)?;
    let mut result = String::from_str("catalog name is ");
    result.append(name.as_str());
    proof {
        assert(result@ =~= spec_status_entry(6, b@, off as nat).unwrap().0);
    }
    Ok((result, consumed))
}

/// Decodes the lc-time-names entry payload at `off`.
fn parse_status_variables_q_lc_time_names_code(b: &[u8], off: usize) -> (r: Result<
    (String, usize),
    MyError,
>)
    ensures
        r is Ok <==> spec_status_entry(7, b@, off as nat) is Some,
        r matches Ok(v) ==> spec_status_entry(7, b@, off as nat) == Some((v.0@, v.1 as nat))
            && off + 1 <= off + v.1 <= b@.len(),
{
    if b.len() < 2 || off > b.len() - 2 {
        return Err(MyError::truncated());
    }
    let data = read_le(b, off, 2);
    let mut result = String::from_str("lc time names code is ");
    let d = u64_to_dec(data);
    result.append(d.as_str());
    proof {
        assert(result@ =~= spec_status_entry(7, b@, off as nat).unwrap().0);
    }
    Ok((result, 2))
}

/// Decodes the charset-database entry payload at `off`.
fn parse_status_variables_q_charset_database_code(b: &[u8], off: usize) -> (r: Result<
    (String, usize),
    MyError,
>)
    ensures
        r is Ok <==> spec_status_entry(8, b@, off as nat) is Some,
        r matches Ok(v) ==> spec_status_entry(8, b@, off as nat) == Some((v.0@, v.1 as nat))
            && off + 1 <= off + v.1 <= b@.len(),
{
    if b.len() < 2 || off > b.len() - 2 {
        return Err(MyError::truncated());
    }
    let data = read_le(b, off, 2);
    let mut result = String::from_str("charset database code is ");
    let d = u64_to_dec(data);
    result.append(d.as_str());
    proof {
        assert(result@ =~= spec_status_entry(8, b@, off as nat).unwrap().0);
    }
    Ok((result, 2))
}

/// Decodes the table-map-for-update entry payload at `off`.
fn parse_status_variables_q_table_map_for_update_code(b: &[u8], off: usize) -> (r: Result<
    (String, usize),
    MyError,
>)
    ensures
        r is Ok <==> spec_status_entry(9, b@, off as nat) is Some,
        r matches Ok(v) ==> spec_status_entry(9, b@, off as nat) == Some((v.0@, v.1 as nat))
            && off + 1 <= off + v.1 <= b@.len(),
{
    if off >= b.len() {
        return Err(MyError::truncated());
    }
    let data = b[off];
    let mut result = String::from_str("table map for update code is ");
    let bits = byte_to_bin8(data);
    result.append(bits.as_str());
    proof {
        assert(result@ =~= spec_status_entry(9, b@, off as nat).unwrap().0);
    }
    Ok((result, 1))
}

/// Decodes the invoker entry payload at `off`.
fn parse_status_variables_q_invoker(b: &[u8], off: usize) -> (r: Result<(String, usize), MyError>)
    ensures
        r is Ok <==> spec_status_entry(11, b@, off as nat) is Some,
        r matches Ok(v) ==> spec_status_entry(11, b@, off as nat) == Some((v.0@, v.1 as nat))
            && off + 1 <= off + v.1 <= b@.len(),
{
    if off >= b.len() {
        return Err(MyError::truncated());
    }
    let user_name_length = b[off] as usize;
    if b.len() - off - 1 < user_name_length {
        return Err(MyError::truncated());
    }
    let user_bytes = vstd::slice::slice_subrange(b, off + 1, off + 1 + user_name_length);
    let hoff = off + 1 + user_name_length;
    if hoff >= b.len() {
        return Err(MyError::truncated());
    }
    let host_name_length = b[hoff] as usize;
    if b.len() - hoff - 1 < host_name_length {
        return Err(MyError::truncated());
    }
    let host_bytes = vstd::slice::slice_subrange(b, hoff + 1, hoff + 1 + host_name_length);
    let user = match utf8_to_string(user_bytes) {
        Some(s) => s,
        None => {
            return Err(MyError::invalid_utf8());
        },
    };
    let host = match utf8_to_string(host_bytes) {
        Some(s) => s,
        None => {
            return Err(MyError::invalid_utf8());
        },
    };
    let mut result = String::from_str("user name is ");
    result.append(user.as_str());
    result.append(", host name is ");
    result.append(host.as_str());
    proof {
        assert(result@ =~= spec_status_entry(11, b@, off as nat).unwrap().0);
    }
    Ok((result, user_name_length + 1 + host_name_length + 1))
}

/// Decodes the hrnow entry payload at `off`.
fn parse_status_variables_q_hrnow(b: &[u8], off: usize) -> (r: Result<(String, usize), MyError>)
    ensures
        r is Ok <==> spec_status_entry(128, b@, off as nat) is Some,
        r matches Ok(v) ==> spec_status_entry(128, b@, off as nat) == Some((v.0@, v.1 as nat))
            && off + 1 <= off + v.1 <= b@.len(),
{
    if b.len() < 3 || off > b.len() - 3 {
        return Err(MyError::truncated());
    }
    let data = read_le(b, off, 3);
    let mut result = String::from_str("hrnow is ");
    let d = u64_to_dec(data);
    result.append(d.as_str());
    proof {
        assert(result@ =~= spec_status_entry(128, b@, off as nat).unwrap().0);
    }
    Ok((result, 3))
}

/// Decodes the xid entry payload at `off`.
fn parse_status_variables_q_xid(b: &[u8], off: usize) -> (r: Result<(String, usize), MyError>)
    ensures
        r is Ok <==> spec_status_entry(129, b@, off as nat) is Some,
        r matches Ok(v) ==> spec_status_entry(129, b@, off as nat) == Some((v.0@, v.1 as nat))
            && off + 1 <= off + v.1 <= b@.len(),
{
    if b.len() < 8 || off > b.len() - 8 {
        return Err(MyError::truncated());
    }
    let data = read_le(b, off, 8);
    let mut result = String::from_str("xid is ");
    let d = u64_to_dec(data);
    result.append(d.as_str());
    proof {
        assert(result@ =~= spec_status_entry(129, b@, off as nat).unwrap().0);
    }
    Ok((result, 8))
}

/// Decodes a whole status-variable block into one rendered string per
/// entry, matching `spec_status_vars` from offset 0; an unknown entry code
/// is an error.
#[verifier::rlimit(60)]
pub fn parse_status_variables(buffer: &Vec<u8>) -> (r: Result<Vec<String>, MyError>)
    ensures
        r is Ok <==> spec_status_vars(buffer@, 0) is Some,
        r matches Ok(v) ==> Some(string_views(v@)) == spec_status_vars(buffer@, 0),
{
    let length = buffer.len();
    let mut offset: usize = 0;
    let mut results: Vec<String> = Vec::new();
    if length == 0 {
        return Err(MyError::truncated());
    }
    proof {
        assert(string_views(results@) =~= Seq::<Seq<char>>::empty());
        if spec_status_vars(buffer@, 0) is Some {
            assert(string_views(results@) + spec_status_vars(buffer@, 0).unwrap()
                =~= spec_status_vars(buffer@, 0).unwrap());
        }
    }
    while offset < length
        invariant
            offset <= length,
            length == buffer@.len(),
            spec_status_vars(buffer@, 0) == (
            if offset < length {
                match spec_status_vars(buffer@, offset as nat) {
                    None => None::<Seq<Seq<char>>>,
                    Some(rest) => Some(string_views(results@) + rest),
                }
            } else {
                Some(string_views(results@))
            }),
        decreases length - offset,
    {
        let code_id = buffer[offset];
        let entry = match code_id {
            0 => parse_status_variables_q_flag32_code(buffer.as_slice(), offset + 1),
            1 => parse_status_variables_q_sql_mode_code(buffer.as_slice(), offset + 1),
            3 => parse_status_variables_q_auto_increment(buffer.as_slice(), offset + 1),
            4 => parse_status_variables_q_charset_code(buffer.as_slice(), offset + 1),
            5 => parse_status_variables_q_timezone_code(buffer.as_slice(), offset + 1),
            6 => parse_status_variables_q_catalog_nz_code(buffer.as_slice(), offset + 1),
            7 => parse_status_variables_q_lc_time_names_code(buffer.as_slice(), offset + 1),
            8 => parse_status_variables_q_charset_database_code(buffer.as_slice(), offset + 1),
            9 => parse_status_variables_q_table_map_for_update_code(buffer.as_slice(), offset + 1),
            11 => parse_status_variables_q_invoker(buffer.as_slice(), offset + 1),
            128 => parse_status_variables_q_hrnow(buffer.as_slice(), offset + 1),
            129 => parse_status_variables_q_xid(buffer.as_slice(), offset + 1),
            _ => Err(MyError::unknown_status_code()),
        };
        let (entry_string, consumed) = match entry {
            Ok(v) => v,
            Err(e) => {
                return Err(e);
            },
        };
        let ghost old_views = string_views(results@);
        results.push(entry_string);
        proof {
            let s = buffer@;
            let noff = offset + 1 + consumed;
            assert(string_views(results@) =~= old_views + seq![entry_string@]);
            assert(spec_status_vars(s, offset as nat) == (match spec_status_entry(
                s[offset as int],
                s,
                offset as nat + 1,
            ) {
                None => None::<Seq<Seq<char>>>,
                Some((entry, c)) => {
                    let n = offset as nat + 1 + c;
                    if n >= s.len() {
                        Some(seq![entry])
                    } else {
                        match spec_status_vars(s, n) {
                            None => None,
                            Some(rest) => Some(seq![entry] + rest),
                        }
                    }
                },
            }));
            if noff < length {
                match spec_status_vars(s, noff as nat) {
                    None => {},
                    Some(rest) => {
                        assert(old_views + (seq![entry_string@] + rest) =~= string_views(
                            results@,
                        ) + rest);
                    },
                }
            } else {
                assert(old_views + seq![entry_string@] =~= string_views(results@));
            }
        }
        offset = offset + 1 + consumed;
    }
    Ok(results)
}

} // verus!
