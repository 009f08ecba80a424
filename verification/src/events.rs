//! The event-body decoders outside the row machinery: format description,
//! query, rotate, intvar, rand, user-var, xid, XA-prepare, annotate,
//! binlog checkpoint, gtid, gtid list and start encryption; the 19-byte
//! event header; and the iterator over a whole binlog image.

use std::collections::HashMap;

use vstd::prelude::*;
use vstd::string::StringExecFns;
use vstd::slice::{slice_subrange, slice_to_vec};
use vstd::utf8::{valid_utf8, decode_utf8};

use crate::bytes::{le_nat, read_le, trim_nuls, trim_nul_end, utf8_to_string};
use crate::model::{
    EventBody, EventBodyTypeCode13, EventBodyTypeCode14, EventBodyTypeCode15, EventBodyTypeCode16,
    EventBodyTypeCode160, EventBodyTypeCode161, EventBodyTypeCode162, EventBodyTypeCode163,
    EventBodyTypeCode164, EventBodyTypeCode19, EventBodyTypeCode2, EventBodyTypeCode38,
    EventBodyTypeCode4, EventBodyTypeCode5, EventBodyTypeSkip, EventHeader, GTID, MyError,
};
use crate::render::string_views;
use crate::rows::{deal_type_code_19, deal_type_code_23_to_25, row_matches, schema_of,
    schemas_of, spec_row, spec_row_s, table_map_matches, spec_table_map, SpecTableMap,
    TableSchema};
use crate::status_vars::{parse_status_variables, spec_status_vars};

verus! {

broadcast use vstd::std_specs::hash::group_hash_axioms;

/// Reads the slice's bytes into an owned vector.
fn to_vec_all(b: &[u8]) -> (r: Vec<u8>)
    ensures
        r@ == b@,
{
    slice_to_vec(b)
}

/// Whether a format-description body (type 15) decodes: the fixed fields
/// must be present and the NUL-padded server version must be UTF-8.
pub open spec fn format_description_ok(s: Seq<u8>) -> bool {
    &&& s.len() >= 57
    &&& valid_utf8(trim_nuls(s.subrange(2, 52)))
}

/// Whether `b` is the decoding of the format-description body `s`.
pub open spec fn format_description_matches(s: Seq<u8>, b: EventBodyTypeCode15) -> bool {
    &&& b.binlog_version == le_nat(s.subrange(0, 2))
    &&& b.server_version@ == decode_utf8(trim_nuls(s.subrange(2, 52)))
    &&& b.create_timestamp == le_nat(s.subrange(52, 56))
    &&& b.header_length == s[56]
}

/// Decodes a format-description event body (type 15).
pub fn deal_type_code_15(buffer: Vec<u8>) -> (r: Result<EventBodyTypeCode15, MyError>)
    ensures
        r is Ok <==> format_description_ok(buffer@),
        r matches Ok(b) ==> format_description_matches(buffer@, b),
{
    let bs = buffer.as_slice();
    if bs.len() < 57 {
        return Err(MyError::truncated());
    }
    let binlog_version = read_le(bs, 0, 2) as u16;
    proof {
        crate::bytes::lemma_le_nat_bound(bs@.subrange(0, 2));
        crate::bytes::lemma_pow256_values();
    }
    let version_bytes = trim_nul_end(slice_subrange(bs, 2, 52));
    let server_version = match utf8_to_string(version_bytes) {
        Some(s) => s,
        None => {
            return Err(MyError::invalid_utf8());
        },
    };
    let create_timestamp = read_le(bs, 52, 4) as u32;
    proof {
        crate::bytes::lemma_le_nat_bound(bs@.subrange(52, 56));
        crate::bytes::lemma_pow256_values();
    }
    let header_length = bs[56];
    Ok(
        EventBodyTypeCode15 {
            binlog_version,
            server_version,
            create_timestamp,
            header_length,
        },
    )
}

/// Whether an annotate-rows body (type 160) decodes: everything before the
/// four-byte CRC tail is the statement text and must be UTF-8.
pub open spec fn annotate_ok(s: Seq<u8>) -> bool {
    &&& s.len() >= 4
    &&& valid_utf8(s.subrange(0, s.len() - 4))
}

/// Whether `b` is the decoding of the annotate-rows body `s`.
pub open spec fn annotate_matches(s: Seq<u8>, b: EventBodyTypeCode160) -> bool {
    b.sql@ == decode_utf8(s.subrange(0, s.len() - 4))
}

/// Decodes an annotate-rows event body (type 160), stripping the CRC tail.
pub fn deal_type_code_160(buffer: Vec<u8>) -> (r: Result<EventBodyTypeCode160, MyError>)
    ensures
        r is Ok <==> annotate_ok(buffer@),
        r matches Ok(b) ==> annotate_matches(buffer@, b),
{
    let bs = buffer.as_slice();
    if bs.len() < 4 {
        return Err(MyError::truncated());
    }
    let sql_bytes = slice_subrange(bs, 0, bs.len() - 4);
    let sql = match utf8_to_string(sql_bytes) {
        Some(s) => s,
        None => {
            return Err(MyError::invalid_utf8());
        },
    };
    Ok(EventBodyTypeCode160 { sql })
}

/// The gtid triple at index `i` of a gtid-list body.
pub open spec fn spec_gtid_at(s: Seq<u8>, i: int) -> GTID {
    GTID {
        replication_domain_id: le_nat(s.subrange(4 + 16 * i, 8 + 16 * i)) as u32,
        server_id: le_nat(s.subrange(8 + 16 * i, 12 + 16 * i)) as u32,
        gtid_sequence: le_nat(s.subrange(12 + 16 * i, 20 + 16 * i)) as u64,
    }
}

/// Whether a gtid-list body (type 163) decodes: the count field and that
/// many 16-byte triples must be present.
pub open spec fn gtid_list_ok(s: Seq<u8>) -> bool {
    &&& s.len() >= 4
    &&& 4 + 16 * (le_nat(s.subrange(0, 4)) as int) <= s.len()
}

/// Whether `b` is the decoding of the gtid-list body `s`.
pub open spec fn gtid_list_matches(s: Seq<u8>, b: EventBodyTypeCode163) -> bool {
    &&& b.number_of_gtids == le_nat(s.subrange(0, 4))
    &&& b.gtids@.len() == b.number_of_gtids
    &&& forall|i: int| 0 <= i < b.gtids@.len() ==> b.gtids@[i] == spec_gtid_at(s, i)
}

/// Decodes a gtid-list event body (type 163).
pub fn deal_type_code_163(buffer: Vec<u8>) -> (r: Result<EventBodyTypeCode163, MyError>)
    ensures
        r is Ok <==> gtid_list_ok(buffer@),
        r matches Ok(b) ==> gtid_list_matches(buffer@, b),
{
    let bs = buffer.as_slice();
    let blen = bs.len();
    if blen < 4 {
        return Err(MyError::truncated());
    }
    let number_of_gtids = read_le(bs, 0, 4) as u32;
    proof {
        crate::bytes::lemma_le_nat_bound(bs@.subrange(0, 4));
        crate::bytes::lemma_pow256_values();
    }
    if (number_of_gtids as u64) > ((blen - 4) / 16) as u64 {
        return Err(MyError::truncated());
    }
    let mut gtids: Vec<GTID> = Vec::new();
    let mut i: usize = 0;
    let n = number_of_gtids as usize;
    while i < n
        invariant
            i <= n,
            n == number_of_gtids,
            4 + 16 * n <= blen,
            blen == bs@.len(),
            bs@ == buffer@,
            gtids@.len() == i,
            forall|q: int| 0 <= q < i ==> gtids@[q] == spec_gtid_at(buffer@, q),
        decreases n - i,
    {
        let base = 4 + 16 * i;
        let replication_domain_id = read_le(bs, base, 4) as u32;
        let server_id = read_le(bs, base + 4, 4) as u32;
        let gtid_sequence = read_le(bs, base + 8, 8);
        proof {
            crate::bytes::lemma_le_nat_bound(bs@.subrange(base as int, base + 4));
            crate::bytes::lemma_le_nat_bound(bs@.subrange(base + 4, base + 8));
            crate::bytes::lemma_pow256_values();
        }
        gtids.push(
            GTID { replication_domain_id, server_id, gtid_sequence },
        );
        i = i + 1;
    }
    Ok(EventBodyTypeCode163 { number_of_gtids, gtids })
}

/// Whether an xid body (type 16) decodes: one byte must be present.
pub open spec fn xid_ok(s: Seq<u8>) -> bool {
    s.len() >= 1
}

/// Decodes an xid event body (type 16).
pub fn deal_type_code_16(buffer: Vec<u8>) -> (r: Result<EventBodyTypeCode16, MyError>)
    ensures
        r is Ok <==> xid_ok(buffer@),
        r matches Ok(b) ==> b.xid_transaction_number == buffer@[0],
{
    if buffer.len() < 1 {
        return Err(MyError::truncated());
    }
    Ok(EventBodyTypeCode16 { xid_transaction_number: buffer[0] })
}

/// Whether an intvar body (type 5) decodes: the type byte and the eight
/// value bytes must be present.
pub open spec fn intvar_ok(s: Seq<u8>) -> bool {
    s.len() >= 9
}

/// Whether `b` is the decoding of the intvar body `s`.
pub open spec fn intvar_matches(s: Seq<u8>, b: EventBodyTypeCode5) -> bool {
    &&& b.data_type == s[0]
    &&& b.value == le_nat(s.subrange(1, 9))
}

/// Decodes an intvar event body (type 5).
pub fn deal_type_code_5(buffer: Vec<u8>) -> (r: Result<EventBodyTypeCode5, MyError>)
    ensures
        r is Ok <==> intvar_ok(buffer@),
        r matches Ok(b) ==> intvar_matches(buffer@, b),
{
    let bs = buffer.as_slice();
    if bs.len() < 9 {
        return Err(MyError::truncated());
    }
    let data_type = bs[0];
    let value = read_le(bs, 1, 8);
    Ok(EventBodyTypeCode5 { data_type, value })
}

/// Whether a rotate body (type 4) decodes: the eight position bytes and a
/// four-byte CRC tail must be present and the file name must be UTF-8
/// after trimming trailing NULs.
pub open spec fn rotate_ok(s: Seq<u8>) -> bool {
    &&& s.len() >= 12
    &&& valid_utf8(trim_nuls(s.subrange(8, s.len() - 4)))
}

/// Whether `b` is the decoding of the rotate body `s`.
pub open spec fn rotate_matches(s: Seq<u8>, b: EventBodyTypeCode4) -> bool {
    &&& b.position_of_the_first_event_in_next_log_file == le_nat(s.subrange(0, 8))
    &&& b.file_name_of_next_binary_log@ == decode_utf8(trim_nuls(s.subrange(8, s.len() - 4)))
}

/// Decodes a rotate event body (type 4), stripping the CRC tail.
pub fn deal_type_code_4(buffer: Vec<u8>) -> (r: Result<EventBodyTypeCode4, MyError>)
    ensures
        r is Ok <==> rotate_ok(buffer@),
        r matches Ok(b) ==> rotate_matches(buffer@, b),
{
    let bs = buffer.as_slice();
    if bs.len() < 12 {
        return Err(MyError::truncated());
    }
    let position = read_le(bs, 0, 8);
    let name_bytes = trim_nul_end(slice_subrange(bs, 8, bs.len() - 4));
    let file_name = match utf8_to_string(name_bytes) {
        Some(s) => s,
        None => {
            return Err(MyError::invalid_utf8());
        },
    };
    Ok(
        EventBodyTypeCode4 {
            position_of_the_first_event_in_next_log_file: position,
            file_name_of_next_binary_log: file_name,
        },
    )
}

/// Whether a rand body (type 13) decodes: two eight-byte seeds must be
/// present.
pub open spec fn rand_ok(s: Seq<u8>) -> bool {
    s.len() >= 16
}

/// Whether `b` is the decoding of the rand body `s`.
pub open spec fn rand_matches(s: Seq<u8>, b: EventBodyTypeCode13) -> bool {
    &&& b.first_seed == le_nat(s.subrange(0, 8))
    &&& b.second_seed == le_nat(s.subrange(8, 16))
}

/// Decodes a rand event body (type 13).
pub fn deal_type_code_13(buffer: Vec<u8>) -> (r: Result<EventBodyTypeCode13, MyError>)
    ensures
        r is Ok <==> rand_ok(buffer@),
        r matches Ok(b) ==> rand_matches(buffer@, b),
{
    let bs = buffer.as_slice();
    if bs.len() < 16 {
        return Err(MyError::truncated());
    }
    let first_seed = read_le(bs, 0, 8);
    let second_seed = read_le(bs, 8, 8);
    Ok(EventBodyTypeCode13 { first_seed, second_seed })
}

/// Whether a start-encryption body (type 164) decodes: the scheme byte,
/// the key version and the twelve nonce bytes must be present.
pub open spec fn start_encryption_ok(s: Seq<u8>) -> bool {
    s.len() >= 17
}

/// Whether `b` is the decoding of the start-encryption body `s`.
pub open spec fn start_encryption_matches(s: Seq<u8>, b: EventBodyTypeCode164) -> bool {
    &&& b.encryption_scheme == s[0]
    &&& b.encryption_key_version == le_nat(s.subrange(1, 5))
    &&& b.nonce@ == s.subrange(5, 17)
}

/// Decodes a start-encryption event body (type 164).
pub fn deal_type_code_164(buffer: Vec<u8>) -> (r: Result<EventBodyTypeCode164, MyError>)
    ensures
        r is Ok <==> start_encryption_ok(buffer@),
        r matches Ok(b) ==> start_encryption_matches(buffer@, b),
{
    let bs = buffer.as_slice();
    if bs.len() < 17 {
        return Err(MyError::truncated());
    }
    let encryption_scheme = bs[0];
    let encryption_key_version = read_le(bs, 1, 4) as u32;
    proof {
        crate::bytes::lemma_le_nat_bound(bs@.subrange(1, 5));
        crate::bytes::lemma_pow256_values();
    }
    let nonce = slice_to_vec(slice_subrange(bs, 5, 17));
    Ok(EventBodyTypeCode164 { encryption_scheme, encryption_key_version, nonce })
}

/// Whether an XA-prepare body (type 38) decodes: the fixed prefix and the
/// announced gtrid and bqual bytes must be present.
pub open spec fn xa_prepare_ok(s: Seq<u8>) -> bool {
    &&& s.len() >= 10
    &&& 10 + (le_nat(s.subrange(5, 9)) as int) + s[9] <= s.len()
}

/// Whether `b` is the decoding of the XA-prepare body `s`.
pub open spec fn xa_prepare_matches(s: Seq<u8>, b: EventBodyTypeCode38) -> bool {
    &&& b.one_phase_commit == s[0]
    &&& b.format_id == le_nat(s.subrange(1, 5))
    &&& b.length_of_gtrid == le_nat(s.subrange(5, 9))
    &&& b.length_of_bqual == s[9]
    &&& b.xid@ == s.subrange(10, 10 + (le_nat(s.subrange(5, 9)) as int) + s[9])
}

/// Decodes an XA-prepare event body (type 38).
pub fn deal_type_code_38(buffer: Vec<u8>) -> (r: Result<EventBodyTypeCode38, MyError>)
    ensures
        r is Ok <==> xa_prepare_ok(buffer@),
        r matches Ok(b) ==> xa_prepare_matches(buffer@, b),
{
    let bs = buffer.as_slice();
    let blen = bs.len();
    if blen < 10 {
        return Err(MyError::truncated());
    }
    let one_phase_commit = bs[0];
    let format_id = read_le(bs, 1, 4) as u32;
    let length_of_gtrid = read_le(bs, 5, 4) as u32;
    proof {
        crate::bytes::lemma_le_nat_bound(bs@.subrange(1, 5));
        crate::bytes::lemma_le_nat_bound(bs@.subrange(5, 9));
        crate::bytes::lemma_pow256_values();
    }
    let length_of_bqual = bs[9];
    if (length_of_gtrid as u64) + (length_of_bqual as u64) > (blen - 10) as u64 {
        return Err(MyError::truncated());
    }
    let xid = slice_to_vec(
        slice_subrange(bs, 10, 10 + length_of_gtrid as usize + length_of_bqual as usize),
    );
    Ok(
        EventBodyTypeCode38 {
            one_phase_commit,
            format_id,
            length_of_gtrid,
            length_of_bqual,
            xid,
        },
    )
}

/// Whether a binlog-checkpoint body (type 161) decodes: the length field
/// and that many file-name bytes must be present, UTF-8 after trimming
/// trailing NULs.
pub open spec fn checkpoint_ok(s: Seq<u8>) -> bool {
    &&& s.len() >= 4
    &&& 4 + le_nat(s.subrange(0, 4)) <= s.len()
    &&& valid_utf8(trim_nuls(s.subrange(4, 4 + le_nat(s.subrange(0, 4)) as int)))
}

/// Whether `b` is the decoding of the binlog-checkpoint body `s`.
pub open spec fn checkpoint_matches(s: Seq<u8>, b: EventBodyTypeCode161) -> bool {
    &&& b.log_filename_length == le_nat(s.subrange(0, 4))
    &&& b.log_filename@ == decode_utf8(trim_nuls(s.subrange(4, 4 + le_nat(s.subrange(0, 4)) as int)))
}

/// Decodes a binlog-checkpoint event body (type 161).
pub fn deal_type_code_161(buffer: Vec<u8>) -> (r: Result<EventBodyTypeCode161, MyError>)
    ensures
        r is Ok <==> checkpoint_ok(buffer@),
        r matches Ok(b) ==> checkpoint_matches(buffer@, b),
{
    let bs = buffer.as_slice();
    let blen = bs.len();
    if blen < 4 {
        return Err(MyError::truncated());
    }
    let log_filename_length = read_le(bs, 0, 4) as u32;
    proof {
        crate::bytes::lemma_le_nat_bound(bs@.subrange(0, 4));
        crate::bytes::lemma_pow256_values();
    }
    if (log_filename_length as u64) > (blen - 4) as u64 {
        return Err(MyError::truncated());
    }
    let name_bytes = trim_nul_end(slice_subrange(bs, 4, 4 + log_filename_length as usize));
    let log_filename = match utf8_to_string(name_bytes) {
        Some(s) => s,
        None => {
            return Err(MyError::invalid_utf8());
        },
    };
    Ok(EventBodyTypeCode161 { log_filename_length, log_filename })
}

/// Whether a gtid body (type 162) decodes: the fixed prefix must be
/// present, a group-commit flag asks for eight more bytes, and an XA flag
/// asks for the XA fields and their xid bytes.
pub open spec fn gtid_ok(s: Seq<u8>) -> bool {
    &&& s.len() >= 13
    &&& {
        let flags = s[12];
        if flags & 2 != 0 {
            s.len() >= 21
        } else if flags & 192 != 0 {
            &&& s.len() >= 19
            &&& 19 + (s[17] as int) + s[18] <= s.len()
        } else {
            true
        }
    }
}

/// Whether `b` is the decoding of the gtid body `s`.
pub open spec fn gtid_matches(s: Seq<u8>, b: EventBodyTypeCode162) -> bool {
    &&& b.gtid_sequence == le_nat(s.subrange(0, 8))
    &&& b.replication_domain_id == le_nat(s.subrange(8, 12))
    &&& b.flags == s[12]
    &&& {
        let flags = s[12];
        if flags & 2 != 0 {
            &&& b.commit_id == Some(le_nat(s.subrange(13, 21)) as u64)
            &&& b.format_id is None
            &&& b.gtid_length is None
            &&& b.bqual_length is None
            &&& b.xid is None
        } else if flags & 192 != 0 {
            &&& b.commit_id is None
            &&& b.format_id == Some(le_nat(s.subrange(13, 17)) as u32)
            &&& b.gtid_length == Some(s[17])
            &&& b.bqual_length == Some(s[18])
            &&& (b.xid matches Some(x) && x@ == s.subrange(19, 19 + (s[17] as int) + s[18]))
        } else {
            &&& b.commit_id is None
            &&& b.format_id is None
            &&& b.gtid_length is None
            &&& b.bqual_length is None
            &&& b.xid is None
        }
    }
}

/// Decodes a gtid event body (type 162); the optional fields follow the
/// flag bits.
pub fn deal_type_code_162(buffer: Vec<u8>) -> (r: Result<EventBodyTypeCode162, MyError>)
    ensures
        r is Ok <==> gtid_ok(buffer@),
        r matches Ok(b) ==> gtid_matches(buffer@, b),
{
    let bs = buffer.as_slice();
    let blen = bs.len();
    if blen < 13 {
        return Err(MyError::truncated());
    }
    let gtid_sequence = read_le(bs, 0, 8);
    let replication_domain_id = read_le(bs, 8, 4) as u32;
    proof {
        crate::bytes::lemma_le_nat_bound(bs@.subrange(8, 12));
        crate::bytes::lemma_pow256_values();
    }
    let flags = bs[12];
    let mut event_body = EventBodyTypeCode162 {
        gtid_sequence,
        replication_domain_id,
        flags,
        commit_id: None,
        format_id: None,
        gtid_length: None,
        bqual_length: None,
        xid: None,
    };
    if flags & 2 != 0 {
        if blen < 21 {
            return Err(MyError::truncated());
        }
        event_body.commit_id = Some(read_le(bs, 13, 8));
    } else if flags & 192 != 0 {
        if blen < 19 {
            return Err(MyError::truncated());
        }
        let format_id = read_le(bs, 13, 4) as u32;
        proof {
            crate::bytes::lemma_le_nat_bound(bs@.subrange(13, 17));
            crate::bytes::lemma_pow256_values();
        }
        let gtid_length = bs[17];
        let bqual_length = bs[18];
        if (gtid_length as u64) + (bqual_length as u64) > (blen - 19) as u64 {
            return Err(MyError::truncated());
        }
        let xid = slice_to_vec(
            slice_subrange(bs, 19, 19 + gtid_length as usize + bqual_length as usize),
        );
        event_body.format_id = Some(format_id);
        event_body.gtid_length = Some(gtid_length);
        event_body.bqual_length = Some(bqual_length);
        event_body.xid = Some(xid);
    }
    Ok(event_body)
}

/// The name of a user-variable value type.
pub open spec fn spec_var_type_name(t: u8) -> Seq<char> {
    match t {
        0u8 => "STRING_RESULT"@,
        1u8 => "REAL_RESULT"@,
        2u8 => "INT_RESULT"@,
        3u8 => "ROW_RESULT"@,
        4u8 => "DECIMAL_RESULT"@,
        _ => Seq::empty(),
    }
}

/// Whether a user-var body (type 14) decodes: the name must be present and
/// UTF-8; when the null indicator says a value follows, the value fields
/// must be present, the value type known, and the value UTF-8.
pub open spec fn user_var_ok(s: Seq<u8>) -> bool {
    &&& s.len() >= 4
    &&& {
        let l = le_nat(s.subrange(0, 4)) as int;
        &&& 4 + l < s.len()
        &&& valid_utf8(s.subrange(4, 4 + l))
        &&& {
            let p = 4 + l;
            let ind = s[p as int];
            if ind > 0 {
                &&& p + 10 <= s.len()
                &&& s[p as int + 1] <= 4
                &&& {
                    let vl = le_nat(s.subrange(p as int + 6, p as int + 10)) as int;
                    &&& p + 10 + vl < s.len()
                    &&& valid_utf8(s.subrange(p as int + 10, p as int + 10 + vl))
                }
            } else {
                true
            }
        }
    }
}

/// Whether `b` is the decoding of the user-var body `s`.
pub open spec fn user_var_matches(s: Seq<u8>, b: EventBodyTypeCode14) -> bool {
    &&& b.length_of_user_variable_name == le_nat(s.subrange(0, 4))
    &&& {
        let l = le_nat(s.subrange(0, 4)) as int;
        let p = 4 + l;
        &&& b.name_of_user_variable@ == decode_utf8(s.subrange(4, 4 + l))
        &&& b.null_indicator == s[p as int]
        &&& if s[p as int] > 0 {
            let t = s[p as int + 1];
            let vl = le_nat(s.subrange(p as int + 6, p as int + 10)) as int;
            &&& b.variable_type == Some(t)
            &&& (b.variable_type_string_for_human matches Some(n) && n@ == spec_var_type_name(t))
            &&& b.collation_number == Some(le_nat(s.subrange(p as int + 2, p as int + 6)) as u32)
            &&& b.length_of_value == Some(vl as u32)
            &&& (b.value matches Some(v) && v@ == decode_utf8(
                s.subrange(p as int + 10, p as int + 10 + vl),
            ))
            &&& b.flags == Some(s[p as int + 10 + vl])
        } else {
            &&& b.variable_type is None
            &&& b.variable_type_string_for_human is None
            &&& b.collation_number is None
            &&& b.length_of_value is None
            &&& b.value is None
            &&& b.flags is None
        }
    }
}

/// Renders the name of a user-variable value type; only types 0 through 4
/// are known.
fn var_type_name(t: u8) -> (r: String)
    requires
        t <= 4,
    ensures
        r@ == spec_var_type_name(t),
{
    match t {
        0u8 => String::from_str("STRING_RESULT"),
        1u8 => String::from_str("REAL_RESULT"),
        2u8 => String::from_str("INT_RESULT"),
        3u8 => String::from_str("ROW_RESULT"),
        _ => String::from_str("DECIMAL_RESULT"),
    }
}

/// Decodes a user-var event body (type 14).
pub fn deal_type_code_14(buffer: Vec<u8>) -> (r: Result<EventBodyTypeCode14, MyError>)
    ensures
        r is Ok <==> user_var_ok(buffer@),
        r matches Ok(b) ==> user_var_matches(buffer@, b),
{
    let bs = buffer.as_slice();
    let blen = bs.len();
    if blen < 4 {
        return Err(MyError::truncated());
    }
    let length_of_user_variable_name = read_le(bs, 0, 4) as u32;
    proof {
        crate::bytes::lemma_le_nat_bound(bs@.subrange(0, 4));
        crate::bytes::lemma_pow256_values();
    }
    let l = length_of_user_variable_name as usize;
    if (length_of_user_variable_name as u64) >= (blen - 4) as u64 {
        return Err(MyError::truncated());
    }
    let name_bytes = slice_subrange(bs, 4, 4 + l);
    let name_of_user_variable = match utf8_to_string(name_bytes) {
        Some(s) => s,
        None => {
            return Err(MyError::invalid_utf8());
        },
    };
    let p = 4 + l;
    let null_indicator = bs[p];
    let mut event_body = EventBodyTypeCode14 {
        length_of_user_variable_name,
        name_of_user_variable,
        null_indicator,
        variable_type: None,
        variable_type_string_for_human: None,
        collation_number: None,
        length_of_value: None,
        value: None,
        flags: None,
    };
    if null_indicator > 0 {
        if blen - p < 10 {
            return Err(MyError::truncated());
        }
        let variable_type = bs[p + 1];
        if variable_type > 4 {
            return Err(MyError::unknown_field_type());
        }
        let collation_number = read_le(bs, p + 2, 4) as u32;
        let length_of_value = read_le(bs, p + 6, 4) as u32;
        proof {
            crate::bytes::lemma_le_nat_bound(bs@.subrange(p as int + 2, p as int + 6));
            crate::bytes::lemma_le_nat_bound(bs@.subrange(p as int + 6, p as int + 10));
            crate::bytes::lemma_pow256_values();
        }
        let vl = length_of_value as usize;
        if (length_of_value as u64) >= (blen - p - 10) as u64 {
            return Err(MyError::truncated());
        }
        let value_bytes = slice_subrange(bs, p + 10, p + 10 + vl);
        let value = match utf8_to_string(value_bytes) {
            Some(s) => s,
            None => {
                return Err(MyError::invalid_utf8());
            },
        };
        let flags = bs[p + 10 + vl];
        event_body.variable_type = Some(variable_type);
        event_body.variable_type_string_for_human = Some(var_type_name(variable_type));
        event_body.collation_number = Some(collation_number);
        event_body.length_of_value = Some(length_of_value);
        event_body.value = Some(value);
        event_body.flags = Some(flags);
    }
    Ok(event_body)
}

/// Whether a query body (type 2) decodes: the fixed prefix, the status
/// block (which must itself decode when present), the NUL-terminated
/// database name, and the SQL text before the CRC tail and separator.
pub open spec fn query_ok(s: Seq<u8>) -> bool {
    &&& s.len() >= 13
    &&& {
        let dbl = s[8] as int;
        let sl = le_nat(s.subrange(11, 13)) as int;
        &&& 13 + sl <= s.len()
        &&& (sl > 0 ==> spec_status_vars(s.subrange(13, 13 + sl), 0) is Some)
        &&& 13 + sl + dbl + 1 <= s.len()
        &&& valid_utf8(trim_nuls(s.subrange(13 + sl, 13 + sl + dbl + 1)))
        &&& 13 + sl + dbl + 1 + 5 <= s.len()
        &&& valid_utf8(s.subrange(13 + sl + dbl + 1, s.len() - 5))
    }
}

/// Whether `b` is the decoding of the query body `s`.
pub open spec fn query_matches(s: Seq<u8>, b: EventBodyTypeCode2) -> bool {
    &&& b.id_of_thread == le_nat(s.subrange(0, 4))
    &&& b.execute_time == le_nat(s.subrange(4, 8))
    &&& b.length_of_database_name == s[8]
    &&& b.error_code == le_nat(s.subrange(9, 11))
    &&& b.length_of_status_variable_block == le_nat(s.subrange(11, 13))
    &&& {
        let dbl = s[8] as int;
        let sl = le_nat(s.subrange(11, 13)) as int;
        &&& b.status_variables@ == (if sl > 0 {
            s.subrange(13, 13 + sl)
        } else {
            Seq::<u8>::empty()
        })
        &&& string_views(b.status_variables_string_vec_for_human@) == (if sl > 0 {
            spec_status_vars(s.subrange(13, 13 + sl), 0).unwrap()
        } else {
            Seq::<Seq<char>>::empty()
        })
        &&& b.database_name@ == decode_utf8(trim_nuls(s.subrange(13 + sl, 13 + sl + dbl + 1)))
        &&& b.sql@ == decode_utf8(s.subrange(13 + sl + dbl + 1, s.len() - 5))
    }
}

/// Decodes a query event body (type 2), including its status-variable
/// block.
pub fn deal_type_code_2(buffer: Vec<u8>) -> (r: Result<EventBodyTypeCode2, MyError>)
    ensures
        r is Ok <==> query_ok(buffer@),
        r matches Ok(b) ==> query_matches(buffer@, b),
{
    let bs = buffer.as_slice();
    let blen = bs.len();
    if blen < 13 {
        return Err(MyError::truncated());
    }
    let id_of_thread = read_le(bs, 0, 4) as u32;
    let execute_time = read_le(bs, 4, 4) as u32;
    let length_of_database_name = bs[8];
    let error_code = read_le(bs, 9, 2) as u16;
    let length_of_status_variable_block = read_le(bs, 11, 2) as u16;
    proof {
        crate::bytes::lemma_le_nat_bound(bs@.subrange(0, 4));
        crate::bytes::lemma_le_nat_bound(bs@.subrange(4, 8));
        crate::bytes::lemma_le_nat_bound(bs@.subrange(9, 11));
        crate::bytes::lemma_le_nat_bound(bs@.subrange(11, 13));
        crate::bytes::lemma_pow256_values();
    }
    let sl = length_of_status_variable_block as usize;
    if blen - 13 < sl {
        return Err(MyError::truncated());
    }
    let status_variables: Vec<u8>;
    let status_variables_string_vec_for_human: Vec<String>;
    if sl > 0 {
        status_variables = slice_to_vec(slice_subrange(bs, 13, 13 + sl));
        status_variables_string_vec_for_human = match parse_status_variables(&status_variables) {
            Ok(v) => v,
            Err(e) => {
                return Err(e);
            },
        };
    } else {
        status_variables = Vec::new();
        status_variables_string_vec_for_human = Vec::new();
        proof {
            assert(status_variables@ =~= Seq::<u8>::empty());
            assert(string_views(status_variables_string_vec_for_human@) =~= Seq::<
                Seq<char>,
            >::empty());
        }
    }
    let dbl = length_of_database_name as usize;
    let doff = 13 + sl;
    if blen - doff < dbl + 1 {
        return Err(MyError::truncated());
    }
    let db_bytes = trim_nul_end(slice_subrange(bs, doff, doff + dbl + 1));
    let database_name = match utf8_to_string(db_bytes) {
        Some(s) => s,
        None => {
            return Err(MyError::invalid_utf8());
        },
    };
    let soff = doff + dbl + 1;
    if blen - soff < 5 {
        return Err(MyError::truncated());
    }
    let sql_bytes = slice_subrange(bs, soff, blen - 5);
    let sql = match utf8_to_string(sql_bytes) {
        Some(s) => s,
        None => {
            return Err(MyError::invalid_utf8());
        },
    };
    Ok(
        EventBodyTypeCode2 {
            id_of_thread,
            execute_time,
            length_of_database_name,
            error_code,
            length_of_status_variable_block,
            status_variables,
            status_variables_string_vec_for_human,
            database_name,
            sql,
        },
    )
}

/// The event header whose 19 bytes start at `off` in `s`.
pub open spec fn spec_header(s: Seq<u8>, off: int) -> EventHeader {
    EventHeader {
        timestamp: le_nat(s.subrange(off, off + 4)) as u32,
        type_code: s[off + 4],
        server_id: le_nat(s.subrange(off + 5, off + 9)) as u32,
        event_length: le_nat(s.subrange(off + 9, off + 13)) as u32,
        next_event_position: le_nat(s.subrange(off + 13, off + 17)) as u32,
        flags: le_nat(s.subrange(off + 17, off + 19)) as u16,
    }
}

/// Decodes the fixed 19-byte event header at the head of `buffer`.
pub fn parse_event_header(buffer: &[u8]) -> (r: Result<EventHeader, MyError>)
    ensures
        r is Ok <==> buffer@.len() >= 19,
        r matches Ok(h) ==> h == spec_header(buffer@, 0),
{
    let bs = buffer;
    if bs.len() < 19 {
        return Err(MyError::truncated());
    }
    let timestamp = read_le(bs, 0, 4) as u32;
    let type_code = bs[4];
    let server_id = read_le(bs, 5, 4) as u32;
    let event_length = read_le(bs, 9, 4) as u32;
    let next_event_position = read_le(bs, 13, 4) as u32;
    let flags = read_le(bs, 17, 2) as u16;
    proof {
        crate::bytes::lemma_le_nat_bound(bs@.subrange(0, 4));
        crate::bytes::lemma_le_nat_bound(bs@.subrange(5, 9));
        crate::bytes::lemma_le_nat_bound(bs@.subrange(9, 13));
        crate::bytes::lemma_le_nat_bound(bs@.subrange(13, 17));
        crate::bytes::lemma_le_nat_bound(bs@.subrange(17, 19));
        crate::bytes::lemma_pow256_values();
    }
    Ok(
        EventHeader {
            timestamp,
            type_code,
            server_id,
            event_length,
            next_event_position,
            flags,
        },
    )
}

/// Whether the body bytes `s` of an event with type code `tc` decode,
/// against the registry `reg`; codes outside the supported set are skipped
/// and always decode.
#[verifier::opaque]
pub open spec fn body_decodes(s: Seq<u8>, tc: u8, reg: Map<u64, EventBodyTypeCode19>) -> bool {
    match tc {
        2u8 => query_ok(s),
        4u8 => rotate_ok(s),
        5u8 => intvar_ok(s),
        13u8 => rand_ok(s),
        14u8 => user_var_ok(s),
        15u8 => format_description_ok(s),
        16u8 => xid_ok(s),
        19u8 => spec_table_map(s) is Some,
        23u8 | 24u8 | 25u8 => spec_row(s, tc, reg) is Some,
        38u8 => xa_prepare_ok(s),
        160u8 => annotate_ok(s),
        161u8 => checkpoint_ok(s),
        162u8 => gtid_ok(s),
        163u8 => gtid_list_ok(s),
        164u8 => start_encryption_ok(s),
        _ => true,
    }
}

/// Whether `body` is the decoding of the body bytes `s` of an event with
/// type code `tc`, against the registry `reg`.
#[verifier::opaque]
pub open spec fn body_matches(
    s: Seq<u8>,
    tc: u8,
    reg: Map<u64, EventBodyTypeCode19>,
    body: EventBody,
) -> bool {
    match tc {
        2u8 => body matches EventBody::Query(b) && query_matches(s, b),
        4u8 => body matches EventBody::Rotate(b) && rotate_matches(s, b),
        5u8 => body matches EventBody::Intvar(b) && intvar_matches(s, b),
        13u8 => body matches EventBody::Rand(b) && rand_matches(s, b),
        14u8 => body matches EventBody::UserVar(b) && user_var_matches(s, b),
        15u8 => body matches EventBody::FormatDescription(b) && format_description_matches(s, b),
        16u8 => body matches EventBody::Xid(b) && b.xid_transaction_number == s[0],
        19u8 => body matches EventBody::TableMap(b) && spec_table_map(s) matches Some(st)
            && table_map_matches(b, st),
        23u8 | 24u8 | 25u8 => body matches EventBody::Row(b) && spec_row(s, tc, reg) matches Some(
            sr,
        ) && row_matches(b, sr),
        38u8 => body matches EventBody::XaPrepare(b) && xa_prepare_matches(s, b),
        160u8 => body matches EventBody::Annotate(b) && annotate_matches(s, b),
        161u8 => body matches EventBody::BinlogCheckpoint(b) && checkpoint_matches(s, b),
        162u8 => body matches EventBody::Gtid(b) && gtid_matches(s, b),
        163u8 => body matches EventBody::GtidList(b) && gtid_list_matches(s, b),
        164u8 => body matches EventBody::StartEncryption(b) && start_encryption_matches(s, b),
        _ => body == EventBody::Skip(EventBodyTypeSkip(tc)),
    }
}

/// Whether the body bytes `s` of an event with type code `tc` decode,
/// against the schema level of the registry.
#[verifier::opaque]
pub open spec fn body_decodes_s(s: Seq<u8>, tc: u8, sch: Map<u64, TableSchema>) -> bool {
    match tc {
        2u8 => query_ok(s),
        4u8 => rotate_ok(s),
        5u8 => intvar_ok(s),
        13u8 => rand_ok(s),
        14u8 => user_var_ok(s),
        15u8 => format_description_ok(s),
        16u8 => xid_ok(s),
        19u8 => spec_table_map(s) is Some,
        23u8 | 24u8 | 25u8 => spec_row_s(s, tc, sch) is Some,
        38u8 => xa_prepare_ok(s),
        160u8 => annotate_ok(s),
        161u8 => checkpoint_ok(s),
        162u8 => gtid_ok(s),
        163u8 => gtid_list_ok(s),
        164u8 => start_encryption_ok(s),
        _ => true,
    }
}

/// A body decodes against a registry exactly when it decodes against the
/// registry's schema level.
pub proof fn lemma_body_decodes_schemas(s: Seq<u8>, tc: u8, m: Map<u64, EventBodyTypeCode19>)
    ensures
        body_decodes(s, tc, m) <==> body_decodes_s(s, tc, schemas_of(m)),
{
    reveal(body_decodes);
    reveal(body_decodes_s);
}

/// The schema a Table-Map decoding contributes to the registry.
pub open spec fn schema_entry(st: SpecTableMap) -> TableSchema {
    TableSchema { types: st.column_types, metas: st.meta_raw }
}

/// How a successful Table-Map decoding `st` changes the registry: the new
/// map holds an entry for its table id carrying the decoded values, and is
/// otherwise the old map.
pub open spec fn registry_updated(
    old_m: Map<u64, EventBodyTypeCode19>,
    new_m: Map<u64, EventBodyTypeCode19>,
    st: crate::rows::SpecTableMap,
) -> bool {
    &&& new_m.contains_key(st.table_id)
    &&& table_map_matches(new_m[st.table_id], st)
    &&& new_m == old_m.insert(st.table_id, new_m[st.table_id])
}

/// Decodes one event body by its type code, against and (for a Table-Map)
/// into the registry. Type codes outside the supported set yield the skip
/// body; any other result matches the code's decoding exactly.
pub fn decode_event_body(
    buffer: Vec<u8>,
    type_code: u8,
    table_structs: &mut HashMap<u64, EventBodyTypeCode19>,
) -> (r: Result<EventBody, MyError>)
    ensures
        r is Ok <==> body_decodes(buffer@, type_code, old(table_structs)@),
        r matches Ok(b) ==> body_matches(buffer@, type_code, old(table_structs)@, b),
        (type_code == 19 && r is Ok) ==> registry_updated(
            old(table_structs)@,
            final(table_structs)@,
            spec_table_map(buffer@).unwrap(),
        ),
        (type_code != 19 || r is Err) ==> final(table_structs)@ == old(table_structs)@,
{
    proof {
        reveal(body_decodes);
        reveal(body_matches);
    }
    match type_code {
        2u8 => match deal_type_code_2(buffer) {
            Ok(b) => Ok(EventBody::Query(b)),
            Err(e) => Err(e),
        },
        4u8 => match deal_type_code_4(buffer) {
            Ok(b) => Ok(EventBody::Rotate(b)),
            Err(e) => Err(e),
        },
        5u8 => match deal_type_code_5(buffer) {
            Ok(b) => Ok(EventBody::Intvar(b)),
            Err(e) => Err(e),
        },
        13u8 => match deal_type_code_13(buffer) {
            Ok(b) => Ok(EventBody::Rand(b)),
            Err(e) => Err(e),
        },
        14u8 => match deal_type_code_14(buffer) {
            Ok(b) => Ok(EventBody::UserVar(b)),
            Err(e) => Err(e),
        },
        15u8 => match deal_type_code_15(buffer) {
            Ok(b) => Ok(EventBody::FormatDescription(b)),
            Err(e) => Err(e),
        },
        16u8 => match deal_type_code_16(buffer) {
            Ok(b) => Ok(EventBody::Xid(b)),
            Err(e) => Err(e),
        },
        19u8 => match deal_type_code_19(buffer, table_structs) {
            Ok(b) => Ok(EventBody::TableMap(b)),
            Err(e) => Err(e),
        },
        23u8 | 24u8 | 25u8 => match deal_type_code_23_to_25(buffer, type_code, table_structs) {
            Ok(b) => Ok(EventBody::Row(b)),
            Err(e) => Err(e),
        },
        38u8 => match deal_type_code_38(buffer) {
            Ok(b) => Ok(EventBody::XaPrepare(b)),
            Err(e) => Err(e),
        },
        160u8 => match deal_type_code_160(buffer) {
            Ok(b) => Ok(EventBody::Annotate(b)),
            Err(e) => Err(e),
        },
        161u8 => match deal_type_code_161(buffer) {
            Ok(b) => Ok(EventBody::BinlogCheckpoint(b)),
            Err(e) => Err(e),
        },
        162u8 => match deal_type_code_162(buffer) {
            Ok(b) => Ok(EventBody::Gtid(b)),
            Err(e) => Err(e),
        },
        163u8 => match deal_type_code_163(buffer) {
            Ok(b) => Ok(EventBody::GtidList(b)),
            Err(e) => Err(e),
        },
        164u8 => match deal_type_code_164(buffer) {
            Ok(b) => Ok(EventBody::StartEncryption(b)),
            Err(e) => Err(e),
        },
        _ => Ok(EventBody::Skip(EventBodyTypeSkip(type_code))),
    }
}

/// The chain of event headers from `cursor` to the end of the file image:
/// each entry is the header's file offset and its decoded fields. An
/// `event_length` below 19, an event running past the file, or a
/// `next_event_position` that neither continues directly after the event
/// nor points at or past the end of the file, breaks the chain. A header
/// whose next position reaches the end of the file ends the chain.
pub open spec fn spec_header_chain(s: Seq<u8>, cursor: nat) -> Option<Seq<(nat, EventHeader)>>
    decreases s.len() - cursor,
{
    if cursor >= s.len() {
        Some(Seq::empty())
    } else if cursor + 19 > s.len() {
        None
    } else {
        let h = spec_header(s, cursor as int);
        if h.event_length < 19 {
            None
        } else if cursor + h.event_length > s.len() {
            None
        } else if h.next_event_position >= s.len() {
            Some(seq![(cursor, h)])
        } else if h.next_event_position != cursor + h.event_length {
            None
        } else {
            match spec_header_chain(s, h.next_event_position as nat) {
                None => None,
                Some(rest) => Some(seq![(cursor, h)] + rest),
            }
        }
    }
}

/// Header framing: in a header chain every event length is at least 19,
/// every header was decoded at its recorded offset, and every header but
/// possibly the last points its next position exactly one event length
/// past its own offset, where the next header sits.
pub proof fn lemma_header_chain_framing(s: Seq<u8>, cursor: nat)
    ensures
        spec_header_chain(s, cursor) matches Some(chain) ==> {
            &&& (chain.len() > 0 ==> chain[0].0 == cursor)
            &&& forall|i: int|
                0 <= i < chain.len() ==> {
                    &&& (#[trigger] chain[i]).1.event_length >= 19
                    &&& chain[i].1 == spec_header(s, chain[i].0 as int)
                    &&& (i + 1 < chain.len() ==> chain[i].1.next_event_position == chain[i].0
                        + chain[i].1.event_length && chain[i + 1].0
                        == chain[i].1.next_event_position)
                }
        },
    decreases s.len() - cursor,
{
    if cursor >= s.len() {
    } else if cursor + 19 > s.len() {
    } else {
        let h = spec_header(s, cursor as int);
        if h.event_length < 19 {
        } else if cursor + h.event_length > s.len() {
        } else if h.next_event_position >= s.len() {
        } else if h.next_event_position != cursor + h.event_length {
        } else {
            lemma_header_chain_framing(s, h.next_event_position as nat);
            match spec_header_chain(s, h.next_event_position as nat) {
                None => {},
                Some(rest) => {
                    let chain = seq![(cursor, h)] + rest;
                    assert forall|i: int| 0 <= i < chain.len() implies {
                        &&& (#[trigger] chain[i]).1.event_length >= 19
                        &&& chain[i].1 == spec_header(s, chain[i].0 as int)
                        &&& (i + 1 < chain.len() ==> chain[i].1.next_event_position == chain[i].0
                            + chain[i].1.event_length && chain[i + 1].0
                            == chain[i].1.next_event_position)
                    } by {
                        if i > 0 {
                            assert(chain[i] == rest[i - 1]);
                            if i + 1 < chain.len() {
                                assert(chain[i + 1] == rest[i]);
                            }
                        } else {
                            if chain.len() > 1 {
                                assert(chain[1] == rest[0]);
                            }
                        }
                    }
                },
            }
        }
    }
}

/// A registry update for the Table-Map decoding `st` inserts exactly the
/// decoded schema at the schema level.
pub proof fn lemma_registry_updated_schemas(
    old_m: Map<u64, EventBodyTypeCode19>,
    new_m: Map<u64, EventBodyTypeCode19>,
    st: SpecTableMap,
)
    requires
        registry_updated(old_m, new_m, st),
    ensures
        schemas_of(new_m) == schemas_of(old_m).insert(st.table_id, schema_entry(st)),
{
    assert(schemas_of(new_m) =~= schemas_of(old_m).insert(st.table_id, schema_entry(st)));
}

/// One step of the decoded stream: the event's body matches its bytes
/// against the registry before it, and the registry after it is unchanged
/// unless the event is a Table-Map, which installs its entry.
pub open spec fn event_step_ok(
    s: Seq<u8>,
    link: (nat, EventHeader),
    event: (EventHeader, EventBody),
    reg_before: Map<u64, EventBodyTypeCode19>,
    reg_after: Map<u64, EventBodyTypeCode19>,
) -> bool {
    let off = link.0;
    let h = link.1;
    let bytes = s.subrange(off as int + 19, off as int + h.event_length as int);
    &&& body_matches(bytes, h.type_code, reg_before, event.1)
    &&& (h.type_code == 19 ==> registry_updated(
        reg_before,
        reg_after,
        spec_table_map(bytes).unwrap(),
    ))
    &&& (h.type_code != 19 ==> reg_after == reg_before)
}

/// Whether the registries `regs` thread the decoded `events` together: the
/// first is empty, each body matches its bytes against the registry before
/// it, and each step keeps the registry except that a Table-Map installs
/// its entry.
pub open spec fn stream_regs_ok(
    s: Seq<u8>,
    chain: Seq<(nat, EventHeader)>,
    events: Seq<(EventHeader, EventBody)>,
    regs: Seq<Map<u64, EventBodyTypeCode19>>,
) -> bool {
    &&& regs.len() == events.len() + 1
    &&& events.len() == chain.len()
    &&& (regs.len() > 0 ==> regs[0] == Map::<u64, EventBodyTypeCode19>::empty())
    &&& forall|i: int|
        0 <= i < events.len() ==> event_step_ok(
            s,
            #[trigger] chain[i],
            events[i],
            regs[i],
            regs[i + 1],
        )
}

/// Whether a whole binlog image decodes from `cursor` on, carrying the
/// schema level of the registry: every event is framed as
/// `spec_header_chain` asks and every body decodes against the schemas of
/// the Table-Map events before it.
pub open spec fn spec_stream_decodes(s: Seq<u8>, cursor: nat, sch: Map<u64, TableSchema>) -> bool
    decreases s.len() - cursor,
{
    if cursor >= s.len() {
        true
    } else if cursor + 19 > s.len() {
        false
    } else {
        let h = spec_header(s, cursor as int);
        if h.event_length < 19 {
            false
        } else if cursor + h.event_length > s.len() {
            false
        } else {
            let bytes = s.subrange(cursor as int + 19, cursor as int + h.event_length as int);
            body_decodes_s(bytes, h.type_code, sch) && {
                let sch2 = if h.type_code == 19 && spec_table_map(bytes) is Some {
                    sch.insert(spec_table_map(bytes).unwrap().table_id, schema_entry(
                        spec_table_map(bytes).unwrap(),
                    ))
                } else {
                    sch
                };
                if h.next_event_position >= s.len() {
                    true
                } else if h.next_event_position != cursor + h.event_length {
                    false
                } else {
                    spec_stream_decodes(s, h.next_event_position as nat, sch2)
                }
            }
        }
    }
}

/// Decodes a whole binlog file image: the four magic bytes, then one event
/// after another, each a 19-byte header and a body, following each
/// header's next position until it reaches the end of the image. The
/// emitted headers are exactly the header chain from offset four, and each
/// body matches its bytes against the registry built from the Table-Map
/// events before it.
#[verifier::rlimit(100)]
#[verifier::spinoff_prover]
#[verifier::loop_isolation(false)]
pub fn decode_events(data: &[u8]) -> (r: Result<Vec<(EventHeader, EventBody)>, MyError>)
    ensures
        data@.len() < 4 ==> (r matches Err(e) && e.0@ == crate::model::msg_truncated()),
        (data@.len() >= 4 && data@.subrange(0, 4) != crate::spec_magic()) ==> (r matches Err(e)
            && e.0@ == crate::model::msg_framing()),
        r is Ok ==> data@.len() >= 4 && data@.subrange(0, 4) == crate::spec_magic(),
        (data@.len() == 4 && data@.subrange(0, 4) == crate::spec_magic()) ==> (r matches Ok(
            events,
        ) && events@.len() == 0),
        r matches Ok(events) ==> (spec_header_chain(data@, 4) matches Some(chain) && {
            &&& events@.len() == chain.len()
            &&& (forall|i: int| 0 <= i < chain.len() ==> events@[i].0 == (#[trigger] chain[i]).1)
            &&& exists|regs: Seq<Map<u64, EventBodyTypeCode19>>|
                stream_regs_ok(data@, chain, events@, regs)
        }),
        (data@.len() >= 4 && data@.subrange(0, 4) == crate::spec_magic() && spec_stream_decodes(
            data@,
            4,
            Map::<u64, TableSchema>::empty(),
        )) ==> r is Ok,
{
    let len = data.len();
    let is_binlog = match crate::check_file_magic_number(data) {
        Ok(b) => b,
        Err(e) => {
            return Err(e);
        },
    };
    if !is_binlog {
        return Err(MyError::framing());
    }
    let mut cursor: usize = 4;
    let mut table_structs: HashMap<u64, EventBodyTypeCode19> = HashMap::new();
    let mut events: Vec<(EventHeader, EventBody)> = Vec::new();
    let ghost mut chain_acc: Seq<(nat, EventHeader)> = Seq::empty();
    let ghost mut regs: Seq<Map<u64, EventBodyTypeCode19>> = seq![
        Map::<u64, EventBodyTypeCode19>::empty(),
    ];
    proof {
        if cursor < len {
            match spec_header_chain(data@, cursor as nat) {
                None => {},
                Some(rest) => {
                    assert(chain_acc + rest =~= rest);
                },
            }
        }
        assert(schemas_of(table_structs@) =~= Map::<u64, TableSchema>::empty());
    }
    while cursor < len
        invariant
            4 <= cursor,
            table_structs@ == regs.last(),
            regs.len() == events@.len() + 1,
            regs[0] == Map::<u64, EventBodyTypeCode19>::empty(),
            chain_acc.len() == events@.len(),
            forall|i: int| 0 <= i < chain_acc.len() ==> events@[i].0 == (#[trigger] chain_acc[i]).1,
            forall|i: int|
                0 <= i < events@.len() ==> event_step_ok(
                    data@,
                    #[trigger] chain_acc[i],
                    events@[i],
                    regs[i],
                    regs[i + 1],
                ),
            spec_header_chain(data@, 4) == (if cursor < len {
                match spec_header_chain(data@, cursor as nat) {
                    None => None::<Seq<(nat, EventHeader)>>,
                    Some(rest) => Some(chain_acc + rest),
                }
            } else {
                Some(chain_acc)
            }),
            spec_stream_decodes(data@, 4, Map::<u64, TableSchema>::empty())
                ==> spec_stream_decodes(data@, cursor as nat, schemas_of(table_structs@)),
        decreases len - cursor,
    {
        if len - cursor < 19 {
            return Err(MyError::truncated());
        }
        let header_slice = slice_subrange(data, cursor, cursor + 19);
        let header = match parse_event_header(header_slice) {
            Ok(h) => h,
            Err(e) => {
                return Err(e);
            },
        };
        proof {
            assert(header_slice@.subrange(0, 4) =~= data@.subrange(cursor as int, cursor + 4));
            assert(header_slice@.subrange(5, 9) =~= data@.subrange(cursor + 5, cursor + 9));
            assert(header_slice@.subrange(9, 13) =~= data@.subrange(cursor + 9, cursor + 13));
            assert(header_slice@.subrange(13, 17) =~= data@.subrange(cursor + 13, cursor + 17));
            assert(header_slice@.subrange(17, 19) =~= data@.subrange(cursor + 17, cursor + 19));
            assert(header_slice@[4] == data@[cursor + 4]);
            assert(header == spec_header(data@, cursor as int));
        }
        if header.event_length < 19 {
            return Err(MyError::framing());
        }
        if (header.event_length as u64) > (len - cursor) as u64 {
            return Err(MyError::truncated());
        }
        let body_end = cursor + header.event_length as usize;
        let body = to_vec_all(slice_subrange(data, cursor + 19, body_end));
        let ghost reg_before = table_structs@;
        let body_val = match decode_event_body(body, header.type_code, &mut table_structs) {
            Ok(b) => b,
            Err(e) => {
                proof {
                    lemma_body_decodes_schemas(body@, header.type_code, reg_before);
                    assert(data@.subrange(
                        cursor as int + 19,
                        cursor as int + header.event_length as int,
                    ) =~= body@);
                }
                return Err(e);
            },
        };
        events.push((header, body_val));
        proof {
            chain_acc = chain_acc.push((cursor as nat, header));
            regs = regs.push(table_structs@);
            let bytes = data@.subrange(cursor as int + 19, cursor as int + header.event_length as int);
            assert(bytes =~= body@);
            assert(event_step_ok(
                data@,
                (cursor as nat, header),
                (header, body_val),
                reg_before,
                table_structs@,
            ));
            lemma_body_decodes_schemas(bytes, header.type_code, reg_before);
            if header.type_code == 19 {
                reveal(body_decodes);
                lemma_registry_updated_schemas(
                    reg_before,
                    table_structs@,
                    spec_table_map(bytes).unwrap(),
                );
            }
        }
        let next = header.next_event_position;
        if (next as u64) >= (len as u64) {
            proof {
                assert(spec_header_chain(data@, cursor as nat) == Some(
                    seq![(cursor as nat, header)],
                ));
                assert(chain_acc =~= chain_acc.drop_last() + seq![(cursor as nat, header)]);
                assert(spec_header_chain(data@, 4) == Some(chain_acc));
            }
            cursor = len;
        } else {
            if (next as u64) != (cursor as u64) + (header.event_length as u64) {
                return Err(MyError::framing());
            }
            proof {
                match spec_header_chain(data@, next as nat) {
                    None => {},
                    Some(rest2) => {
                        assert(chain_acc.drop_last() + (seq![(cursor as nat, header)] + rest2)
                            =~= chain_acc + rest2);
                    },
                }
            }
            cursor = next as usize;
        }
    }
    proof {
        let chain = spec_header_chain(data@, 4).unwrap();
        assert(chain == chain_acc);
        assert(stream_regs_ok(data@, chain, events@, regs));
    }
    Ok(events)
}

} // verus!
