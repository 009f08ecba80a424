//! The Table-Map event, its per-column metadata block, and the row events
//! (insert, update, delete) whose column values are decoded against the
//! registered Table-Map schema.

use std::collections::HashMap;

use vstd::prelude::*;
use vstd::string::StringExecFns;
use vstd::slice::{slice_subrange, slice_to_vec};
use vstd::utf8::{valid_utf8, decode_utf8};

use crate::bytes::{
    be_nat, le_nat, read_be, read_le, parse_bitmap, parse_lenenc, spec_bitmap, spec_parse_lenenc,
    spec_render_blob, try_convert_binary_to_string, utf8_to_string,
};
use crate::catalogue::{
    field_type_known, field_type_name, is_metadata_dependent, metadata_width,
    spec_field_type_known, spec_field_type_name, spec_is_metadata_dependent, spec_metadata_width,
};
use crate::decimal::{bin_to_decimal, spec_bin_decimal};
use crate::model::{EventBodyTypeCode19, EventBodyTypeCode23To25, MyError};
use crate::render::{dec_digits, dec_signed, string_views, u64_to_dec, render_i8, render_i16,
    render_i32, render_i64};
use crate::temporal::{
    date_render, datetime2_render, render_timestamp, spec_date_render, spec_datetime2_render,
    spec_time2_render, time2_render, timestamp_rendering,
};

verus! {

broadcast use vstd::std_specs::hash::group_hash_axioms;

/// The views of a sequence of byte vectors, as one sequence of byte
/// sequences.
pub open spec fn byte_views(v: Seq<Vec<u8>>) -> Seq<Seq<u8>> {
    v.map_values(|x: Vec<u8>| x@)
}

/// The timezone offset, in seconds east of UTC, in which TIMESTAMP2 values
/// are rendered.
pub const TIMESTAMP_OFFSET_SECONDS: i32 = 28800;

/// The description of one metadata entry for a column of type `ct`, from
/// the entry's raw bytes (whose length is the type's metadata width).
pub open spec fn spec_metadata_info(ct: u8, data: Seq<u8>) -> Seq<char> {
    match ct {
        4u8 => "the sizeof(float) is "@ + dec_digits(data[0] as nat),
        5u8 => "the sizeof(dobule) is "@ + dec_digits(data[0] as nat),
        15u8 => "the maximum length of the string is "@ + dec_digits(le_nat(data)) + " byte"@,
        16u8 => "the length in bits of the bitfield is "@ + dec_digits(data[0] as nat)
            + ", the number of bytes occupied by the bitfield is "@ + dec_digits(data[1] as nat),
        17u8 => "the number of decimals for the fractional part is "@ + dec_digits(data[0] as nat),
        18u8 => "the number of decimals for the fractional part is "@ + dec_digits(data[0] as nat),
        19u8 => "the number of decimals for the fractional part is "@ + dec_digits(data[0] as nat),
        246u8 => "the length of precision is "@ + dec_digits(data[0] as nat)
            + ", the length of decimals is "@ + dec_digits(data[1] as nat),
        252u8 => "field size is "@ + dec_digits(data[0] as nat) + " bytes"@,
        253u8 => "real field type id is "@ + dec_digits(data[0] as nat)
            + ", real field type name is "@ + spec_field_type_name(data[0])
            + ", storage length is "@ + dec_digits(data[1] as nat),
        254u8 => "field size is "@ + dec_digits(data[1] as nat) + " bytes"@,
        255u8 => "the number of bytes needed to represent the length of the geometry is "@
            + dec_digits(data[0] as nat),
        _ => Seq::empty(),
    }
}

/// The full rendered line for one metadata entry: the type's id and name
/// and the entry description.
pub open spec fn spec_metadata_line(ct: u8, data: Seq<u8>) -> Seq<char> {
    "field type id is: "@ + dec_digits(ct as nat) + ", field type name is: "@
        + spec_field_type_name(ct) + ", infomation is ["@ + spec_metadata_info(ct, data) + "]"@
}

/// What `parse_metadata_block` yields for a column of type `ct` whose
/// entry starts at `off` in the metadata block: the rendered line, the raw
/// entry bytes and the entry width. A type without metadata yields empty
/// values; an entry running past the block yields nothing.
pub open spec fn spec_parse_metadata_block(block: Seq<u8>, off: nat, ct: u8) -> Option<
    (Seq<char>, Seq<u8>, u8),
> {
    let w = spec_metadata_width(ct);
    if w == 0 {
        Some((Seq::empty(), Seq::empty(), 0u8))
    } else if off + w > block.len() {
        None
    } else {
        let data = block.subrange(off as int, off as int + w);
        Some((spec_metadata_line(ct, data), data, w))
    }
}

/// Renders the metadata entry description for type `ct` from its raw bytes.
fn metadata_info(ct: u8, data: &[u8]) -> (r: String)
    requires
        data@.len() == spec_metadata_width(ct),
        spec_metadata_width(ct) > 0,
    ensures
        r@ == spec_metadata_info(ct, data@),
{
    match ct {
        4u8 => {
            let mut s = String::from_str("the sizeof(float) is ");
            let d = u64_to_dec(data[0] as u64);
            s.append(d.as_str());
            proof {
                assert(s@ =~= spec_metadata_info(ct, data@));
            }
            s
        },
        5u8 => {
            let mut s = String::from_str("the sizeof(dobule) is ");
            let d = u64_to_dec(data[0] as u64);
            s.append(d.as_str());
            proof {
                assert(s@ =~= spec_metadata_info(ct, data@));
            }
            s
        },
        15u8 => {
            let v = read_le(data, 0, 2);
            proof {
                assert(data@.subrange(0, 2) =~= data@);
            }
            let mut s = String::from_str("the maximum length of the string is ");
            let d = u64_to_dec(v);
            s.append(d.as_str());
            s.append(" byte");
            proof {
                assert(s@ =~= spec_metadata_info(ct, data@));
            }
            s
        },
        16u8 => {
            let mut s = String::from_str("the length in bits of the bitfield is ");
            let d0 = u64_to_dec(data[0] as u64);
            s.append(d0.as_str());
            s.append(", the number of bytes occupied by the bitfield is ");
            let d1 = u64_to_dec(data[1] as u64);
            s.append(d1.as_str());
            proof {
                assert(s@ =~= spec_metadata_info(ct, data@));
            }
            s
        },
        17u8 | 18u8 | 19u8 => {
            let mut s = String::from_str("the number of decimals for the fractional part is ");
            let d = u64_to_dec(data[0] as u64);
            s.append(d.as_str());
            proof {
                assert(s@ =~= spec_metadata_info(ct, data@));
            }
            s
        },
        246u8 => {
            let mut s = String::from_str("the length of precision is ");
            let d0 = u64_to_dec(data[0] as u64);
            s.append(d0.as_str());
            s.append(", the length of decimals is ");
            let d1 = u64_to_dec(data[1] as u64);
            s.append(d1.as_str());
            proof {
                assert(s@ =~= spec_metadata_info(ct, data@));
            }
            s
        },
        252u8 => {
            let mut s = String::from_str("field size is ");
            let d = u64_to_dec(data[0] as u64);
            s.append(d.as_str());
            s.append(" bytes");
            proof {
                assert(s@ =~= spec_metadata_info(ct, data@));
            }
            s
        },
        253u8 => {
            let mut s = String::from_str("real field type id is ");
            let d0 = u64_to_dec(data[0] as u64);
            s.append(d0.as_str());
            s.append(", real field type name is ");
            let name = field_type_name(data[0]);
            s.append(name.as_str());
            s.append(", storage length is ");
            let d1 = u64_to_dec(data[1] as u64);
            s.append(d1.as_str());
            proof {
                assert(s@ =~= spec_metadata_info(ct, data@));
            }
            s
        },
        254u8 => {
            let mut s = String::from_str("field size is ");
            let d = u64_to_dec(data[1] as u64);
            s.append(d.as_str());
            s.append(" bytes");
            proof {
                assert(s@ =~= spec_metadata_info(ct, data@));
            }
            s
        },
        _ => {
            let mut s = String::from_str(
                "the number of bytes needed to represent the length of the geometry is ",
            );
            let d = u64_to_dec(data[0] as u64);
            s.append(d.as_str());
            proof {
                assert(ct == 255);
                assert(s@ =~= spec_metadata_info(ct, data@));
            }
            s
        },
    }
}

/// Reads one column's metadata entry at `metadata_block_offset`: the
/// rendered line, the raw entry bytes, and the entry width (zero for
/// types without metadata), matching `spec_parse_metadata_block`.
pub fn parse_metadata_block(
    metadata_block: &Vec<u8>,
    metadata_block_offset: usize,
    content_type: u8,
) -> (r: Result<(String, Vec<u8>, u8), MyError>)
    ensures
        r is Ok <==> spec_parse_metadata_block(
            metadata_block@,
            metadata_block_offset as nat,
            content_type,
        ) is Some,
        r matches Ok(v) ==> spec_parse_metadata_block(
            metadata_block@,
            metadata_block_offset as nat,
            content_type,
        ) == Some((v.0@, v.1@, v.2)),
        r matches Ok(v) ==> v.2 == 0 || metadata_block_offset + v.2 <= metadata_block@.len(),
{
    let w = metadata_width(content_type);
    if w == 0 {
        let s = String::new();
        let d: Vec<u8> = Vec::new();
        proof {
            assert(s@ =~= Seq::<char>::empty());
            assert(d@ =~= Seq::<u8>::empty());
        }
        return Ok((s, d, 0));
    }
    if metadata_block.len() < w as usize || metadata_block_offset > metadata_block.len()
        - w as usize {
        return Err(MyError::truncated());
    }
    let data_slice = slice_subrange(
        metadata_block.as_slice(),
        metadata_block_offset,
        metadata_block_offset + w as usize,
    );
    let info = metadata_info(content_type, data_slice);
    let mut content = String::from_str("field type id is: ");
    let dct = u64_to_dec(content_type as u64);
    content.append(dct.as_str());
    content.append(", field type name is: ");
    let name = field_type_name(content_type);
    content.append(name.as_str());
    content.append(", infomation is [");
    content.append(info.as_str());
    content.append("]");
    let data = slice_to_vec(data_slice);
    proof {
        assert(content@ =~= spec_metadata_line(content_type, data_slice@));
    }
    Ok((content, data, w))
}

/// How many entries of `s` are true: the popcount of a decoded bitmap.
pub open spec fn count_trues(s: Seq<bool>) -> nat
    decreases s.len(),
{
    if s.len() == 0 {
        0
    } else {
        (if s[0] {
            1nat
        } else {
            0nat
        }) + count_trues(s.drop_first())
    }
}

/// The sentinel rendered for a column type this decoder does not decode.
pub open spec fn spec_not_implement(t: u8) -> Seq<char> {
    "type `"@ + spec_field_type_name(t) + "` is not implement"@
}

/// What one non-null column value of type `t` at `off` in `data` decodes
/// to, with `meta` the column's metadata entry where the type has one:
/// the rendered value and the offset after it. Nothing when the bytes run
/// out, a needed metadata entry is missing or malformed, or the stored
/// value is impossible.
pub open spec fn spec_decode_value(t: u8, meta: Option<Seq<u8>>, data: Seq<u8>, off: nat)
    -> Option<(Seq<char>, nat)> {
    match t {
        1u8 => if off + 1 <= data.len() {
            Some((dec_signed(data[off as int] as nat, 0x100), off + 1))
        } else {
            None
        },
        2u8 => if off + 2 <= data.len() {
            Some((dec_signed(le_nat(data.subrange(off as int, off as int + 2)), 0x10000), off + 2))
        } else {
            None
        },
        3u8 => if off + 4 <= data.len() {
            Some(
                (dec_signed(le_nat(data.subrange(off as int, off as int + 4)), 0x1_0000_0000), off
                    + 4),
            )
        } else {
            None
        },
        8u8 => if off + 8 <= data.len() {
            Some(
                (dec_signed(
                    le_nat(data.subrange(off as int, off as int + 8)),
                    0x1_0000_0000_0000_0000,
                ), off + 8),
            )
        } else {
            None
        },
        // FLOAT and DOUBLE occupy four and eight bytes; their values are
        // floating point, which this crate does not render, so the bytes
        // are consumed and the sentinel emitted to keep later columns
        // aligned.
        4u8 => if off + 4 <= data.len() {
            Some((spec_not_implement(t), off + 4))
        } else {
            None
        },
        5u8 => if off + 8 <= data.len() {
            Some((spec_not_implement(t), off + 8))
        } else {
            None
        },
        246u8 => match meta {
            None => None,
            Some(m) => if m.len() >= 2 {
                match spec_bin_decimal(data.skip(off as int), m[0] as nat, m[1] as nat) {
                    None => None,
                    Some((digits, consumed)) => Some((digits, off + consumed)),
                }
            } else {
                None
            },
        },
        15u8 => match meta {
            None => None,
            Some(m) => if m.len() == 2 {
                let lmax = le_nat(m);
                if lmax > 255 {
                    if off + 2 <= data.len() {
                        let vlen = le_nat(data.subrange(off as int, off as int + 2));
                        if off + 2 + vlen <= data.len() {
                            Some(
                                (spec_render_blob(
                                    data.subrange(off as int + 2, off as int + 2 + vlen),
                                ), off + 2 + vlen),
                            )
                        } else {
                            None
                        }
                    } else {
                        None
                    }
                } else {
                    if off + 1 <= data.len() {
                        let vlen = data[off as int] as nat;
                        if off + 1 + vlen <= data.len() {
                            Some(
                                (spec_render_blob(
                                    data.subrange(off as int + 1, off as int + 1 + vlen),
                                ), off + 1 + vlen),
                            )
                        } else {
                            None
                        }
                    } else {
                        None
                    }
                }
            } else {
                None
            },
        },
        10u8 => if off + 3 <= data.len() {
            Some(
                (spec_date_render(le_nat(data.subrange(off as int, off as int + 3))), off + 3),
            )
        } else {
            None
        },
        19u8 => if off + 3 <= data.len() {
            Some(
                (spec_time2_render(be_nat(data.subrange(off as int, off as int + 3))), off + 3),
            )
        } else {
            None
        },
        18u8 => if off + 5 <= data.len() {
            let v = be_nat(data.subrange(off as int, off as int + 5));
            if v >= 0x80_0000_0000 {
                Some((spec_datetime2_render((v - 0x80_0000_0000) as nat), off + 5))
            } else {
                None
            }
        } else {
            None
        },
        17u8 => if off + 4 <= data.len() {
            Some(
                (timestamp_rendering(
                    be_nat(data.subrange(off as int, off as int + 4)) as u32,
                    TIMESTAMP_OFFSET_SECONDS,
                ), off + 4),
            )
        } else {
            None
        },
        252u8 => match meta {
            None => None,
            Some(m) => if m.len() >= 1 && 1 <= m[0] <= 4 {
                let k = m[0] as nat;
                if off + k <= data.len() {
                    let blen = le_nat(data.subrange(off as int, off as int + k));
                    if off + k + blen <= data.len() {
                        Some(
                            (spec_render_blob(
                                data.subrange(off as int + k, off as int + k + blen),
                            ), off + k + blen),
                        )
                    } else {
                        None
                    }
                } else {
                    None
                }
            } else {
                None
            },
        },
        _ => Some((spec_not_implement(t), off)),
    }
}

/// Renders the sentinel for an undecoded column type.
fn not_implement(t: u8) -> (r: String)
    ensures
        r@ == spec_not_implement(t),
{
    let mut s = String::from_str("type `");
    let name = field_type_name(t);
    s.append(name.as_str());
    s.append("` is not implement");
    proof {
        assert(s@ =~= spec_not_implement(t));
    }
    s
}

/// Decodes one non-null column value of type `t` at `off`, matching
/// `spec_decode_value`.
fn decode_value(t: u8, meta: Option<&Vec<u8>>, data: &[u8], off: usize) -> (r: Result<
    (String, usize),
    MyError,
>)
    requires
        off <= data@.len(),
    ensures
        r is Ok <==> spec_decode_value(
            t,
            match meta {
                Some(m) => Some(m@),
                None => None,
            },
            data@,
            off as nat,
        ) is Some,
        r matches Ok(v) ==> spec_decode_value(
            t,
            match meta {
                Some(m) => Some(m@),
                None => None,
            },
            data@,
            off as nat,
        ) == Some((v.0@, v.1 as nat)) && off <= v.1 <= data@.len(),
{
    let len = data.len();
    match t {
        1u8 => {
            if len - off < 1 {
                return Err(MyError::truncated());
            }
            let u = data[off];
            proof {
                assert(data@.subrange(off as int, off as int + 1)[0] == data@[off as int]);
            }
            Ok((render_i8(u), off + 1))
        },
        2u8 => {
            if len - off < 2 {
                return Err(MyError::truncated());
            }
            let u = read_le(data, off, 2) as u16;
            proof {
                crate::bytes::lemma_le_nat_bound(data@.subrange(off as int, off as int + 2));
                crate::bytes::lemma_pow256_values();
            }
            Ok((render_i16(u), off + 2))
        },
        3u8 => {
            if len - off < 4 {
                return Err(MyError::truncated());
            }
            let u = read_le(data, off, 4) as u32;
            proof {
                crate::bytes::lemma_le_nat_bound(data@.subrange(off as int, off as int + 4));
                crate::bytes::lemma_pow256_values();
            }
            Ok((render_i32(u), off + 4))
        },
        8u8 => {
            if len - off < 8 {
                return Err(MyError::truncated());
            }
            let u = read_le(data, off, 8);
            Ok((render_i64(u), off + 8))
        },
        4u8 => {
            if len - off < 4 {
                return Err(MyError::truncated());
            }
            Ok((not_implement(t), off + 4))
        },
        5u8 => {
            if len - off < 8 {
                return Err(MyError::truncated());
            }
            Ok((not_implement(t), off + 8))
        },
        246u8 => {
            let m = match meta {
                Some(m) => m,
                None => {
                    return Err(MyError::truncated());
                },
            };
            if m.len() < 2 {
                return Err(MyError::truncated());
            }
            let rest = slice_subrange(data, off, len);
            proof {
                assert(rest@ =~= data@.skip(off as int));
            }
            let (digits, consumed) = bin_to_decimal(rest, m[0] as usize, m[1] as usize)?;
            Ok((digits, off + consumed))
        },
        15u8 => {
            let m = match meta {
                Some(m) => m,
                None => {
                    return Err(MyError::truncated());
                },
            };
            if m.len() != 2 {
                return Err(MyError::truncated());
            }
            let lmax = read_le(m.as_slice(), 0, 2);
            proof {
                assert(m@.subrange(0, 2) =~= m@);
            }
            let (vlen, voff): (usize, usize) = if lmax > 255 {
                if len - off < 2 {
                    return Err(MyError::truncated());
                }
                let l = read_le(data, off, 2);
                proof {
                    crate::bytes::lemma_le_nat_bound(data@.subrange(off as int, off as int + 2));
                    crate::bytes::lemma_pow256_values();
                }
                (l as usize, off + 2)
            } else {
                if len - off < 1 {
                    return Err(MyError::truncated());
                }
                proof {
                    assert(data@.subrange(off as int, off as int + 1)[0] == data@[off as int]);
                }
                (data[off] as usize, off + 1)
            };
            if len - voff < vlen {
                return Err(MyError::truncated());
            }
            let payload = slice_subrange(data, voff, voff + vlen);
            Ok((try_convert_binary_to_string(payload), voff + vlen))
        },
        10u8 => {
            if len - off < 3 {
                return Err(MyError::truncated());
            }
            let v = read_le(data, off, 3) as u32;
            proof {
                crate::bytes::lemma_le_nat_bound(data@.subrange(off as int, off as int + 3));
                crate::bytes::lemma_pow256_values();
            }
            Ok((date_render(v), off + 3))
        },
        19u8 => {
            if len - off < 3 {
                return Err(MyError::truncated());
            }
            let v = read_be(data, off, 3) as u32;
            proof {
                crate::bytes::lemma_be_nat_bound(data@.subrange(off as int, off as int + 3));
                crate::bytes::lemma_pow256_values();
            }
            Ok((time2_render(v), off + 3))
        },
        18u8 => {
            if len - off < 5 {
                return Err(MyError::truncated());
            }
            let v = read_be(data, off, 5);
            proof {
                crate::bytes::lemma_be_nat_bound(data@.subrange(off as int, off as int + 5));
                crate::bytes::lemma_pow256_values();
            }
            if v < 0x80_0000_0000 {
                return Err(MyError::truncated());
            }
            Ok((datetime2_render(v - 0x80_0000_0000), off + 5))
        },
        17u8 => {
            if len - off < 4 {
                return Err(MyError::truncated());
            }
            let v = read_be(data, off, 4) as u32;
            proof {
                crate::bytes::lemma_be_nat_bound(data@.subrange(off as int, off as int + 4));
                crate::bytes::lemma_pow256_values();
            }
            Ok((render_timestamp(v, TIMESTAMP_OFFSET_SECONDS), off + 4))
        },
        252u8 => {
            let m = match meta {
                Some(m) => m,
                None => {
                    return Err(MyError::truncated());
                },
            };
            if m.len() < 1 {
                return Err(MyError::truncated());
            }
            let k = m[0];
            if k < 1 || k > 4 {
                return Err(MyError::blob_length());
            }
            if len - off < k as usize {
                return Err(MyError::truncated());
            }
            let blen = read_le(data, off, k as usize);
            proof {
                crate::bytes::lemma_le_nat_bound(
                    data@.subrange(off as int, off as int + k as usize),
                );
                crate::bytes::lemma_pow256_mono((k as usize) as nat, 4);
                crate::bytes::lemma_pow256_values();
            }
            let poff = off + k as usize;
            if len - poff < blen as usize {
                return Err(MyError::truncated());
            }
            let payload = slice_subrange(data, poff, poff + blen as usize);
            Ok((try_convert_binary_to_string(payload), poff + blen as usize))
        },
        _ => Ok((not_implement(t), off)),
    }
}

/// What the column values of one row image decode to, walking columns from
/// `i` with the metadata iterator at `j` and the data cursor at `off`:
/// the rendered values of the non-null columns and the final cursor.
/// A metadata-dependent column advances the iterator whether or not its
/// value is null, keeping the two in lock step.
pub open spec fn spec_columns(
    types: Seq<u8>,
    metas: Seq<Seq<u8>>,
    nulls: Seq<bool>,
    data: Seq<u8>,
    i: nat,
    j: nat,
    off: nat,
) -> Option<(Seq<Seq<char>>, nat)>
    decreases nulls.len() - i,
{
    if i >= nulls.len() {
        Some((Seq::empty(), off))
    } else if i >= types.len() {
        None
    } else {
        let t = types[i as int];
        let dependent = spec_is_metadata_dependent(t);
        let meta: Option<Seq<u8>> = if dependent {
            if j < metas.len() {
                Some(metas[j as int])
            } else {
                None
            }
        } else {
            None
        };
        let j2 = if dependent {
            j + 1
        } else {
            j
        };
        if nulls[i as int] {
            spec_columns(types, metas, nulls, data, i + 1, j2, off)
        } else {
            match spec_decode_value(t, meta, data, off) {
                None => None,
                Some((val, noff)) => match spec_columns(types, metas, nulls, data, i + 1, j2, noff) {
                    None => None,
                    Some((rest, fin)) => Some((seq![val] + rest, fin)),
                },
            }
        }
    }
}

/// The number of values `spec_columns` yields is the number of non-null
/// columns it walks.
pub proof fn lemma_columns_count(
    types: Seq<u8>,
    metas: Seq<Seq<u8>>,
    nulls: Seq<bool>,
    data: Seq<u8>,
    i: nat,
    j: nat,
    off: nat,
)
    requires
        i <= nulls.len(),
    ensures
        spec_columns(types, metas, nulls, data, i, j, off) matches Some(v) ==> v.0.len()
            + count_trues(nulls.skip(i as int)) == nulls.len() - i,
    decreases nulls.len() - i,
{
    if i >= nulls.len() {
        assert(nulls.skip(i as int).len() == 0);
    } else if i >= types.len() {
    } else {
        let t = types[i as int];
        let dependent = spec_is_metadata_dependent(t);
        let meta: Option<Seq<u8>> = if dependent {
            if j < metas.len() {
                Some(metas[j as int])
            } else {
                None
            }
        } else {
            None
        };
        let j2 = if dependent {
            j + 1
        } else {
            j
        };
        assert(nulls.skip(i as int).drop_first() =~= nulls.skip(i as int + 1));
        assert(nulls.skip(i as int)[0] == nulls[i as int]);
        if nulls[i as int] {
            lemma_columns_count(types, metas, nulls, data, i + 1, j2, off);
        } else {
            match spec_decode_value(t, meta, data, off) {
                None => {},
                Some((val, noff)) => {
                    lemma_columns_count(types, metas, nulls, data, i + 1, j2, noff);
                },
            }
        }
    }
}

/// Decodes the column values of one row image against the Table-Map entry
/// `table_info`, matching `spec_columns` from the start of `buffer`. The
/// number of decoded values equals the number of columns whose null-bitmap
/// entry is false.
#[verifier::rlimit(60)]
pub fn parse_column_data_for_row_event(
    buffer: &[u8],
    table_info: &EventBodyTypeCode19,
    null_bitmap: &Vec<bool>,
) -> (r: Result<(Vec<String>, usize), MyError>)
    ensures
        r is Ok <==> spec_columns(
            table_info.column_types@,
            byte_views(table_info.metadata_block_data_raw@),
            null_bitmap@,
            buffer@,
            0,
            0,
            0,
        ) is Some,
        r matches Ok(v) ==> spec_columns(
            table_info.column_types@,
            byte_views(table_info.metadata_block_data_raw@),
            null_bitmap@,
            buffer@,
            0,
            0,
            0,
        ) == Some((string_views(v.0@), v.1 as nat)),
        r matches Ok(v) ==> v.0@.len() + count_trues(null_bitmap@) == null_bitmap@.len() && v.1
            <= buffer@.len(),
{
    let ghost types = table_info.column_types@;
    let ghost metas = byte_views(table_info.metadata_block_data_raw@);
    let ghost nulls = null_bitmap@;
    let mut offset: usize = 0;
    let mut i: usize = 0;
    let mut j: usize = 0;
    let mut column_data_vec: Vec<String> = Vec::new();
    let n = null_bitmap.len();
    proof {
        match spec_columns(types, metas, nulls, buffer@, 0, 0, 0) {
            Some((rest, fin)) => {
                assert(string_views(column_data_vec@) + rest =~= rest);
            },
            None => {},
        }
    }
    while i < n
        invariant
            i <= n,
            n == nulls.len(),
            types == table_info.column_types@,
            metas == byte_views(table_info.metadata_block_data_raw@),
            nulls == null_bitmap@,
            offset <= buffer@.len(),
            j <= i,
            spec_columns(types, metas, nulls, buffer@, 0, 0, 0) == (match spec_columns(
                types,
                metas,
                nulls,
                buffer@,
                i as nat,
                j as nat,
                offset as nat,
            ) {
                None => None::<(Seq<Seq<char>>, nat)>,
                Some((rest, fin)) => Some((string_views(column_data_vec@) + rest, fin)),
            }),
        decreases n - i,
    {
        let t = table_info.column_types.len();
        if i >= t {
            return Err(MyError::truncated());
        }
        let type_code = table_info.column_types[i];
        let dependent = is_metadata_dependent(type_code);
        let meta: Option<&Vec<u8>> = if dependent {
            if j < table_info.metadata_block_data_raw.len() {
                Some(&table_info.metadata_block_data_raw[j])
            } else {
                None
            }
        } else {
            None
        };
        proof {
            if dependent && (j as nat) < metas.len() {
                assert(metas[j as int] == table_info.metadata_block_data_raw@[j as int]@);
            }
        }
        let j2 = if dependent {
            j + 1
        } else {
            j
        };
        if null_bitmap[i] {
            i = i + 1;
            j = j2;
        } else {
            let (value, noff) = match decode_value(type_code, meta, buffer, offset) {
                Ok(v) => v,
                Err(e) => {
                    return Err(e);
                },
            };
            let ghost old_views = string_views(column_data_vec@);
            column_data_vec.push(value);
            proof {
                assert(string_views(column_data_vec@) =~= old_views + seq![value@]);
                match spec_columns(types, metas, nulls, buffer@, i as nat + 1, j2 as nat,
                    noff as nat) {
                    Some((rest, fin)) => {
                        assert(old_views + (seq![value@] + rest) =~= string_views(
                            column_data_vec@,
                        ) + rest);
                    },
                    None => {},
                }
            }
            offset = noff;
            i = i + 1;
            j = j2;
        }
    }
    proof {
        lemma_columns_count(types, metas, nulls, buffer@, 0, 0, 0);
        assert(nulls.skip(0) =~= nulls);
    }
    Ok((column_data_vec, offset))
}

/// Copies a byte vector; `slice_to_vec` keeps the contents.
fn copy_bytes(v: &Vec<u8>) -> (r: Vec<u8>)
    ensures
        r@ == v@,
{
    slice_to_vec(v.as_slice())
}

/// Copies a boolean vector.
fn copy_bools(v: &Vec<bool>) -> (r: Vec<bool>)
    ensures
        r@ == v@,
{
    slice_to_vec(v.as_slice())
}

/// Copies a vector of strings, element by element.
fn copy_strings(v: &Vec<String>) -> (r: Vec<String>)
    ensures
        r@ == v@,
{
    let mut r: Vec<String> = Vec::new();
    let mut i: usize = 0;
    while i < v.len()
        invariant
            i <= v@.len(),
            r@ =~= v@.subrange(0, i as int),
        decreases v@.len() - i,
    {
        r.push(v[i].clone());
        proof {
            assert(r@ =~= v@.subrange(0, i + 1 as int));
        }
        i = i + 1;
    }
    proof {
        assert(v@.subrange(0, v@.len() as int) =~= v@);
    }
    r
}

/// Copies a vector of byte vectors; the contents are kept view-for-view.
fn copy_byte_vecs(v: &Vec<Vec<u8>>) -> (r: Vec<Vec<u8>>)
    ensures
        byte_views(r@) == byte_views(v@),
        r@.len() == v@.len(),
{
    let mut r: Vec<Vec<u8>> = Vec::new();
    let mut i: usize = 0;
    while i < v.len()
        invariant
            i <= v@.len(),
            r@.len() == i,
            byte_views(r@) =~= byte_views(v@).subrange(0, i as int),
        decreases v@.len() - i,
    {
        let item = copy_bytes(&v[i]);
        r.push(item);
        proof {
            assert(byte_views(r@) =~= byte_views(v@).subrange(0, i + 1 as int));
        }
        i = i + 1;
    }
    proof {
        assert(byte_views(v@).subrange(0, v@.len() as int) =~= byte_views(v@));
    }
    r
}

/// The decoded fields of a Table-Map event, over mathematical values.
pub struct SpecTableMap {
    pub table_id: u64,
    pub reserved: u16,
    pub db_len: u8,
    pub db_name: Seq<char>,
    pub tn_len: u8,
    pub table_name: Seq<char>,
    pub n_cols: u64,
    pub column_types: Seq<u8>,
    pub type_names: Seq<Seq<char>>,
    pub n_meta: u64,
    pub metadata_block: Seq<u8>,
    pub meta_lines: Seq<Seq<char>>,
    pub meta_raw: Seq<Seq<u8>>,
    pub nullable: Seq<bool>,
    pub optional: Seq<u8>,
}

/// The metadata-block walk over the column types: columns whose type has a
/// zero metadata width contribute nothing; the others consume their width
/// from the block in column order. Nothing when an entry runs past the
/// block.
pub open spec fn spec_meta_walk(types: Seq<u8>, block: Seq<u8>, idx: nat, boff: nat) -> Option<
    (Seq<Seq<char>>, Seq<Seq<u8>>),
>
    decreases types.len() - idx,
{
    if idx >= types.len() {
        Some((Seq::empty(), Seq::empty()))
    } else {
        match spec_parse_metadata_block(block, boff, types[idx as int]) {
            None => None,
            Some((line, raw, w)) => match spec_meta_walk(types, block, idx + 1, boff + w as nat) {
                None => None,
                Some((lines, raws)) => if w == 0 {
                    Some((lines, raws))
                } else {
                    Some((seq![line] + lines, seq![raw] + raws))
                },
            },
        }
    }
}

/// What a Table-Map event body decodes to: table id (six bytes widened),
/// reserved bytes, NUL-terminated database and table names, the
/// length-encoded column count and column types (all of which must be
/// known), the length-encoded metadata block, its per-column walk, the
/// nullability bitmap, and the remaining optional metadata.
pub open spec fn spec_table_map(s: Seq<u8>) -> Option<SpecTableMap> {
    if s.len() < 9 {
        None
    } else {
        let table_id = le_nat(s.subrange(0, 6)) as u64;
        let reserved = le_nat(s.subrange(6, 8)) as u16;
        let db_len = s[8];
        if s.len() < 11 + db_len {
            None
        } else {
            let db_bytes = s.subrange(9, 9 + db_len as int);
            if !valid_utf8(db_bytes) {
                None
            } else {
                let tn_len = s[10 + db_len as int];
                if s.len() < 11 + db_len + tn_len {
                    None
                } else {
                    let tn_bytes = s.subrange(11 + db_len as int, 11 + db_len + tn_len);
                    if !valid_utf8(tn_bytes) {
                        None
                    } else {
                        let p0 = 12 + db_len + tn_len;
                        if p0 > s.len() {
                            None
                        } else {
                            match spec_parse_lenenc(s.skip(p0 as int)) {
                                None => None,
                                Some((n, k1)) => {
                                    let a = p0 + k1;
                                    if a + n > s.len() {
                                        None
                                    } else {
                                        let column_types = s.subrange(a as int, a + n);
                                        if !(forall|q: int|
                                            0 <= q < n ==> spec_field_type_known(
                                                column_types[q],
                                            )) {
                                            None
                                        } else {
                                            spec_table_map_rest(
                                                s,
                                                SpecTableMap {
                                                    table_id,
                                                    reserved,
                                                    db_len,
                                                    db_name: decode_utf8(db_bytes),
                                                    tn_len,
                                                    table_name: decode_utf8(tn_bytes),
                                                    n_cols: n,
                                                    column_types,
                                                    type_names: Seq::new(
                                                        n as nat,
                                                        |q: int| spec_field_type_name(
                                                            column_types[q],
                                                        ),
                                                    ),
                                                    n_meta: 0,
                                                    metadata_block: Seq::empty(),
                                                    meta_lines: Seq::empty(),
                                                    meta_raw: Seq::empty(),
                                                    nullable: Seq::empty(),
                                                    optional: Seq::empty(),
                                                },
                                                (a + n) as nat,
                                            )
                                        }
                                    }
                                },
                            }
                        }
                    }
                }
            }
        }
    }
}

/// The tail of the Table-Map decoding, from the metadata-count field at
/// `b`: the metadata block, its walk, the nullability bitmap and the
/// optional tail, filled into `st`.
pub open spec fn spec_table_map_rest(s: Seq<u8>, st: SpecTableMap, b: nat) -> Option<SpecTableMap> {
    match spec_parse_lenenc(s.skip(b as int)) {
        None => None,
        Some((m, k2)) => {
            let c = b + k2;
            if c + m > s.len() {
                None
            } else {
                let metadata_block = s.subrange(c as int, c + m);
                match spec_meta_walk(st.column_types, metadata_block, 0, 0) {
                    None => None,
                    Some((lines, raws)) => {
                        let nb = (st.n_cols + 7) / 8;
                        let d = c + m;
                        if d + nb > s.len() {
                            None
                        } else {
                            Some(
                                SpecTableMap {
                                    n_meta: m,
                                    metadata_block,
                                    meta_lines: lines,
                                    meta_raw: raws,
                                    nullable: spec_bitmap(
                                        s.subrange(d as int, d + nb),
                                        st.n_cols as nat,
                                    ),
                                    optional: s.skip(d + nb),
                                    ..st
                                },
                            )
                        }
                    },
                }
            }
        },
    }
}

/// Whether the decoded Table-Map struct `tm` carries exactly the values of
/// the mathematical decoding `st`.
pub open spec fn table_map_matches(tm: EventBodyTypeCode19, st: SpecTableMap) -> bool {
    &&& tm.table_id == st.table_id
    &&& tm.reserved_for_future_use == st.reserved
    &&& tm.database_name_length == st.db_len
    &&& tm.database_name@ == st.db_name
    &&& tm.table_name_length == st.tn_len
    &&& tm.table_name@ == st.table_name
    &&& tm.number_of_columns == st.n_cols
    &&& tm.column_types@ == st.column_types
    &&& string_views(tm.column_types_string_for_human@) == st.type_names
    &&& tm.number_of_metadata_block == st.n_meta
    &&& tm.metadata_block@ == st.metadata_block
    &&& string_views(tm.metadata_block_string_for_human@) == st.meta_lines
    &&& byte_views(tm.metadata_block_data_raw@) == st.meta_raw
    &&& tm.columns_can_be_null@ == st.nullable
    &&& tm.optional_metadata_block@ == st.optional
}

/// Decodes a Table-Map event body and installs it in the registry under its
/// table id, replacing any earlier entry; on an error the registry is
/// unchanged.
#[verifier::rlimit(100)]
#[verifier::loop_isolation(false)]
pub fn deal_type_code_19(
    buffer: Vec<u8>,
    table_structs: &mut HashMap<u64, EventBodyTypeCode19>,
) -> (r: Result<EventBodyTypeCode19, MyError>)
    ensures
        r is Ok <==> spec_table_map(buffer@) is Some,
        r matches Ok(tm) ==> {
            let st = spec_table_map(buffer@).unwrap();
            &&& table_map_matches(tm, st)
            &&& tm.columns_can_be_null@.len() == tm.number_of_columns
            &&& final(table_structs)@.contains_key(st.table_id)
            &&& table_map_matches(final(table_structs)@[st.table_id], st)
            &&& final(table_structs)@ == old(table_structs)@.insert(
                st.table_id,
                final(table_structs)@[st.table_id],
            )
        },
        r is Err ==> final(table_structs)@ == old(table_structs)@,
{
    let bs = buffer.as_slice();
    let blen = bs.len();
    if blen < 9 {
        return Err(MyError::truncated());
    }
    let table_id = read_le(bs, 0, 6);
    let reserved_for_future_use = read_le(bs, 6, 2) as u16;
    proof {
        crate::bytes::lemma_le_nat_bound(bs@.subrange(6, 8));
        crate::bytes::lemma_pow256_values();
    }
    let database_name_length = bs[8];
    let dbl = database_name_length as usize;
    if blen < 11 + dbl {
        return Err(MyError::truncated());
    }
    let db_bytes = slice_subrange(bs, 9, 9 + dbl);
    let database_name = match utf8_to_string(db_bytes) {
        Some(s) => s,
        None => {
            return Err(MyError::invalid_utf8());
        },
    };
    let table_name_length = bs[10 + dbl];
    let tnl = table_name_length as usize;
    if blen < 11 + dbl + tnl {
        return Err(MyError::truncated());
    }
    let tn_bytes = slice_subrange(bs, 11 + dbl, 11 + dbl + tnl);
    let table_name = match utf8_to_string(tn_bytes) {
        Some(s) => s,
        None => {
            return Err(MyError::invalid_utf8());
        },
    };
    let p0 = 12 + dbl + tnl;
    if p0 > blen {
        return Err(MyError::truncated());
    }
    let tail0 = slice_subrange(bs, p0, blen);
    proof {
        assert(tail0@ =~= buffer@.skip(p0 as int));
    }
    let (number_of_columns, skip1) = match parse_lenenc(tail0) {
        Ok(v) => v,
        Err(e) => {
            return Err(e);
        },
    };
    let a = p0 + skip1 as usize;
    if number_of_columns > (blen - a) as u64 {
        return Err(MyError::truncated());
    }
    let n_us = number_of_columns as usize;
    let column_types = slice_to_vec(slice_subrange(bs, a, a + n_us));
    proof {
        assert(column_types@ =~= buffer@.subrange(a as int, a as int + number_of_columns as int));
    }
    let mut column_types_string_for_human: Vec<String> = Vec::new();
    let mut i: usize = 0;
    while i < n_us
        invariant
            i <= n_us,
            n_us == column_types@.len(),
            forall|q: int| 0 <= q < i ==> spec_field_type_known(column_types@[q]),
            string_views(column_types_string_for_human@) =~= Seq::new(
                i as nat,
                |q: int| spec_field_type_name(column_types@[q]),
            ),
        decreases n_us - i,
    {
        let code = column_types[i];
        if !field_type_known(code) {
            proof {
                let n = number_of_columns;
                let ct = buffer@.subrange(a as int, a as int + n as int);
                assert(ct[i as int] == column_types@[i as int]);
                assert(!spec_field_type_known(ct[i as int]));
                assert(!(forall|q: int| 0 <= q < n ==> spec_field_type_known(ct[q])));
            }
            return Err(MyError::unknown_field_type());
        }
        let name = field_type_name(code);
        let ghost old_names = string_views(column_types_string_for_human@);
        column_types_string_for_human.push(name);
        proof {
            assert(string_views(column_types_string_for_human@) =~= old_names + seq![name@]);
            assert(string_views(column_types_string_for_human@) =~= Seq::new(
                (i + 1) as nat,
                |q: int| spec_field_type_name(column_types@[q]),
            ));
        }
        i = i + 1;
    }
    let b = a + n_us;
    let tail1 = slice_subrange(bs, b, blen);
    proof {
        assert(tail1@ =~= buffer@.skip(b as int));
    }
    let (number_of_metadata_block, skip2) = match parse_lenenc(tail1) {
        Ok(v) => v,
        Err(e) => {
            return Err(e);
        },
    };
    let c = b + skip2 as usize;
    if number_of_metadata_block > (blen - c) as u64 {
        return Err(MyError::truncated());
    }
    let m_us = number_of_metadata_block as usize;
    let metadata_block = slice_to_vec(slice_subrange(bs, c, c + m_us));
    proof {
        assert(metadata_block@ =~= buffer@.subrange(
            c as int,
            c as int + number_of_metadata_block as int,
        ));
    }
    let mut metadata_block_string_for_human: Vec<String> = Vec::new();
    let mut metadata_block_data_raw: Vec<Vec<u8>> = Vec::new();
    let mut metadata_block_offset: usize = 0;
    let mut idx: usize = 0;
    proof {
        match spec_meta_walk(column_types@, metadata_block@, 0, 0) {
            Some((ls, rs)) => {
                assert(string_views(metadata_block_string_for_human@) + ls =~= ls);
                assert(byte_views(metadata_block_data_raw@) + rs =~= rs);
            },
            None => {},
        }
    }
    while idx < n_us
        invariant
            idx <= n_us,
            n_us == column_types@.len(),
            metadata_block_offset <= metadata_block@.len(),
            spec_meta_walk(column_types@, metadata_block@, 0, 0) == (match spec_meta_walk(
                column_types@,
                metadata_block@,
                idx as nat,
                metadata_block_offset as nat,
            ) {
                None => None::<(Seq<Seq<char>>, Seq<Seq<u8>>)>,
                Some((ls, rs)) => Some(
                    (string_views(metadata_block_string_for_human@) + ls, byte_views(
                        metadata_block_data_raw@,
                    ) + rs),
                ),
            }),
        decreases n_us - idx,
    {
        let code = column_types[idx];
        let (line, raw, w) = match parse_metadata_block(&metadata_block, metadata_block_offset, code) {
            Ok(v) => v,
            Err(e) => {
                return Err(e);
            },
        };
        let ghost old_lines = string_views(metadata_block_string_for_human@);
        let ghost old_raws = byte_views(metadata_block_data_raw@);
        if w > 0 {
            metadata_block_string_for_human.push(line);
            metadata_block_data_raw.push(raw);
        }
        proof {
            if w > 0 {
                assert(string_views(metadata_block_string_for_human@) =~= old_lines + seq![
                    metadata_block_string_for_human@.last()@,
                ]);
                assert(byte_views(metadata_block_data_raw@) =~= old_raws + seq![
                    metadata_block_data_raw@.last()@,
                ]);
                match spec_meta_walk(
                    column_types@,
                    metadata_block@,
                    idx as nat + 1,
                    metadata_block_offset as nat + w as nat,
                ) {
                    Some((ls, rs)) => {
                        assert(old_lines + (seq![
                            metadata_block_string_for_human@.last()@,
                        ] + ls) =~= string_views(metadata_block_string_for_human@) + ls);
                        assert(old_raws + (seq![metadata_block_data_raw@.last()@] + rs)
                            =~= byte_views(metadata_block_data_raw@) + rs);
                    },
                    None => {},
                }
            }
        }
        metadata_block_offset = metadata_block_offset + w as usize;
        idx = idx + 1;
    }
    let nb = number_of_columns / 8 + (if number_of_columns % 8 == 0 {
        0u64
    } else {
        1u64
    });
    proof {
        assert(nb == ((number_of_columns + 7) / 8) as u64);
    }
    let d = c + m_us;
    if nb > (blen - d) as u64 {
        return Err(MyError::truncated());
    }
    let nb_us = nb as usize;
    let columns_can_be_null = parse_bitmap(
        slice_subrange(bs, d, d + nb_us),
        number_of_columns,
    );
    let optional_metadata_block = slice_to_vec(slice_subrange(bs, d + nb_us, blen));
    proof {
        assert(optional_metadata_block@ =~= buffer@.skip(d as int + nb as int));
    }
    let event_body = EventBodyTypeCode19 {
        table_id,
        reserved_for_future_use,
        database_name_length,
        database_name,
        table_name_length,
        table_name,
        number_of_columns,
        column_types,
        column_types_string_for_human,
        number_of_metadata_block,
        metadata_block,
        metadata_block_string_for_human,
        metadata_block_data_raw,
        columns_can_be_null,
        optional_metadata_block,
    };
    let registry_copy = EventBodyTypeCode19 {
        table_id: event_body.table_id,
        reserved_for_future_use: event_body.reserved_for_future_use,
        database_name_length: event_body.database_name_length,
        database_name: event_body.database_name.clone(),
        table_name_length: event_body.table_name_length,
        table_name: event_body.table_name.clone(),
        number_of_columns: event_body.number_of_columns,
        column_types: copy_bytes(&event_body.column_types),
        column_types_string_for_human: copy_strings(&event_body.column_types_string_for_human),
        number_of_metadata_block: event_body.number_of_metadata_block,
        metadata_block: copy_bytes(&event_body.metadata_block),
        metadata_block_string_for_human: copy_strings(
            &event_body.metadata_block_string_for_human,
        ),
        metadata_block_data_raw: copy_byte_vecs(&event_body.metadata_block_data_raw),
        columns_can_be_null: copy_bools(&event_body.columns_can_be_null),
        optional_metadata_block: copy_bytes(&event_body.optional_metadata_block),
    };
    proof {
        let st = spec_table_map(buffer@).unwrap();
        assert(table_map_matches(event_body, st));
        assert(table_map_matches(registry_copy, st));
    }
    table_structs.insert(table_id, registry_copy);
    Ok(event_body)
}

/// The human name of a row event's type code.
pub open spec fn spec_row_type_str(tc: u8) -> Seq<char> {
    if tc == 23 {
        "insert"@
    } else if tc == 24 {
        "update"@
    } else if tc == 25 {
        "delete"@
    } else {
        "unknown"@
    }
}

/// The fields of a row event up to and including its first null bitmap,
/// which need no Table-Map entry to decode.
pub struct SpecRowPrefix {
    pub table_id: u64,
    pub flags: u16,
    pub n_cols: u64,
    pub columns_used: Seq<bool>,
    pub columns_used_for_update: Option<Seq<bool>>,
    pub null_bitmap: Seq<bool>,
    pub voff: nat,
}

/// The decoded fields of a row event, over mathematical values.
pub struct SpecRow {
    pub type_str: Seq<char>,
    pub table_id: u64,
    pub flags: u16,
    pub n_cols: u64,
    pub columns_used: Seq<bool>,
    pub columns_used_for_update: Option<Seq<bool>>,
    pub null_bitmap: Seq<bool>,
    pub column_data: Seq<Seq<char>>,
    pub null_bitmap_for_update: Option<Seq<bool>>,
    pub column_data_for_update: Option<Seq<Seq<char>>>,
}

/// What the prefix of a row event decodes to: the six-byte table id, the
/// flags, the length-encoded column count, the columns-used bitmap (twice
/// for an update), and the null bitmap; `voff` is where the column values
/// start. Every bitmap spans the ceiling of an eighth of the column count
/// in bytes.
pub open spec fn spec_row_prefix(s: Seq<u8>, tc: u8) -> Option<SpecRowPrefix> {
    if s.len() < 8 {
        None
    } else {
        let table_id = le_nat(s.subrange(0, 6)) as u64;
        let flags = le_nat(s.subrange(6, 8)) as u16;
        match spec_parse_lenenc(s.skip(8)) {
            None => None,
            Some((n, k)) => {
                let nbb = ((n + 7) / 8) as nat;
                let o1 = 8 + k;
                if o1 + nbb > s.len() {
                    None
                } else {
                    let columns_used = spec_bitmap(s.subrange(o1 as int, o1 + nbb), n as nat);
                    let o2 = o1 + nbb;
                    if tc == 24 {
                        if o2 + 2 * nbb > s.len() {
                            None
                        } else {
                            Some(
                                SpecRowPrefix {
                                    table_id,
                                    flags,
                                    n_cols: n,
                                    columns_used,
                                    columns_used_for_update: Some(
                                        spec_bitmap(s.subrange(o2 as int, o2 + nbb), n as nat),
                                    ),
                                    null_bitmap: spec_bitmap(
                                        s.subrange(o2 + nbb, o2 + 2 * nbb),
                                        n as nat,
                                    ),
                                    voff: (o2 + 2 * nbb) as nat,
                                },
                            )
                        }
                    } else {
                        if o2 + nbb > s.len() {
                            None
                        } else {
                            Some(
                                SpecRowPrefix {
                                    table_id,
                                    flags,
                                    n_cols: n,
                                    columns_used,
                                    columns_used_for_update: None,
                                    null_bitmap: spec_bitmap(
                                        s.subrange(o2 as int, o2 + nbb),
                                        n as nat,
                                    ),
                                    voff: (o2 + nbb) as nat,
                                },
                            )
                        }
                    }
                }
            },
        }
    }
}

/// What a whole row event decodes to against the registry `reg`: the
/// prefix, then the column values of the row image decoded with the
/// Table-Map entry of the event's table id; an update carries a second
/// null bitmap and after-image. Nothing when the table id has no registry
/// entry.
pub open spec fn spec_row(s: Seq<u8>, tc: u8, reg: Map<u64, EventBodyTypeCode19>) -> Option<
    SpecRow,
> {
    spec_row_s(s, tc, schemas_of(reg))
}

/// The schema a row event needs from a Table-Map entry: the column types
/// and the raw per-column metadata entries.
pub struct TableSchema {
    pub types: Seq<u8>,
    pub metas: Seq<Seq<u8>>,
}

/// The schema carried by a decoded Table-Map entry.
pub open spec fn schema_of(ti: EventBodyTypeCode19) -> TableSchema {
    TableSchema { types: ti.column_types@, metas: byte_views(ti.metadata_block_data_raw@) }
}

/// The registry reduced to what row decoding reads of it: each entry's
/// schema.
pub open spec fn schemas_of(m: Map<u64, EventBodyTypeCode19>) -> Map<u64, TableSchema> {
    m.map_values(|ti: EventBodyTypeCode19| schema_of(ti))
}

/// `spec_row` over the schema level of the registry, which is all that row
/// decoding reads.
pub open spec fn spec_row_s(s: Seq<u8>, tc: u8, sch: Map<u64, TableSchema>) -> Option<
    SpecRow,
> {
    match spec_row_prefix(s, tc) {
        None => None,
        Some(p) => {
            if !sch.contains_key(p.table_id) {
                None
            } else {
                let ti = sch[p.table_id];
                let types = ti.types;
                let metas = ti.metas;
                match spec_columns(types, metas, p.null_bitmap, s.skip(p.voff as int), 0, 0, 0) {
                    None => None,
                    Some((vals, consumed)) => {
                        if tc == 24 {
                            let nbb = ((p.n_cols + 7) / 8) as nat;
                            let o4 = p.voff + consumed;
                            if o4 + nbb > s.len() {
                                None
                            } else {
                                let nbu = spec_bitmap(
                                    s.subrange(o4 as int, o4 as int + nbb as int),
                                    p.n_cols as nat,
                                );
                                match spec_columns(
                                    types,
                                    metas,
                                    nbu,
                                    s.skip(o4 as int + nbb as int),
                                    0,
                                    0,
                                    0,
                                ) {
                                    None => None,
                                    Some((vals2, c2)) => Some(
                                        SpecRow {
                                            type_str: spec_row_type_str(tc),
                                            table_id: p.table_id,
                                            flags: p.flags,
                                            n_cols: p.n_cols,
                                            columns_used: p.columns_used,
                                            columns_used_for_update: p.columns_used_for_update,
                                            null_bitmap: p.null_bitmap,
                                            column_data: vals,
                                            null_bitmap_for_update: Some(nbu),
                                            column_data_for_update: Some(vals2),
                                        },
                                    ),
                                }
                            }
                        } else {
                            Some(
                                SpecRow {
                                    type_str: spec_row_type_str(tc),
                                    table_id: p.table_id,
                                    flags: p.flags,
                                    n_cols: p.n_cols,
                                    columns_used: p.columns_used,
                                    columns_used_for_update: p.columns_used_for_update,
                                    null_bitmap: p.null_bitmap,
                                    column_data: vals,
                                    null_bitmap_for_update: None,
                                    column_data_for_update: None,
                                },
                            )
                        }
                    },
                }
            }
        },
    }
}

/// Whether the decoded row-event struct `rb` carries exactly the values of
/// the mathematical decoding `sr`.
pub open spec fn row_matches(rb: EventBodyTypeCode23To25, sr: SpecRow) -> bool {
    &&& rb.type_string_for_human@ == sr.type_str
    &&& rb.table_id == sr.table_id
    &&& rb.flags == sr.flags
    &&& rb.number_of_columns == sr.n_cols
    &&& rb.columns_used@ == sr.columns_used
    &&& (match (rb.columns_used_for_update, sr.columns_used_for_update) {
        (Some(a), Some(b)) => a@ == b,
        (None, None) => true,
        _ => false,
    })
    &&& rb.null_bitmap@ == sr.null_bitmap
    &&& string_views(rb.column_data@) == sr.column_data
    &&& (match (rb.null_bitmap_for_update, sr.null_bitmap_for_update) {
        (Some(a), Some(b)) => a@ == b,
        (None, None) => true,
        _ => false,
    })
    &&& (match (rb.column_data_for_update, sr.column_data_for_update) {
        (Some(a), Some(b)) => string_views(a@) == b,
        (None, None) => true,
        _ => false,
    })
}

/// Renders the human name of a row event's type code.
fn row_type_str(tc: u8) -> (r: String)
    ensures
        r@ == spec_row_type_str(tc),
{
    if tc == 23 {
        String::from_str("insert")
    } else if tc == 24 {
        String::from_str("update")
    } else if tc == 25 {
        String::from_str("delete")
    } else {
        String::from_str("unknown")
    }
}

/// Decodes a row event (insert 23, update 24, delete 25) against the
/// Table-Map registry. The table id must have a registry entry, else the
/// missing-prerequisite error is returned. Each decoded bitmap has exactly
/// one entry per column, and each image yields exactly one rendered value
/// per non-null column.
#[verifier::rlimit(100)]
#[verifier::loop_isolation(false)]
pub fn deal_type_code_23_to_25(
    buffer: Vec<u8>,
    type_code: u8,
    table_structs: &HashMap<u64, EventBodyTypeCode19>,
) -> (r: Result<EventBodyTypeCode23To25, MyError>)
    ensures
        r is Ok <==> spec_row(buffer@, type_code, table_structs@) is Some,
        r matches Ok(rb) ==> row_matches(rb, spec_row(buffer@, type_code, table_structs@).unwrap()),
        r matches Ok(rb) ==> {
            &&& rb.columns_used@.len() == rb.number_of_columns
            &&& (rb.columns_used_for_update matches Some(cu2) ==> cu2@.len()
                == rb.number_of_columns)
            &&& rb.null_bitmap@.len() == rb.number_of_columns
            &&& rb.column_data@.len() + count_trues(rb.null_bitmap@) == rb.number_of_columns
            &&& (match (rb.null_bitmap_for_update, rb.column_data_for_update) {
                (Some(nb2), Some(cd2)) => nb2@.len() == rb.number_of_columns && cd2@.len()
                    + count_trues(nb2@) == rb.number_of_columns,
                (None, None) => true,
                _ => false,
            })
        },
        (spec_row_prefix(buffer@, type_code) matches Some(p) && !table_structs@.contains_key(
            p.table_id,
        )) ==> (r matches Err(e) && e.0@ == crate::model::msg_missing_table_map()),
{
    let bs = buffer.as_slice();
    let blen = bs.len();
    if blen < 8 {
        return Err(MyError::truncated());
    }
    let table_id = read_le(bs, 0, 6);
    let flags = read_le(bs, 6, 2) as u16;
    proof {
        crate::bytes::lemma_le_nat_bound(bs@.subrange(0, 6));
        crate::bytes::lemma_le_nat_bound(bs@.subrange(6, 8));
        crate::bytes::lemma_pow256_values();
    }
    let tail = slice_subrange(bs, 8, blen);
    proof {
        assert(tail@ =~= buffer@.skip(8));
    }
    let (number_of_columns, skip) = match parse_lenenc(tail) {
        Ok(v) => v,
        Err(e) => {
            return Err(e);
        },
    };
    let nbb = number_of_columns / 8 + (if number_of_columns % 8 == 0 {
        0u64
    } else {
        1u64
    });
    proof {
        assert(nbb == ((number_of_columns + 7) / 8) as u64);
        assert(8 * nbb >= number_of_columns);
    }
    let o1 = 8 + skip as usize;
    if nbb > (blen - o1) as u64 {
        return Err(MyError::truncated());
    }
    let nbb_us = nbb as usize;
    let columns_used = parse_bitmap(slice_subrange(bs, o1, o1 + nbb_us), number_of_columns);
    let o2 = o1 + nbb_us;
    let mut columns_used_for_update: Option<Vec<bool>> = None;
    let o3: usize;
    if type_code == 24 {
        if nbb > (blen - o2) as u64 || nbb > (blen - o2 - nbb_us) as u64 {
            return Err(MyError::truncated());
        }
        let cuu = parse_bitmap(slice_subrange(bs, o2, o2 + nbb_us), number_of_columns);
        columns_used_for_update = Some(cuu);
        o3 = o2 + nbb_us;
    } else {
        o3 = o2;
    }
    if nbb > (blen - o3) as u64 {
        return Err(MyError::truncated());
    }
    let null_bitmap = parse_bitmap(slice_subrange(bs, o3, o3 + nbb_us), number_of_columns);
    let voff = o3 + nbb_us;
    proof {
        let p = spec_row_prefix(buffer@, type_code).unwrap();
        assert(p.null_bitmap == null_bitmap@);
        assert(p.voff == voff);
    }
    let table_info = match table_structs.get(&table_id) {
        Some(ti) => ti,
        None => {
            return Err(MyError::missing_table_map());
        },
    };
    let values_slice = slice_subrange(bs, voff, blen);
    proof {
        assert(values_slice@ =~= buffer@.skip(voff as int));
    }
    let (column_data_vec, consumed) = match parse_column_data_for_row_event(
        values_slice,
        table_info,
        &null_bitmap,
    ) {
        Ok(v) => v,
        Err(e) => {
            return Err(e);
        },
    };
    let mut event_body = EventBodyTypeCode23To25 {
        type_string_for_human: row_type_str(type_code),
        table_id,
        flags,
        number_of_columns,
        columns_used,
        columns_used_for_update,
        null_bitmap,
        column_data: column_data_vec,
        null_bitmap_for_update: None,
        column_data_for_update: None,
    };
    if type_code == 24 {
        let o4 = voff + consumed;
        if nbb > (blen - o4) as u64 {
            return Err(MyError::truncated());
        }
        let null_bitmap_for_update = parse_bitmap(
            slice_subrange(bs, o4, o4 + nbb_us),
            number_of_columns,
        );
        let after_slice = slice_subrange(bs, o4 + nbb_us, blen);
        proof {
            assert(after_slice@ =~= buffer@.skip(o4 as int + nbb as int));
        }
        let (column_data_for_update_vec, _skip2) = match parse_column_data_for_row_event(
            after_slice,
            table_info,
            &null_bitmap_for_update,
        ) {
            Ok(v) => v,
            Err(e) => {
                return Err(e);
            },
        };
        event_body.null_bitmap_for_update = Some(null_bitmap_for_update);
        event_body.column_data_for_update = Some(column_data_for_update_vec);
    }
    Ok(event_body)
}

} // verus!
