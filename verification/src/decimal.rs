//! The NEWDECIMAL packed-decimal storage format: nine decimal digits per
//! four bytes, big-endian within each group, with the sign carried in the
//! top bit of the first byte (set for positive, clear for negative; a
//! negative number stores every byte inverted).

use vstd::prelude::*;
use vstd::pervasive::VecAdditionalExecFns;
use vstd::string::StringExecFns;
use vstd::slice::{slice_subrange, slice_to_vec};

use crate::bytes::be_nat;
use crate::model::MyError;
use crate::render::{dec_digits, u64_to_dec};

verus! {

/// How many bytes `n` decimal digits occupy: four bytes for each full group
/// of nine digits, and a tail mapped digit-pair-wise.
pub open spec fn decimal_part_bytes(n: nat) -> nat {
    (n / 9) * 4 + ((n % 9) + 1) / 2
}

/// Bytes occupied by the integer or fractional part of a packed decimal
/// with `n` digits.
pub fn parse_quantity_of_bytes_for_decimal_part(n: usize) -> (r: usize)
    requires
        n <= 255,
    ensures
        r == decimal_part_bytes(n as nat),
{
    let quantity_for_9_digits = n / 9;
    let remaining_digits = n % 9;
    quantity_for_9_digits * 4 + (remaining_digits + 1) / 2
}

/// `s` prefixed with the zero bytes that make its length a multiple of four.
pub open spec fn zero_pad_front(s: Seq<u8>) -> Seq<u8> {
    Seq::new(((4 - s.len() % 4) % 4) as nat, |i: int| 0u8) + s
}

/// The concatenated decimal renderings of the four-byte big-endian groups
/// of `s` (whose length must be a multiple of four to cover every byte).
pub open spec fn group_render(s: Seq<u8>) -> Seq<char>
    decreases s.len(),
{
    if s.len() < 4 {
        Seq::empty()
    } else {
        dec_digits(be_nat(s.subrange(0, 4))) + group_render(s.skip(4))
    }
}

/// The digits of one part (integer or fractional) of a packed decimal:
/// front-padded to full groups, each group rendered in decimal and
/// concatenated.
pub open spec fn spec_decimal_digits(s: Seq<u8>) -> Seq<char> {
    group_render(zero_pad_front(s))
}

/// Renders the decimal digits stored in `buffer`, matching
/// `spec_decimal_digits`.
pub fn parse_numberic_for_decimal(buffer: &[u8]) -> (r: String)
    ensures
        r@ == spec_decimal_digits(buffer@),
{
    let len = buffer.len();
    let pad = (4 - len % 4) % 4;
    let mut data: Vec<u8> = Vec::new();
    let mut p: usize = 0;
    while p < pad
        invariant
            p <= pad,
            pad < 4,
            data@ =~= Seq::new(p as nat, |i: int| 0u8),
        decreases pad - p,
    {
        data.push(0);
        proof {
            assert(data@ =~= Seq::new((p + 1) as nat, |i: int| 0u8));
        }
        p = p + 1;
    }
    let mut q: usize = 0;
    while q < len
        invariant
            q <= len,
            len == buffer@.len(),
            data@ =~= Seq::new(((4 - len % 4) % 4) as nat, |i: int| 0u8) + buffer@.subrange(
                0,
                q as int,
            ),
        decreases len - q,
    {
        data.push(buffer[q]);
        proof {
            assert(data@ =~= Seq::new(((4 - len % 4) % 4) as nat, |i: int| 0u8)
                + buffer@.subrange(0, q + 1 as int));
        }
        q = q + 1;
    }
    proof {
        assert(buffer@.subrange(0, len as int) =~= buffer@);
        assert(data@ =~= zero_pad_front(buffer@));
        assert(data@.len() % 4 == 0);
    }
    let mut r = String::new();
    let n_groups = data.len() / 4;
    let mut i: usize = 0;
    proof {
        assert(data@.skip(0) =~= data@);
    }
    while i < n_groups
        invariant
            i <= n_groups,
            n_groups == data@.len() / 4,
            data@.len() % 4 == 0,
            data@.len() <= usize::MAX,
            group_render(data@) =~= r@ + group_render(data@.skip(4 * i)),
        decreases n_groups - i,
    {
        proof {
            let rest = data@.skip(4 * i);
            assert(rest.len() == data@.len() - 4 * i);
            assert(rest.len() >= 4);
            assert(rest.subrange(0, 4) =~= data@.subrange(4 * i, 4 * i + 4));
            assert(rest.skip(4) =~= data@.skip(4 * (i + 1)));
        }
        let v = crate::bytes::read_be(data.as_slice(), 4 * i, 4);
        let g = u64_to_dec(v);
        r.append(g.as_str());
        i = i + 1;
    }
    proof {
        assert(data@.skip(4 * n_groups).len() < 4);
        assert(group_render(data@.skip(4 * n_groups)) =~= Seq::<char>::empty());
        assert(r@ =~= group_render(data@));
    }
    r
}

/// Every byte of `s` inverted.
pub open spec fn invert_bytes(s: Seq<u8>) -> Seq<u8> {
    s.map_values(|b: u8| !b)
}

/// What a packed decimal of precision `p` and `d` decimals at the head of
/// `s` decodes to: the rendered value (a '-' prefix when the sign bit says
/// negative) and the bytes consumed. Nothing when `d > p`, when the field
/// would be empty, or when `s` is too short.
pub open spec fn spec_bin_decimal(s: Seq<u8>, p: nat, d: nat) -> Option<(Seq<char>, nat)> {
    if d > p {
        None
    } else {
        let bi = decimal_part_bytes((p - d) as nat);
        let bf = decimal_part_bytes(d);
        let total = bi + bf;
        if total == 0 || s.len() < total {
            None
        } else {
            let positive = s[0] & 0x80 != 0;
            let raw = s.subrange(0, total as int);
            let mag0 = if positive {
                raw
            } else {
                invert_bytes(raw)
            };
            let m = mag0.update(0, mag0[0] ^ 0x80);
            let digits = spec_decimal_digits(m.subrange(0, bi as int)) + seq!['.']
                + spec_decimal_digits(m.subrange(bi as int, total as int));
            if positive {
                Some((digits, total))
            } else {
                Some((seq!['-'] + digits, total))
            }
        }
    }
}

/// Decodes the packed decimal at the head of `buffer`, returning its
/// rendering and the number of bytes consumed, matching `spec_bin_decimal`.
pub fn bin_to_decimal(buffer: &[u8], precision: usize, decimals: usize) -> (r: Result<
    (String, usize),
    MyError,
>)
    requires
        precision <= 255,
        decimals <= 255,
    ensures
        r is Ok <==> spec_bin_decimal(buffer@, precision as nat, decimals as nat) is Some,
        r matches Ok(v) ==> spec_bin_decimal(buffer@, precision as nat, decimals as nat)
            == Some((v.0@, v.1 as nat)),
{
    if decimals > precision {
        return Err(MyError::decimal());
    }
    let integer_part_byte_n = parse_quantity_of_bytes_for_decimal_part(precision - decimals);
    let decimal_part_byte_n = parse_quantity_of_bytes_for_decimal_part(decimals);
    let total_byte_n = integer_part_byte_n + decimal_part_byte_n;
    if total_byte_n == 0 {
        return Err(MyError::decimal());
    }
    if buffer.len() < total_byte_n {
        return Err(MyError::truncated());
    }
    let mut work: Vec<u8> = slice_to_vec(slice_subrange(buffer, 0, total_byte_n));
    let positive = work[0] & 0x80 != 0;
    let ghost raw = buffer@.subrange(0, total_byte_n as int);
    if !positive {
        let mut i: usize = 0;
        while i < work.len()
            invariant
                i <= work@.len(),
                work@.len() == raw.len(),
                forall|k: int| 0 <= k < i ==> work@[k] == !raw[k],
                forall|k: int| i <= k < raw.len() ==> work@[k] == raw[k],
            decreases work@.len() - i,
        {
            let b = work[i];
            work.set(i, !b);
            i = i + 1;
        }
        proof {
            assert(work@ =~= invert_bytes(raw));
        }
    }
    let ghost mag0 = if positive { raw } else { invert_bytes(raw) };
    let b0 = work[0];
    work.set(0, b0 ^ 0x80);
    let ghost m = mag0.update(0, (mag0[0] ^ 0x80) as u8);
    proof {
        assert(work@ =~= m);
    }
    let int_digits = parse_numberic_for_decimal(slice_subrange(work.as_slice(), 0, integer_part_byte_n));
    let frac_digits = parse_numberic_for_decimal(
        slice_subrange(work.as_slice(), integer_part_byte_n, total_byte_n),
    );
    let mut s = if positive {
        String::new()
    } else {
        String::from_str("-")
    };
    s.append(int_digits.as_str());
    s.append(".");
    s.append(frac_digits.as_str());
    proof {
        let expect = spec_bin_decimal(buffer@, precision as nat, decimals as nat);
        reveal_strlit("-");
        reveal_strlit(".");
        assert("."@ =~= seq!['.']);
        assert("-"@ =~= seq!['-']);
        assert(s@ =~= expect.unwrap().0);
    }
    Ok((s, total_byte_n))
}

/// The packed encoding of the magnitude bytes `mag` with the given sign:
/// the sign bit (top bit of the first byte) is set, and a negative value
/// then has every byte inverted.
pub open spec fn spec_encode_decimal(mag: Seq<u8>, negative: bool) -> Seq<u8> {
    let with_bit = mag.update(0, (mag[0] | 0x80) as u8);
    if negative {
        invert_bytes(with_bit)
    } else {
        with_bit
    }
}

/// Encodes magnitude bytes and a sign in the packed-decimal byte form,
/// matching `spec_encode_decimal`.
pub fn encode_newdecimal(magnitude: &[u8], negative: bool) -> (r: Vec<u8>)
    requires
        magnitude@.len() > 0,
    ensures
        r@ == spec_encode_decimal(magnitude@, negative),
{
    let mut out: Vec<u8> = slice_to_vec(magnitude);
    let b0 = out[0];
    out.set(0, b0 | 0x80);
    let ghost with_bit = magnitude@.update(0, (magnitude@[0] | 0x80) as u8);
    proof {
        assert(out@ =~= with_bit);
    }
    if negative {
        let mut i: usize = 0;
        while i < out.len()
            invariant
                i <= out@.len(),
                out@.len() == with_bit.len(),
                forall|k: int| 0 <= k < i ==> out@[k] == !with_bit[k],
                forall|k: int| i <= k < with_bit.len() ==> out@[k] == with_bit[k],
            decreases out@.len() - i,
        {
            let b = out[i];
            out.set(i, !b);
            i = i + 1;
        }
        proof {
            assert(out@ =~= invert_bytes(with_bit));
        }
    }
    out
}

/// The digit rendering a packed decimal with integer part `bi` bytes wide
/// decodes to from the magnitude bytes `mag`, without a sign.
pub open spec fn spec_magnitude_render(mag: Seq<u8>, bi: nat) -> Seq<char> {
    spec_decimal_digits(mag.subrange(0, bi as int)) + seq!['.'] + spec_decimal_digits(
        mag.subrange(bi as int, mag.len() as int),
    )
}

/// Encoding a magnitude as `+x` and as `-x` and decoding both yields the
/// same digit rendering, one with and one without the leading '-': signs
/// are preserved and the magnitudes agree.
pub proof fn lemma_newdecimal_sign_round_trip(mag: Seq<u8>, p: nat, d: nat)
    requires
        d <= p,
        mag.len() == decimal_part_bytes((p - d) as nat) + decimal_part_bytes(d),
        mag.len() > 0,
        mag[0] < 0x80,
    ensures
        spec_bin_decimal(spec_encode_decimal(mag, false), p, d) == Some(
            (spec_magnitude_render(mag, decimal_part_bytes((p - d) as nat)), mag.len()),
        ),
        spec_bin_decimal(spec_encode_decimal(mag, true), p, d) == Some(
            (seq!['-'] + spec_magnitude_render(mag, decimal_part_bytes((p - d) as nat)),
            mag.len()),
        ),
{
    let bi = decimal_part_bytes((p - d) as nat);
    let total = mag.len();
    let with_bit = mag.update(0, (mag[0] | 0x80) as u8);
    let m0 = mag[0];
    assert((m0 | 0x80) & 0x80 != 0 && ((m0 | 0x80) ^ 0x80) == m0 && (!(m0 | 0x80)) & 0x80
        == 0) by (bit_vector)
        requires
            m0 < 0x80,
    ;
    // The positive encoding: the sign bit reads as set, and clearing it
    // recovers the magnitude.
    let pos = spec_encode_decimal(mag, false);
    assert(pos.subrange(0, total as int) =~= pos);
    assert(pos.update(0, (pos[0] ^ 0x80) as u8) =~= mag);
    assert(spec_bin_decimal(pos, p, d) == Some(
        (spec_magnitude_render(mag, bi), total),
    ));
    // The negative encoding: every byte is inverted, so the sign bit reads
    // as clear; inverting back and clearing the bit recovers the magnitude.
    let neg = spec_encode_decimal(mag, true);
    assert(neg[0] == !(m0 | 0x80));
    assert(neg.subrange(0, total as int) =~= neg);
    assert(forall|b: u8| !!b == b) by (bit_vector);
    assert(invert_bytes(neg) =~= with_bit);
    assert(with_bit.update(0, (with_bit[0] ^ 0x80) as u8) =~= mag);
    assert(spec_bin_decimal(neg, p, d) == Some(
        (seq!['-'] + spec_magnitude_render(mag, bi), total),
    ));
}

} // verus!
