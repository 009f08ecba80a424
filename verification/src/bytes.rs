//! The primitive byte layer: little- and big-endian integer readers, the
//! length-encoded integer, the LSB-first bitmap expansion, NUL trimming, and
//! the UTF-8-or-base64 rendering of payload bytes.

use vstd::prelude::*;
use vstd::string::StringExecFns;
use vstd::utf8::{valid_utf8, decode_utf8};

use crate::model::MyError;
use base64::prelude::Engine;

verus! {

/// 256 to the power `n`: the number of values of an `n`-byte field.
pub open spec fn pow256(n: nat) -> nat
    decreases n,
{
    if n == 0 {
        1
    } else {
        256 * pow256((n - 1) as nat)
    }
}

/// The value of `s` read as a little-endian unsigned integer.
pub open spec fn le_nat(s: Seq<u8>) -> nat
    decreases s.len(),
{
    if s.len() == 0 {
        0
    } else {
        (s[0] + 256 * le_nat(s.drop_first())) as nat
    }
}

/// The value of `s` read as a big-endian unsigned integer.
pub open spec fn be_nat(s: Seq<u8>) -> nat
    decreases s.len(),
{
    if s.len() == 0 {
        0
    } else {
        (256 * be_nat(s.drop_last()) + s.last()) as nat
    }
}

/// The `n` little-endian bytes of `v` (low byte first, truncating above
/// `pow256(n)`).
pub open spec fn le_of(v: nat, n: nat) -> Seq<u8>
    decreases n,
{
    if n == 0 {
        Seq::empty()
    } else {
        seq![(v % 256) as u8] + le_of(v / 256, (n - 1) as nat)
    }
}

/// The concrete values of `pow256` the proofs below need.
pub proof fn lemma_pow256_values()
    ensures
        pow256(0) == 1,
        pow256(1) == 0x100,
        pow256(2) == 0x10000,
        pow256(3) == 0x100_0000,
        pow256(4) == 0x1_0000_0000,
        pow256(5) == 0x100_0000_0000,
        pow256(6) == 0x1_0000_0000_0000,
        pow256(7) == 0x100_0000_0000_0000,
        pow256(8) == 0x1_0000_0000_0000_0000,
{
    assert(pow256(0) == 1);
    assert(pow256(1) == 0x100);
    assert(pow256(2) == 0x10000);
    assert(pow256(3) == 0x100_0000);
    assert(pow256(4) == 0x1_0000_0000);
    assert(pow256(5) == 0x100_0000_0000);
    assert(pow256(6) == 0x1_0000_0000_0000);
    assert(pow256(7) == 0x100_0000_0000_0000);
    assert(pow256(8) == 0x1_0000_0000_0000_0000);
}

pub proof fn lemma_pow256_mono(a: nat, b: nat)
    requires
        a <= b,
    ensures
        pow256(a) <= pow256(b),
    decreases b,
{
    if a < b {
        lemma_pow256_mono(a, (b - 1) as nat);
    }
}

pub proof fn lemma_le_nat_bound(s: Seq<u8>)
    ensures
        le_nat(s) < pow256(s.len()),
    decreases s.len(),
{
    if s.len() > 0 {
        lemma_le_nat_bound(s.drop_first());
    }
}

pub proof fn lemma_be_nat_bound(s: Seq<u8>)
    ensures
        be_nat(s) < pow256(s.len()),
    decreases s.len(),
{
    if s.len() > 0 {
        lemma_be_nat_bound(s.drop_last());
    }
}

pub proof fn lemma_le_of_len(v: nat, n: nat)
    ensures
        le_of(v, n).len() == n,
    decreases n,
{
    if n > 0 {
        lemma_le_of_len(v / 256, (n - 1) as nat);
    }
}

/// Reading back the `n` little-endian bytes of `v` yields `v mod 256^n`.
pub proof fn lemma_le_of_le_nat(v: nat, n: nat)
    ensures
        le_nat(le_of(v, n)) == v % pow256(n),
    decreases n,
{
    if n == 0 {
        assert(pow256(0) == 1);
        assert(v % 1 == 0) by (nonlinear_arith);
    } else {
        lemma_le_of_le_nat(v / 256, (n - 1) as nat);
        let s = le_of(v, n);
        assert(s.drop_first() =~= le_of(v / 256, (n - 1) as nat));
        let m = pow256((n - 1) as nat);
        lemma_pow256_mono(0, (n - 1) as nat);
        assert(le_nat(s) == v % 256 + 256 * ((v / 256) % m));
        vstd::arithmetic::div_mod::lemma_mod_breakdown(v as int, 256, m as int);
        assert(v % (256 * m) == 256 * ((v / 256) % m) + v % 256);
    }
}

/// Reads `n` bytes (`n <= 8`) at `off` as a little-endian integer.
pub fn read_le(b: &[u8], off: usize, n: usize) -> (r: u64)
    requires
        n <= 8,
        off + n <= b@.len(),
    ensures
        r as nat == le_nat(b@.subrange(off as int, off + n)),
{
    let mut r: u64 = 0;
    let mut i: usize = n;
    let blen: usize = b.len();
    proof {
        assert(b@.subrange(off + n, off + n) =~= Seq::<u8>::empty());
    }
    while i > 0
        invariant
            i <= n,
            n <= 8,
            off + n <= blen,
            blen == b@.len(),
            r as nat == le_nat(b@.subrange(off + i, off + n)),
            r < pow256((n - i) as nat),
        decreases i,
    {
        proof {
            lemma_pow256_values();
            lemma_pow256_mono((n - i) as nat, 7);
        }
        let byte = b[off + i - 1];
        r = (byte as u64) + 256 * r;
        proof {
            let s = b@.subrange(off + i - 1, off + n);
            assert(s.drop_first() =~= b@.subrange(off + i, off + n));
            assert(pow256((n - i + 1) as nat) == 256 * pow256((n - i) as nat));
        }
        i = i - 1;
    }
    r
}

/// Reads `n` bytes (`n <= 8`) at `off` as a big-endian integer.
pub fn read_be(b: &[u8], off: usize, n: usize) -> (r: u64)
    requires
        n <= 8,
        off + n <= b@.len(),
    ensures
        r as nat == be_nat(b@.subrange(off as int, off + n)),
{
    let mut r: u64 = 0;
    let mut i: usize = 0;
    let blen: usize = b.len();
    proof {
        assert(b@.subrange(off as int, off as int) =~= Seq::<u8>::empty());
    }
    while i < n
        invariant
            i <= n,
            n <= 8,
            off + n <= blen,
            blen == b@.len(),
            r as nat == be_nat(b@.subrange(off as int, off + i)),
            r < pow256(i as nat),
        decreases n - i,
    {
        proof {
            lemma_pow256_values();
            lemma_pow256_mono(i as nat, 7);
        }
        let byte = b[off + i];
        r = 256 * r + (byte as u64);
        proof {
            let s = b@.subrange(off as int, off + i + 1);
            assert(s.drop_last() =~= b@.subrange(off as int, off + i));
            assert(pow256((i + 1) as nat) == 256 * pow256(i as nat));
        }
        i = i + 1;
    }
    r
}

/// What a length-encoded integer at the head of `s` decodes to: the value and
/// the number of bytes consumed, or nothing when the buffer is too short or
/// the first byte is one of the reserved tags 251 and 255.
pub open spec fn spec_parse_lenenc(s: Seq<u8>) -> Option<(u64, u8)> {
    if s.len() == 0 {
        None
    } else if s[0] < 251 {
        Some((s[0] as u64, 1u8))
    } else if s[0] == 252 {
        if s.len() >= 3 {
            Some((le_nat(s.subrange(1, 3)) as u64, 3u8))
        } else {
            None
        }
    } else if s[0] == 253 {
        if s.len() >= 4 {
            Some((le_nat(s.subrange(1, 4)) as u64, 4u8))
        } else {
            None
        }
    } else if s[0] == 254 {
        if s.len() >= 9 {
            Some((le_nat(s.subrange(1, 9)) as u64, 9u8))
        } else {
            None
        }
    } else {
        None
    }
}

/// Decodes a length-encoded integer from the head of `buffer`.
///
/// Succeeds exactly when `spec_parse_lenenc` does; a reserved first byte
/// (251 or 255) yields the lenenc error, a short buffer the truncation error.
pub fn parse_lenenc(buffer: &[u8]) -> (r: Result<(u64, u8), MyError>)
    ensures
        r is Ok <==> spec_parse_lenenc(buffer@) is Some,
        r matches Ok(v) ==> spec_parse_lenenc(buffer@) == Some(v),
        r matches Err(e) ==> e.0@ == (
            if buffer@.len() > 0 && (buffer@[0] == 251 || buffer@[0] == 255) {
                crate::model::msg_lenenc()
            } else {
                crate::model::msg_truncated()
            }
        ),
{
    if buffer.len() == 0 {
        return Err(MyError::truncated());
    }
    let first_byte = buffer[0];
    if first_byte < 251 {
        Ok((first_byte as u64, 1))
    } else if first_byte == 252 {
        if buffer.len() < 3 {
            return Err(MyError::truncated());
        }
        let v = read_le(buffer, 1, 2);
        Ok((v, 3))
    } else if first_byte == 253 {
        if buffer.len() < 4 {
            return Err(MyError::truncated());
        }
        let v = read_le(buffer, 1, 3);
        Ok((v, 4))
    } else if first_byte == 254 {
        if buffer.len() < 9 {
            return Err(MyError::truncated());
        }
        let v = read_le(buffer, 1, 8);
        Ok((v, 9))
    } else {
        Err(MyError::lenenc())
    }
}

/// The canonical (shortest) length-encoded form of `v`.
pub open spec fn spec_encode_lenenc(v: u64) -> Seq<u8> {
    if v < 251 {
        seq![v as u8]
    } else if v < 0x10000 {
        seq![252u8] + le_of(v as nat, 2)
    } else if v < 0x100_0000 {
        seq![253u8] + le_of(v as nat, 3)
    } else {
        seq![254u8] + le_of(v as nat, 8)
    }
}

/// Appends the `n` little-endian bytes of `v` to `out`.
fn push_le_bytes(out: &mut Vec<u8>, v: u64, n: usize)
    requires
        n <= 8,
    ensures
        final(out)@ == old(out)@ + le_of(v as nat, n as nat),
{
    let mut w: u64 = v;
    let mut i: usize = 0;
    while i < n
        invariant
            i <= n,
            out@.len() == old(out)@.len() + i,
            old(out)@ + le_of(v as nat, n as nat) =~= out@ + le_of(w as nat, (n - i) as nat),
        decreases n - i,
    {
        out.push((w % 256) as u8);
        proof {
            assert(le_of(w as nat, (n - i) as nat) =~= seq![(w as nat % 256) as u8] + le_of(
                w as nat / 256,
                (n - i - 1) as nat,
            ));
        }
        w = w / 256;
        i = i + 1;
    }
    proof {
        assert(le_of(w as nat, 0) =~= Seq::<u8>::empty());
        assert(out@ =~= old(out)@ + le_of(v as nat, n as nat));
    }
}

/// Encodes `v` in the canonical (shortest) length-encoded form.
pub fn encode_lenenc(v: u64) -> (r: Vec<u8>)
    ensures
        r@ == spec_encode_lenenc(v),
{
    let mut out: Vec<u8> = Vec::new();
    if v < 251 {
        out.push(v as u8);
        assert(out@ =~= spec_encode_lenenc(v));
    } else if v < 0x10000 {
        out.push(252);
        push_le_bytes(&mut out, v, 2);
        assert(out@ =~= spec_encode_lenenc(v));
    } else if v < 0x100_0000 {
        out.push(253);
        push_le_bytes(&mut out, v, 3);
        assert(out@ =~= spec_encode_lenenc(v));
    } else {
        out.push(254);
        push_le_bytes(&mut out, v, 8);
        assert(out@ =~= spec_encode_lenenc(v));
    }
    out
}

/// Every `v` below 2^64 round-trips through its canonical length-encoded
/// form: parsing the encoding yields `v` back and consumes the whole
/// encoding, whose length is 1, 3, 4 or 9 bytes as `v` requires.
pub proof fn lemma_lenenc_round_trip(v: u64)
    ensures
        spec_parse_lenenc(spec_encode_lenenc(v)) == Some(
            (v, spec_encode_lenenc(v).len() as u8),
        ),
        spec_encode_lenenc(v).len() == (
            if v < 251 {
                1int
            } else if v < 0x10000 {
                3int
            } else if v < 0x100_0000 {
                4int
            } else {
                9int
            }
        ),
{
    let e = spec_encode_lenenc(v);
    if v < 251 {
        assert(e.len() == 1);
    } else if v < 0x10000 {
        lemma_le_of_len(v as nat, 2);
        assert(e[0] == 252);
        assert(e.subrange(1, 3) =~= le_of(v as nat, 2));
        lemma_le_of_le_nat(v as nat, 2);
        lemma_pow256_values();
        assert(v as nat % 0x10000 == v as nat);
    } else if v < 0x100_0000 {
        lemma_le_of_len(v as nat, 3);
        assert(e[0] == 253);
        assert(e.subrange(1, 4) =~= le_of(v as nat, 3));
        lemma_le_of_le_nat(v as nat, 3);
        lemma_pow256_values();
        assert(v as nat % 0x100_0000 == v as nat);
    } else {
        lemma_le_of_len(v as nat, 8);
        assert(e[0] == 254);
        assert(e.subrange(1, 9) =~= le_of(v as nat, 8));
        lemma_le_of_le_nat(v as nat, 8);
        lemma_pow256_values();
        assert(v as nat % 0x1_0000_0000_0000_0000 == v as nat);
    }
}

/// Whether bit `i` (LSB first) of `b` is set.
pub open spec fn bit_at(b: u8, i: nat) -> bool {
    (b >> (i as u8)) & 1 == 1
}

/// The boolean expansion of `bytes`, bit 0 of each byte first, truncated to
/// `truncate` entries (or to all `8 * len` bits when `truncate` is larger).
pub open spec fn spec_bitmap(bytes: Seq<u8>, truncate: nat) -> Seq<bool> {
    Seq::new(
        if truncate <= 8 * bytes.len() {
            truncate
        } else {
            8 * bytes.len()
        },
        |i: int| bit_at(bytes[i / 8], (i % 8) as nat),
    )
}

/// Expands `buffer` into per-column booleans, LSB first within each byte,
/// truncated to `truncate` entries.
pub fn parse_bitmap(buffer: &[u8], truncate: u64) -> (r: Vec<bool>)
    ensures
        r@ == spec_bitmap(buffer@, truncate as nat),
{
    let mut r: Vec<bool> = Vec::new();
    let mut j: u64 = 0;
    while j < truncate && j / 8 < buffer.len() as u64
        invariant
            j <= truncate,
            j as nat <= 8 * buffer@.len(),
            r@.len() == j,
            forall|k: int| 0 <= k < j ==> r@[k] == bit_at(buffer@[k / 8], (k % 8) as nat),
        decreases truncate - j,
    {
        let byte = buffer[(j / 8) as usize];
        let bit = (byte >> (j % 8) as u8) & 1;
        r.push(bit == 1);
        j = j + 1;
    }
    proof {
        assert(j == truncate || j as nat == 8 * buffer@.len());
        assert(r@ =~= spec_bitmap(buffer@, truncate as nat));
    }
    r
}

/// `s` with every trailing zero byte removed.
pub open spec fn trim_nuls(s: Seq<u8>) -> Seq<u8>
    decreases s.len(),
{
    if s.len() > 0 && s.last() == 0 {
        trim_nuls(s.drop_last())
    } else {
        s
    }
}

/// Returns the prefix of `b` before its trailing zero bytes.
pub fn trim_nul_end<'a>(b: &'a [u8]) -> (r: &'a [u8])
    ensures
        r@ == trim_nuls(b@),
{
    let mut end: usize = b.len();
    proof {
        assert(b@.subrange(0, b@.len() as int) =~= b@);
    }
    while end > 0 && b[end - 1] == 0
        invariant
            end <= b@.len(),
            trim_nuls(b@) == trim_nuls(b@.subrange(0, end as int)),
        decreases end,
    {
        proof {
            let s = b@.subrange(0, end as int);
            assert(s.drop_last() =~= b@.subrange(0, end - 1));
        }
        end = end - 1;
    }
    proof {
        assert(trim_nuls(b@.subrange(0, end as int)) == b@.subrange(0, end as int));
    }
    vstd::slice::slice_subrange(b, 0, end)
}

/// Relies on str::from_utf8: returns the decoded string when the bytes are
/// valid UTF-8 and nothing otherwise, per vstd's UTF-8 model.
#[verifier::external_body]
pub(crate) fn utf8_to_string(b: &[u8]) -> (r: Option<String>)
    ensures
        r is Some <==> valid_utf8(b@),
        r matches Some(s) ==> s@ == decode_utf8(b@),
{
    match core::str::from_utf8(b) {
        Ok(s) => Some(s.to_owned()),
        Err(_) => None,
    }
}

/// What base64's standard alphabet with padding encodes the bytes to; the
/// result depends on the bytes alone.
pub uninterp spec fn base64_of(b: Seq<u8>) -> Seq<char>;

/// Relies on base64's BASE64_STANDARD engine: standard alphabet, padded.
#[verifier::external_body]
pub(crate) fn base64_encode(b: &[u8]) -> (r: String)
    ensures
        r@ == base64_of(b@),
{
    base64::prelude::BASE64_STANDARD.encode(b)
}

/// How payload bytes (VARCHAR and BLOB values) are rendered: as a quoted
/// string when they are valid UTF-8, else as their base64 form with a
/// marker.
pub open spec fn spec_render_blob(b: Seq<u8>) -> Seq<char> {
    if valid_utf8(b) {
        "this is a String, value is `"@ + decode_utf8(b) + "`"@
    } else {
        "this is not a String, value with base64 is "@ + base64_of(b)
    }
}

/// Renders payload bytes as UTF-8 when possible and as base64 otherwise.
pub fn try_convert_binary_to_string(buffer: &[u8]) -> (r: String)
    ensures
        r@ == spec_render_blob(buffer@),
{
    match utf8_to_string(buffer) {
        Some(s) => {
            let mut r = String::from_str("this is a String, value is `");
            r.append(s.as_str());
            r.append("`");
            assert(r@ =~= spec_render_blob(buffer@));
            r
        },
        None => {
            let mut r = String::from_str("this is not a String, value with base64 is ");
            let b64 = base64_encode(buffer);
            r.append(b64.as_str());
            assert(r@ =~= spec_render_blob(buffer@));
            r
        },
    }
}

} // verus!
