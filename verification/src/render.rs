//! Building the human-readable strings the decoders emit: decimal renderings
//! of unsigned and two's-complement values, zero-padded fields, bit strings
//! and list joining.

use vstd::prelude::*;
use vstd::string::StringExecFns;

verus! {

/// The character for a single decimal digit.
pub open spec fn digit_char(d: nat) -> char {
    ((48 + d) as u8) as char
}

/// The decimal rendering of a natural number, without a sign and without
/// leading zeros (a lone zero renders as "0").
pub open spec fn dec_digits(n: nat) -> Seq<char>
    decreases n,
{
    if n < 10 {
        seq![digit_char(n)]
    } else {
        dec_digits(n / 10).push(digit_char(n % 10))
    }
}

/// The decimal rendering of the value whose two's-complement encoding in
/// `modulus` (a power of 256) is `u`: values at or above `modulus / 2` are
/// negative.
pub open spec fn dec_signed(u: nat, modulus: nat) -> Seq<char> {
    if u < modulus / 2 {
        dec_digits(u)
    } else {
        seq!['-'] + dec_digits((modulus - u) as nat)
    }
}

/// The decimal rendering of `n` left-padded with '0' to at least two digits.
pub open spec fn pad2(n: nat) -> Seq<char> {
    if n < 10 {
        seq!['0'] + dec_digits(n)
    } else {
        dec_digits(n)
    }
}

/// `parts` joined with `sep` between consecutive entries.
pub open spec fn join_with(parts: Seq<Seq<char>>, sep: Seq<char>) -> Seq<char>
    decreases parts.len(),
{
    if parts.len() == 0 {
        Seq::empty()
    } else if parts.len() == 1 {
        parts[0]
    } else {
        join_with(parts.drop_last(), sep) + sep + parts.last()
    }
}

/// The eight binary digits of a byte, most significant bit first.
pub open spec fn bin8(b: u8) -> Seq<char> {
    Seq::new(8, |i: int| if (b >> (7 - i) as u8) & 1 == 1 { '1' } else { '0' })
}

/// The views of a sequence of strings, as one sequence of character
/// sequences.
pub open spec fn string_views(v: Seq<String>) -> Seq<Seq<char>> {
    v.map_values(|p: String| p@)
}

/// Relies on String::push: appends exactly the given character.
#[verifier::external_body]
pub(crate) fn push_char(s: &mut String, c: char)
    ensures
        final(s)@ == old(s)@ + seq![c],
{
    s.push(c);
}

/// The decimal rendering of `n`, matching `dec_digits`.
pub fn u64_to_dec(n: u64) -> (r: String)
    ensures
        r@ == dec_digits(n as nat),
    decreases n,
{
    if n < 10 {
        let mut s = String::new();
        push_char(&mut s, (48 + n as u8) as char);
        assert(s@ =~= dec_digits(n as nat));
        s
    } else {
        let mut s = u64_to_dec(n / 10);
        push_char(&mut s, (48 + (n % 10) as u8) as char);
        assert(s@ =~= dec_digits(n as nat));
        s
    }
}

/// The decimal rendering of `n` padded to at least two digits, matching `pad2`.
pub fn u64_to_dec2(n: u64) -> (r: String)
    ensures
        r@ == pad2(n as nat),
{
    if n < 10 {
        let mut s = String::from_str("0");
        proof {
            reveal_strlit("0");
        }
        push_char(&mut s, (48 + n as u8) as char);
        assert(s@ =~= pad2(n as nat));
        s
    } else {
        u64_to_dec(n)
    }
}

/// Renders the byte `u` as the signed 8-bit value it encodes.
pub fn render_i8(u: u8) -> (r: String)
    ensures
        r@ == dec_signed(u as nat, 0x100),
{
    if u < 0x80 {
        u64_to_dec(u as u64)
    } else {
        let mut s = String::from_str("-");
        proof {
            reveal_strlit("-");
        }
        let d = u64_to_dec((0x100 - u as u64) as u64);
        s.append(d.as_str());
        assert(s@ =~= dec_signed(u as nat, 0x100));
        s
    }
}

/// Renders `u` as the signed 16-bit value it encodes.
pub fn render_i16(u: u16) -> (r: String)
    ensures
        r@ == dec_signed(u as nat, 0x10000),
{
    if u < 0x8000 {
        u64_to_dec(u as u64)
    } else {
        let mut s = String::from_str("-");
        proof {
            reveal_strlit("-");
        }
        let d = u64_to_dec((0x10000 - u as u64) as u64);
        s.append(d.as_str());
        assert(s@ =~= dec_signed(u as nat, 0x10000));
        s
    }
}

/// Renders `u` as the signed 32-bit value it encodes.
pub fn render_i32(u: u32) -> (r: String)
    ensures
        r@ == dec_signed(u as nat, 0x1_0000_0000),
{
    if u < 0x8000_0000 {
        u64_to_dec(u as u64)
    } else {
        let mut s = String::from_str("-");
        proof {
            reveal_strlit("-");
        }
        let d = u64_to_dec((0x1_0000_0000 - u as u64) as u64);
        s.append(d.as_str());
        assert(s@ =~= dec_signed(u as nat, 0x1_0000_0000));
        s
    }
}

/// Renders `u` as the signed 64-bit value it encodes.
pub fn render_i64(u: u64) -> (r: String)
    ensures
        r@ == dec_signed(u as nat, 0x1_0000_0000_0000_0000),
{
    if u < 0x8000_0000_0000_0000 {
        u64_to_dec(u)
    } else {
        let mut s = String::from_str("-");
        proof {
            reveal_strlit("-");
        }
        let mag = (u64::MAX - u) + 1;
        assert(mag == 0x1_0000_0000_0000_0000 - u);
        let d = u64_to_dec(mag);
        s.append(d.as_str());
        assert(s@ =~= dec_signed(u as nat, 0x1_0000_0000_0000_0000));
        s
    }
}

/// Joins the strings in `parts` with `sep`, matching `join_with`.
pub fn join_strings(parts: &Vec<String>, sep: &str) -> (r: String)
    ensures
        r@ == join_with(parts@.map_values(|p: String| p@), sep@),
{
    let ghost views = parts@.map_values(|p: String| p@);
    let mut r = String::new();
    let mut i: usize = 0;
    while i < parts.len()
        invariant
            i <= parts.len(),
            views == parts@.map_values(|p: String| p@),
            views.len() == parts@.len(),
            r@ == join_with(views.subrange(0, i as int), sep@),
        decreases parts.len() - i,
    {
        if i > 0 {
            r.append(sep);
        }
        r.append(parts[i].as_str());
        proof {
            let pre = views.subrange(0, i as int);
            let now = views.subrange(0, i + 1 as int);
            assert(now.drop_last() =~= pre);
            assert(now.last() == views[i as int]);
            assert(r@ =~= join_with(now, sep@));
        }
        i = i + 1;
    }
    proof {
        assert(views.subrange(0, parts@.len() as int) =~= views);
    }
    r
}

/// Renders the byte `b` as eight binary digits, matching `bin8`.
pub fn byte_to_bin8(b: u8) -> (r: String)
    ensures
        r@ == bin8(b),
{
    let mut s = String::new();
    let mut k: usize = 0;
    while k < 8
        invariant
            k <= 8,
            s@ =~= bin8(b).subrange(0, k as int),
        decreases 8 - k,
    {
        let bit = (b >> (7 - k) as u8) & 1;
        if bit == 1 {
            push_char(&mut s, '1');
        } else {
            push_char(&mut s, '0');
        }
        proof {
            assert(bin8(b)[k as int] == (if (b >> (7 - k) as u8) & 1 == 1 { '1' } else { '0' }));
            assert(s@ =~= bin8(b).subrange(0, k + 1 as int));
        }
        k = k + 1;
    }
    proof {
        assert(bin8(b).subrange(0, 8) =~= bin8(b));
    }
    s
}

} // verus!
