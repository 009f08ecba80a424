//! The bit-packed temporal column formats: DATE, TIME2, DATETIME2, and the
//! TIMESTAMP2 rendering through a fixed timezone offset.

use vstd::prelude::*;
use vstd::string::StringExecFns;

use crate::render::{dec_digits, pad2, push_char, u64_to_dec, u64_to_dec2};

verus! {

/// The rendering of a DATE column: the three little-endian bytes hold the
/// day in the low five bits, the month in the next four, and the year in
/// the rest; rendered unpadded as `year-month-day`.
pub open spec fn spec_date_render(v: nat) -> Seq<char> {
    let day = v % 32;
    let month = (v / 32) % 16;
    let year = v / 512;
    dec_digits(year) + seq!['-'] + dec_digits(month) + seq!['-'] + dec_digits(day)
}

/// Renders a DATE value from its packed 24-bit form, matching
/// `spec_date_render`.
pub fn date_render(v: u32) -> (r: String)
    ensures
        r@ == spec_date_render(v as nat),
{
    let day = v % 32;
    let month = (v / 32) % 16;
    let year = v / 512;
    let mut s = u64_to_dec(year as u64);
    push_char(&mut s, '-');
    let m = u64_to_dec(month as u64);
    s.append(m.as_str());
    push_char(&mut s, '-');
    let d = u64_to_dec(day as u64);
    s.append(d.as_str());
    proof {
        assert(s@ =~= spec_date_render(v as nat));
    }
    s
}

/// The rendering of a TIME2 column: the big-endian 24-bit value is offset
/// by 0x800000; the magnitude of the difference packs second, minute and
/// hour in runs of 6, 6 and 10 bits, each rendered zero-padded to two
/// digits.
pub open spec fn spec_time2_render(v: nat) -> Seq<char> {
    let a: nat = if v >= 0x800000 {
        (v - 0x800000) as nat
    } else {
        (0x800000 - v) as nat
    };
    let hour = (a / 0x1000) % 0x400;
    let minute = (a / 0x40) % 0x40;
    let second = a % 0x40;
    pad2(hour) + seq![':'] + pad2(minute) + seq![':'] + pad2(second)
}

/// Renders a TIME2 value from its packed 24-bit form, matching
/// `spec_time2_render`.
pub fn time2_render(v: u32) -> (r: String)
    requires
        v < 0x1000000,
    ensures
        r@ == spec_time2_render(v as nat),
{
    let a: u32 = if v >= 0x800000 {
        v - 0x800000
    } else {
        0x800000 - v
    };
    let hour = (a / 0x1000) % 0x400;
    let minute = (a / 0x40) % 0x40;
    let second = a % 0x40;
    let mut s = u64_to_dec2(hour as u64);
    push_char(&mut s, ':');
    let m = u64_to_dec2(minute as u64);
    s.append(m.as_str());
    push_char(&mut s, ':');
    let sec = u64_to_dec2(second as u64);
    s.append(sec.as_str());
    proof {
        assert(s@ =~= spec_time2_render(v as nat));
    }
    s
}

/// The rendering of a DATETIME2 column from the offset big-endian 40-bit
/// value `val` (already reduced by 0x8000000000): the low 17 bits pack the
/// time (second, minute, hour in 6, 6, 5 bits), the rest packs the date
/// (day in 5 bits, then month as `ym mod 13` and year as `ym div 13`).
pub open spec fn spec_datetime2_render(val: nat) -> Seq<char> {
    let date_val = val / 0x20000;
    let time_val = val % 0x20000;
    let day = date_val % 32;
    let ym = date_val / 32;
    let month = ym % 13;
    let year = ym / 13;
    let second = time_val % 0x40;
    let minute = (time_val / 0x40) % 0x40;
    let hour = time_val / 0x1000;
    dec_digits(year) + seq!['-'] + pad2(month) + seq!['-'] + pad2(day) + seq![' '] + pad2(hour)
        + seq![':'] + pad2(minute) + seq![':'] + pad2(second)
}

/// Renders a DATETIME2 value from the offset 40-bit form, matching
/// `spec_datetime2_render`.
pub fn datetime2_render(val: u64) -> (r: String)
    requires
        val < 0x10000000000,
    ensures
        r@ == spec_datetime2_render(val as nat),
{
    let date_val = val / 0x20000;
    let time_val = val % 0x20000;
    let day = date_val % 32;
    let ym = date_val / 32;
    let month = ym % 13;
    let year = ym / 13;
    let second = time_val % 0x40;
    let minute = (time_val / 0x40) % 0x40;
    let hour = time_val / 0x1000;
    let mut s = u64_to_dec(year);
    push_char(&mut s, '-');
    let mo = u64_to_dec2(month);
    s.append(mo.as_str());
    push_char(&mut s, '-');
    let d = u64_to_dec2(day);
    s.append(d.as_str());
    push_char(&mut s, ' ');
    let h = u64_to_dec2(hour);
    s.append(h.as_str());
    push_char(&mut s, ':');
    let mi = u64_to_dec2(minute);
    s.append(mi.as_str());
    push_char(&mut s, ':');
    let sec = u64_to_dec2(second);
    s.append(sec.as_str());
    proof {
        assert(s@ =~= spec_datetime2_render(val as nat));
    }
    s
}

/// What a unix timestamp renders to as `%Y-%m-%d %H:%M:%S` in the fixed
/// timezone `offset_seconds` east of UTC; the result depends on the two
/// arguments alone.
pub uninterp spec fn timestamp_rendering(seconds: u32, offset_seconds: i32) -> Seq<char>;

/// Relies on chrono's DateTime::from_timestamp, FixedOffset::east_opt and
/// DateTime::format: renders the timestamp as `%Y-%m-%d %H:%M:%S` in the
/// given fixed offset. `from_timestamp` accepts every u32 worth of
/// seconds, and `east_opt` every offset strictly inside a day's worth.
#[verifier::external_body]
pub(crate) fn render_timestamp(seconds: u32, offset_seconds: i32) -> (r: String)
    requires
        -86400 < offset_seconds < 86400,
    ensures
        r@ == timestamp_rendering(seconds, offset_seconds),
{
    let datetime_utc = chrono::DateTime::from_timestamp(seconds as i64, 0).unwrap();
    let datetime_timezone = datetime_utc.with_timezone(
        &chrono::FixedOffset::east_opt(offset_seconds).unwrap(),
    );
    datetime_timezone.format("%Y-%m-%d %H:%M:%S").to_string()
}

} // verus!
