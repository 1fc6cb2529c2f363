//! Human-readable times: how long ago a report was made, and the date in a
//! log file's name.
use vstd::prelude::*;
use vstd::string::{StrSliceExecFns, StringExecFns};
use crate::agent::{hex_digit, hex_digit_char};
use crate::clock::unix_now;
use crate::text::{
    ascii_only, find_char_from, has_byte_len, utf8_len, i32_text_value, index_from, is_ascii_text, lemma_index_from, parse_i32,
    parse_short_u32, push_char, u32_text_value,
};

verus! {

/// Decimal digits of `n`, without leading zeros.
pub open spec fn dec_of(n: nat) -> Seq<char>
    decreases n,
{
    if n < 10 {
        seq![hex_digit(n)]
    } else {
        dec_of(n / 10).push(hex_digit(n % 10))
    }
}

/// The decimal rendering of `n`.
pub fn decimal_string(n: u64) -> (r: String)
    ensures
        r@ == dec_of(n as nat),
    decreases n,
{
    if n < 10 {
        let mut s = String::new();
        push_char(&mut s, hex_digit_char(n));
        s
    } else {
        let mut s = decimal_string(n / 10);
        push_char(&mut s, hex_digit_char(n % 10));
        s
    }
}

/// `n` units ago, the unit in the plural unless `n` is one.
pub open spec fn ago(n: nat, unit: Seq<char>) -> Seq<char> {
    dec_of(n) + " "@ + unit + (if n == 1 { Seq::<char>::empty() } else { "s"@ }) + " ago"@
}

/// How long before `now` the time `timestamp` was, in whole days, hours or
/// minutes, the largest unit that is not zero.
pub open spec fn relative_text(timestamp: u64, now: u64) -> Seq<char> {
    if now < timestamp {
        "Unknown"@
    } else {
        let d = (now - timestamp) as nat;
        let days = d / 86400;
        let hours = (d % 86400) / 3600;
        let minutes = (d % 3600) / 60;
        if days > 0 {
            ago(days, "day"@)
        } else if hours > 0 {
            ago(hours, "hour"@)
        } else if minutes > 0 {
            ago(minutes, "minute"@)
        } else {
            "Just now"@
        }
    }
}

fn ago_text(n: u64, unit: &str) -> (r: String)
    ensures
        r@ == ago(n as nat, unit@),
{
    let mut s = decimal_string(n);
    s.append(" ");
    s.append(unit);
    let ghost base = s@;
    if n != 1 {
        s.append("s");
    } else {
        assert(s@ =~= base + Seq::<char>::empty());
    }
    s.append(" ago");
    s
}

/// Says how long before `now` a report made at `timestamp` was.
pub fn format_report_timestamp_at(timestamp: u64, now: u64) -> (r: String)
    ensures
        r@ == relative_text(timestamp, now),
{
    if now < timestamp {
        return String::from_str("Unknown");
    }
    let d = now - timestamp;
    let days = d / 86400;
    let hours = (d % 86400) / 3600;
    let minutes = (d % 3600) / 60;
    if days > 0 {
        ago_text(days, "day")
    } else if hours > 0 {
        ago_text(hours, "hour")
    } else if minutes > 0 {
        ago_text(minutes, "minute")
    } else {
        String::from_str("Just now")
    }
}

/// Says how long ago a report made at `timestamp` was, by the current time.
pub fn format_report_timestamp(timestamp: u64) -> (r: String)
    ensures
        exists|now: u64| r@ == #[trigger] relative_text(timestamp, now),
{
    let now = unix_now();
    format_report_timestamp_at(timestamp, now)
}

pub open spec fn month_name(m: int) -> Option<Seq<char>> {
    if m == 1 { Some("Jan"@) } else if m == 2 { Some("Feb"@) } else if m == 3 { Some("Mar"@) }
    else if m == 4 { Some("Apr"@) } else if m == 5 { Some("May"@) } else if m == 6 { Some("Jun"@) }
    else if m == 7 { Some("Jul"@) } else if m == 8 { Some("Aug"@) } else if m == 9 { Some("Sep"@) }
    else if m == 10 { Some("Oct"@) } else if m == 11 { Some("Nov"@) } else if m == 12 { Some("Dec"@) }
    else { None }
}

/// Two digits, with a leading zero under ten.
pub open spec fn pad2(n: nat) -> Seq<char> {
    if n < 10 {
        "0"@ + dec_of(n)
    } else {
        dec_of(n)
    }
}

/// The date part of a log file name: what precedes its first `-`.
pub open spec fn date_part(f: Seq<char>) -> Seq<char> {
    f.subrange(0, index_from(f, '-', 0))
}

/// The time part of a log file name: what follows its first `-`, up to the
/// next `-` and then up to the first `.`.
pub open spec fn time_part(f: Seq<char>) -> Seq<char> {
    let i = index_from(f, '-', 0);
    let seg = f.subrange(i + 1, index_from(f, '-', i + 1));
    seg.subrange(0, index_from(seg, '.', 0))
}

/// `Mon D, Y - HH:MM` from a name such as `20251010-222255.zevtc`; `None`
/// without a `-`, when the date part is not eight ASCII characters, when the
/// time part does not take six bytes or its first four characters (hour and
/// minute) are not ASCII, when a field does not read as `str::parse` reads numbers (the
/// year as an `i32`, the others as `u32`), or with a month outside 1 to 12.
pub open spec fn log_date_text(f: Seq<char>) -> Option<Seq<char>> {
    let date = date_part(f);
    let time = time_part(f);
    if index_from(f, '-', 0) >= f.len() || !is_ascii_text(date) || date.len() != 8 || time.len() < 4
        || !is_ascii_text(time.subrange(0, 4)) || utf8_len(time) != 6 {
        None
    } else {
        match (
            i32_text_value(date.subrange(0, 4)),
            u32_text_value(date.subrange(4, 6)),
            u32_text_value(date.subrange(6, 8)),
            u32_text_value(time.subrange(0, 2)),
            u32_text_value(time.subrange(2, 4)),
        ) {
            (Some(year), Some(month), Some(day), Some(hour), Some(minute)) => match month_name(month) {
                Some(name) => Some(
                    name + " "@ + dec_of(day as nat) + ", "@ + i32_text(year) + " - "@ + pad2(hour as nat) + ":"@
                        + pad2(minute as nat),
                ),
                None => None,
            },
            _ => None,
        }
    }
}

fn month_label(m: u32) -> (r: Option<&'static str>)
    ensures
        match r {
            Some(s) => month_name(m as int) == Some(s@),
            None => month_name(m as int) is None,
        },
{
    match m {
        1 => Some("Jan"),
        2 => Some("Feb"),
        3 => Some("Mar"),
        4 => Some("Apr"),
        5 => Some("May"),
        6 => Some("Jun"),
        7 => Some("Jul"),
        8 => Some("Aug"),
        9 => Some("Sep"),
        10 => Some("Oct"),
        11 => Some("Nov"),
        12 => Some("Dec"),
        _ => None,
    }
}

fn pad2_string(n: u32) -> (r: String)
    ensures
        r@ == pad2(n as nat),
{
    let d = decimal_string(n as u64);
    if n < 10 {
        let mut s = String::from_str("0");
        s.append(d.as_str());
        s
    } else {
        d
    }
}

/// Formats the date and time in a log file name such as
/// `20251010-222255.zevtc` as `Oct 10, 2025 - 22:22`.
pub fn format_timestamp(filename: &str) -> (r: Option<String>)
    ensures
        match r {
            Some(s) => log_date_text(filename@) == Some(s@),
            None => log_date_text(filename@) is None,
        },
{
    let n = filename.unicode_len();
    proof {
        lemma_index_from(filename@, '-', 0);
    }
    let i = find_char_from(filename, '-', 0);
    if i >= n {
        return None;
    }
    proof {
        lemma_index_from(filename@, '-', i + 1);
    }
    let j = find_char_from(filename, '-', i + 1);
    let date = filename.substring_char(0, i);
    let seg = filename.substring_char(i + 1, j);
    proof {
        lemma_index_from(seg@, '.', 0);
    }
    let k = find_char_from(seg, '.', 0);
    let time = seg.substring_char(0, k);
    assert(date@ == date_part(filename@));
    assert(time@ == time_part(filename@));
    if !ascii_only(date) || date.unicode_len() != 8 || time.unicode_len() < 4 {
        return None;
    }
    if !ascii_only(time.substring_char(0, 4)) || !has_byte_len(time, 6) {
        return None;
    }
    let year = parse_i32(date.substring_char(0, 4));
    let month = parse_short_u32(date.substring_char(4, 6));
    let day = parse_short_u32(date.substring_char(6, 8));
    let hour = parse_short_u32(time.substring_char(0, 2));
    let minute = parse_short_u32(time.substring_char(2, 4));
    match (year, month, day, hour, minute) {
        (Some(y), Some(mo), Some(d), Some(h), Some(mi)) => match month_label(mo) {
            Some(name) => {
                let mut s = String::from_str(name);
                s.append(" ");
                let ds = decimal_string(d as u64);
                s.append(ds.as_str());
                s.append(", ");
                let ys = i32_string(y);
                s.append(ys.as_str());
                s.append(" - ");
                let hs = pad2_string(h);
                s.append(hs.as_str());
                s.append(":");
                let ms = pad2_string(mi);
                s.append(ms.as_str());
                Some(s)
            },
            None => None,
        },
        _ => None,
    }
}

/// How `i32` displays a value.
pub open spec fn i32_text(v: int) -> Seq<char> {
    if v < 0 {
        "-"@ + dec_of((-v) as nat)
    } else {
        dec_of(v as nat)
    }
}

/// The text of `v` as `i32` displays it.
pub fn i32_string(v: i32) -> (r: String)
    ensures
        r@ == i32_text(v as int),
{
    if v < 0 {
        let mut s = String::from_str("-");
        let d = decimal_string((0 - (v as i64)) as u64);
        s.append(d.as_str());
        s
    } else {
        decimal_string(v as u64)
    }
}

} // verus!
