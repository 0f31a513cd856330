//! Talking to a DiskStation: DSM's vocabulary — calls, error codes, reply
//! envelopes, the API catalogue — and the readers for the loosely typed
//! values DSM sends.

pub mod capabilities;
pub mod client;
pub mod envelope;
pub mod error;

use vstd::prelude::*;

pub use capabilities::{Capabilities, VersionRange};
pub use client::{Credentials, Host, Session};
pub use envelope::{quoted, Call};
pub use error::{DsmError, Error};

use crate::json::{number_i64, number_u64, Json};
use crate::text::{
    chars_of, find_in, parse_i64_in, parse_signed, parse_u32_in, parse_unsigned, rfind_in,
    last_index2, same_text, split_first, before_first, first_index,
};


verus! {

/// A field DSM sends as a number in some versions and a numeric string in
/// others.
pub open spec fn read_i64(v: Json) -> Option<i64> {
    match v {
        Json::Number(n) => number_i64(n),
        Json::Str(s) => match parse_signed(s@, i64::MAX as nat) {
            Some(x) => Some(x as i64),
            None => None,
        },
        _ => None,
    }
}

/// The same, for counts that only ever arrive as non-negative numbers or
/// strings of digits.
pub open spec fn read_u64(v: Json) -> Option<u64> {
    match v {
        Json::Number(n) => number_u64(n),
        Json::Str(s) => match parse_unsigned(s@, u64::MAX as nat) {
            Some(x) => Some(x as u64),
            None => None,
        },
        _ => None,
    }
}

/// A flag DSM sends as a bool, `0`/`1`, or one of several words.
pub open spec fn read_bool(v: Json) -> Option<bool> {
    match v {
        Json::Bool(b) => Some(b),
        Json::Number(n) => match number_i64(n) {
            Some(i) => Some(i != 0),
            None => None,
        },
        Json::Str(s) => if s@ == "yes"@ || s@ == "true"@ || s@ == "1"@ {
            Some(true)
        } else if s@ == "no"@ || s@ == "false"@ || s@ == "0"@ {
            Some(false)
        } else {
            None
        },
        _ => None,
    }
}

pub open spec fn opt_read_i64(v: Option<Json>) -> Option<i64> {
    match v {
        Some(j) => read_i64(j),
        None => None,
    }
}

pub open spec fn opt_read_u64(v: Option<Json>) -> Option<u64> {
    match v {
        Some(j) => read_u64(j),
        None => None,
    }
}

pub open spec fn opt_read_bool(v: Option<Json>) -> Option<bool> {
    match v {
        Some(j) => read_bool(j),
        None => None,
    }
}

/// `as_i64`.
pub fn as_i64(value: &Json) -> (r: Option<i64>)
    ensures
        r == read_i64(*value),
{
    match value {
        Json::Number(_) => value.as_i64(),
        Json::Str(s) => crate::text::parse_i64(s.as_str()),
        _ => None,
    }
}

/// `as_u64`.
pub fn as_u64(value: &Json) -> (r: Option<u64>)
    ensures
        r == read_u64(*value),
{
    match value {
        Json::Number(_) => value.as_u64(),
        Json::Str(s) => crate::text::parse_u64(s.as_str()),
        _ => None,
    }
}

/// `as_bool`.
pub fn as_bool(value: &Json) -> (r: Option<bool>)
    ensures
        r == read_bool(*value),
{
    match value {
        Json::Bool(b) => Some(*b),
        Json::Number(_) => match value.as_i64() {
            Some(i) => Some(i != 0),
            None => None,
        },
        Json::Str(s) => {
            let t = s.as_str();
            if same_text(t, "yes") || same_text(t, "true") || same_text(t, "1") {
                Some(true)
            } else if same_text(t, "no") || same_text(t, "false") || same_text(t, "0") {
                Some(false)
            } else {
                None
            }
        },
        _ => None,
    }
}

/// `v.get(key)` then a signed read.
pub fn field_i64(v: &Json, key: &str) -> (r: Option<i64>)
    ensures
        r == opt_read_i64(v.field(key@)),
{
    match v.get(key) {
        Some(j) => as_i64(j),
        None => None,
    }
}

/// `v.get(key)` then an unsigned read.
pub fn field_u64(v: &Json, key: &str) -> (r: Option<u64>)
    ensures
        r == opt_read_u64(v.field(key@)),
{
    match v.get(key) {
        Some(j) => as_u64(j),
        None => None,
    }
}

/// `v.get(key)` then a flag read.
pub fn field_bool(v: &Json, key: &str) -> (r: Option<bool>)
    ensures
        r == opt_read_bool(v.field(key@)),
{
    match v.get(key) {
        Some(j) => as_bool(j),
        None => None,
    }
}

// ---------------------------------------------------------------------------
// RFC 3339 timestamps.

/// Days from 1970-01-01 to a proleptic Gregorian date, by Howard Hinnant's
/// algorithm. Months outside 1–12 and days outside 1–31 have none.
pub open spec fn civil_days(year: int, month: nat, day: nat) -> Option<int> {
    if !(1 <= month <= 12) || !(1 <= day <= 31) {
        None
    } else {
        let y = if month <= 2 { year - 1 } else { year };
        let era = y / 400;
        let yoe = y - era * 400;
        let shifted: int = if month > 2 { month - 3 } else { month as int + 9 };
        let doy = (153 * shifted + 2) / 5 + day - 1;
        let doe = yoe * 365 + yoe / 4 - yoe / 100 + doy;
        Some(era * 146097 + doe - 719468)
    }
}

/// A zone suffix split off the clock: `Z` is UTC; otherwise the last `+` or
/// `-` starts an `HH:MM` offset east of UTC, in seconds.
pub open spec fn zone_split(rest: Seq<char>) -> Option<(Seq<char>, int)> {
    if rest.len() > 0 && rest.last() == 'Z' {
        Some((rest.drop_last(), 0))
    } else {
        match last_index2(rest, '+', '-') {
            None => None,
            Some(k) => {
                let clock = rest.subrange(0, k);
                let zone = rest.subrange(k, rest.len() as int);
                match split_first(zone.drop_first(), ':') {
                    None => None,
                    Some(hm) => match (
                        parse_signed(hm.0, i64::MAX as nat),
                        parse_signed(hm.1, i64::MAX as nat),
                    ) {
                        (Some(h), Some(m)) => {
                            let east = h * 3600 + m * 60;
                            Some((clock, if zone[0] == '-' { -east } else { east }))
                        },
                        _ => None,
                    },
                }
            },
        }
    }
}

/// The three things read off `HH:MM:SS[.frac]`: the hour text, the minute
/// text, and the seconds text — the third field up to a `.`, or, when the
/// third field has no `.`, whatever follows the clock's last `:`.
pub open spec fn clock_fields(clock: Seq<char>) -> Option<(Seq<char>, Seq<char>, Seq<char>)> {
    match split_first(clock, ':') {
        None => None,
        Some(p1) => match split_first(p1.1, ':') {
            None => None,
            Some(p2) => {
                let third = before_first(p2.1, ':');
                let seconds = match first_index(third, '.') {
                    Some(d) => third.subrange(0, d),
                    None => match last_index2(clock, ':', ':') {
                        Some(k) => clock.subrange(k + 1, clock.len() as int),
                        None => clock,
                    },
                };
                Some((p1.0, p2.0, seconds))
            },
        },
    }
}

/// The three date fields of `YYYY-MM-DD`: what `split('-')` yields first,
/// second and third.
pub open spec fn date_fields(date: Seq<char>) -> Option<(Seq<char>, Seq<char>, Seq<char>)> {
    match split_first(date, '-') {
        None => None,
        Some(p1) => match split_first(p1.1, '-') {
            None => None,
            Some(p2) => Some((p1.0, p2.0, before_first(p2.1, '-'))),
        },
    }
}

/// The year, month and day a date reads as.
pub open spec fn parsed_date(date: Seq<char>) -> Option<(int, nat, nat)> {
    match date_fields(date) {
        None => None,
        Some(ymd) => match (
            parse_signed(ymd.0, i64::MAX as nat),
            parse_unsigned(ymd.1, u32::MAX as nat),
            parse_unsigned(ymd.2, u32::MAX as nat),
        ) {
            (Some(y), Some(m), Some(d)) => Some((y, m, d)),
            _ => None,
        },
    }
}

/// The hour, minute and second a clock reads as.
pub open spec fn parsed_clock(clock: Seq<char>) -> Option<(int, int, int)> {
    match clock_fields(clock) {
        None => None,
        Some(hms) => match (
            parse_signed(hms.0, i64::MAX as nat),
            parse_signed(hms.1, i64::MAX as nat),
            parse_signed(hms.2, i64::MAX as nat),
        ) {
            (Some(h), Some(mi), Some(s)) => Some((h, mi, s)),
            _ => None,
        },
    }
}

/// Seconds since the Unix epoch of an RFC 3339 timestamp, when it reads as
/// one and is not before the epoch.
pub open spec fn unix_seconds(text: Seq<char>) -> Option<u64> {
    match split_first(text, 'T') {
        None => None,
        Some(dr) => match (parsed_date(dr.0), zone_split(dr.1)) {
            (Some(ymd), Some(zc)) => match (parsed_clock(zc.0), civil_days(ymd.0, ymd.1, ymd.2)) {
                (Some(hms), Some(days)) => {
                    let total = days * 86400 + hms.0 * 3600 + hms.1 * 60 + hms.2 - zc.1;
                    if 0 <= total <= u64::MAX {
                        Some(total as u64)
                    } else {
                        None
                    }
                },
                _ => None,
            },
            _ => None,
        },
    }
}

pub open spec fn opt_unix_seconds(v: Option<Json>) -> Option<u64> {
    match v {
        Some(j) => match j.text_of() {
            Some(t) => unix_seconds(t),
            None => None,
        },
        None => None,
    }
}


/// `civil_days`, computed.
fn days_from_civil(year: i64, month: u32, day: u32) -> (r: Option<i128>)
    ensures
        match civil_days(year as int, month as nat, day as nat) {
            Some(v) => r == Some(v as i128) && -0x1_0000_0000_0000_0000_0000 < v < 0x1_0000_0000_0000_0000_0000,
            None => r is None,
        },
{
    if !(1 <= month && month <= 12) || !(1 <= day && day <= 31) {
        return None;
    }
    let y: i128 = if month <= 2 { year as i128 - 1 } else { year as i128 };
    let era: i128 = if y >= 0 { y / 400 } else { 0 - ((0 - y + 399) / 400) };
    assert(era == y / 400);
    let yoe: i128 = y - era * 400;
    let m: i128 = month as i128;
    let shifted: i128 = if m > 2 { m - 3 } else { m + 9 };
    let doy: i128 = (153 * shifted + 2) / 5 + day as i128 - 1;
    let doe: i128 = yoe * 365 + yoe / 4 - yoe / 100 + doy;
    Some(era * 146097 + doe - 719468)
}

/// `zone_split` on `cs[a..b]`: where the clock ends, and the offset.
fn split_zone(cs: &Vec<char>, a: usize, b: usize) -> (r: Option<(usize, i128)>)
    requires
        a <= b <= cs.len(),
    ensures
        match zone_split(cs@.subrange(a as int, b as int)) {
            Some(zc) => r matches Some(p) && a <= p.0 <= b && zc.0 == cs@.subrange(a as int, p.0 as int)
                && zc.1 == p.1 as int && -0x1_0000_0000_0000_0000_0000_0000 < zc.1 < 0x1_0000_0000_0000_0000_0000_0000,
            None => r is None,
        },
{
    let ghost rest = cs@.subrange(a as int, b as int);
    assert(rest.len() > 0 ==> rest.last() == cs@[b - 1]);
    if a < b && cs[b - 1] == 'Z' {
        assert(rest.drop_last() =~= cs@.subrange(a as int, b - 1));
        return Some((b - 1, 0));
    }
    let k = match rfind_in(cs, a, b, '+', '-') {
        Some(k) => k,
        None => return None,
    };
    let ks = a + k;
    let ghost zone = rest.subrange(k as int, rest.len() as int);
    assert(zone =~= cs@.subrange(ks as int, b as int));
    assert(zone.drop_first() =~= cs@.subrange(ks + 1, b as int));
    let negative = cs[ks] == '-';
    assert(zone[0] == cs@[ks as int]);
    let colon = match find_in(cs, ks + 1, b, ':') {
        Some(c) => c,
        None => return None,
    };
    let hs = ks + 1;
    let he = hs + colon;
    assert(zone.drop_first().subrange(0, colon as int) =~= cs@.subrange(hs as int, he as int));
    assert(zone.drop_first().subrange(colon + 1, zone.drop_first().len() as int) =~= cs@.subrange(he + 1, b as int));
    let h = match parse_i64_in(cs, hs, he) {
        Some(h) => h,
        None => return None,
    };
    let m = match parse_i64_in(cs, he + 1, b) {
        Some(m) => m,
        None => return None,
    };
    let magnitude: i128 = h as i128 * 3600 + m as i128 * 60;
    assert(rest.subrange(0, k as int) =~= cs@.subrange(a as int, ks as int));
    if negative {
        Some((ks, 0 - magnitude))
    } else {
        Some((ks, magnitude))
    }
}

/// `parsed_date` on `cs[0..t]`.
fn read_date(cs: &Vec<char>, t: usize) -> (r: Option<(i64, u32, u32)>)
    requires
        t <= cs.len(),
    ensures
        match parsed_date(cs@.subrange(0, t as int)) {
            Some(ymd) => r matches Some(v) && v.0 as int == ymd.0 && v.1 as nat == ymd.1 && v.2 as nat == ymd.2,
            None => r is None,
        },
{
    let ghost date = cs@.subrange(0, t as int);
    let d1 = match find_in(cs, 0, t, '-') {
        Some(d) => d,
        None => return None,
    };
    assert(date.subrange(0, d1 as int) =~= cs@.subrange(0, d1 as int));
    assert(date.subrange(d1 + 1, date.len() as int) =~= cs@.subrange(d1 + 1, t as int));
    let ms = d1 + 1;
    let d2 = match find_in(cs, ms, t, '-') {
        Some(d) => d,
        None => return None,
    };
    let me = ms + d2;
    let ds = me + 1;
    let ghost r1 = cs@.subrange(ms as int, t as int);
    assert(r1.subrange(0, d2 as int) =~= cs@.subrange(ms as int, me as int));
    assert(r1.subrange(d2 + 1, r1.len() as int) =~= cs@.subrange(ds as int, t as int));
    let de = match find_in(cs, ds, t, '-') {
        Some(d) => {
            assert(cs@.subrange(ds as int, t as int).subrange(0, d as int) =~= cs@.subrange(ds as int, ds + d));
            ds + d
        },
        None => t,
    };
    let year = match parse_i64_in(cs, 0, d1) {
        Some(v) => v,
        None => return None,
    };
    let month = match parse_u32_in(cs, ms, me) {
        Some(v) => v,
        None => return None,
    };
    let day = match parse_u32_in(cs, ds, de) {
        Some(v) => v,
        None => return None,
    };
    Some((year, month, day))
}

/// `parsed_clock` on `cs[a..b]`.
#[verifier::rlimit(40)]
fn read_clock(cs: &Vec<char>, a: usize, b: usize) -> (r: Option<(i64, i64, i64)>)
    requires
        a <= b <= cs.len(),
    ensures
        match parsed_clock(cs@.subrange(a as int, b as int)) {
            Some(hms) => r matches Some(v) && v.0 as int == hms.0 && v.1 as int == hms.1 && v.2 as int == hms.2,
            None => r is None,
        },
{
    let ghost clock = cs@.subrange(a as int, b as int);
    let c1 = match find_in(cs, a, b, ':') {
        Some(c) => c,
        None => return None,
    };
    let he = a + c1;
    let mst = he + 1;
    assert(clock.subrange(0, c1 as int) =~= cs@.subrange(a as int, he as int));
    assert(clock.subrange(c1 + 1, clock.len() as int) =~= cs@.subrange(mst as int, b as int));
    let c2 = match find_in(cs, mst, b, ':') {
        Some(c) => c,
        None => return None,
    };
    let mie = mst + c2;
    let tst = mie + 1;
    let ghost p1r = cs@.subrange(mst as int, b as int);
    assert(p1r.subrange(0, c2 as int) =~= cs@.subrange(mst as int, mie as int));
    assert(p1r.subrange(c2 + 1, p1r.len() as int) =~= cs@.subrange(tst as int, b as int));
    let tend = match find_in(cs, tst, b, ':') {
        Some(c) => {
            assert(cs@.subrange(tst as int, b as int).subrange(0, c as int) =~= cs@.subrange(tst as int, tst + c));
            tst + c
        },
        None => b,
    };
    let (sa, sb) = match find_in(cs, tst, tend, '.') {
        Some(dot) => {
            assert(cs@.subrange(tst as int, tend as int).subrange(0, dot as int) =~= cs@.subrange(tst as int, tst + dot));
            (tst, tst + dot)
        },
        None => {
            match rfind_in(cs, a, b, ':', ':') {
                Some(lc) => {
                    assert(clock.subrange(lc + 1, clock.len() as int) =~= cs@.subrange(a + lc + 1, b as int));
                    (a + lc + 1, b)
                },
                None => (a, b),
            }
        },
    };
    let hour = match parse_i64_in(cs, a, he) {
        Some(v) => v,
        None => return None,
    };
    let minute = match parse_i64_in(cs, mst, mie) {
        Some(v) => v,
        None => return None,
    };
    let second = match parse_i64_in(cs, sa, sb) {
        Some(v) => v,
        None => return None,
    };
    Some((hour, minute, second))
}

/// Seconds since the Unix epoch, from an RFC 3339 timestamp.
///
/// Docker's "never", `0001-01-01T00:00:00Z`, is before the epoch and so
/// reads as `None`.
pub fn as_unix_seconds(value: &Json) -> (r: Option<u64>)
    ensures
        r == match value.text_of() {
            Some(t) => unix_seconds(t),
            None => None,
        },
{
    let text = match value.as_str() {
        Some(t) => t,
        None => return None,
    };
    let cs = chars_of(text);
    let n = cs.len();
    assert(cs@.subrange(0, n as int) =~= text@);
    let t = match find_in(&cs, 0, n, 'T') {
        Some(t) => t,
        None => return None,
    };
    assert(text@.subrange(0, t as int) =~= cs@.subrange(0, t as int));
    assert(text@.subrange(t + 1, n as int) =~= cs@.subrange(t + 1, n as int));
    let date = read_date(&cs, t);
    let zone = split_zone(&cs, t + 1, n);
    let (year, month, day) = match date {
        Some(v) => v,
        None => return None,
    };
    let (ce, offset) = match zone {
        Some(p) => p,
        None => return None,
    };
    let clock = read_clock(&cs, t + 1, ce);
    let days = days_from_civil(year, month, day);
    let (hour, minute, second) = match clock {
        Some(v) => v,
        None => return None,
    };
    let days = match days {
        Some(d) => d,
        None => return None,
    };
    let total: i128 = days * 86400 + hour as i128 * 3600 + minute as i128 * 60 + second as i128 - offset;
    if 0 <= total && total <= 18446744073709551615i128 {
        Some(total as u64)
    } else {
        None
    }
}

} // verus!
