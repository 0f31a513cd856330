//! Box identity and health: `SYNO.Core.System`.

use vstd::prelude::*;

use super::{opt_text, opt_view, text_at};
use crate::dsm::{field_bool, field_i64, field_u64, opt_read_bool, opt_read_i64, opt_read_u64, read_i64};
use crate::json::Json;
use crate::text::{
    char_lowercase, char_to_lowercase, char_to_uppercase, char_uppercase, chars_of, decimal, parse_u64_in,
    parse_unsigned, u64_text,
};

verus! {

/// What the DiskStation says about itself.
///
/// Every field is optional because DSM versions disagree about which they
/// send, and a missing serial number is not a reason to fail the page.
#[derive(Debug, Clone, PartialEq, Eq)]
pub struct SystemInfo {
    pub model: Option<String>,
    pub serial: Option<String>,
    pub firmware_version: Option<String>,
    pub firmware_date: Option<String>,
    /// How long the box has been up, in seconds.
    pub uptime: Option<u64>,
    /// System temperature in °C.
    pub temperature_c: Option<i64>,
    /// Whether DSM considers that temperature too high. Taken from whichever
    /// of its three spellings this version uses.
    pub temperature_warning: bool,
    pub cpu_vendor: Option<String>,
    pub cpu_series: Option<String>,
    pub cpu_cores: Option<u64>,
    /// Clock speed in MHz.
    pub cpu_clock_mhz: Option<u64>,
    /// Installed memory in MB.
    pub ram_mb: Option<u64>,
    pub ntp_enabled: bool,
    pub ntp_server: Option<String>,
    pub time_zone: Option<String>,
}

impl Default for SystemInfo {
    fn default() -> (r: SystemInfo)
        ensures
            r.model is None && r.serial is None && r.firmware_version is None && r.firmware_date is None,
            r.uptime is None && r.temperature_c is None && !r.temperature_warning,
            r.cpu_vendor is None && r.cpu_series is None && r.cpu_cores is None,
            r.cpu_clock_mhz is None && r.ram_mb is None && !r.ntp_enabled,
            r.ntp_server is None && r.time_zone is None,
    {
        SystemInfo {
            model: None,
            serial: None,
            firmware_version: None,
            firmware_date: None,
            uptime: None,
            temperature_c: None,
            temperature_warning: false,
            cpu_vendor: None,
            cpu_series: None,
            cpu_cores: None,
            cpu_clock_mhz: None,
            ram_mb: None,
            ntp_enabled: false,
            ntp_server: None,
            time_zone: None,
        }
    }
}

// ---------------------------------------------------------------------------
// Uptime: DSM's `up_time` string.

/// `char::is_whitespace`: the Unicode `White_Space` property.
pub open spec fn is_white_space(c: char) -> bool {
    ||| '\t' <= c && c <= '\r'
    ||| c == ' ' || c == '\u{85}' || c == '\u{a0}' || c == '\u{1680}'
    ||| '\u{2000}' <= c && c <= '\u{200a}'
    ||| c == '\u{2028}' || c == '\u{2029}' || c == '\u{202f}' || c == '\u{205f}' || c == '\u{3000}'
}

pub open spec fn trim_start(s: Seq<char>) -> Seq<char>
    decreases s.len(),
{
    if s.len() > 0 && is_white_space(s[0]) {
        trim_start(s.drop_first())
    } else {
        s
    }
}

pub open spec fn trim_end(s: Seq<char>) -> Seq<char>
    decreases s.len(),
{
    if s.len() > 0 && is_white_space(s.last()) {
        trim_end(s.drop_last())
    } else {
        s
    }
}

/// `str::trim`: white space off both ends.
pub open spec fn trim(s: Seq<char>) -> Seq<char> {
    trim_end(trim_start(s))
}

/// `s` cut at every `c`: the pieces `str::split(c)` yields, in order.
pub open spec fn split_all(s: Seq<char>, c: char) -> Seq<Seq<char>>
    decreases s.len(),
{
    if s.len() == 0 {
        seq![Seq::empty()]
    } else {
        let rest = split_all(s.drop_last(), c);
        if s.last() == c {
            rest.push(Seq::empty())
        } else {
            rest.update(rest.len() - 1, rest.last().push(s.last()))
        }
    }
}

/// One field of the uptime, trimmed and read as a `u64`.
pub open spec fn uptime_field(p: Seq<char>) -> Option<nat> {
    parse_unsigned(trim(p), u64::MAX as nat)
}

pub open spec fn field_value(parts: Seq<Seq<char>>, i: int) -> nat {
    match uptime_field(parts[i]) {
        Some(v) => v,
        None => 0,
    }
}

/// The seconds the colon-separated fields stand for: `H:MM:SS`, hours running
/// past 24, or `D:HH:MM:SS`. Nothing when a field does not read or there are
/// not three or four of them.
pub open spec fn uptime_total(parts: Seq<Seq<char>>) -> Option<nat> {
    if exists|i: int| 0 <= i < parts.len() && (#[trigger] uptime_field(parts[i])) is None {
        None
    } else if parts.len() == 3 {
        Some(field_value(parts, 0) * 3600 + field_value(parts, 1) * 60 + field_value(parts, 2))
    } else if parts.len() == 4 {
        Some(
            field_value(parts, 0) * 86400 + field_value(parts, 1) * 3600 + field_value(parts, 2) * 60
                + field_value(parts, 3),
        )
    } else {
        None
    }
}

/// DSM's uptime, in seconds, when the value is such a string and the total
/// fits a `u64`.
pub open spec fn uptime_of(v: Json) -> Option<u64> {
    match v.text_of() {
        Some(t) => match uptime_total(split_all(t, ':')) {
            Some(n) => if n <= u64::MAX { Some(n as u64) } else { None },
            None => None,
        },
        None => None,
    }
}

pub(crate) fn white_space(c: char) -> (r: bool)
    ensures
        r == is_white_space(c),
{
    ('\t' <= c && c <= '\r') || c == ' ' || c == '\u{85}' || c == '\u{a0}' || c == '\u{1680}' || ('\u{2000}' <= c
        && c <= '\u{200a}') || c == '\u{2028}' || c == '\u{2029}' || c == '\u{202f}' || c == '\u{205f}' || c
        == '\u{3000}'
}

/// The bounds of `cs[a..b]` trimmed.
pub(crate) fn trim_bounds(cs: &Vec<char>, a: usize, b: usize) -> (r: (usize, usize))
    requires
        a <= b <= cs.len(),
    ensures
        a <= r.0 <= r.1 <= b,
        cs@.subrange(r.0 as int, r.1 as int) == trim(cs@.subrange(a as int, b as int)),
{
    let mut x: usize = a;
    while x < b && white_space(cs[x])
        invariant
            a <= x <= b <= cs.len(),
            trim_start(cs@.subrange(a as int, b as int)) == trim_start(cs@.subrange(x as int, b as int)),
        decreases b - x,
    {
        assert(cs@.subrange(x as int, b as int)[0] == cs@[x as int]);
        assert(cs@.subrange(x as int, b as int).drop_first() =~= cs@.subrange(x + 1, b as int));
        x = x + 1;
    }
    if x < b {
        assert(cs@.subrange(x as int, b as int)[0] == cs@[x as int]);
    }
    let mut y: usize = b;
    while y > x && white_space(cs[y - 1])
        invariant
            a <= x <= y <= b <= cs.len(),
            trim_end(cs@.subrange(x as int, b as int)) == trim_end(cs@.subrange(x as int, y as int)),
        decreases y - x,
    {
        assert(cs@.subrange(x as int, y as int).last() == cs@[y - 1]);
        assert(cs@.subrange(x as int, y as int).drop_last() =~= cs@.subrange(x as int, y - 1));
        y = y - 1;
    }
    if y > x {
        assert(cs@.subrange(x as int, y as int).last() == cs@[y - 1]);
    }
    (x, y)
}

/// The pieces of `cs` between colons, as bounds.
fn colon_pieces(cs: &Vec<char>) -> (r: Vec<(usize, usize)>)
    ensures
        r@.len() == split_all(cs@, ':').len(),
        forall|i: int|
            0 <= i < r@.len() ==> {
                &&& (#[trigger] r@[i]).0 <= r@[i].1 <= cs@.len()
                &&& cs@.subrange(r@[i].0 as int, r@[i].1 as int) == split_all(cs@, ':')[i]
            },
{
    let mut done: Vec<(usize, usize)> = Vec::new();
    let mut start: usize = 0;
    let mut i: usize = 0;
    while i < cs.len()
        invariant
            start <= i <= cs.len(),
            done@.len() + 1 == split_all(cs@.subrange(0, i as int), ':').len(),
            cs@.subrange(start as int, i as int) == split_all(cs@.subrange(0, i as int), ':').last(),
            forall|k: int|
                0 <= k < done@.len() ==> {
                    &&& (#[trigger] done@[k]).0 <= done@[k].1 <= cs@.len()
                    &&& cs@.subrange(done@[k].0 as int, done@[k].1 as int) == split_all(
                        cs@.subrange(0, i as int),
                        ':',
                    )[k]
                },
        decreases cs.len() - i,
    {
        let ghost before = split_all(cs@.subrange(0, i as int), ':');
        assert(cs@.subrange(0, i + 1).drop_last() =~= cs@.subrange(0, i as int));
        assert(cs@.subrange(0, i + 1).last() == cs@[i as int]);
        if cs[i] == ':' {
            done.push((start, i));
            start = i + 1;
            assert(cs@.subrange(start as int, i + 1) =~= Seq::<char>::empty());
        } else {
            assert(cs@.subrange(start as int, i + 1) =~= cs@.subrange(start as int, i as int).push(cs@[i as int]));
        }
        i = i + 1;
    }
    done.push((start, cs.len()));
    assert(cs@.subrange(0, cs@.len() as int) =~= cs@);
    done
}

/// Parse DSM's uptime string.
///
/// On DSM 7.3 this is `H:MM:SS` with the hours running past 24 — a box up
/// for two and a half days reports `64:48:7`. Community type definitions
/// describe it as `DD:HH:MM:SS`, and that four-field form is accepted too.
pub fn parse_uptime(value: &Json) -> (r: Option<u64>)
    ensures
        r == uptime_of(*value),
{
    let text = match value.as_str() {
        Some(t) => t,
        None => return None,
    };
    let cs = chars_of(text);
    let pieces = colon_pieces(&cs);
    let ghost parts = split_all(cs@, ':');
    let mut values: Vec<u64> = Vec::new();
    let mut i: usize = 0;
    while i < pieces.len()
        invariant
            cs@ == text@,
            value.text_of() == Some(cs@),
            parts == split_all(cs@, ':'),
            i <= pieces@.len(),
            pieces@.len() == parts.len(),
            values@.len() == i,
            forall|k: int|
                0 <= k < pieces@.len() ==> {
                    &&& (#[trigger] pieces@[k]).0 <= pieces@[k].1 <= cs@.len()
                    &&& cs@.subrange(pieces@[k].0 as int, pieces@[k].1 as int) == parts[k]
                },
            forall|k: int| 0 <= k < i ==> #[trigger] uptime_field(parts[k]) == Some(values@[k] as nat),
        decreases pieces.len() - i,
    {
        let (a, b) = pieces[i];
        let (x, y) = trim_bounds(&cs, a, b);
        match parse_u64_in(&cs, x, y) {
            Some(v) => {
                values.push(v);
            },
            None => {
                assert(uptime_field(parts[i as int]) is None);
                assert(uptime_total(parts) is None);
                assert(value.text_of() == Some(cs@));
                return None;
            },
        }
        i = i + 1;
    }
    assert forall|k: int| 0 <= k < parts.len() implies (#[trigger] uptime_field(parts[k])) is Some by {
        assert(uptime_field(parts[k]) == Some(values@[k] as nat));
    }
    if values.len() == 3 {
        assert(field_value(parts, 0) == values@[0]);
        assert(field_value(parts, 1) == values@[1]);
        assert(field_value(parts, 2) == values@[2]);
        let total: u128 = values[0] as u128 * 3600 + values[1] as u128 * 60 + values[2] as u128;
        if total <= u64::MAX as u128 {
            Some(total as u64)
        } else {
            None
        }
    } else if values.len() == 4 {
        assert(field_value(parts, 0) == values@[0]);
        assert(field_value(parts, 1) == values@[1]);
        assert(field_value(parts, 2) == values@[2]);
        assert(field_value(parts, 3) == values@[3]);
        let total: u128 = values[0] as u128 * 86400 + values[1] as u128 * 3600 + values[2] as u128 * 60
            + values[3] as u128;
        if total <= u64::MAX as u128 {
            Some(total as u64)
        } else {
            None
        }
    } else {
        None
    }
}

// ---------------------------------------------------------------------------
// Rendering.

/// `n unit`, with an `s` unless `n` is one.
pub open spec fn plural(n: nat, unit: Seq<char>) -> Seq<char> {
    decimal(n) + " "@ + unit + if n == 1 { Seq::empty() } else { "s"@ }
}

/// An uptime the way the banner wants it: the two largest units of days,
/// hours and minutes, from the largest that is not zero; minutes alone below
/// an hour.
pub open spec fn uptime_phrase(total: nat) -> Seq<char> {
    let days = total / 86400;
    let hours = (total % 86400) / 3600;
    let minutes = (total % 3600) / 60;
    if days > 0 {
        plural(days, "day"@) + ", "@ + plural(hours, "hour"@)
    } else if hours > 0 {
        plural(hours, "hour"@) + ", "@ + plural(minutes, "minute"@)
    } else {
        plural(minutes, "minute"@)
    }
}

fn plural_text(n: u64, unit: &str) -> (r: String)
    ensures
        r@ == plural(n as nat, unit@),
{
    let mut out = u64_text(n);
    out.append(" ");
    out.append(unit);
    if n != 1 {
        out.append("s");
    }
    out
}

/// Render an uptime in seconds: "2 days, 16 hours".
pub fn format_uptime(total: u64) -> (r: String)
    ensures
        r@ == uptime_phrase(total as nat),
{
    let days = total / 86_400;
    let hours = (total % 86_400) / 3600;
    let minutes = (total % 3600) / 60;
    if days > 0 {
        let mut out = plural_text(days, "day");
        out.append(", ");
        let h = plural_text(hours, "hour");
        out.append(h.as_str());
        out
    } else if hours > 0 {
        let mut out = plural_text(hours, "hour");
        out.append(", ");
        let m = plural_text(minutes, "minute");
        out.append(m.as_str());
        out
    } else {
        plural_text(minutes, "minute")
    }
}

/// Each character lower-cased on its own, as `char::to_lowercase` does it.
pub open spec fn lower_each(s: Seq<char>) -> Seq<char>
    decreases s.len(),
{
    if s.len() == 0 {
        Seq::empty()
    } else {
        lower_each(s.drop_last()) + char_lowercase(s.last())
    }
}

/// The first character upper-cased and the rest lower-cased: DSM shouts the
/// vendor ("INTEL").
pub open spec fn titlecased(s: Seq<char>) -> Seq<char> {
    if s.len() == 0 {
        Seq::empty()
    } else {
        char_uppercase(s[0]) + lower_each(s.drop_first())
    }
}

/// `titlecased`, computed.
pub fn titlecase(s: &str) -> (r: String)
    ensures
        r@ == titlecased(s@),
{
    let cs = chars_of(s);
    if cs.len() == 0 {
        return String::new();
    }
    let mut out = char_to_uppercase(cs[0]);
    let mut i: usize = 1;
    assert(cs@.subrange(1, 1) =~= Seq::<char>::empty());
    assert(char_uppercase(cs@[0]) + Seq::<char>::empty() =~= char_uppercase(cs@[0]));
    while i < cs.len()
        invariant
            1 <= i <= cs.len(),
            cs@ == s@,
            out@ == char_uppercase(cs@[0]) + lower_each(cs@.subrange(1, i as int)),
        decreases cs.len() - i,
    {
        let l = char_to_lowercase(cs[i]);
        out.append(l.as_str());
        assert(cs@.subrange(1, i + 1).drop_last() =~= cs@.subrange(1, i as int));
        assert(lower_each(cs@.subrange(1, i + 1)) == lower_each(cs@.subrange(1, i as int)) + char_lowercase(cs@[i as int]));
        assert(out@ =~= char_uppercase(cs@[0]) + lower_each(cs@.subrange(1, i + 1)));
        i = i + 1;
    }
    assert(cs@.subrange(1, cs@.len() as int) =~= cs@.drop_first());
    out
}

/// The CPU as one phrase: the series, after the vendor when there is one,
/// then the cores, then the clock as `clock_ghz` spells it when the record
/// has a clock speed.
pub open spec fn cpu_phrase(
    series: Option<Seq<char>>,
    vendor: Option<Seq<char>>,
    cores: Option<u64>,
    mhz: Option<u64>,
    clock_ghz: Option<Seq<char>>,
) -> Option<Seq<char>> {
    match series {
        None => None,
        Some(s) => {
            let v = match vendor {
                Some(v) => v,
                None => Seq::empty(),
            };
            let base = if v.len() == 0 { s } else { titlecased(v) + " "@ + s };
            let with_cores = match cores {
                Some(c) => base + " · "@ + decimal(c as nat) + " cores"@,
                None => base,
            };
            Some(
                match (mhz, clock_ghz) {
                    (Some(_), Some(g)) => with_cores + " @ "@ + g + " GHz"@,
                    _ => with_cores,
                },
            )
        },
    }
}

// ---------------------------------------------------------------------------
// Reading the reply.

pub open spec fn flag_or_false(o: Option<bool>) -> bool {
    match o {
        Some(b) => b,
        None => false,
    }
}

/// The temperature: `sys_temp` when that key is there, `temperature`
/// otherwise.
pub open spec fn temperature_of(data: Json) -> Option<i64> {
    match data.field("sys_temp"@) {
        Some(j) => read_i64(j),
        None => opt_read_i64(data.field("temperature"@)),
    }
}

/// Any one of the three spellings being true is a warning.
pub open spec fn warning_of(data: Json) -> bool {
    ||| opt_read_bool(data.field("sys_tempwarn"@)) == Some(true)
    ||| opt_read_bool(data.field("systempwarn"@)) == Some(true)
    ||| opt_read_bool(data.field("temperature_warning"@)) == Some(true)
}

/// How the reply to `SYNO.Core.System`/`info` reads.
pub open spec fn system_reads(r: SystemInfo, data: Json) -> bool {
    &&& opt_view(r.model) == text_at(data, "model"@)
    &&& opt_view(r.serial) == text_at(data, "serial"@)
    &&& opt_view(r.firmware_version) == text_at(data, "firmware_ver"@)
    &&& opt_view(r.firmware_date) == text_at(data, "firmware_date"@)
    &&& r.uptime == match data.field("up_time"@) {
        Some(j) => uptime_of(j),
        None => None,
    }
    &&& r.temperature_c == temperature_of(data)
    &&& r.temperature_warning == warning_of(data)
    &&& opt_view(r.cpu_vendor) == text_at(data, "cpu_vendor"@)
    &&& opt_view(r.cpu_series) == text_at(data, "cpu_series"@)
    &&& r.cpu_cores == opt_read_u64(data.field("cpu_cores"@))
    &&& r.cpu_clock_mhz == opt_read_u64(data.field("cpu_clock_speed"@))
    &&& r.ram_mb == opt_read_u64(data.field("ram_size"@))
    &&& r.ntp_enabled == flag_or_false(opt_read_bool(data.field("enabled_ntp"@)))
    &&& opt_view(r.ntp_server) == text_at(data, "ntp_server"@)
    &&& opt_view(r.time_zone) == match text_at(data, "time_zone_desc"@) {
        Some(t) => Some(t),
        None => text_at(data, "time_zone"@),
    }
}

fn warning_at(data: &Json, key: &str) -> (r: bool)
    ensures
        r == (opt_read_bool(data.field(key@)) == Some(true)),
{
    match field_bool(data, key) {
        Some(b) => b,
        None => false,
    }
}

impl SystemInfo {
    /// Read the reply to `SYNO.Core.System`/`info`.
    pub fn from_json(data: &Json) -> (r: SystemInfo)
        ensures
            system_reads(r, *data),
    {
        let temperature_c = match data.get("sys_temp") {
            Some(j) => crate::dsm::as_i64(j),
            None => field_i64(data, "temperature"),
        };
        let temperature_warning = warning_at(data, "sys_tempwarn") || warning_at(data, "systempwarn")
            || warning_at(data, "temperature_warning");
        let time_zone = match opt_text(data, "time_zone_desc") {
            Some(t) => Some(t),
            None => opt_text(data, "time_zone"),
        };
        SystemInfo {
            model: opt_text(data, "model"),
            serial: opt_text(data, "serial"),
            firmware_version: opt_text(data, "firmware_ver"),
            firmware_date: opt_text(data, "firmware_date"),
            uptime: match data.get("up_time") {
                Some(j) => parse_uptime(j),
                None => None,
            },
            temperature_c,
            temperature_warning,
            cpu_vendor: opt_text(data, "cpu_vendor"),
            cpu_series: opt_text(data, "cpu_series"),
            cpu_cores: field_u64(data, "cpu_cores"),
            cpu_clock_mhz: field_u64(data, "cpu_clock_speed"),
            ram_mb: field_u64(data, "ram_size"),
            ntp_enabled: match field_bool(data, "enabled_ntp") {
                Some(b) => b,
                None => false,
            },
            ntp_server: opt_text(data, "ntp_server"),
            time_zone,
        }
    }

    /// The CPU as one phrase, for the banner: "Intel D-1527 · 4 cores @ 2.20
    /// GHz". The clock is a float rendered to two places, which the caller
    /// does: `clock_ghz` is `cpu_clock_mhz` in GHz, spelled out.
    pub fn cpu_description(&self, clock_ghz: Option<&str>) -> (r: Option<String>)
        ensures
            opt_view(r) == cpu_phrase(
                opt_view(self.cpu_series),
                opt_view(self.cpu_vendor),
                self.cpu_cores,
                self.cpu_clock_mhz,
                match clock_ghz {
                    Some(g) => Some(g@),
                    None => None,
                },
            ),
    {
        let series = match &self.cpu_series {
            Some(s) => s,
            None => return None,
        };
        let vendor: &str = match &self.cpu_vendor {
            Some(v) => v.as_str(),
            None => "",
        };
        proof {
            reveal_strlit("");
        }
        let mut out = if vendor.is_empty() {
            series.clone()
        } else {
            let mut t = titlecase(vendor);
            t.append(" ");
            t.append(series.as_str());
            t
        };
        if let Some(cores) = self.cpu_cores {
            out.append(" · ");
            let c = u64_text(cores);
            out.append(c.as_str());
            out.append(" cores");
        }
        if let (Some(_), Some(g)) = (self.cpu_clock_mhz, clock_ghz) {
            out.append(" @ ");
            out.append(g);
            out.append(" GHz");
        }
        Some(out)
    }
}

} // verus!
