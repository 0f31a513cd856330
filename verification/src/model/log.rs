//! The system log: `SYNO.Core.SyslogClient.Log`.

use vstd::prelude::*;

use super::{items, items_at, text_or_empty};
use crate::dsm::{field_u64, opt_read_u64};
use crate::json::Json;
use crate::text::{ascii_lower, ascii_lowercase, chars_are};

verus! {

/// How loud an entry is.
#[derive(Debug, Clone, Copy, PartialEq, Eq, PartialOrd, Ord, Hash)]
pub enum Severity {
    Info,
    Warning,
    Error,
}

impl Default for Severity {
    fn default() -> (r: Severity)
        ensures
            r == Severity::Info,
    {
        Severity::Info
    }
}

/// The severity a level word names. DSM writes `info`, `warn`, `err`; a word
/// it spells differently in some locale reads as Info rather than painting
/// the log red.
pub open spec fn severity_of(word: Seq<char>) -> Severity {
    let w = ascii_lower(word);
    if w == "err"@ || w == "error"@ || w == "crit"@ || w == "critical"@ {
        Severity::Error
    } else if w == "warn"@ || w == "warning"@ {
        Severity::Warning
    } else {
        Severity::Info
    }
}

/// Severities in order, Info lowest.
pub open spec fn loudness(s: Severity) -> int {
    match s {
        Severity::Info => 0,
        Severity::Warning => 1,
        Severity::Error => 2,
    }
}

impl Severity {
    pub fn from_word(word: &str) -> (r: Severity)
        ensures
            r == severity_of(word@),
    {
        let w = ascii_lowercase(word);
        if chars_are(&w, "err") || chars_are(&w, "error") || chars_are(&w, "crit") || chars_are(&w, "critical") {
            Severity::Error
        } else if chars_are(&w, "warn") || chars_are(&w, "warning") {
            Severity::Warning
        } else {
            Severity::Info
        }
    }

    pub fn label(self) -> (r: &'static str)
        ensures
            r@ == match self {
                Severity::Info => "Info"@,
                Severity::Warning => "Warning"@,
                Severity::Error => "Error"@,
            },
    {
        match self {
            Severity::Info => "Info",
            Severity::Warning => "Warning",
            Severity::Error => "Error",
        }
    }

    /// Where it stands in the order Info < Warning < Error.
    pub fn rank(self) -> (r: u8)
        ensures
            r as int == loudness(self),
    {
        match self {
            Severity::Info => 0,
            Severity::Warning => 1,
            Severity::Error => 2,
        }
    }
}

#[derive(Debug, Clone, PartialEq, Eq)]
pub struct LogEntry {
    pub severity: Severity,
    /// DSM's own formatting, `2026/08/04 10:09:51`, kept as text: it arrives
    /// in the DiskStation's zone with no offset.
    pub time: String,
    pub message: String,
    /// `System`, `Connection`, and so on.
    pub category: String,
    /// The account or `SYSTEM`.
    pub who: String,
}

/// A page of log entries, with the counts DSM reports alongside.
#[derive(Debug, Clone, PartialEq, Eq)]
pub struct LogPage {
    pub entries: Vec<LogEntry>,
    pub total: u64,
    pub error_count: u64,
    pub warning_count: u64,
    pub info_count: u64,
}

impl Default for LogPage {
    fn default() -> (r: LogPage)
        ensures
            r.entries@.len() == 0 && r.total == 0 && r.error_count == 0,
            r.warning_count == 0 && r.info_count == 0,
    {
        LogPage { entries: Vec::new(), total: 0, error_count: 0, warning_count: 0, info_count: 0 }
    }
}

pub open spec fn count_at(v: Json, key: Seq<char>) -> u64 {
    match opt_read_u64(v.field(key)) {
        Some(n) => n,
        None => 0,
    }
}

/// How one element of `items` reads.
pub open spec fn entry_reads(r: LogEntry, v: Json) -> bool {
    &&& r.severity == severity_of(text_or_empty(v, "level"@))
    &&& r.time@ == text_or_empty(v, "time"@)
    &&& r.message@ == text_or_empty(v, "descr"@)
    &&& r.category@ == text_or_empty(v, "logtype"@)
    &&& r.who@ == text_or_empty(v, "who"@)
}

/// How a page reads.
pub open spec fn page_reads(r: LogPage, v: Json) -> bool {
    let list = items_at(v, "items"@);
    &&& r.entries@.len() == list.len()
    &&& forall|i: int| 0 <= i < list.len() ==> entry_reads(#[trigger] r.entries@[i], list[i])
    &&& r.total == count_at(v, "total"@)
    &&& r.error_count == count_at(v, "errorCount"@)
    &&& r.warning_count == count_at(v, "warnCount"@)
    &&& r.info_count == count_at(v, "infoCount"@)
}

pub open spec fn at_or_above(es: Seq<LogEntry>, floor: Severity) -> Seq<LogEntry>
    decreases es.len(),
{
    if es.len() == 0 {
        Seq::empty()
    } else {
        let before = at_or_above(es.drop_last(), floor);
        if loudness(es.last().severity) >= loudness(floor) {
            before.push(es.last())
        } else {
            before
        }
    }
}

fn count(v: &Json, key: &str) -> (r: u64)
    ensures
        r == count_at(*v, key@),
{
    match field_u64(v, key) {
        Some(n) => n,
        None => 0,
    }
}

fn entry_from(v: &Json) -> (r: LogEntry)
    ensures
        entry_reads(r, *v),
{
    let level = super::text(v, "level");
    LogEntry {
        severity: Severity::from_word(level.as_str()),
        time: super::text(v, "time"),
        message: super::text(v, "descr"),
        category: super::text(v, "logtype"),
        who: super::text(v, "who"),
    }
}

impl LogPage {
    pub fn from_json(data: &Json) -> (r: LogPage)
        ensures
            page_reads(r, *data),
    {
        let list = items(data, "items");
        let mut entries: Vec<LogEntry> = Vec::new();
        let mut i: usize = 0;
        while i < list.len()
            invariant
                i <= list@.len(),
                entries@.len() == i,
                forall|j: int| 0 <= j < i ==> entry_reads(#[trigger] entries@[j], list@[j]),
            decreases list.len() - i,
        {
            entries.push(entry_from(&list[i]));
            i = i + 1;
        }
        LogPage {
            entries,
            total: count(data, "total"),
            error_count: count(data, "errorCount"),
            warning_count: count(data, "warnCount"),
            info_count: count(data, "infoCount"),
        }
    }

    /// Entries at or above a severity, for the filter buttons.
    pub fn at_least(&self, floor: Severity) -> (r: Vec<&LogEntry>)
        ensures
            super::storage::deref_all(r@) == at_or_above(self.entries@, floor),
    {
        let mut out: Vec<&LogEntry> = Vec::new();
        let mut i: usize = 0;
        while i < self.entries.len()
            invariant
                i <= self.entries@.len(),
                super::storage::deref_all(out@) == at_or_above(self.entries@.subrange(0, i as int), floor),
            decreases self.entries.len() - i,
        {
            assert(self.entries@.subrange(0, i + 1).drop_last() =~= self.entries@.subrange(0, i as int));
            let ghost before = out@;
            if self.entries[i].severity.rank() >= floor.rank() {
                out.push(&self.entries[i]);
                assert(super::storage::deref_all(out@) =~= super::storage::deref_all(before).push(self.entries@[i as int]));
            }
            i = i + 1;
        }
        assert(self.entries@.subrange(0, self.entries@.len() as int) =~= self.entries@);
        out
    }
}

} // verus!
