//! A point-in-time resource sample: `SYNO.Core.System.Utilization`.
//!
//! This is a snapshot, not an average, and DSM keeps no history of it — see
//! [`crate::trend`] for why the app records its own.

use vstd::prelude::*;

use super::{items, items_at, text, text_or_empty};
use crate::dsm::{field_i64, field_u64, opt_read_i64, opt_read_u64};
use crate::json::{deref_opt, Json};
use crate::text::same_text;

verus! {

/// One reading of everything the box is doing.
#[derive(Debug, Clone, PartialEq, Eq)]
pub struct Utilization {
    pub cpu: Cpu,
    pub memory: Memory,
    /// Per-interface throughput, plus the aggregate under the device name
    /// `total`.
    pub network: Vec<Interface>,
    /// Aggregate disk activity.
    pub disk: Option<Io>,
    /// Aggregate volume activity.
    pub space: Option<Io>,
}

#[derive(Debug, Clone, Copy, PartialEq, Eq)]
pub struct Cpu {
    /// Percentages, 0–100.
    pub user: u8,
    pub system: u8,
    pub other: u8,
    /// Load averages in hundredths, as DSM sends them: an idle box reporting
    /// 27 is at a load of 0.27, not 27.
    pub load_1: i64,
    pub load_5: i64,
    pub load_15: i64,
}

#[derive(Debug, Clone, Copy, PartialEq, Eq)]
pub struct Memory {
    /// Percentage of real memory in use, as DSM computes it.
    pub usage_percent: u8,
    pub swap_percent: u8,
    /// All in kilobytes, which is the unit DSM uses throughout this reply.
    pub total_kb: u64,
    pub available_kb: u64,
    pub cached_kb: u64,
    pub buffer_kb: u64,
    pub total_swap_kb: u64,
}

/// Throughput on one interface, in bytes per second.
#[derive(Debug, Clone, PartialEq, Eq)]
pub struct Interface {
    pub device: String,
    pub rx: u64,
    pub tx: u64,
}

/// Read/write activity, for disks or for volumes.
#[derive(Debug, Clone, Copy, PartialEq, Eq)]
pub struct Io {
    pub read_bytes: u64,
    pub write_bytes: u64,
    pub read_ops: u64,
    pub write_ops: u64,
    /// Percentage of time the device was busy.
    pub utilization: u8,
}

impl Default for Cpu {
    fn default() -> (r: Cpu)
        ensures
            r.user == 0 && r.system == 0 && r.other == 0,
            r.load_1 == 0 && r.load_5 == 0 && r.load_15 == 0,
    {
        Cpu { user: 0, system: 0, other: 0, load_1: 0, load_5: 0, load_15: 0 }
    }
}

impl Default for Memory {
    fn default() -> (r: Memory)
        ensures
            r.usage_percent == 0 && r.swap_percent == 0 && r.total_kb == 0 && r.available_kb == 0,
            r.cached_kb == 0 && r.buffer_kb == 0 && r.total_swap_kb == 0,
    {
        Memory {
            usage_percent: 0,
            swap_percent: 0,
            total_kb: 0,
            available_kb: 0,
            cached_kb: 0,
            buffer_kb: 0,
            total_swap_kb: 0,
        }
    }
}

impl Default for Utilization {
    fn default() -> (r: Utilization)
        ensures
            r.cpu == (Cpu { user: 0, system: 0, other: 0, load_1: 0, load_5: 0, load_15: 0 }),
            r.memory.usage_percent == 0 && r.memory.swap_percent == 0 && r.memory.total_kb == 0,
            r.memory.available_kb == 0 && r.memory.cached_kb == 0 && r.memory.buffer_kb == 0,
            r.memory.total_swap_kb == 0,
            r.network@.len() == 0 && (r.disk is None) && (r.space is None),
    {
        Utilization { cpu: Cpu::default(), memory: Memory::default(), network: Vec::new(), disk: None, space: None }
    }
}

/// A percentage: the integer there, or 0, clamped into 0–100.
pub open spec fn pct_of(v: Option<Json>) -> u8 {
    let n = match opt_read_i64(v) {
        Some(n) => n,
        None => 0,
    };
    if n < 0 {
        0
    } else if n > 100 {
        100
    } else {
        n as u8
    }
}

pub open spec fn i64_or_zero(o: Option<i64>) -> i64 {
    match o {
        Some(n) => n,
        None => 0,
    }
}

pub open spec fn u64_or_zero(o: Option<u64>) -> u64 {
    match o {
        Some(n) => n,
        None => 0,
    }
}

/// How the `cpu` object reads; all zero when there is none.
pub open spec fn cpu_reads(r: Cpu, v: Option<Json>) -> bool {
    match v {
        Some(v) => {
            &&& r.user == pct_of(v.field("user_load"@))
            &&& r.system == pct_of(v.field("system_load"@))
            &&& r.other == pct_of(v.field("other_load"@))
            &&& r.load_1 == i64_or_zero(opt_read_i64(v.field("1min_load"@)))
            &&& r.load_5 == i64_or_zero(opt_read_i64(v.field("5min_load"@)))
            &&& r.load_15 == i64_or_zero(opt_read_i64(v.field("15min_load"@)))
        },
        None => r == Cpu { user: 0, system: 0, other: 0, load_1: 0, load_5: 0, load_15: 0 },
    }
}

/// How the `memory` object reads; all zero when there is none.
pub open spec fn memory_reads(r: Memory, v: Option<Json>) -> bool {
    match v {
        Some(v) => {
            &&& r.usage_percent == pct_of(v.field("real_usage"@))
            &&& r.swap_percent == pct_of(v.field("swap_usage"@))
            &&& r.total_kb == u64_or_zero(opt_read_u64(v.field("total_real"@)))
            &&& r.available_kb == u64_or_zero(opt_read_u64(v.field("avail_real"@)))
            &&& r.cached_kb == u64_or_zero(opt_read_u64(v.field("cached"@)))
            &&& r.buffer_kb == u64_or_zero(opt_read_u64(v.field("buffer"@)))
            &&& r.total_swap_kb == u64_or_zero(opt_read_u64(v.field("total_swap"@)))
        },
        None => r == Memory {
            usage_percent: 0,
            swap_percent: 0,
            total_kb: 0,
            available_kb: 0,
            cached_kb: 0,
            buffer_kb: 0,
            total_swap_kb: 0,
        },
    }
}

pub open spec fn interface_reads(r: Interface, v: Json) -> bool {
    &&& r.device@ == text_or_empty(v, "device"@)
    &&& r.rx == u64_or_zero(opt_read_u64(v.field("rx"@)))
    &&& r.tx == u64_or_zero(opt_read_u64(v.field("tx"@)))
}

pub open spec fn io_of(v: Json) -> Io {
    Io {
        read_bytes: u64_or_zero(opt_read_u64(v.field("read_byte"@))),
        write_bytes: u64_or_zero(opt_read_u64(v.field("write_byte"@))),
        read_ops: u64_or_zero(opt_read_u64(v.field("read_access"@))),
        write_ops: u64_or_zero(opt_read_u64(v.field("write_access"@))),
        utilization: pct_of(v.field("utilization"@)),
    }
}

/// The aggregate under `key`'s `total`, when there is one.
pub open spec fn total_io(data: Json, key: Seq<char>) -> Option<Io> {
    match data.field(key) {
        Some(d) => match d.field("total"@) {
            Some(t) => Some(io_of(t)),
            None => None,
        },
        None => None,
    }
}

/// How the reply to `SYNO.Core.System.Utilization`/`get` reads.
pub open spec fn utilization_reads(r: Utilization, data: Json) -> bool {
    let net = items_at(data, "network"@);
    &&& cpu_reads(r.cpu, data.field("cpu"@))
    &&& memory_reads(r.memory, data.field("memory"@))
    &&& r.network@.len() == net.len()
    &&& forall|i: int| 0 <= i < net.len() ==> interface_reads(#[trigger] r.network@[i], net[i])
    &&& r.disk == total_io(data, "disk"@)
    &&& r.space == total_io(data, "space"@)
}

/// The busy percentage: the three parts summed, capped at 100.
pub open spec fn cpu_total(c: Cpu) -> u8 {
    let sum = c.user + c.system + c.other;
    if sum > 100 {
        100
    } else {
        sum as u8
    }
}

/// The position of the first interface named `total`.
pub open spec fn first_total(s: Seq<Interface>) -> Option<int>
    decreases s.len(),
{
    if s.len() == 0 {
        None
    } else if s[0].device@ == "total"@ {
        Some(0)
    } else {
        match first_total(s.drop_first()) {
            Some(i) => Some(i + 1),
            None => None,
        }
    }
}

proof fn lemma_first_total(s: Seq<Interface>, i: int)
    requires
        0 <= i <= s.len(),
        forall|j: int| 0 <= j < i ==> s[j].device@ != "total"@,
    ensures
        i < s.len() && s[i].device@ == "total"@ ==> first_total(s) == Some(i),
        i == s.len() ==> first_total(s) is None,
    decreases i,
{
    if i > 0 {
        lemma_first_total(s.drop_first(), i - 1);
    }
}

fn pct(v: Option<&Json>) -> (r: u8)
    ensures
        r == pct_of(deref_opt(v)),
{
    let n: i64 = match v {
        Some(j) => match crate::dsm::as_i64(j) {
            Some(n) => n,
            None => 0,
        },
        None => 0,
    };
    if n < 0 {
        0
    } else if n > 100 {
        100
    } else {
        n as u8
    }
}

fn i64_at(v: &Json, key: &str) -> (r: i64)
    ensures
        r == i64_or_zero(opt_read_i64(v.field(key@))),
{
    match field_i64(v, key) {
        Some(n) => n,
        None => 0,
    }
}

fn u64_at(v: &Json, key: &str) -> (r: u64)
    ensures
        r == u64_or_zero(opt_read_u64(v.field(key@))),
{
    match field_u64(v, key) {
        Some(n) => n,
        None => 0,
    }
}

fn cpu_from(v: Option<&Json>) -> (r: Cpu)
    ensures
        cpu_reads(r, deref_opt(v)),
{
    match v {
        None => Cpu::default(),
        Some(v) => Cpu {
            user: pct(v.get("user_load")),
            system: pct(v.get("system_load")),
            other: pct(v.get("other_load")),
            load_1: i64_at(v, "1min_load"),
            load_5: i64_at(v, "5min_load"),
            load_15: i64_at(v, "15min_load"),
        },
    }
}

fn memory_from(v: Option<&Json>) -> (r: Memory)
    ensures
        memory_reads(r, deref_opt(v)),
{
    match v {
        None => Memory::default(),
        Some(v) => Memory {
            usage_percent: pct(v.get("real_usage")),
            swap_percent: pct(v.get("swap_usage")),
            total_kb: u64_at(v, "total_real"),
            available_kb: u64_at(v, "avail_real"),
            cached_kb: u64_at(v, "cached"),
            buffer_kb: u64_at(v, "buffer"),
            total_swap_kb: u64_at(v, "total_swap"),
        },
    }
}

fn interface_from(v: &Json) -> (r: Interface)
    ensures
        interface_reads(r, *v),
{
    Interface { device: text(v, "device"), rx: u64_at(v, "rx"), tx: u64_at(v, "tx") }
}

fn io_from(v: &Json) -> (r: Io)
    ensures
        r == io_of(*v),
{
    Io {
        read_bytes: u64_at(v, "read_byte"),
        write_bytes: u64_at(v, "write_byte"),
        read_ops: u64_at(v, "read_access"),
        write_ops: u64_at(v, "write_access"),
        utilization: pct(v.get("utilization")),
    }
}

fn total_io_from(data: &Json, key: &str) -> (r: Option<Io>)
    ensures
        r == total_io(*data, key@),
{
    match data.get(key) {
        Some(d) => match d.get("total") {
            Some(t) => Some(io_from(t)),
            None => None,
        },
        None => None,
    }
}

impl Cpu {
    /// Total busy percentage, which is what the tile and the chart show.
    ///
    /// Capped at 100. DSM normalises these across all cores so they should
    /// sum to at most 100, but a busy box does occasionally answer 101 — and
    /// a wrapped `u8` would render 0% at exactly the moment the number
    /// mattered.
    pub fn total(&self) -> (r: u8)
        ensures
            r == cpu_total(*self),
            r <= 100,
    {
        let sum: u16 = self.user as u16 + self.system as u16 + self.other as u16;
        if sum > 100 {
            100
        } else {
            sum as u8
        }
    }
}

impl Memory {
    /// Memory in use: total less available, never below zero.
    pub fn used_kb(&self) -> (r: u64)
        ensures
            r == if self.total_kb >= self.available_kb { self.total_kb - self.available_kb } else { 0 },
    {
        if self.total_kb >= self.available_kb {
            self.total_kb - self.available_kb
        } else {
            0
        }
    }
}

impl Utilization {
    /// Read the reply to `SYNO.Core.System.Utilization`/`get`.
    pub fn from_json(data: &Json) -> (r: Utilization)
        ensures
            utilization_reads(r, *data),
    {
        let list = items(data, "network");
        let mut network: Vec<Interface> = Vec::new();
        let mut i: usize = 0;
        while i < list.len()
            invariant
                i <= list@.len(),
                network@.len() == i,
                forall|j: int| 0 <= j < i ==> interface_reads(#[trigger] network@[j], list@[j]),
            decreases list.len() - i,
        {
            network.push(interface_from(&list[i]));
            i = i + 1;
        }
        Utilization {
            cpu: cpu_from(data.get("cpu")),
            memory: memory_from(data.get("memory")),
            network,
            disk: total_io_from(data, "disk"),
            space: total_io_from(data, "space"),
        }
    }

    /// The aggregate interface DSM reports under the name `total`, if it did:
    /// the first so named.
    pub fn network_total(&self) -> (r: Option<&Interface>)
        ensures
            match first_total(self.network@) {
                Some(i) => r == Some(&self.network@[i]),
                None => r is None,
            },
    {
        let mut i: usize = 0;
        while i < self.network.len()
            invariant
                i <= self.network@.len(),
                forall|j: int| 0 <= j < i ==> self.network@[j].device@ != "total"@,
            decreases self.network.len() - i,
        {
            if same_text(self.network[i].device.as_str(), "total") {
                proof {
                    lemma_first_total(self.network@, i as int);
                }
                return Some(&self.network[i]);
            }
            i = i + 1;
        }
        proof {
            lemma_first_total(self.network@, i as int);
        }
        None
    }
}

} // verus!
