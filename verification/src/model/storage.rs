//! Volumes, pools and physical drives: `SYNO.Storage.CGI.Storage`.
//!
//! Note the namespace: several published references call this
//! `SYNO.Storage.CS.Storage`, which does not exist on DSM 7.

use vstd::prelude::*;

use super::{items, items_at, opt_text, opt_view, text_at, text_or_empty};
use crate::dsm::{field_i64, field_u64, opt_read_i64, opt_read_u64};
use crate::json::Json;
use crate::text::{ascii_lower, ascii_lowercase, chars_are, chars_contain, contains, occurs_at};

verus! {

/// How healthy something is, collapsed from DSM's many status words.
#[derive(Debug, Clone, Copy, PartialEq, Eq, PartialOrd, Ord, Hash)]
pub enum Health {
    Normal,
    Warning,
    Critical,
    Unknown,
}

impl Default for Health {
    fn default() -> (r: Health)
        ensures
            r == Health::Unknown,
    {
        Health::Unknown
    }
}

pub open spec fn is_word(w: Seq<char>, words: Seq<Seq<char>>) -> bool {
    exists|i: int| 0 <= i < words.len() && w == words[i]
}

pub open spec fn has_any(w: Seq<char>, words: Seq<Seq<char>>) -> bool {
    exists|i: int| 0 <= i < words.len() && contains(w, words[i])
}

pub open spec fn normal_words() -> Seq<Seq<char>> {
    seq!["normal"@, "healthy"@, "online"@, "ok"@, "fs_normal"@]
}

pub open spec fn warning_words() -> Seq<Seq<char>> {
    seq!["attention"@, "degrade"@, "degraded"@, "background"@, "warning"@, "expanding"@, "migrating"@]
}

pub open spec fn critical_words() -> Seq<Seq<char>> {
    seq!["crashed"@, "critical"@, "failed"@, "error"@, "unrecognized"@]
}

pub open spec fn critical_parts() -> Seq<Seq<char>> {
    seq!["crashed"@, "critical"@, "failed"@, "error"@, "danger"@]
}

pub open spec fn warning_parts() -> Seq<Seq<char>> {
    seq![
        "scrubbing"@, "background"@, "expanding"@, "migrating"@, "degrade"@, "attention"@,
        "rebuilding"@, "repairing"@, "warning"@,
    ]
}

/// The severity a DSM status word reads as, compared without regard to
/// ASCII case. Exact words first; then parts of compound words such as
/// `background_scrubbing`, critical before busy (`crashed_scrubbing` is
/// crashed); a word nobody has seen before is Unknown, never Normal.
pub open spec fn health_of(word: Seq<char>) -> Health {
    let w = ascii_lower(word);
    if is_word(w, normal_words()) {
        Health::Normal
    } else if is_word(w, warning_words()) {
        Health::Warning
    } else if is_word(w, critical_words()) {
        Health::Critical
    } else if has_any(w, critical_parts()) {
        Health::Critical
    } else if has_any(w, warning_parts()) {
        Health::Warning
    } else if contains(w, "normal"@) {
        Health::Normal
    } else {
        Health::Unknown
    }
}

fn is_one_of(w: &Vec<char>, words: &[&str]) -> (r: bool)
    ensures
        r == exists|i: int| 0 <= i < words@.len() && w@ == words@[i]@,
{
    let mut i: usize = 0;
    while i < words.len()
        invariant
            i <= words@.len(),
            forall|j: int| 0 <= j < i ==> w@ != words@[j]@,
        decreases words.len() - i,
    {
        if chars_are(w, words[i]) {
            return true;
        }
        i = i + 1;
    }
    false
}

fn holds_one_of(w: &Vec<char>, words: &[&str]) -> (r: bool)
    ensures
        r == exists|i: int| 0 <= i < words@.len() && contains(w@, words@[i]@),
{
    let mut i: usize = 0;
    while i < words.len()
        invariant
            i <= words@.len(),
            forall|j: int| 0 <= j < i ==> !contains(w@, words@[j]@),
        decreases words.len() - i,
    {
        if chars_contain(w, words[i]) {
            return true;
        }
        i = i + 1;
    }
    false
}

impl Health {
    /// Classify a DSM status word.
    pub fn from_word(word: &str) -> (r: Health)
        ensures
            r == health_of(word@),
    {
        let w = ascii_lowercase(word);
        let normal = ["normal", "healthy", "online", "ok", "fs_normal"];
        let warning = ["attention", "degrade", "degraded", "background", "warning", "expanding", "migrating"];
        let critical = ["crashed", "critical", "failed", "error", "unrecognized"];
        let critical_part = ["crashed", "critical", "failed", "error", "danger"];
        let warning_part = [
            "scrubbing", "background", "expanding", "migrating", "degrade", "attention", "rebuilding",
            "repairing", "warning",
        ];
        proof {
            reveal_strlit("normal");
        }
        assert(normal@.map_values(|s: &str| s@) =~= normal_words());
        assert(warning@.map_values(|s: &str| s@) =~= warning_words());
        assert(critical@.map_values(|s: &str| s@) =~= critical_words());
        assert(critical_part@.map_values(|s: &str| s@) =~= critical_parts());
        assert(warning_part@.map_values(|s: &str| s@) =~= warning_parts());
        if is_one_of(&w, normal.as_slice()) {
            assert(normal@[0]@ == normal_words()[0]);
            Health::Normal
        } else if is_one_of(&w, warning.as_slice()) {
            Health::Warning
        } else if is_one_of(&w, critical.as_slice()) {
            Health::Critical
        } else if holds_one_of(&w, critical_part.as_slice()) {
            Health::Critical
        } else if holds_one_of(&w, warning_part.as_slice()) {
            Health::Warning
        } else if chars_contain(&w, "normal") {
            Health::Normal
        } else {
            Health::Unknown
        }
    }
}


#[derive(Debug, Clone, PartialEq, Eq)]
pub struct Volume {
    pub id: String,
    /// DSM omits `display_name` on a single-volume box, so this falls back to
    /// the id, which is what the DSM UI shows there too.
    pub name: String,
    pub filesystem: Option<String>,
    pub raid_type: Option<String>,
    pub status: String,
    pub health: Health,
    pub total_bytes: u64,
    pub used_bytes: u64,
    /// The pool this volume sits on, from `pool_path` — the link that makes
    /// the storage tree a tree rather than three flat lists.
    pub pool_id: Option<String>,
    /// DSM's richer verdict — `background_scrubbing`, `fs_normal`. The plain
    /// `status` says "normal" while a scrub runs.
    pub summary_status: Option<String>,
    /// Where it is mounted, `/volume1`.
    pub mount_path: Option<String>,
}

#[derive(Debug, Clone, PartialEq, Eq)]
pub struct Disk {
    /// The kernel name, `sda`.
    pub id: String,
    /// The bay label DSM shows, "Drive 1".
    pub name: String,
    pub model: Option<String>,
    pub serial: Option<String>,
    pub firmware: Option<String>,
    pub temperature_c: Option<i64>,
    pub status: String,
    pub health: Health,
    pub smart_status: Option<String>,
    pub smart_health: Health,
    pub size_bytes: u64,
    /// What the drive is allocated to, e.g. `reuse_1`.
    pub used_by: Option<String>,
    pub disk_type: Option<String>,
}

#[derive(Debug, Clone, PartialEq, Eq)]
pub struct Pool {
    pub id: String,
    pub raid_type: Option<String>,
    pub status: String,
    pub health: Health,
    pub total_bytes: u64,
    pub used_bytes: u64,
    /// The drives that make it up, by kernel name.
    pub disk_ids: Vec<String>,
}

/// Everything `load_info` returns, in one shape.
#[derive(Debug, Clone, PartialEq, Eq)]
pub struct Storage {
    pub volumes: Vec<Volume>,
    pub disks: Vec<Disk>,
    pub pools: Vec<Pool>,
}

impl Default for Volume {
    fn default() -> (r: Volume)
        ensures
            r.id@.len() == 0 && r.name@.len() == 0 && r.filesystem is None && r.raid_type is None,
            r.status@.len() == 0 && r.health == Health::Unknown && r.total_bytes == 0 && r.used_bytes == 0,
            r.pool_id is None && r.summary_status is None && r.mount_path is None,
    {
        Volume {
            id: String::new(),
            name: String::new(),
            filesystem: None,
            raid_type: None,
            status: String::new(),
            health: Health::Unknown,
            total_bytes: 0,
            used_bytes: 0,
            pool_id: None,
            summary_status: None,
            mount_path: None,
        }
    }
}

impl Default for Disk {
    fn default() -> (r: Disk)
        ensures
            r.id@.len() == 0 && r.name@.len() == 0 && r.model is None && r.serial is None,
            r.firmware is None && r.temperature_c is None && r.status@.len() == 0,
            r.health == Health::Unknown && r.smart_status is None && r.smart_health == Health::Unknown,
            r.size_bytes == 0 && r.used_by is None && r.disk_type is None,
    {
        Disk {
            id: String::new(),
            name: String::new(),
            model: None,
            serial: None,
            firmware: None,
            temperature_c: None,
            status: String::new(),
            health: Health::Unknown,
            smart_status: None,
            smart_health: Health::Unknown,
            size_bytes: 0,
            used_by: None,
            disk_type: None,
        }
    }
}

impl Default for Pool {
    fn default() -> (r: Pool)
        ensures
            r.id@.len() == 0 && r.raid_type is None && r.status@.len() == 0,
            r.health == Health::Unknown && r.total_bytes == 0 && r.used_bytes == 0 && r.disk_ids@.len() == 0,
    {
        Pool {
            id: String::new(),
            raid_type: None,
            status: String::new(),
            health: Health::Unknown,
            total_bytes: 0,
            used_bytes: 0,
            disk_ids: Vec::new(),
        }
    }
}

impl Default for Storage {
    fn default() -> (r: Storage)
        ensures
            r.volumes@.len() == 0 && r.disks@.len() == 0 && r.pools@.len() == 0,
    {
        Storage { volumes: Vec::new(), disks: Vec::new(), pools: Vec::new() }
    }
}

/// A byte count nested under `size` — volumes and pools carry theirs there,
/// as quoted strings because they run past 2^53.
pub open spec fn size_of(v: Json, key: Seq<char>) -> u64 {
    match v.field("size"@) {
        Some(sz) => match opt_read_u64(sz.field(key)) {
            Some(n) => n,
            None => 0,
        },
        None => 0,
    }
}

pub open spec fn opt_or(a: Option<Seq<char>>, b: Seq<char>) -> Seq<char> {
    match a {
        Some(t) => t,
        None => b,
    }
}

pub open spec fn either(a: Option<Seq<char>>, b: Option<Seq<char>>) -> Option<Seq<char>> {
    match a {
        Some(t) => Some(t),
        None => b,
    }
}

/// How one element of `volumes` reads.
pub open spec fn volume_reads(r: Volume, v: Json) -> bool {
    let id = text_or_empty(v, "id"@);
    let status = text_or_empty(v, "status"@);
    let summary = text_at(v, "summary_status"@);
    &&& r.id@ == id
    &&& r.name@ == opt_or(text_at(v, "display_name"@), id)
    &&& opt_view(r.filesystem) == text_at(v, "fs_type"@)
    &&& opt_view(r.raid_type) == either(text_at(v, "device_type"@), text_at(v, "raidType"@))
    &&& r.status@ == status
    &&& r.health == health_of(opt_or(summary, status))
    &&& r.total_bytes == size_of(v, "total"@)
    &&& r.used_bytes == size_of(v, "used"@)
    &&& opt_view(r.pool_id) == text_at(v, "pool_path"@)
    &&& opt_view(r.summary_status) == summary
    &&& opt_view(r.mount_path) == text_at(v, "vol_path"@)
}

/// How one element of `disks` reads. A disk's capacity is a flat
/// `size_total`, not nested under `size` the way a volume's is.
pub open spec fn disk_reads(r: Disk, v: Json) -> bool {
    let id = text_or_empty(v, "id"@);
    let status = text_or_empty(v, "status"@);
    let smart = text_at(v, "smart_status"@);
    &&& r.id@ == id
    &&& r.name@ == opt_or(text_at(v, "name"@), id)
    &&& opt_view(r.model) == text_at(v, "model"@)
    &&& opt_view(r.serial) == text_at(v, "serial"@)
    &&& opt_view(r.firmware) == text_at(v, "firm"@)
    &&& r.temperature_c == opt_read_i64(v.field("temp"@))
    &&& r.status@ == status
    &&& r.health == health_of(status)
    &&& opt_view(r.smart_status) == smart
    &&& r.smart_health == match smart {
        Some(w) => health_of(w),
        None => Health::Unknown,
    }
    &&& r.size_bytes == match opt_read_u64(v.field("size_total"@)) {
        Some(n) => n,
        None => 0,
    }
    &&& opt_view(r.used_by) == text_at(v, "used_by"@)
    &&& opt_view(r.disk_type) == text_at(v, "disk_type"@)
}

/// The strings among a list, in order; anything else is skipped.
pub open spec fn strings_in(items: Seq<Json>) -> Seq<Seq<char>>
    decreases items.len(),
{
    if items.len() == 0 {
        Seq::empty()
    } else {
        let before = strings_in(items.drop_last());
        match items.last().text_of() {
            Some(t) => before.push(t),
            None => before,
        }
    }
}

pub open spec fn views(v: Seq<String>) -> Seq<Seq<char>> {
    v.map_values(|s: String| s@)
}

/// How one element of `storagePools` reads.
pub open spec fn pool_reads(r: Pool, v: Json) -> bool {
    let status = text_or_empty(v, "status"@);
    &&& r.id@ == text_or_empty(v, "id"@)
    &&& opt_view(r.raid_type) == either(text_at(v, "device_type"@), text_at(v, "raidType"@))
    &&& r.status@ == status
    &&& r.health == health_of(status)
    &&& r.total_bytes == size_of(v, "total"@)
    &&& r.used_bytes == size_of(v, "used"@)
    &&& views(r.disk_ids@) == strings_in(items_at(v, "disks"@))
}

fn size(v: &Json, key: &str) -> (r: u64)
    ensures
        r == size_of(*v, key@),
{
    match v.get("size") {
        Some(sz) => match field_u64(sz, key) {
            Some(n) => n,
            None => 0,
        },
        None => 0,
    }
}

fn volume_from(v: &Json) -> (r: Volume)
    ensures
        volume_reads(r, *v),
{
    let id = super::text(v, "id");
    let status = super::text(v, "status");
    let summary = opt_text(v, "summary_status");
    let name = match opt_text(v, "display_name") {
        Some(n) => n,
        None => id.clone(),
    };
    let raid_type = match opt_text(v, "device_type") {
        Some(t) => Some(t),
        None => opt_text(v, "raidType"),
    };
    let health = match &summary {
        Some(w) => Health::from_word(w.as_str()),
        None => Health::from_word(status.as_str()),
    };
    Volume {
        name,
        id,
        filesystem: opt_text(v, "fs_type"),
        raid_type,
        health,
        status,
        total_bytes: size(v, "total"),
        used_bytes: size(v, "used"),
        pool_id: opt_text(v, "pool_path"),
        summary_status: summary,
        mount_path: opt_text(v, "vol_path"),
    }
}

fn disk_from(v: &Json) -> (r: Disk)
    ensures
        disk_reads(r, *v),
{
    let status = super::text(v, "status");
    let smart = opt_text(v, "smart_status");
    let id = super::text(v, "id");
    let name = match opt_text(v, "name") {
        Some(n) => n,
        None => id.clone(),
    };
    let smart_health = match &smart {
        Some(w) => Health::from_word(w.as_str()),
        None => Health::Unknown,
    };
    let size_bytes = match field_u64(v, "size_total") {
        Some(n) => n,
        None => 0,
    };
    Disk {
        name,
        id,
        model: opt_text(v, "model"),
        serial: opt_text(v, "serial"),
        firmware: opt_text(v, "firm"),
        temperature_c: field_i64(v, "temp"),
        health: Health::from_word(status.as_str()),
        status,
        smart_health,
        smart_status: smart,
        size_bytes,
        used_by: opt_text(v, "used_by"),
        disk_type: opt_text(v, "disk_type"),
    }
}

/// The strings in a list, as `filter_map(as_str)` gathers them.
pub fn strings_of(list: &[Json]) -> (r: Vec<String>)
    ensures
        views(r@) == strings_in(list@),
{
    let mut out: Vec<String> = Vec::new();
    let mut i: usize = 0;
    while i < list.len()
        invariant
            i <= list@.len(),
            views(out@) == strings_in(list@.subrange(0, i as int)),
        decreases list.len() - i,
    {
        assert(list@.subrange(0, i + 1).drop_last() =~= list@.subrange(0, i as int));
        let ghost before = out@;
        match list[i].as_str() {
            Some(t) => {
                out.push(String::from_str(t));
                assert(views(out@) =~= views(before).push(t@));
            },
            None => {},
        }
        i = i + 1;
    }
    assert(list@.subrange(0, list@.len() as int) =~= list@);
    out
}

fn pool_from(v: &Json) -> (r: Pool)
    ensures
        pool_reads(r, *v),
{
    let status = super::text(v, "status");
    let raid_type = match opt_text(v, "device_type") {
        Some(t) => Some(t),
        None => opt_text(v, "raidType"),
    };
    Pool {
        id: super::text(v, "id"),
        raid_type,
        health: Health::from_word(status.as_str()),
        status,
        total_bytes: size(v, "total"),
        used_bytes: size(v, "used"),
        disk_ids: strings_of(items(v, "disks")),
    }
}


/// Whether a list of strings holds `s` (`Vec<String>::contains`).
pub fn holds_text(v: &Vec<String>, s: &str) -> (r: bool)
    ensures
        r == views(v@).contains(s@),
{
    let mut i: usize = 0;
    while i < v.len()
        invariant
            i <= v.len(),
            forall|j: int| 0 <= j < i ==> v@[j]@ != s@,
        decreases v.len() - i,
    {
        if crate::text::same_text(v[i].as_str(), s) {
            assert(views(v@)[i as int] == s@);
            return true;
        }
        i = i + 1;
    }
    assert(!views(v@).contains(s@)) by {
        if views(v@).contains(s@) {
            let j = choose|j: int| 0 <= j < views(v@).len() && views(v@)[j] == s@;
            assert(v@[j]@ == s@);
        }
    }
    false
}

pub open spec fn deref_all<T>(s: Seq<&T>) -> Seq<T> {
    s.map_values(|x: &T| *x)
}

/// The volumes whose `pool_path` names a pool, in order.
pub open spec fn volumes_on(vs: Seq<Volume>, pool: Seq<char>) -> Seq<Volume>
    decreases vs.len(),
{
    if vs.len() == 0 {
        Seq::empty()
    } else {
        let before = volumes_on(vs.drop_last(), pool);
        if opt_view(vs.last().pool_id) == Some(pool) {
            before.push(vs.last())
        } else {
            before
        }
    }
}

/// Whether a drive belongs to a pool: the pool lists it, or the drive says
/// it is used by the pool. DSM 7.3 sends both; either is enough.
pub open spec fn drive_in(d: Disk, p: Pool) -> bool {
    views(p.disk_ids@).contains(d.id@) || opt_view(d.used_by) == Some(p.id@)
}

pub open spec fn drives_in(ds: Seq<Disk>, p: Pool) -> Seq<Disk>
    decreases ds.len(),
{
    if ds.len() == 0 {
        Seq::empty()
    } else {
        let before = drives_in(ds.drop_last(), p);
        if drive_in(ds.last(), p) {
            before.push(ds.last())
        } else {
            before
        }
    }
}

/// Whether a drive belongs to no pool at all.
pub open spec fn drive_unassigned(d: Disk, pools: Seq<Pool>) -> bool {
    forall|i: int| 0 <= i < pools.len() ==> !drive_in(d, #[trigger] pools[i])
}

pub open spec fn drives_unassigned(ds: Seq<Disk>, pools: Seq<Pool>) -> Seq<Disk>
    decreases ds.len(),
{
    if ds.len() == 0 {
        Seq::empty()
    } else {
        let before = drives_unassigned(ds.drop_last(), pools);
        if drive_unassigned(ds.last(), pools) {
            before.push(ds.last())
        } else {
            before
        }
    }
}

/// How bad a verdict is. Unknown is worse than Normal but not worse than a
/// real warning or failure.
pub open spec fn rank(h: Health) -> int {
    match h {
        Health::Normal => 0,
        Health::Unknown => 1,
        Health::Warning => 2,
        Health::Critical => 3,
    }
}

/// The worst of a list of verdicts; Unknown for none at all.
pub open spec fn worst(hs: Seq<Health>) -> Health
    decreases hs.len(),
{
    if hs.len() == 0 {
        Health::Unknown
    } else if hs.len() == 1 {
        hs[0]
    } else {
        let rest = worst(hs.drop_last());
        if rank(hs.last()) >= rank(rest) {
            hs.last()
        } else {
            rest
        }
    }
}

/// Every verdict the storage reply carries: volumes, then drives, then the
/// drives' S.M.A.R.T. verdicts, then pools.
pub open spec fn all_verdicts(s: Storage) -> Seq<Health> {
    s.volumes@.map_values(|v: Volume| v.health) + s.disks@.map_values(|d: Disk| d.health)
        + s.disks@.map_values(|d: Disk| d.smart_health) + s.pools@.map_values(|p: Pool| p.health)
}

/// How a whole `load_info` reply reads.
pub open spec fn storage_reads(r: Storage, data: Json) -> bool {
    let vs = items_at(data, "volumes"@);
    let ds = items_at(data, "disks"@);
    let ps = items_at(data, "storagePools"@);
    &&& r.volumes@.len() == vs.len()
    &&& forall|i: int| 0 <= i < vs.len() ==> volume_reads(#[trigger] r.volumes@[i], vs[i])
    &&& r.disks@.len() == ds.len()
    &&& forall|i: int| 0 <= i < ds.len() ==> disk_reads(#[trigger] r.disks@[i], ds[i])
    &&& r.pools@.len() == ps.len()
    &&& forall|i: int| 0 <= i < ps.len() ==> pool_reads(#[trigger] r.pools@[i], ps[i])
}

fn rank_of(h: Health) -> (r: u8)
    ensures
        r as int == rank(h),
{
    match h {
        Health::Normal => 0,
        Health::Unknown => 1,
        Health::Warning => 2,
        Health::Critical => 3,
    }
}

impl Volume {
    /// Space left, never below zero.
    pub fn free_bytes(&self) -> (r: u64)
        ensures
            r == if self.used_bytes <= self.total_bytes { self.total_bytes - self.used_bytes } else { 0 },
    {
        if self.used_bytes <= self.total_bytes {
            self.total_bytes - self.used_bytes
        } else {
            0
        }
    }
}

impl Disk {
    /// Whether the drive is running hot enough to say so: 45 °C is where the
    /// design colours the cell, a display threshold rather than a limit.
    pub fn is_hot(&self) -> (r: bool)
        ensures
            r == (self.temperature_c matches Some(t) && t >= 45),
    {
        match self.temperature_c {
            Some(t) => t >= 45,
            None => false,
        }
    }
}

impl Storage {
    /// Read the reply to `SYNO.Storage.CGI.Storage`/`load_info`.
    pub fn from_json(data: &Json) -> (r: Storage)
        ensures
            storage_reads(r, *data),
    {
        let vs = items(data, "volumes");
        let mut volumes: Vec<Volume> = Vec::new();
        let mut i: usize = 0;
        while i < vs.len()
            invariant
                i <= vs@.len(),
                volumes@.len() == i,
                forall|j: int| 0 <= j < i ==> volume_reads(#[trigger] volumes@[j], vs@[j]),
            decreases vs.len() - i,
        {
            volumes.push(volume_from(&vs[i]));
            i = i + 1;
        }
        let ds = items(data, "disks");
        let mut disks: Vec<Disk> = Vec::new();
        let mut i: usize = 0;
        while i < ds.len()
            invariant
                i <= ds@.len(),
                disks@.len() == i,
                forall|j: int| 0 <= j < i ==> disk_reads(#[trigger] disks@[j], ds@[j]),
            decreases ds.len() - i,
        {
            disks.push(disk_from(&ds[i]));
            i = i + 1;
        }
        let ps = items(data, "storagePools");
        let mut pools: Vec<Pool> = Vec::new();
        let mut i: usize = 0;
        while i < ps.len()
            invariant
                i <= ps@.len(),
                pools@.len() == i,
                forall|j: int| 0 <= j < i ==> pool_reads(#[trigger] pools@[j], ps@[j]),
            decreases ps.len() - i,
        {
            pools.push(pool_from(&ps[i]));
            i = i + 1;
        }
        Storage { volumes, disks, pools }
    }

    /// The volumes sitting on a pool.
    pub fn volumes_in(&self, pool: &Pool) -> (r: Vec<&Volume>)
        ensures
            deref_all(r@) == volumes_on(self.volumes@, pool.id@),
    {
        let mut out: Vec<&Volume> = Vec::new();
        let mut i: usize = 0;
        while i < self.volumes.len()
            invariant
                i <= self.volumes@.len(),
                deref_all(out@) == volumes_on(self.volumes@.subrange(0, i as int), pool.id@),
            decreases self.volumes.len() - i,
        {
            let v = &self.volumes[i];
            assert(self.volumes@.subrange(0, i + 1).drop_last() =~= self.volumes@.subrange(0, i as int));
            let ghost before = out@;
            let on = match &v.pool_id {
                Some(p) => crate::text::same_text(p.as_str(), pool.id.as_str()),
                None => false,
            };
            if on {
                out.push(v);
                assert(deref_all(out@) =~= deref_all(before).push(*v));
            }
            i = i + 1;
        }
        assert(self.volumes@.subrange(0, self.volumes@.len() as int) =~= self.volumes@);
        out
    }

    /// The drives making up a pool: those the pool lists, and those that say
    /// they are used by it.
    pub fn disks_in(&self, pool: &Pool) -> (r: Vec<&Disk>)
        ensures
            deref_all(r@) == drives_in(self.disks@, *pool),
    {
        let mut out: Vec<&Disk> = Vec::new();
        let mut i: usize = 0;
        while i < self.disks.len()
            invariant
                i <= self.disks@.len(),
                deref_all(out@) == drives_in(self.disks@.subrange(0, i as int), *pool),
            decreases self.disks.len() - i,
        {
            let d = &self.disks[i];
            assert(self.disks@.subrange(0, i + 1).drop_last() =~= self.disks@.subrange(0, i as int));
            let ghost before = out@;
            if belongs(d, pool) {
                out.push(d);
                assert(deref_all(out@) =~= deref_all(before).push(*d));
            }
            i = i + 1;
        }
        assert(self.disks@.subrange(0, self.disks@.len() as int) =~= self.disks@);
        out
    }

    /// Drives belonging to no pool at all — spares, or a drive DSM has not
    /// allocated. They would otherwise vanish from a pool-grouped view.
    pub fn unassigned_disks(&self) -> (r: Vec<&Disk>)
        ensures
            deref_all(r@) == drives_unassigned(self.disks@, self.pools@),
    {
        let mut out: Vec<&Disk> = Vec::new();
        let mut i: usize = 0;
        while i < self.disks.len()
            invariant
                i <= self.disks@.len(),
                deref_all(out@) == drives_unassigned(self.disks@.subrange(0, i as int), self.pools@),
            decreases self.disks.len() - i,
        {
            let d = &self.disks[i];
            assert(self.disks@.subrange(0, i + 1).drop_last() =~= self.disks@.subrange(0, i as int));
            let ghost before = out@;
            let mut claimed = false;
            let mut k: usize = 0;
            while k < self.pools.len()
                invariant
                    k <= self.pools@.len(),
                    claimed == exists|j: int| 0 <= j < k && drive_in(*d, #[trigger] self.pools@[j]),
                decreases self.pools.len() - k,
            {
                if belongs(d, &self.pools[k]) {
                    claimed = true;
                }
                k = k + 1;
            }
            if !claimed {
                out.push(d);
                assert(deref_all(out@) =~= deref_all(before).push(*d));
            }
            i = i + 1;
        }
        assert(self.disks@.subrange(0, self.disks@.len() as int) =~= self.disks@);
        out
    }

    /// The worst health across everything, which is what the banner pill
    /// reports.
    pub fn worst_health(&self) -> (r: Health)
        ensures
            r == worst(all_verdicts(*self)),
    {
        let mut hs: Vec<Health> = Vec::new();
        let mut i: usize = 0;
        while i < self.volumes.len()
            invariant
                i <= self.volumes@.len(),
                hs@ == self.volumes@.subrange(0, i as int).map_values(|v: Volume| v.health),
            decreases self.volumes.len() - i,
        {
            hs.push(self.volumes[i].health);
            assert(hs@ =~= self.volumes@.subrange(0, i + 1).map_values(|v: Volume| v.health));
            i = i + 1;
        }
        assert(self.volumes@.subrange(0, self.volumes@.len() as int) =~= self.volumes@);
        let ghost a = hs@;
        let mut i: usize = 0;
        while i < self.disks.len()
            invariant
                i <= self.disks@.len(),
                hs@ == a + self.disks@.subrange(0, i as int).map_values(|d: Disk| d.health),
            decreases self.disks.len() - i,
        {
            hs.push(self.disks[i].health);
            assert(hs@ =~= a + self.disks@.subrange(0, i + 1).map_values(|d: Disk| d.health));
            i = i + 1;
        }
        assert(self.disks@.subrange(0, self.disks@.len() as int) =~= self.disks@);
        let ghost b = hs@;
        let mut i: usize = 0;
        while i < self.disks.len()
            invariant
                i <= self.disks@.len(),
                hs@ == b + self.disks@.subrange(0, i as int).map_values(|d: Disk| d.smart_health),
            decreases self.disks.len() - i,
        {
            hs.push(self.disks[i].smart_health);
            assert(hs@ =~= b + self.disks@.subrange(0, i + 1).map_values(|d: Disk| d.smart_health));
            i = i + 1;
        }
        let ghost c = hs@;
        let mut i: usize = 0;
        while i < self.pools.len()
            invariant
                i <= self.pools@.len(),
                hs@ == c + self.pools@.subrange(0, i as int).map_values(|p: Pool| p.health),
            decreases self.pools.len() - i,
        {
            hs.push(self.pools[i].health);
            assert(hs@ =~= c + self.pools@.subrange(0, i + 1).map_values(|p: Pool| p.health));
            i = i + 1;
        }
        assert(self.pools@.subrange(0, self.pools@.len() as int) =~= self.pools@);
        assert(hs@ =~= all_verdicts(*self));
        worst_in(&hs)
    }
}

/// Whether a drive belongs to a pool.
fn belongs(d: &Disk, p: &Pool) -> (r: bool)
    ensures
        r == drive_in(*d, *p),
{
    if holds_text(&p.disk_ids, d.id.as_str()) {
        return true;
    }
    match &d.used_by {
        Some(u) => crate::text::same_text(u.as_str(), p.id.as_str()),
        None => false,
    }
}

/// The worst of a list of verdicts.
pub fn worst_in(hs: &Vec<Health>) -> (r: Health)
    ensures
        r == worst(hs@),
{
    if hs.len() == 0 {
        return Health::Unknown;
    }
    let mut acc = hs[0];
    let mut i: usize = 1;
    assert(hs@.subrange(0, 1) =~= seq![hs@[0]]);
    while i < hs.len()
        invariant
            1 <= i <= hs@.len(),
            acc == worst(hs@.subrange(0, i as int)),
        decreases hs.len() - i,
    {
        assert(hs@.subrange(0, i + 1).drop_last() =~= hs@.subrange(0, i as int));
        if rank_of(hs[i]) >= rank_of(acc) {
            acc = hs[i];
        }
        i = i + 1;
    }
    assert(hs@.subrange(0, hs@.len() as int) =~= hs@);
    acc
}

// ---------------------------------------------------------------------------
// What the storage readers guarantee.

/// The worst verdict is one of the verdicts, and none of them is worse: the
/// banner reports the worst health, and Unknown never outranks a real
/// warning or failure.
pub proof fn lemma_worst_is_worst(hs: Seq<Health>)
    requires
        hs.len() > 0,
    ensures
        hs.contains(worst(hs)),
        forall|i: int| 0 <= i < hs.len() ==> rank(#[trigger] hs[i]) <= rank(worst(hs)),
    decreases hs.len(),
{
    if hs.len() == 1 {
        assert(hs[0] == worst(hs));
    } else {
        let rest = hs.drop_last();
        lemma_worst_is_worst(rest);
        assert forall|i: int| 0 <= i < hs.len() implies rank(#[trigger] hs[i]) <= rank(worst(hs)) by {
            if i < hs.len() - 1 {
                assert(hs[i] == rest[i]);
            }
        }
        if rank(hs.last()) >= rank(worst(rest)) {
            assert(hs[hs.len() - 1] == worst(hs));
        } else {
            let k = choose|k: int| 0 <= k < rest.len() && rest[k] == worst(rest);
            assert(hs[k] == worst(hs));
        }
    }
}

/// Every drive is reachable: it sits in the drives of each pool it belongs
/// to, or among the unassigned ones when it belongs to none.
pub proof fn lemma_every_drive_is_reachable(ds: Seq<Disk>, pools: Seq<Pool>, k: int)
    requires
        0 <= k < ds.len(),
    ensures
        forall|i: int| 0 <= i < pools.len() && drive_in(ds[k], pools[i]) ==> #[trigger] drives_in(ds, pools[i]).contains(ds[k]),
        drive_unassigned(ds[k], pools) ==> drives_unassigned(ds, pools).contains(ds[k]),
    decreases ds.len(),
{
    let last = ds.len() - 1;
    if k < last {
        lemma_every_drive_is_reachable(ds.drop_last(), pools, k);
        assert(ds.drop_last()[k] == ds[k]);
        assert forall|i: int| 0 <= i < pools.len() && drive_in(ds[k], pools[i]) implies #[trigger] drives_in(ds, pools[i]).contains(ds[k]) by {
            let before = drives_in(ds.drop_last(), pools[i]);
            assert(before.contains(ds[k]));
            let j = choose|j: int| 0 <= j < before.len() && before[j] == ds[k];
            if drive_in(ds.last(), pools[i]) {
                assert(before.push(ds.last())[j] == ds[k]);
            }
        }
        if drive_unassigned(ds[k], pools) {
            let before = drives_unassigned(ds.drop_last(), pools);
            let j = choose|j: int| 0 <= j < before.len() && before[j] == ds[k];
            if drive_unassigned(ds.last(), pools) {
                assert(before.push(ds.last())[j] == ds[k]);
            }
        }
    } else {
        assert forall|i: int| 0 <= i < pools.len() && drive_in(ds[k], pools[i]) implies #[trigger] drives_in(ds, pools[i]).contains(ds[k]) by {
            let r = drives_in(ds, pools[i]);
            assert(r[r.len() - 1] == ds[k]);
        }
        if drive_unassigned(ds[k], pools) {
            let r = drives_unassigned(ds, pools);
            assert(r[r.len() - 1] == ds[k]);
        }
    }
}

/// A listed word holds no failure part: `w` cannot occur in `s` when no
/// place in `s` starts with `w`'s first two characters.
proof fn lemma_absent(s: Seq<char>, w: Seq<char>)
    requires
        w.len() >= 2,
        forall|i: int| 0 <= i && i + w.len() <= s.len() ==> #[trigger] s[i] != w[0] || s[i + 1] != w[1],
    ensures
        !contains(s, w),
{
    assert forall|i: int| !occurs_at(s, w, i) by {
        if occurs_at(s, w, i) {
            assert(s.subrange(i, i + w.len())[0] == s[i]);
            assert(s.subrange(i, i + w.len())[1] == s[i + 1]);
        }
    }
}

proof fn lemma_no_failure_part(s: Seq<char>)
    requires
        forall|i: int| 0 <= i && i + 5 <= s.len() ==> !((#[trigger] s[i] == 'c' || s[i] == 'e') && s[i + 1] == 'r'),
        forall|i: int| 0 <= i && i + 6 <= s.len() ==> !((#[trigger] s[i] == 'f' || s[i] == 'd') && s[i + 1] == 'a'),
    ensures
        !has_any(s, critical_parts()),
{
    reveal_strlit("crashed");
    reveal_strlit("critical");
    reveal_strlit("failed");
    reveal_strlit("error");
    reveal_strlit("danger");
    lemma_absent(s, "crashed"@);
    lemma_absent(s, "critical"@);
    lemma_absent(s, "failed"@);
    lemma_absent(s, "error"@);
    lemma_absent(s, "danger"@);
}

/// A status word that holds a failure — crashed, critical, failed, error,
/// danger — always reads Critical, whatever else it says; and a word reads
/// Normal only when it says `normal` somewhere or is exactly `healthy`,
/// `online` or `ok`, so a word nobody has seen before never reads as fine.
/// Case does not matter: a word reads as its lower-case form does.
pub proof fn lemma_failures_read_critical(word: Seq<char>)
    ensures
        health_of(ascii_lower(word)) == health_of(word),
        has_any(ascii_lower(word), critical_parts()) ==> health_of(word) == Health::Critical,
        health_of(word) == Health::Normal ==> contains(ascii_lower(word), "normal"@)
            || ascii_lower(word) == "healthy"@ || ascii_lower(word) == "online"@ || ascii_lower(word) == "ok"@,
{
    let w = ascii_lower(word);
    assert(ascii_lower(w) =~= w);
    reveal_strlit("normal");
    reveal_strlit("healthy");
    reveal_strlit("online");
    reveal_strlit("ok");
    reveal_strlit("fs_normal");
    reveal_strlit("attention");
    reveal_strlit("degrade");
    reveal_strlit("degraded");
    reveal_strlit("background");
    reveal_strlit("warning");
    reveal_strlit("expanding");
    reveal_strlit("migrating");
    if is_word(w, normal_words()) || is_word(w, warning_words()) {
        let listed = seq![
            "normal"@, "healthy"@, "online"@, "ok"@, "fs_normal"@, "attention"@, "degrade"@, "degraded"@,
            "background"@, "warning"@, "expanding"@, "migrating"@,
        ];
        assert forall|k: int| 0 <= k < listed.len() implies !has_any(#[trigger] listed[k], critical_parts()) by {
            lemma_no_failure_part(listed[k]);
        }
        if is_word(w, normal_words()) {
            let k = choose|k: int| 0 <= k < normal_words().len() && w == normal_words()[k];
            assert(listed[k] == normal_words()[k]);
        } else {
            let k = choose|k: int| 0 <= k < warning_words().len() && w == warning_words()[k];
            assert(listed[k + 5] == warning_words()[k]);
        }
    }
    if health_of(word) == Health::Normal && is_word(w, normal_words()) {
        if w == "fs_normal"@ {
            assert(occurs_at(w, "normal"@, 3)) by {
                assert(w.subrange(3, 9) =~= "normal"@);
            }
        } else if w == "normal"@ {
            assert(occurs_at(w, "normal"@, 0)) by {
                assert(w.subrange(0, 6) =~= "normal"@);
            }
        }
    }
}

proof fn lemma_filters_keep_their_test(ds: Seq<Disk>, pools: Seq<Pool>, p: Pool)
    ensures
        forall|j: int| 0 <= j < drives_in(ds, p).len() ==> drive_in(#[trigger] drives_in(ds, p)[j], p),
        forall|j: int| 0 <= j < drives_unassigned(ds, pools).len() ==> drive_unassigned(
            #[trigger] drives_unassigned(ds, pools)[j],
            pools,
        ),
    decreases ds.len(),
{
    if ds.len() > 0 {
        lemma_filters_keep_their_test(ds.drop_last(), pools, p);
        let a = drives_in(ds.drop_last(), p);
        let b = drives_unassigned(ds.drop_last(), pools);
        assert forall|j: int| 0 <= j < drives_in(ds, p).len() implies drive_in(#[trigger] drives_in(ds, p)[j], p) by {
            if j < a.len() {
                assert(drives_in(ds, p)[j] == a[j]);
            }
        }
        assert forall|j: int| 0 <= j < drives_unassigned(ds, pools).len() implies drive_unassigned(
            #[trigger] drives_unassigned(ds, pools)[j],
            pools,
        ) by {
            if j < b.len() {
                assert(drives_unassigned(ds, pools)[j] == b[j]);
            }
        }
    }
}

/// No drive is both among a pool's drives and among the unassigned ones: a
/// drive shown in a pool card is never shown again as unassigned.
pub proof fn lemma_no_drive_twice(ds: Seq<Disk>, pools: Seq<Pool>, i: int, d: Disk)
    requires
        0 <= i < pools.len(),
    ensures
        !(drives_in(ds, pools[i]).contains(d) && drives_unassigned(ds, pools).contains(d)),
{
    lemma_filters_keep_their_test(ds, pools, pools[i]);
    if drives_in(ds, pools[i]).contains(d) && drives_unassigned(ds, pools).contains(d) {
        let a = choose|a: int| 0 <= a < drives_in(ds, pools[i]).len() && drives_in(ds, pools[i])[a] == d;
        let b = choose|b: int| 0 <= b < drives_unassigned(ds, pools).len() && drives_unassigned(ds, pools)[b] == d;
        assert(drive_in(drives_in(ds, pools[i])[a], pools[i]));
        assert(drive_unassigned(drives_unassigned(ds, pools)[b], pools));
        assert(!drive_in(d, pools[i]));
    }
}

/// The banner's verdict orders Normal below Unknown below Warning below
/// Critical: any Critical verdict makes it Critical; otherwise any Warning
/// makes it Warning; Unknown only when nothing is Warning or Critical; and
/// Normal only when every verdict is Normal. No verdicts at all read Unknown.
pub proof fn lemma_worst_by_severity(hs: Seq<Health>)
    ensures
        hs.contains(Health::Critical) ==> worst(hs) == Health::Critical,
        !hs.contains(Health::Critical) && hs.contains(Health::Warning) ==> worst(hs) == Health::Warning,
        !hs.contains(Health::Critical) && !hs.contains(Health::Warning) && hs.contains(Health::Unknown) ==> worst(hs)
            == Health::Unknown,
        hs.len() > 0 && (forall|i: int| 0 <= i < hs.len() ==> hs[i] == Health::Normal) ==> worst(hs) == Health::Normal,
        hs.len() == 0 ==> worst(hs) == Health::Unknown,
{
    if hs.len() > 0 {
        lemma_worst_is_worst(hs);
        if hs.contains(Health::Critical) {
            let k = choose|k: int| 0 <= k < hs.len() && hs[k] == Health::Critical;
            assert(rank(hs[k]) <= rank(worst(hs)));
        }
        if hs.contains(Health::Warning) {
            let k = choose|k: int| 0 <= k < hs.len() && hs[k] == Health::Warning;
            assert(rank(hs[k]) <= rank(worst(hs)));
        }
        if hs.contains(Health::Unknown) {
            let k = choose|k: int| 0 <= k < hs.len() && hs[k] == Health::Unknown;
            assert(rank(hs[k]) <= rank(worst(hs)));
        }
    }
}

} // verus!
