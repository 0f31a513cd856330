//! What one refresh asks for, and what it comes back with.
//!
//! Building the plan is pure — it takes capabilities and returns calls — so
//! "does the Overview stop asking for containers when Container Manager is
//! absent?" is a question about a function rather than a packet capture.
//! Sending the plan is the transport's business; turning what came back into
//! a snapshot is pure again.

use vstd::prelude::*;

use crate::dsm::capabilities::version_to_use;
use crate::dsm::error::{error_message, session_code, ErrorView};
use crate::dsm::{Call, Capabilities, Error, VersionRange};
use crate::json::Json;
use crate::model::container::{apply_entries, container_reads, object_values, project_reads, projects_by_name};
use crate::model::log::page_reads;
use crate::model::network::{by_index, interface_reads};
use crate::model::package::{package_reads, packages_by_name};
use crate::model::power::{cooling_reads, ups_reads};
use crate::model::session::session_reads;
use crate::model::share::share_reads;
use crate::model::storage::storage_reads;
use crate::model::system::system_reads;
use crate::model::utilization::utilization_reads;
use crate::model::{
    items_at, Container, Cooling, LogPage, NetworkInterface, Package, Project, Session, Share, Storage, SystemInfo,
    Ups, Utilization,
};

verus! {

/// Which API each slot of a plan came from, so results can be routed back
/// without depending on the order surviving a refactor.
#[derive(Debug, Clone, Copy, PartialEq, Eq, Structural)]
pub enum Slot {
    System,
    Utilization,
    Storage,
    Containers,
    ContainerResources,
    Projects,
    Shares,
    Log,
    Packages,
    Sessions,
    Interfaces,
    Cooling,
    Ups,
}

/// A call as values: API, version, method, parameters.
pub type CallView = (Seq<char>, u32, Seq<char>, Seq<(Seq<char>, Seq<char>)>);

pub open spec fn call_view(c: Call) -> CallView {
    (c.api@, c.version, c.method@, c.params_view())
}

/// A set of calls to make, and what each one is for.
#[derive(Debug, Clone)]
pub struct Plan {
    pub calls: Vec<Call>,
    pub slots: Vec<Slot>,
}

impl Plan {
    /// One slot for each call.
    pub open spec fn well_formed(self) -> bool {
        self.slots@.len() == self.calls@.len()
    }

    /// Each call with the slot its result goes to, in order.
    pub open spec fn entries(self) -> Seq<(Slot, CallView)> {
        Seq::new(self.calls@.len(), |i: int| (self.slots@[i], call_view(self.calls@[i])))
    }
}

impl Default for Plan {
    fn default() -> (r: Plan)
        ensures
            r.well_formed(),
            r.calls@.len() == 0,
    {
        Plan { calls: Vec::new(), slots: Vec::new() }
    }
}

/// What the plan holds for one API: the call at the version the host and
/// this reader agree on, or nothing when the host lacks the API or demands a
/// newer version than is understood here.
pub open spec fn asked(
    apis: Map<Seq<char>, VersionRange>,
    slot: Slot,
    api: Seq<char>,
    understood: u32,
    method: Seq<char>,
    params: Seq<(Seq<char>, Seq<char>)>,
) -> Seq<(Slot, CallView)> {
    match version_to_use(apis, api, understood) {
        Some(v) => seq![(slot, (api, v, method, params))],
        None => Seq::empty(),
    }
}

/// The calls the Overview needs, given what this host has: one per API it
/// exposes, in this order, each at the version pinned here or the host's
/// maximum when that is lower.
pub open spec fn overview_entries(apis: Map<Seq<char>, VersionRange>) -> Seq<(Slot, CallView)> {
    asked(apis, Slot::System, "SYNO.Core.System"@, 1, "info"@, seq![])
        + asked(apis, Slot::Utilization, "SYNO.Core.System.Utilization"@, 1, "get"@, seq![])
        + asked(apis, Slot::Storage, "SYNO.Storage.CGI.Storage"@, 1, "load_info"@, seq![])
        + asked(
        apis,
        Slot::Containers,
        "SYNO.Docker.Container"@,
        1,
        "list"@,
        seq![("limit"@, "-1"@), ("offset"@, "0"@), ("type"@, "\"all\""@)],
    ) + asked(apis, Slot::ContainerResources, "SYNO.Docker.Container.Resource"@, 1, "get"@, seq![])
        + asked(apis, Slot::Projects, "SYNO.Docker.Project"@, 1, "list"@, seq![])
        + asked(
        apis,
        Slot::Shares,
        "SYNO.Core.Share"@,
        1,
        "list"@,
        seq![("additional"@, "[\"disk_size\",\"share_quota\",\"enc\",\"hidden\"]"@)],
    ) + asked(
        apis,
        Slot::Log,
        "SYNO.Core.SyslogClient.Log"@,
        1,
        "list"@,
        seq![("start"@, "0"@), ("limit"@, "50"@)],
    ) + asked(apis, Slot::Packages, "SYNO.Core.Package"@, 2, "list"@, seq![("additional"@, "[\"status\"]"@)])
        + asked(apis, Slot::Sessions, "SYNO.Core.CurrentConnection"@, 1, "list"@, seq![])
        + asked(apis, Slot::Interfaces, "SYNO.Core.Network.Interface"@, 1, "list"@, seq![])
        + asked(apis, Slot::Cooling, "SYNO.Core.Hardware.FanSpeed"@, 1, "get"@, seq![])
        + asked(apis, Slot::Ups, "SYNO.Core.ExternalDevice.UPS"@, 1, "get"@, seq![])
}

pub open spec fn pair_views(params: Seq<(&str, &str)>) -> Seq<(Seq<char>, Seq<char>)> {
    params.map_values(|p: (&str, &str)| (p.0@, p.1@))
}

impl Plan {
    fn push(&mut self, slot: Slot, call: Call)
        requires
            old(self).well_formed(),
        ensures
            final(self).well_formed(),
            final(self).entries() == old(self).entries().push((slot, call_view(call))),
    {
        self.slots.push(slot);
        self.calls.push(call);
        assert(self.entries() =~= old(self).entries().push((slot, call_view(call))));
    }

    /// Whether the plan asks for nothing.
    pub fn is_empty(&self) -> (r: bool)
        ensures
            r == (self.calls@.len() == 0),
    {
        self.calls.len() == 0
    }

    /// How many calls the plan makes.
    pub fn len(&self) -> (r: usize)
        ensures
            r == self.calls@.len(),
    {
        self.calls.len()
    }

    /// Whether some call's result goes to `slot`.
    pub fn has(&self, slot: Slot) -> (r: bool)
        ensures
            r == self.slots@.contains(slot),
    {
        let mut i: usize = 0;
        while i < self.slots.len()
            invariant
                i <= self.slots@.len(),
                forall|j: int| 0 <= j < i ==> self.slots@[j] != slot,
            decreases self.slots.len() - i,
        {
            if self.slots[i] == slot {
                assert(self.slots@[i as int] == slot);
                return true;
            }
            i = i + 1;
        }
        false
    }
}

/// Add the call for one API, when the host has it at a version this reader
/// can use.
fn ask(
    plan: &mut Plan,
    caps: &Capabilities,
    slot: Slot,
    api: &str,
    understood: u32,
    method: &str,
    params: &[(&str, &str)],
)
    requires
        old(plan).well_formed(),
    ensures
        final(plan).well_formed(),
        final(plan).entries() == old(plan).entries() + asked(caps@, slot, api@, understood, method@, pair_views(params@)),
{
    if let Some(v) = caps.version_for(api, understood) {
        let mut call = Call::new(api, v, method);
        let mut i: usize = 0;
        while i < params.len()
            invariant
                i <= params@.len(),
                call.api@ == api@,
                call.version == v,
                call.method@ == method@,
                call.params_view() == pair_views(params@).subrange(0, i as int),
            decreases params.len() - i,
        {
            let (k, value) = params[i];
            call = call.param(k, value);
            assert(pair_views(params@).subrange(0, i + 1) =~= pair_views(params@).subrange(0, i as int).push(
                (k@, value@),
            ));
            i = i + 1;
        }
        assert(pair_views(params@).subrange(0, params@.len() as int) =~= pair_views(params@));
        plan.push(slot, call);
        assert(plan.entries() =~= old(plan).entries() + asked(caps@, slot, api@, understood, method@, pair_views(params@)));
    } else {
        assert(old(plan).entries() + Seq::<(Slot, CallView)>::empty() =~= old(plan).entries());
    }
}

/// The calls the Overview needs, given what this host actually has.
///
/// `understood` versions are pinned per API rather than taken from the
/// host's maximum: a newer major version can change a reply's shape, and the
/// readers here were written against a specific one.
pub fn overview_plan(caps: &Capabilities) -> (r: Plan)
    ensures
        r.well_formed(),
        r.entries() == overview_entries(caps@),
{
    let mut plan = Plan::default();
    assert(plan.entries() =~= Seq::<(Slot, CallView)>::empty());
    let none: [(&str, &str); 0] = [];
    assert(pair_views(none@) =~= seq![]);
    ask(&mut plan, caps, Slot::System, "SYNO.Core.System", 1, "info", &none);
    assert(Seq::<(Slot, CallView)>::empty() + asked(caps@, Slot::System, "SYNO.Core.System"@, 1, "info"@, seq![])
        =~= asked(caps@, Slot::System, "SYNO.Core.System"@, 1, "info"@, seq![]));
    ask(&mut plan, caps, Slot::Utilization, "SYNO.Core.System.Utilization", 1, "get", &none);
    ask(&mut plan, caps, Slot::Storage, "SYNO.Storage.CGI.Storage", 1, "load_info", &none);
    // Absent unless Container Manager is installed, which is exactly the
    // case this gating exists for.
    let container_params = [("limit", "-1"), ("offset", "0"), ("type", "\"all\"")];
    assert(pair_views(container_params@) =~= seq![("limit"@, "-1"@), ("offset"@, "0"@), ("type"@, "\"all\""@)]);
    ask(&mut plan, caps, Slot::Containers, "SYNO.Docker.Container", 1, "list", &container_params);
    ask(&mut plan, caps, Slot::ContainerResources, "SYNO.Docker.Container.Resource", 1, "get", &none);
    // Gated separately from the container list: a box can run containers
    // with no project at all, and older Container Manager builds predate the
    // API.
    ask(&mut plan, caps, Slot::Projects, "SYNO.Docker.Project", 1, "list", &none);
    let share_params = [("additional", "[\"disk_size\",\"share_quota\",\"enc\",\"hidden\"]")];
    assert(pair_views(share_params@) =~= seq![("additional"@, "[\"disk_size\",\"share_quota\",\"enc\",\"hidden\"]"@)]);
    ask(&mut plan, caps, Slot::Shares, "SYNO.Core.Share", 1, "list", &share_params);
    let log_params = [("start", "0"), ("limit", "50")];
    assert(pair_views(log_params@) =~= seq![("start"@, "0"@), ("limit"@, "50"@)]);
    ask(&mut plan, caps, Slot::Log, "SYNO.Core.SyslogClient.Log", 1, "list", &log_params);
    // Only `["status"]`. Adding `version` — which is a top-level field, not
    // an addition — makes DSM answer with zero packages rather than an
    // error, so the page silently empties.
    let package_params = [("additional", "[\"status\"]")];
    assert(pair_views(package_params@) =~= seq![("additional"@, "[\"status\"]"@)]);
    ask(&mut plan, caps, Slot::Packages, "SYNO.Core.Package", 2, "list", &package_params);
    ask(&mut plan, caps, Slot::Sessions, "SYNO.Core.CurrentConnection", 1, "list", &none);
    ask(&mut plan, caps, Slot::Interfaces, "SYNO.Core.Network.Interface", 1, "list", &none);
    ask(&mut plan, caps, Slot::Cooling, "SYNO.Core.Hardware.FanSpeed", 1, "get", &none);
    ask(&mut plan, caps, Slot::Ups, "SYNO.Core.ExternalDevice.UPS", 1, "get", &none);
    plan
}

// ---------------------------------------------------------------------------
// Assembling what came back.

/// Everything one refresh gathered.
///
/// Every field is optional and independent: a call that failed leaves its
/// field `None` and takes the rest of the page with it not at all. That is
/// the "one bad endpoint greys out one card" rule, expressed as a type.
#[derive(Debug, Clone)]
pub struct Snapshot {
    pub system: Option<SystemInfo>,
    pub utilization: Option<Utilization>,
    pub storage: Option<Storage>,
    pub containers: Option<Vec<Container>>,
    /// Container Manager Projects — the compose files, and which containers
    /// each one owns.
    pub projects: Option<Vec<Project>>,
    pub shares: Option<Vec<Share>>,
    pub log: Option<LogPage>,
    pub packages: Option<Vec<Package>>,
    pub sessions: Option<Vec<Session>>,
    pub interfaces: Option<Vec<NetworkInterface>>,
    pub cooling: Option<Cooling>,
    pub ups: Option<Ups>,
    /// What went wrong, per slot, for the cards that came back empty.
    pub failures: Vec<(Slot, String)>,
}

impl Default for Snapshot {
    fn default() -> (r: Snapshot)
        ensures
            r.system is None && r.utilization is None && r.storage is None && r.containers is None,
            r.projects is None && r.shares is None && r.log is None && r.packages is None,
            r.sessions is None && r.interfaces is None && r.cooling is None && r.ups is None,
            r.failures@.len() == 0,
    {
        Snapshot {
            system: None,
            utilization: None,
            storage: None,
            containers: None,
            projects: None,
            shares: None,
            log: None,
            packages: None,
            sessions: None,
            interfaces: None,
            cooling: None,
            ups: None,
            failures: Vec::new(),
        }
    }
}

impl Snapshot {
    /// Whether anything at all arrived. An entirely empty snapshot means the
    /// host is unreachable rather than quiet, and the window says so.
    pub fn is_empty(&self) -> (r: bool)
        ensures
            r == (self.system is None && self.utilization is None && self.storage is None
                && self.containers is None && self.projects is None && self.shares is None
                && self.log is None && self.packages is None && self.sessions is None
                && self.interfaces is None && self.cooling is None && self.ups is None),
    {
        self.system.is_none() && self.utilization.is_none() && self.storage.is_none()
            && self.containers.is_none() && self.projects.is_none() && self.shares.is_none()
            && self.log.is_none() && self.packages.is_none() && self.sessions.is_none()
            && self.interfaces.is_none() && self.cooling.is_none() && self.ups.is_none()
    }
}

/// The data of the last successful result for `slot` among the first `n`
/// pairs of slots and results.
pub open spec fn last_ok(slots: Seq<Slot>, results: Seq<Result<Json, Error>>, slot: Slot, n: nat) -> Option<Json>
    decreases n,
{
    if n == 0 {
        None
    } else if slots[n - 1] == slot && results[n - 1] is Ok {
        Some(results[n - 1]->Ok_0)
    } else {
        last_ok(slots, results, slot, (n - 1) as nat)
    }
}

/// Each failed result among the first `n`, with its slot and the sentence
/// its error reads as, in order.
pub open spec fn failures_of(slots: Seq<Slot>, results: Seq<Result<Json, Error>>, n: nat) -> Seq<(Slot, Seq<char>)>
    decreases n,
{
    if n == 0 {
        Seq::empty()
    } else {
        let before = failures_of(slots, results, (n - 1) as nat);
        match results[n - 1] {
            Err(e) => before.push((slots[n - 1], error_message(e@))),
            Ok(_) => before,
        }
    }
}

pub open spec fn failure_views(f: Seq<(Slot, String)>) -> Seq<(Slot, Seq<char>)> {
    f.map_values(|p: (Slot, String)| (p.0, p.1@))
}

/// The containers a container list reads as, in order.
pub open spec fn listed_containers(r: Seq<Container>, data: Json) -> bool {
    &&& r.len() == items_at(data, "containers"@).len()
    &&& forall|i: int| 0 <= i < r.len() ==> container_reads(#[trigger] r[i], items_at(data, "containers"@)[i])
}

pub open spec fn listed_projects(r: Seq<Project>, data: Json) -> bool {
    match data {
        Json::Object(entries) => exists|read: Seq<Project>| {
            &&& read.len() == object_values(entries@).len()
            &&& forall|i: int| 0 <= i < read.len() ==> project_reads(#[trigger] read[i], object_values(entries@)[i])
            &&& r == #[trigger] projects_by_name(read)
        },
        _ => r.len() == 0,
    }
}

pub open spec fn listed_shares(r: Seq<Share>, data: Json) -> bool {
    &&& r.len() == items_at(data, "shares"@).len()
    &&& forall|i: int| 0 <= i < r.len() ==> share_reads(#[trigger] r[i], items_at(data, "shares"@)[i])
}

pub open spec fn listed_packages(r: Seq<Package>, data: Json) -> bool {
    exists|read: Seq<Package>| {
        &&& read.len() == items_at(data, "packages"@).len()
        &&& forall|i: int| 0 <= i < read.len() ==> package_reads(#[trigger] read[i], items_at(data, "packages"@)[i])
        &&& r == #[trigger] packages_by_name(read)
    }
}

pub open spec fn listed_sessions(r: Seq<Session>, data: Json) -> bool {
    &&& r.len() == items_at(data, "items"@).len()
    &&& forall|i: int| 0 <= i < r.len() ==> session_reads(#[trigger] r[i], items_at(data, "items"@)[i])
}

pub open spec fn listed_interfaces(r: Seq<NetworkInterface>, data: Json) -> bool {
    match data {
        Json::Object(entries) => {
            &&& r.len() == by_index(entries@).len()
            &&& forall|i: int|
                0 <= i < r.len() ==> interface_reads(#[trigger] r[i], entries@[by_index(entries@)[i].1 as int].1)
        },
        _ => r.len() == 0,
    }
}

/// The containers, with the resource reply folded in when there is one.
pub open spec fn containers_with(r: Seq<Container>, data: Json, resources: Option<Json>) -> bool {
    exists|read: Seq<Container>| {
        &&& listed_containers(read, data)
        &&& r == match resources {
            Some(res) => apply_entries(read, items_at(res, "containers"@)),
            None => read,
        }
    }
}

/// What a snapshot holds after the first `n` results: each card read from
/// the last result that succeeded for its slot, the containers with the
/// resource readings folded in, and one failure for each result that failed.
pub open spec fn snapshot_of(snap: Snapshot, slots: Seq<Slot>, results: Seq<Result<Json, Error>>, n: nat) -> bool {
    &&& cards_of(snap, slots, results, n)
    &&& match last_ok(slots, results, Slot::Containers, n) {
        Some(d) => snap.containers matches Some(x) && containers_with(
            x@,
            d,
            last_ok(slots, results, Slot::ContainerResources, n),
        ),
        None => snap.containers is None,
    }
}

/// Every card but the containers, and the failures.
pub open spec fn cards_of(snap: Snapshot, slots: Seq<Slot>, results: Seq<Result<Json, Error>>, n: nat) -> bool {
    &&& match last_ok(slots, results, Slot::System, n) {
        Some(d) => snap.system matches Some(x) && system_reads(x, d),
        None => snap.system is None,
    }
    &&& match last_ok(slots, results, Slot::Utilization, n) {
        Some(d) => snap.utilization matches Some(x) && utilization_reads(x, d),
        None => snap.utilization is None,
    }
    &&& match last_ok(slots, results, Slot::Storage, n) {
        Some(d) => snap.storage matches Some(x) && storage_reads(x, d),
        None => snap.storage is None,
    }
    &&& match last_ok(slots, results, Slot::Projects, n) {
        Some(d) => snap.projects matches Some(x) && listed_projects(x@, d),
        None => snap.projects is None,
    }
    &&& match last_ok(slots, results, Slot::Shares, n) {
        Some(d) => snap.shares matches Some(x) && listed_shares(x@, d),
        None => snap.shares is None,
    }
    &&& match last_ok(slots, results, Slot::Log, n) {
        Some(d) => snap.log matches Some(x) && page_reads(x, d),
        None => snap.log is None,
    }
    &&& match last_ok(slots, results, Slot::Packages, n) {
        Some(d) => snap.packages matches Some(x) && listed_packages(x@, d),
        None => snap.packages is None,
    }
    &&& match last_ok(slots, results, Slot::Sessions, n) {
        Some(d) => snap.sessions matches Some(x) && listed_sessions(x@, d),
        None => snap.sessions is None,
    }
    &&& match last_ok(slots, results, Slot::Interfaces, n) {
        Some(d) => snap.interfaces matches Some(x) && listed_interfaces(x@, d),
        None => snap.interfaces is None,
    }
    &&& match last_ok(slots, results, Slot::Cooling, n) {
        Some(d) => snap.cooling matches Some(x) && cooling_reads(x, d),
        None => snap.cooling is None,
    }
    &&& match last_ok(slots, results, Slot::Ups, n) {
        Some(d) => snap.ups matches Some(x) && ups_reads(x, d),
        None => snap.ups is None,
    }
    &&& failure_views(snap.failures@) == failures_of(slots, results, n)
}

/// Turn a plan's results into a snapshot. The results pair with the plan's
/// slots in order; past the shorter of the two there is nothing to pair.
pub fn assemble(plan: &Plan, results: Vec<Result<Json, Error>>) -> (r: Snapshot)
    ensures
        snapshot_of(
            r,
            plan.slots@,
            results@,
            if plan.slots@.len() <= results@.len() { plan.slots@.len() } else { results@.len() },
        ),
{
    let ghost all = results@;
    let ghost slots = plan.slots@;
    let n: usize = if plan.slots.len() <= results.len() { plan.slots.len() } else { results.len() };
    let mut results = results;
    let mut snap = Snapshot::default();
    let mut containers: Option<Vec<Container>> = None;
    let mut resources: Option<Json> = None;
    assert(failure_views(snap.failures@) =~= Seq::<(Slot, Seq<char>)>::empty());
    let mut i: usize = 0;
    while i < n
        invariant
            n <= slots.len(),
            n <= all.len(),
            slots == plan.slots@,
            i <= n,
            results@ == all.skip(i as int),
            cards_of(snap, slots, all, i as nat),
            match last_ok(slots, all, Slot::Containers, i as nat) {
                Some(d) => containers matches Some(x) && listed_containers(x@, d),
                None => containers is None,
            },
            resources == last_ok(slots, all, Slot::ContainerResources, i as nat),
        decreases n - i,
    {
        let result = results.remove(0);
        assert(result == all[i as int]);
        assert(results@ =~= all.skip(i + 1));
        let slot = plan.slots[i];
        match result {
            Err(e) => {
                let ghost before = snap.failures@;
                let sentence = e.describe();
                snap.failures.push((slot, sentence));
                assert(failure_views(snap.failures@) =~= failure_views(before).push((slot, error_message(e@))));
            },
            Ok(data) => {
                match slot {
                    Slot::System => snap.system = Some(SystemInfo::from_json(&data)),
                    Slot::Utilization => snap.utilization = Some(Utilization::from_json(&data)),
                    Slot::Storage => snap.storage = Some(Storage::from_json(&data)),
                    Slot::Containers => containers = Some(Container::list_from_json(&data)),
                    Slot::ContainerResources => resources = Some(data),
                    Slot::Projects => snap.projects = Some(Project::list_from_json(&data)),
                    Slot::Shares => snap.shares = Some(Share::list_from_json(&data)),
                    Slot::Log => snap.log = Some(LogPage::from_json(&data)),
                    Slot::Packages => snap.packages = Some(Package::list_from_json(&data)),
                    Slot::Sessions => snap.sessions = Some(Session::list_from_json(&data)),
                    Slot::Interfaces => snap.interfaces = Some(NetworkInterface::list_from_json(&data)),
                    Slot::Cooling => snap.cooling = Some(Cooling::from_json(&data)),
                    Slot::Ups => snap.ups = Some(Ups::from_json(&data)),
                }
            },
        }
        i = i + 1;
    }
    // Resources arrive as their own call and are folded in afterwards, so the
    // order of the two inside the compound request does not matter.
    let folded = match containers {
        Some(list) => {
            let ghost read = list@;
            let mut list = list;
            match &resources {
                Some(res) => Container::apply_resources(&mut list, res),
                None => {},
            }
            assert(listed_containers(read, last_ok(slots, all, Slot::Containers, n as nat)->Some_0));
            Some(list)
        },
        None => None,
    };
    Snapshot { containers: folded, ..snap }
}

/// How many ticks are skipped between polls when nobody is looking.
///
/// A monitor in a background window should not keep a NAS's disks spinning,
/// but it should not go stale either: at the default five-second interval
/// this is a poll every half minute.
pub const UNFOCUSED_EVERY: u64 = 6;

/// Whether this tick should actually poll. `tick` counts from zero and
/// increments once per timer fire.
pub fn should_poll(focused: bool, tick: u64) -> (r: bool)
    ensures
        r == should_poll_spec(focused, tick),
{
    focused || tick % UNFOCUSED_EVERY == 0
}


// ---------------------------------------------------------------------------
// What every refresh keeps.

/// Whether every call of a plan is for an API the host has, at a version no
/// higher than its maximum and, for a range that is not upside down, no
/// lower than its minimum.
pub open spec fn within_host(apis: Map<Seq<char>, VersionRange>, es: Seq<(Slot, CallView)>) -> bool {
    forall|i: int|
        0 <= i < es.len() ==> {
            let api = (#[trigger] es[i]).1.0;
            let v = es[i].1.1;
            &&& apis.contains_key(api)
            &&& v <= apis[api].max
            &&& (apis[api].min <= apis[api].max ==> apis[api].min <= v)
        }
}

proof fn lemma_asked_within(
    apis: Map<Seq<char>, VersionRange>,
    slot: Slot,
    api: Seq<char>,
    understood: u32,
    method: Seq<char>,
    params: Seq<(Seq<char>, Seq<char>)>,
)
    ensures
        within_host(apis, asked(apis, slot, api, understood, method, params)),
{
    crate::dsm::capabilities::lemma_version_within_range(apis, api, understood);
}

proof fn lemma_within_concat(apis: Map<Seq<char>, VersionRange>, a: Seq<(Slot, CallView)>, b: Seq<(Slot, CallView)>)
    requires
        within_host(apis, a),
        within_host(apis, b),
    ensures
        within_host(apis, a + b),
{
    assert forall|i: int| 0 <= i < (a + b).len() implies {
        let api = (#[trigger] (a + b)[i]).1.0;
        let v = (a + b)[i].1.1;
        &&& apis.contains_key(api)
        &&& v <= apis[api].max
        &&& (apis[api].min <= apis[api].max ==> apis[api].min <= v)
    } by {
        if i < a.len() {
            assert((a + b)[i] == a[i]);
        } else {
            assert((a + b)[i] == b[i - a.len()]);
        }
    }
}

/// The Overview asks only for what the host has, at versions it offers: no
/// call for an absent API, none above the host's maximum.
pub proof fn lemma_overview_plan_within_host(apis: Map<Seq<char>, VersionRange>)
    ensures
        within_host(apis, overview_entries(apis)),
{
    let e0 = asked(apis, Slot::System, "SYNO.Core.System"@, 1, "info"@, seq![]);
    let e1 = asked(apis, Slot::Utilization, "SYNO.Core.System.Utilization"@, 1, "get"@, seq![]);
    let e2 = asked(apis, Slot::Storage, "SYNO.Storage.CGI.Storage"@, 1, "load_info"@, seq![]);
    let e3 = asked(
        apis,
        Slot::Containers,
        "SYNO.Docker.Container"@,
        1,
        "list"@,
        seq![("limit"@, "-1"@), ("offset"@, "0"@), ("type"@, "\"all\""@)],
    );
    let e4 = asked(apis, Slot::ContainerResources, "SYNO.Docker.Container.Resource"@, 1, "get"@, seq![]);
    let e5 = asked(apis, Slot::Projects, "SYNO.Docker.Project"@, 1, "list"@, seq![]);
    let e6 = asked(
        apis,
        Slot::Shares,
        "SYNO.Core.Share"@,
        1,
        "list"@,
        seq![("additional"@, "[\"disk_size\",\"share_quota\",\"enc\",\"hidden\"]"@)],
    );
    let e7 = asked(apis, Slot::Log, "SYNO.Core.SyslogClient.Log"@, 1, "list"@, seq![("start"@, "0"@), ("limit"@, "50"@)]);
    let e8 = asked(apis, Slot::Packages, "SYNO.Core.Package"@, 2, "list"@, seq![("additional"@, "[\"status\"]"@)]);
    let e9 = asked(apis, Slot::Sessions, "SYNO.Core.CurrentConnection"@, 1, "list"@, seq![]);
    let e10 = asked(apis, Slot::Interfaces, "SYNO.Core.Network.Interface"@, 1, "list"@, seq![]);
    let e11 = asked(apis, Slot::Cooling, "SYNO.Core.Hardware.FanSpeed"@, 1, "get"@, seq![]);
    let e12 = asked(apis, Slot::Ups, "SYNO.Core.ExternalDevice.UPS"@, 1, "get"@, seq![]);
    lemma_asked_within(apis, Slot::System, "SYNO.Core.System"@, 1, "info"@, seq![]);
    lemma_asked_within(apis, Slot::Utilization, "SYNO.Core.System.Utilization"@, 1, "get"@, seq![]);
    lemma_asked_within(apis, Slot::Storage, "SYNO.Storage.CGI.Storage"@, 1, "load_info"@, seq![]);
    lemma_asked_within(
        apis,
        Slot::Containers,
        "SYNO.Docker.Container"@,
        1,
        "list"@,
        seq![("limit"@, "-1"@), ("offset"@, "0"@), ("type"@, "\"all\""@)],
    );
    lemma_asked_within(apis, Slot::ContainerResources, "SYNO.Docker.Container.Resource"@, 1, "get"@, seq![]);
    lemma_asked_within(apis, Slot::Projects, "SYNO.Docker.Project"@, 1, "list"@, seq![]);
    lemma_asked_within(
        apis,
        Slot::Shares,
        "SYNO.Core.Share"@,
        1,
        "list"@,
        seq![("additional"@, "[\"disk_size\",\"share_quota\",\"enc\",\"hidden\"]"@)],
    );
    lemma_asked_within(apis, Slot::Log, "SYNO.Core.SyslogClient.Log"@, 1, "list"@, seq![("start"@, "0"@), ("limit"@, "50"@)]);
    lemma_asked_within(apis, Slot::Packages, "SYNO.Core.Package"@, 2, "list"@, seq![("additional"@, "[\"status\"]"@)]);
    lemma_asked_within(apis, Slot::Sessions, "SYNO.Core.CurrentConnection"@, 1, "list"@, seq![]);
    lemma_asked_within(apis, Slot::Interfaces, "SYNO.Core.Network.Interface"@, 1, "list"@, seq![]);
    lemma_asked_within(apis, Slot::Cooling, "SYNO.Core.Hardware.FanSpeed"@, 1, "get"@, seq![]);
    lemma_asked_within(apis, Slot::Ups, "SYNO.Core.ExternalDevice.UPS"@, 1, "get"@, seq![]);
    lemma_within_concat(apis, e0, e1);
    lemma_within_concat(apis, e0 + e1, e2);
    lemma_within_concat(apis, e0 + e1 + e2, e3);
    lemma_within_concat(apis, e0 + e1 + e2 + e3, e4);
    lemma_within_concat(apis, e0 + e1 + e2 + e3 + e4, e5);
    lemma_within_concat(apis, e0 + e1 + e2 + e3 + e4 + e5, e6);
    lemma_within_concat(apis, e0 + e1 + e2 + e3 + e4 + e5 + e6, e7);
    lemma_within_concat(apis, e0 + e1 + e2 + e3 + e4 + e5 + e6 + e7, e8);
    lemma_within_concat(apis, e0 + e1 + e2 + e3 + e4 + e5 + e6 + e7 + e8, e9);
    lemma_within_concat(apis, e0 + e1 + e2 + e3 + e4 + e5 + e6 + e7 + e8 + e9, e10);
    lemma_within_concat(apis, e0 + e1 + e2 + e3 + e4 + e5 + e6 + e7 + e8 + e9 + e10, e11);
    lemma_within_concat(apis, e0 + e1 + e2 + e3 + e4 + e5 + e6 + e7 + e8 + e9 + e10 + e11, e12);
}

proof fn lemma_in_concat<T>(a: Seq<T>, b: Seq<T>, x: T)
    ensures
        (a + b).contains(x) ==> a.contains(x) || b.contains(x),
{
    if (a + b).contains(x) {
        let i = choose|i: int| 0 <= i < (a + b).len() && (a + b)[i] == x;
        if i < a.len() {
            assert(a[i] == x);
        } else {
            assert(b[i - a.len()] == x);
        }
    }
}

proof fn lemma_in_asked(
    apis: Map<Seq<char>, VersionRange>,
    slot: Slot,
    api: Seq<char>,
    understood: u32,
    method: Seq<char>,
    params: Seq<(Seq<char>, Seq<char>)>,
    x: (Slot, CallView),
)
    ensures
        asked(apis, slot, api, understood, method, params).contains(x) ==> x.0 == slot && x.1 == (
            api,
            version_to_use(apis, api, understood)->0,
            method,
            params,
        ) && version_to_use(apis, api, understood) is Some,
{
    if asked(apis, slot, api, understood, method, params).contains(x) {
        let i = choose|i: int| 0 <= i < asked(apis, slot, api, understood, method, params).len()
            && asked(apis, slot, api, understood, method, params)[i] == x;
    }
}

/// Each call the Overview plans is tagged with the slot whose API it calls,
/// so its reply lands in the right card: the slot fixes the API and method.
/// The two calls that fail silently when asked wrongly are asked right: the
/// package list at version 2 (or the host's lower maximum) with its status
/// requested, and the container list with every container, stopped ones
/// included, and no page limit.
pub proof fn lemma_overview_list_calls(apis: Map<Seq<char>, VersionRange>, x: (Slot, CallView))
    requires
        overview_entries(apis).contains(x),
    ensures
        x.1.0 == match x.0 {
            Slot::System => "SYNO.Core.System"@,
            Slot::Utilization => "SYNO.Core.System.Utilization"@,
            Slot::Storage => "SYNO.Storage.CGI.Storage"@,
            Slot::Containers => "SYNO.Docker.Container"@,
            Slot::ContainerResources => "SYNO.Docker.Container.Resource"@,
            Slot::Projects => "SYNO.Docker.Project"@,
            Slot::Shares => "SYNO.Core.Share"@,
            Slot::Log => "SYNO.Core.SyslogClient.Log"@,
            Slot::Packages => "SYNO.Core.Package"@,
            Slot::Sessions => "SYNO.Core.CurrentConnection"@,
            Slot::Interfaces => "SYNO.Core.Network.Interface"@,
            Slot::Cooling => "SYNO.Core.Hardware.FanSpeed"@,
            Slot::Ups => "SYNO.Core.ExternalDevice.UPS"@,
        },
        x.1.2 == match x.0 {
            Slot::System => "info"@,
            Slot::Utilization | Slot::ContainerResources | Slot::Cooling | Slot::Ups => "get"@,
            Slot::Storage => "load_info"@,
            _ => "list"@,
        },
        x.0 == Slot::Packages ==> x.1 == (
            "SYNO.Core.Package"@,
            version_to_use(apis, "SYNO.Core.Package"@, 2)->0,
            "list"@,
            seq![("additional"@, "[\"status\"]"@)],
        ),
        x.0 == Slot::Containers ==> x.1 == (
            "SYNO.Docker.Container"@,
            version_to_use(apis, "SYNO.Docker.Container"@, 1)->0,
            "list"@,
            seq![("limit"@, "-1"@), ("offset"@, "0"@), ("type"@, "\"all\""@)],
        ),
{
    let p1 = asked(apis, Slot::System, "SYNO.Core.System"@, 1, "info"@, seq![]);
    let p2 = asked(apis, Slot::Utilization, "SYNO.Core.System.Utilization"@, 1, "get"@, seq![]);
    let p3 = asked(apis, Slot::Storage, "SYNO.Storage.CGI.Storage"@, 1, "load_info"@, seq![]);
    let p4 = asked(
        apis,
        Slot::Containers,
        "SYNO.Docker.Container"@,
        1,
        "list"@,
        seq![("limit"@, "-1"@), ("offset"@, "0"@), ("type"@, "\"all\""@)],
    );
    let p5 = asked(apis, Slot::ContainerResources, "SYNO.Docker.Container.Resource"@, 1, "get"@, seq![]);
    let p6 = asked(apis, Slot::Projects, "SYNO.Docker.Project"@, 1, "list"@, seq![]);
    let p7 = asked(
        apis,
        Slot::Shares,
        "SYNO.Core.Share"@,
        1,
        "list"@,
        seq![("additional"@, "[\"disk_size\",\"share_quota\",\"enc\",\"hidden\"]"@)],
    );
    let p8 = asked(apis, Slot::Log, "SYNO.Core.SyslogClient.Log"@, 1, "list"@, seq![("start"@, "0"@), ("limit"@, "50"@)]);
    let p9 = asked(apis, Slot::Packages, "SYNO.Core.Package"@, 2, "list"@, seq![("additional"@, "[\"status\"]"@)]);
    let p10 = asked(apis, Slot::Sessions, "SYNO.Core.CurrentConnection"@, 1, "list"@, seq![]);
    let p11 = asked(apis, Slot::Interfaces, "SYNO.Core.Network.Interface"@, 1, "list"@, seq![]);
    let p12 = asked(apis, Slot::Cooling, "SYNO.Core.Hardware.FanSpeed"@, 1, "get"@, seq![]);
    let p13 = asked(apis, Slot::Ups, "SYNO.Core.ExternalDevice.UPS"@, 1, "get"@, seq![]);
    let s1 = p1 + p2;
    let s2 = s1 + p3;
    let s3 = s2 + p4;
    let s4 = s3 + p5;
    let s5 = s4 + p6;
    let s6 = s5 + p7;
    let s7 = s6 + p8;
    let s8 = s7 + p9;
    let s9 = s8 + p10;
    let s10 = s9 + p11;
    let s11 = s10 + p12;
    assert(overview_entries(apis) == s11 + p13);
    lemma_in_concat(s11, p13, x);
    lemma_in_concat(s10, p12, x);
    lemma_in_concat(s9, p11, x);
    lemma_in_concat(s8, p10, x);
    lemma_in_concat(s7, p9, x);
    lemma_in_concat(s6, p8, x);
    lemma_in_concat(s5, p7, x);
    lemma_in_concat(s4, p6, x);
    lemma_in_concat(s3, p5, x);
    lemma_in_concat(s2, p4, x);
    lemma_in_concat(s1, p3, x);
    lemma_in_concat(p1, p2, x);
    lemma_in_asked(apis, Slot::System, "SYNO.Core.System"@, 1, "info"@, seq![], x);
    lemma_in_asked(apis, Slot::Utilization, "SYNO.Core.System.Utilization"@, 1, "get"@, seq![], x);
    lemma_in_asked(apis, Slot::Storage, "SYNO.Storage.CGI.Storage"@, 1, "load_info"@, seq![], x);
    lemma_in_asked(
        apis,
        Slot::Containers,
        "SYNO.Docker.Container"@,
        1,
        "list"@,
        seq![("limit"@, "-1"@), ("offset"@, "0"@), ("type"@, "\"all\""@)],
        x,
    );
    lemma_in_asked(apis, Slot::ContainerResources, "SYNO.Docker.Container.Resource"@, 1, "get"@, seq![], x);
    lemma_in_asked(apis, Slot::Projects, "SYNO.Docker.Project"@, 1, "list"@, seq![], x);
    lemma_in_asked(
        apis,
        Slot::Shares,
        "SYNO.Core.Share"@,
        1,
        "list"@,
        seq![("additional"@, "[\"disk_size\",\"share_quota\",\"enc\",\"hidden\"]"@)],
        x,
    );
    lemma_in_asked(apis, Slot::Log, "SYNO.Core.SyslogClient.Log"@, 1, "list"@, seq![("start"@, "0"@), ("limit"@, "50"@)], x);
    lemma_in_asked(apis, Slot::Packages, "SYNO.Core.Package"@, 2, "list"@, seq![("additional"@, "[\"status\"]"@)], x);
    lemma_in_asked(apis, Slot::Sessions, "SYNO.Core.CurrentConnection"@, 1, "list"@, seq![], x);
    lemma_in_asked(apis, Slot::Interfaces, "SYNO.Core.Network.Interface"@, 1, "list"@, seq![], x);
    lemma_in_asked(apis, Slot::Cooling, "SYNO.Core.Hardware.FanSpeed"@, 1, "get"@, seq![], x);
    lemma_in_asked(apis, Slot::Ups, "SYNO.Core.ExternalDevice.UPS"@, 1, "get"@, seq![], x);
}

/// One failed call costs only its own slot: what any other slot's card is
/// read from does not depend on the result in that position.
pub proof fn lemma_one_failure_costs_one_slot(
    slots: Seq<Slot>,
    results: Seq<Result<Json, Error>>,
    k: int,
    e: Error,
    slot: Slot,
    n: nat,
)
    requires
        0 <= k < results.len(),
        k < slots.len(),
        n <= slots.len(),
        n <= results.len(),
        slot != slots[k],
    ensures
        last_ok(slots, results.update(k, Err(e)), slot, n) == last_ok(slots, results, slot, n),
    decreases n,
{
    if n > 0 {
        lemma_one_failure_costs_one_slot(slots, results, k, e, slot, (n - 1) as nat);
        if n - 1 != k {
            assert(results.update(k, Err(e))[n - 1] == results[n - 1]);
        }
    }
}

/// With each slot planned once, each card follows its own call alone: the
/// card is filled exactly when that call succeeded, with that call's data,
/// and a slot that was not planned stays empty. `assemble` reads every card
/// from `last_ok`, so a snapshot's fields follow the results slot by slot.
pub proof fn lemma_cards_follow_results(slots: Seq<Slot>, results: Seq<Result<Json, Error>>, slot: Slot, n: nat)
    requires
        n <= slots.len(),
        n <= results.len(),
        forall|i: int, j: int| 0 <= i < j < n ==> slots[i] != slots[j],
    ensures
        forall|i: int| 0 <= i < n && #[trigger] slots[i] == slot ==> last_ok(slots, results, slot, n) == match results[i] {
            Ok(d) => Some(d),
            Err(_) => None,
        },
        (forall|i: int| 0 <= i < n ==> #[trigger] slots[i] != slot) ==> last_ok(slots, results, slot, n) is None,
    decreases n,
{
    if n > 0 {
        lemma_cards_follow_results(slots, results, slot, (n - 1) as nat);
        if slots[n - 1] == slot {
            assert forall|i: int| 0 <= i < n - 1 implies #[trigger] slots[i] != slot by {
                assert(slots[i] != slots[n - 1]);
            }
        }
    }
}

/// A refresh in which every call failed reads as empty, and every failure
/// is listed: the window shows "disconnected" rather than blank cards.
pub proof fn lemma_everything_failed(slots: Seq<Slot>, results: Seq<Result<Json, Error>>, n: nat)
    requires
        n <= slots.len(),
        n <= results.len(),
        forall|i: int| 0 <= i < n ==> #[trigger] results[i] is Err,
    ensures
        forall|s: Slot| #[trigger] last_ok(slots, results, s, n) is None,
        failures_of(slots, results, n).len() == n,
    decreases n,
{
    if n > 0 {
        lemma_everything_failed(slots, results, (n - 1) as nat);
        assert(results[n - 1] is Err);
        assert forall|s: Slot| #[trigger] last_ok(slots, results, s, n) is None by {
            assert(last_ok(slots, results, s, (n - 1) as nat) is None);
        }
    }
}

/// A focused window polls on every tick; an unfocused one exactly on every
/// sixth, so it is never more than five ticks from a poll.
pub proof fn lemma_poll_cadence(tick: u64)
    ensures
        should_poll_spec(true, tick),
        should_poll_spec(false, tick) <==> tick % 6 == 0,
        tick <= u64::MAX - 6 ==> exists|k: u64| tick <= k < tick + 6 && #[trigger] should_poll_spec(false, k),
{
    if tick <= u64::MAX - 6 {
        let k = (tick + (6 - tick % 6) % 6) as u64;
        assert(k % 6 == 0);
        assert(should_poll_spec(false, k));
    }
}

/// Whether a tick polls: every tick when focused, every `UNFOCUSED_EVERY`th
/// otherwise.
pub open spec fn should_poll_spec(focused: bool, tick: u64) -> bool {
    focused || tick % UNFOCUSED_EVERY == 0
}


// ---------------------------------------------------------------------------
// What the app does when a refresh or a login fails.

/// How many refreshes in a row may fail before the window says it is
/// disconnected.
pub const FAILURES_BEFORE_DISCONNECTED: u32 = 3;

/// What to do after a failed refresh.
#[derive(Debug, Clone, Copy, PartialEq, Eq)]
pub enum Reaction {
    /// The session expired: drop the connection and ask for a login rather
    /// than retrying forever against a sid DSM has already thrown away.
    AskToLogIn,
    /// Enough refreshes in a row have failed to say so.
    ShowDisconnected,
    /// Keep polling; one failure is not an outage.
    KeepTrying,
}

/// The count of failures in a row after one more, and what to do about it:
/// a lost session asks for a login (and resets nothing, the connection is
/// gone); otherwise the count grows, saturating, and reaching
/// `FAILURES_BEFORE_DISCONNECTED` shows the window as disconnected.
pub open spec fn reaction_to(failures: u32, e: ErrorView) -> (u32, Reaction) {
    if e matches ErrorView::Dsm(d) && session_code(d.code) {
        (failures, Reaction::AskToLogIn)
    } else {
        let next: u32 = if failures == u32::MAX { u32::MAX } else { (failures + 1) as u32 };
        (next, if next >= FAILURES_BEFORE_DISCONNECTED { Reaction::ShowDisconnected } else { Reaction::KeepTrying })
    }
}

/// Decide what a failed refresh means, given how many failed before it.
pub fn after_failure(failures: u32, e: &Error) -> (r: (u32, Reaction))
    ensures
        r == reaction_to(failures, e@),
{
    if e.needs_login() {
        return (failures, Reaction::AskToLogIn);
    }
    let next = if failures == u32::MAX { u32::MAX } else { failures + 1 };
    (next, if next >= FAILURES_BEFORE_DISCONNECTED { Reaction::ShowDisconnected } else { Reaction::KeepTrying })
}

/// What to do after a failed login.
#[derive(Debug, Clone, Copy, PartialEq, Eq)]
pub enum LoginReaction {
    /// DSM wants a second factor: not a failure, the next step. Ask again
    /// with the code field showing.
    AskForCode,
    /// Say what went wrong.
    Report,
}

/// A DiskStation asking for a two-factor code (before one was given) gets
/// the code field; anything else is reported.
pub fn after_login_failure(e: &Error) -> (r: LoginReaction)
    ensures
        r == if e@ matches ErrorView::Dsm(d) && (d.code == 403 || d.code == 406) {
            LoginReaction::AskForCode
        } else {
            LoginReaction::Report
        },
{
    match e {
        Error::Dsm(d) => if d.needs_otp() {
            LoginReaction::AskForCode
        } else {
            LoginReaction::Report
        },
        _ => LoginReaction::Report,
    }
}

/// Failures only ever push toward disconnected: the count never goes down
/// on a failure, and once it reaches the threshold every further failure
/// that is not a lost session says disconnected.
pub proof fn lemma_failures_only_escalate(failures: u32, e: ErrorView)
    ensures
        reaction_to(failures, e).0 >= failures,
        failures >= FAILURES_BEFORE_DISCONNECTED && reaction_to(failures, e).1 != Reaction::AskToLogIn
            ==> reaction_to(failures, e).1 == Reaction::ShowDisconnected,
{
}

/// Only a lost session asks for a login: DSM's session codes 105, 106, 107
/// and 119. Every other failure — a network error, a malformed reply, any
/// other refusal — counts one more failure in a row (saturating), keeps
/// trying below three and shows the window disconnected from three on.
pub proof fn lemma_only_a_lost_session_asks_to_log_in(failures: u32, e: ErrorView)
    ensures
        (reaction_to(failures, e).1 == Reaction::AskToLogIn) <==> (e matches ErrorView::Dsm(d) && (d.code == 105
            || d.code == 106 || d.code == 107 || d.code == 119)),
        reaction_to(failures, e).1 == Reaction::AskToLogIn ==> reaction_to(failures, e).0 == failures,
        !(e matches ErrorView::Dsm(d) && (d.code == 105 || d.code == 106 || d.code == 107 || d.code == 119)) ==> {
            &&& reaction_to(failures, e).0 == if failures == u32::MAX { u32::MAX } else { (failures + 1) as u32 }
            &&& reaction_to(failures, e).1 == if reaction_to(failures, e).0 >= 3 {
                Reaction::ShowDisconnected
            } else {
                Reaction::KeepTrying
            }
        },
{
}

} // verus!
