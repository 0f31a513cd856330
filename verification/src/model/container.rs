//! Container Manager: `SYNO.Docker.Container` and `SYNO.Docker.Project`.
//!
//! Absent entirely when Container Manager is not installed, which is why
//! every caller checks the capabilities before asking.

use vstd::prelude::*;

use super::storage::{holds_text, strings_in, strings_of, views, deref_all};
use super::{items, items_at, opt_text, opt_view, text_at, text_or_empty};
use crate::dsm::{
    as_bool, as_i64, as_u64, as_unix_seconds, field_u64, opt_read_bool, opt_read_i64,
    opt_read_u64, opt_unix_seconds,
};
use crate::json::{Json, Number};
use crate::sorting::{keys_sorted, lemma_sort_by_permutes, lemma_sort_by_sorted, sort_by, sort_by_text};
use crate::text::{ascii_lower, ascii_lowercase, chars_are, same_text};

verus! {

/// A container's health-check verdict. Absent, not "unknown", when the image
/// defines no health check.
#[derive(Debug, Clone, Copy, PartialEq, Eq)]
pub enum ContainerHealth {
    Healthy,
    Unhealthy,
    /// Inside its `start_period`, or probing and not yet passing.
    Starting,
}

/// What a container is doing.
#[derive(Debug, Clone, Copy, PartialEq, Eq)]
pub enum State {
    Running,
    Paused,
    Restarting,
    Exited,
    Unknown,
}

impl Default for State {
    fn default() -> (r: State)
        ensures
            r == State::Unknown,
    {
        State::Unknown
    }
}

pub open spec fn health_word(word: Seq<char>) -> Option<ContainerHealth> {
    let w = ascii_lower(word);
    if w == "healthy"@ {
        Some(ContainerHealth::Healthy)
    } else if w == "unhealthy"@ {
        Some(ContainerHealth::Unhealthy)
    } else if w == "starting"@ {
        Some(ContainerHealth::Starting)
    } else {
        None
    }
}

/// The state a status word names, without regard to ASCII case. A word
/// nobody has seen before is Unknown rather than Running.
pub open spec fn state_word(word: Seq<char>) -> State {
    let w = ascii_lower(word);
    if w == "running"@ {
        State::Running
    } else if w == "paused"@ {
        State::Paused
    } else if w == "restarting"@ {
        State::Restarting
    } else if w == "exited"@ || w == "stopped"@ || w == "created"@ {
        State::Exited
    } else {
        State::Unknown
    }
}

impl ContainerHealth {
    pub fn from_word(word: &str) -> (r: Option<ContainerHealth>)
        ensures
            r == health_word(word@),
    {
        let w = ascii_lowercase(word);
        if chars_are(&w, "healthy") {
            Some(ContainerHealth::Healthy)
        } else if chars_are(&w, "unhealthy") {
            Some(ContainerHealth::Unhealthy)
        } else if chars_are(&w, "starting") {
            Some(ContainerHealth::Starting)
        } else {
            None
        }
    }
}

impl State {
    pub fn from_word(word: &str) -> (r: State)
        ensures
            r == state_word(word@),
    {
        let w = ascii_lowercase(word);
        if chars_are(&w, "running") {
            State::Running
        } else if chars_are(&w, "paused") {
            State::Paused
        } else if chars_are(&w, "restarting") {
            State::Restarting
        } else if chars_are(&w, "exited") || chars_are(&w, "stopped") || chars_are(&w, "created") {
            State::Exited
        } else {
            State::Unknown
        }
    }

    pub open spec fn up(self) -> bool {
        self is Running || self is Restarting || self is Paused
    }

    /// Whether a Stop button or a Start button belongs on the row.
    pub fn is_up(&self) -> (r: bool)
        ensures
            r == self.up(),
    {
        match self {
            State::Running | State::Restarting | State::Paused => true,
            _ => false,
        }
    }
}

#[derive(Debug, Clone, PartialEq, Eq)]
pub struct Container {
    pub id: String,
    pub name: String,
    pub image: String,
    pub state: State,
    /// The raw status word, for display where the exact wording matters.
    pub status: String,
    /// Seconds, from the flat `up_time` — which DSM sends as null for every
    /// compose-managed container. [`Container::uptime_at`] is what to ask.
    pub uptime: Option<u64>,
    /// Unix seconds from `State.StartedAt`, populated when `up_time` is not.
    pub started_at: Option<u64>,
    /// The health check's verdict, when the image defines one.
    pub health: Option<ContainerHealth>,
    /// Why a stopped container stopped.
    pub exit_code: Option<i64>,
    /// It was killed for memory rather than by anyone.
    pub oom_killed: bool,
    /// Containers DSM installed for a package: DSM manages their lifecycle,
    /// so they are offered no buttons.
    pub is_package: bool,
    /// CPU use in percent, as the JSON number `SYNO.Docker.Container.Resource`
    /// sent (a separate call).
    pub cpu_percent: Option<Number>,
    pub memory_bytes: Option<u64>,
}

impl Default for Container {
    fn default() -> (r: Container)
        ensures
            r.id@.len() == 0 && r.name@.len() == 0 && r.image@.len() == 0,
            r.state == State::Unknown && r.status@.len() == 0,
            r.uptime is None && r.started_at is None && r.health is None && r.exit_code is None,
            !r.oom_killed && !r.is_package && r.cpu_percent is None && r.memory_bytes is None,
    {
        Container {
            id: String::new(),
            name: String::new(),
            image: String::new(),
            state: State::Unknown,
            status: String::new(),
            uptime: None,
            started_at: None,
            health: None,
            exit_code: None,
            oom_killed: false,
            is_package: false,
            cpu_percent: None,
            memory_bytes: None,
        }
    }
}

pub open spec fn flag_or_false(o: Option<bool>) -> bool {
    match o {
        Some(b) => b,
        None => false,
    }
}

pub open spec fn inner_field(o: Option<Json>, key: Seq<char>) -> Option<Json> {
    match o {
        Some(j) => j.field(key),
        None => None,
    }
}

/// How one element of the container listing reads. Everything worth knowing
/// about a running container lives in the capitalised `State` object beside
/// the flat fields; `up_time` there is seconds.
pub open spec fn container_reads(r: Container, v: Json) -> bool {
    let status = text_or_empty(v, "status"@);
    let state_object = v.field("State"@);
    let health_object = inner_field(state_object, "Health"@);
    &&& r.id@ == text_or_empty(v, "id"@)
    &&& r.name@ == text_or_empty(v, "name"@)
    &&& r.image@ == text_or_empty(v, "image"@)
    &&& r.state == state_word(status)
    &&& r.status@ == status
    &&& r.uptime == opt_read_u64(v.field("up_time"@))
    &&& r.started_at == opt_unix_seconds(inner_field(state_object, "StartedAt"@))
    &&& r.health == match inner_field(health_object, "Status"@) {
        Some(s) => match s.text_of() {
            Some(w) => health_word(w),
            None => None,
        },
        None => None,
    }
    &&& r.exit_code == opt_read_i64(inner_field(state_object, "ExitCode"@))
    &&& r.oom_killed == flag_or_false(opt_read_bool(inner_field(state_object, "OOMKilled"@)))
    &&& r.is_package == flag_or_false(opt_read_bool(v.field("is_package"@)))
    &&& r.cpu_percent is None
    &&& r.memory_bytes is None
}

/// A resource entry's CPU figure: any JSON number.
pub open spec fn cpu_of(entry: Json) -> Option<Number> {
    match entry.field("cpu"@) {
        Some(Json::Number(n)) => Some(n),
        _ => None,
    }
}

/// The first container with a name.
pub open spec fn first_named(cs: Seq<Container>, name: Seq<char>) -> Option<int>
    decreases cs.len(),
{
    if cs.len() == 0 {
        None
    } else if cs[0].name@ == name {
        Some(0)
    } else {
        match first_named(cs.drop_first(), name) {
            Some(i) => Some(i + 1),
            None => None,
        }
    }
}

/// One resource entry folded in: the first container of that name takes its
/// CPU and memory figures; an entry for a container we do not have changes
/// nothing.
pub open spec fn apply_entry(cs: Seq<Container>, entry: Json) -> Seq<Container> {
    match first_named(cs, text_or_empty(entry, "name"@)) {
        Some(i) => cs.update(
            i,
            Container {
                cpu_percent: cpu_of(entry),
                memory_bytes: opt_read_u64(entry.field("memory"@)),
                ..cs[i]
            },
        ),
        None => cs,
    }
}

pub open spec fn apply_entries(cs: Seq<Container>, entries: Seq<Json>) -> Seq<Container>
    decreases entries.len(),
{
    if entries.len() == 0 {
        cs
    } else {
        apply_entry(apply_entries(cs, entries.drop_last()), entries.last())
    }
}

proof fn lemma_first_named(cs: Seq<Container>, name: Seq<char>, i: int)
    requires
        0 <= i <= cs.len(),
        forall|j: int| 0 <= j < i ==> cs[j].name@ != name,
    ensures
        i < cs.len() && cs[i].name@ == name ==> first_named(cs, name) == Some(i),
        i == cs.len() ==> first_named(cs, name) is None,
    decreases i,
{
    if i > 0 {
        lemma_first_named(cs.drop_first(), name, i - 1);
    }
}

pub open spec fn uptime_now(c: Container, now: u64) -> Option<u64> {
    match c.uptime {
        Some(u) => Some(u),
        None => if !c.state.up() {
            None
        } else {
            match c.started_at {
                Some(s) => Some(if now >= s { (now - s) as u64 } else { 0 }),
                None => None,
            }
        },
    }
}

impl Container {
    /// Read one element of `SYNO.Docker.Container`/`list`.
    pub fn from_json(v: &Json) -> (r: Container)
        ensures
            container_reads(r, *v),
    {
        let status = super::text(v, "status");
        let state_object = v.get("State");
        let health_object = match state_object {
            Some(s) => s.get("Health"),
            None => None,
        };
        let started_at = match state_object {
            Some(s) => match s.get("StartedAt") {
                Some(t) => as_unix_seconds(t),
                None => None,
            },
            None => None,
        };
        let health = match health_object {
            Some(h) => match h.get("Status") {
                Some(w) => match w.as_str() {
                    Some(t) => ContainerHealth::from_word(t),
                    None => None,
                },
                None => None,
            },
            None => None,
        };
        let exit_code = match state_object {
            Some(s) => match s.get("ExitCode") {
                Some(c) => as_i64(c),
                None => None,
            },
            None => None,
        };
        let oom = match state_object {
            Some(s) => match s.get("OOMKilled") {
                Some(b) => as_bool(b),
                None => None,
            },
            None => None,
        };
        let package = match v.get("is_package") {
            Some(b) => as_bool(b),
            None => None,
        };
        Container {
            id: super::text(v, "id"),
            name: super::text(v, "name"),
            image: super::text(v, "image"),
            state: State::from_word(status.as_str()),
            status,
            uptime: field_u64(v, "up_time"),
            started_at,
            health,
            exit_code,
            oom_killed: match oom {
                Some(b) => b,
                None => false,
            },
            is_package: match package {
                Some(b) => b,
                None => false,
            },
            cpu_percent: None,
            memory_bytes: None,
        }
    }

    /// How long it has been up, given the time now: `up_time` when DSM sent
    /// one, otherwise the time since `State.StartedAt` — but only while it
    /// is up, since a stopped container keeps the time it last started.
    pub fn uptime_at(&self, now_unix_seconds: u64) -> (r: Option<u64>)
        ensures
            r == uptime_now(*self, now_unix_seconds),
    {
        if let Some(uptime) = self.uptime {
            return Some(uptime);
        }
        if !self.state.is_up() {
            return None;
        }
        match self.started_at {
            Some(started) => Some(if now_unix_seconds >= started {
                now_unix_seconds - started
            } else {
                0
            }),
            None => None,
        }
    }

    /// Read a whole `list` reply.
    pub fn list_from_json(data: &Json) -> (r: Vec<Container>)
        ensures
            r@.len() == items_at(*data, "containers"@).len(),
            forall|i: int| 0 <= i < r@.len() ==> container_reads(#[trigger] r@[i], items_at(*data, "containers"@)[i]),
    {
        let list = items(data, "containers");
        let mut out: Vec<Container> = Vec::new();
        let mut i: usize = 0;
        while i < list.len()
            invariant
                i <= list@.len(),
                out@.len() == i,
                forall|j: int| 0 <= j < i ==> container_reads(#[trigger] out@[j], list@[j]),
            decreases list.len() - i,
        {
            out.push(Container::from_json(&list[i]));
            i = i + 1;
        }
        out
    }

    /// Fold in the separate resource reply, matching on name.
    pub fn apply_resources(containers: &mut Vec<Container>, data: &Json)
        ensures
            final(containers)@ == apply_entries(old(containers)@, items_at(*data, "containers"@)),
    {
        let list = items(data, "containers");
        let ghost start = containers@;
        let mut i: usize = 0;
        while i < list.len()
            invariant
                i <= list@.len(),
                containers@ == apply_entries(start, list@.subrange(0, i as int)),
            decreases list.len() - i,
        {
            assert(list@.subrange(0, i + 1).drop_last() =~= list@.subrange(0, i as int));
            let entry = &list[i];
            let name = super::text(entry, "name");
            let mut k: usize = 0;
            while k < containers.len()
                invariant
                    k <= containers@.len(),
                    forall|j: int| 0 <= j < k ==> containers@[j].name@ != name@,
                ensures
                    k <= containers@.len(),
                    forall|j: int| 0 <= j < k ==> containers@[j].name@ != name@,
                    k < containers@.len() ==> containers@[k as int].name@ == name@,
                decreases containers.len() - k,
            {
                if same_text(containers[k].name.as_str(), name.as_str()) {
                    break;
                }
                k = k + 1;
            }
            proof {
                lemma_first_named(containers@, name@, k as int);
            }
            if k < containers.len() {
                let cpu = match entry.get("cpu") {
                    Some(Json::Number(n)) => Some(*n),
                    _ => None,
                };
                let memory = field_u64(entry, "memory");
                let ghost before = containers@;
                let updated = {
                    let c = &containers[k];
                    Container {
                        id: c.id.clone(),
                        name: c.name.clone(),
                        image: c.image.clone(),
                        state: c.state,
                        status: c.status.clone(),
                        uptime: c.uptime,
                        started_at: c.started_at,
                        health: c.health,
                        exit_code: c.exit_code,
                        oom_killed: c.oom_killed,
                        is_package: c.is_package,
                        cpu_percent: cpu,
                        memory_bytes: memory,
                    }
                };
                assert(first_named(before, text_or_empty(*entry, "name"@)) == Some(k as int));
                assert(cpu == cpu_of(*entry));
                assert(updated == Container { cpu_percent: cpu_of(*entry), memory_bytes: opt_read_u64(entry.field("memory"@)), ..before[k as int] });
                containers.set(k, updated);
                assert(containers@ =~= apply_entry(before, *entry));
            }
            i = i + 1;
        }
        assert(list@.subrange(0, list@.len() as int) =~= list@);
    }
}


/// A Container Manager Project — a compose file and the containers it owns.
#[derive(Debug, Clone, PartialEq, Eq)]
pub struct Project {
    /// A UUID; every project verb takes this, quoted.
    pub id: String,
    pub name: String,
    /// DSM sends this upper case — `"RUNNING"` — and it is kept verbatim.
    pub status: String,
    /// Where the compose file lives: `path` (`/volume1/docker/web`) rather
    /// than `share_path`, which is relative to the share.
    pub path: Option<String>,
    pub container_ids: Vec<String>,
}

impl Default for Project {
    fn default() -> (r: Project)
        ensures
            r.id@.len() == 0 && r.name@.len() == 0 && r.status@.len() == 0,
            r.path is None && r.container_ids@.len() == 0,
    {
        Project { id: String::new(), name: String::new(), status: String::new(), path: None, container_ids: Vec::new() }
    }
}

/// A project's location: `path` when the entry has that key, else
/// `share_path`; either way only non-empty text counts.
pub open spec fn project_path(v: Json) -> Option<Seq<char>> {
    let chosen = match v.field("path"@) {
        Some(p) => Some(p),
        None => v.field("share_path"@),
    };
    match chosen {
        Some(p) => match p.text_of() {
            Some(t) => if t.len() > 0 { Some(t) } else { None },
            None => None,
        },
        None => None,
    }
}

/// How one entry of `SYNO.Docker.Project`/`list` reads.
pub open spec fn project_reads(r: Project, v: Json) -> bool {
    &&& r.id@ == text_or_empty(v, "id"@)
    &&& r.name@ == text_or_empty(v, "name"@)
    &&& r.status@ == text_or_empty(v, "status"@)
    &&& opt_view(r.path) == project_path(v)
    &&& views(r.container_ids@) == strings_in(items_at(v, "containerIds"@))
}

/// The object values of a reply keyed by id, in the order they came.
pub open spec fn object_values(entries: Seq<(String, Json)>) -> Seq<Json>
    decreases entries.len(),
{
    if entries.len() == 0 {
        Seq::empty()
    } else {
        let before = object_values(entries.drop_last());
        if entries.last().1 is Object {
            before.push(entries.last().1)
        } else {
            before
        }
    }
}

pub open spec fn project_name(p: Project) -> Seq<char> {
    p.name@
}

/// Projects ordered by name, stably.
pub open spec fn projects_by_name(s: Seq<Project>) -> Seq<Project> {
    sort_by(s, |p: Project| project_name(p))
}

/// Whether a project claims a container.
pub open spec fn claims(p: Project, c: Container) -> bool {
    views(p.container_ids@).contains(c.id@)
}

pub open spec fn owned_by(p: Project, cs: Seq<Container>) -> Seq<Container>
    decreases cs.len(),
{
    if cs.len() == 0 {
        Seq::empty()
    } else {
        let before = owned_by(p, cs.drop_last());
        if claims(p, cs.last()) {
            before.push(cs.last())
        } else {
            before
        }
    }
}

/// The first project that claims a container.
pub open spec fn owner_index(ps: Seq<Project>, c: Container) -> Option<int>
    decreases ps.len(),
{
    if ps.len() == 0 {
        None
    } else if claims(ps[0], c) {
        Some(0)
    } else {
        match owner_index(ps.drop_first(), c) {
            Some(i) => Some(i + 1),
            None => None,
        }
    }
}

pub open spec fn unowned(ps: Seq<Project>, cs: Seq<Container>) -> Seq<Container>
    decreases cs.len(),
{
    if cs.len() == 0 {
        Seq::empty()
    } else {
        let before = unowned(ps, cs.drop_last());
        if owner_index(ps, cs.last()) is None {
            before.push(cs.last())
        } else {
            before
        }
    }
}

proof fn lemma_owner_index(ps: Seq<Project>, c: Container, i: int)
    requires
        0 <= i <= ps.len(),
        forall|j: int| 0 <= j < i ==> !claims(ps[j], c),
    ensures
        i < ps.len() && claims(ps[i], c) ==> owner_index(ps, c) == Some(i),
        i == ps.len() ==> owner_index(ps, c) is None,
    decreases i,
{
    if i > 0 {
        lemma_owner_index(ps.drop_first(), c, i - 1);
    }
}

fn project_from(v: &Json) -> (r: Project)
    ensures
        project_reads(r, *v),
{
    let chosen = match v.get("path") {
        Some(p) => Some(p),
        None => v.get("share_path"),
    };
    let path = match chosen {
        Some(p) => match p.as_str() {
            Some(t) => if t.is_empty() {
                None
            } else {
                Some(String::from_str(t))
            },
            None => None,
        },
        None => None,
    };
    Project {
        id: super::text(v, "id"),
        name: super::text(v, "name"),
        status: super::text(v, "status"),
        path,
        container_ids: strings_of(items(v, "containerIds")),
    }
}

impl Project {
    /// Read `SYNO.Docker.Project`/`list`, which answers with an object keyed
    /// by project id rather than an array. Sorted by name, so the list does
    /// not reshuffle between polls.
    pub fn list_from_json(data: &Json) -> (r: Vec<Project>)
        ensures
            match *data {
                Json::Object(entries) => exists|read: Seq<Project>| {
                    &&& read.len() == object_values(entries@).len()
                    &&& forall|i: int| 0 <= i < read.len() ==> project_reads(#[trigger] read[i], object_values(entries@)[i])
                    &&& r@ == #[trigger] projects_by_name(read)
                },
                _ => r@.len() == 0,
            },
    {
        let entries = match data.as_object() {
            Some(e) => e,
            None => return Vec::new(),
        };
        let mut read: Vec<Project> = Vec::new();
        let mut names: Vec<String> = Vec::new();
        let mut i: usize = 0;
        while i < entries.len()
            invariant
                i <= entries@.len(),
                read@.len() == object_values(entries@.subrange(0, i as int)).len(),
                names@.len() == read@.len(),
                forall|j: int| 0 <= j < read@.len() ==> project_reads(#[trigger] read@[j], object_values(entries@.subrange(0, i as int))[j]),
                forall|j: int| 0 <= j < read@.len() ==> #[trigger] names@[j]@ == project_name(read@[j]),
            decreases entries.len() - i,
        {
            assert(entries@.subrange(0, i + 1).drop_last() =~= entries@.subrange(0, i as int));
            if entries[i].1.is_object() {
                let p = project_from(&entries[i].1);
                names.push(p.name.clone());
                read.push(p);
            }
            i = i + 1;
        }
        assert(entries@.subrange(0, entries@.len() as int) =~= entries@);
        let ghost key = |p: Project| project_name(p);
        let ghost read_all = read@;
        let r = sort_by_text(read, names, Ghost(key));
        assert(r@ == projects_by_name(read_all));
        r
    }

    /// The containers this project owns, by its `containerIds`.
    pub fn containers_in<'a>(&self, containers: &'a [Container]) -> (r: Vec<&'a Container>)
        ensures
            deref_all(r@) == owned_by(*self, containers@),
    {
        let mut out: Vec<&Container> = Vec::new();
        let mut i: usize = 0;
        while i < containers.len()
            invariant
                i <= containers@.len(),
                deref_all(out@) == owned_by(*self, containers@.subrange(0, i as int)),
            decreases containers.len() - i,
        {
            assert(containers@.subrange(0, i + 1).drop_last() =~= containers@.subrange(0, i as int));
            let ghost before = out@;
            if holds_text(&self.container_ids, containers[i].id.as_str()) {
                out.push(&containers[i]);
                assert(deref_all(out@) =~= deref_all(before).push(containers@[i as int]));
            }
            i = i + 1;
        }
        assert(containers@.subrange(0, containers@.len() as int) =~= containers@);
        out
    }
}

/// The project that owns a container, if any: the first that claims it.
pub fn owning_project<'a>(projects: &'a [Project], container: &Container) -> (r: Option<&'a Project>)
    ensures
        match owner_index(projects@, *container) {
            Some(i) => r matches Some(p) && *p == projects@[i],
            None => r is None,
        },
{
    let mut i: usize = 0;
    while i < projects.len()
        invariant
            i <= projects@.len(),
            forall|j: int| 0 <= j < i ==> !claims(projects@[j], *container),
        decreases projects.len() - i,
    {
        if holds_text(&projects[i].container_ids, container.id.as_str()) {
            proof {
                lemma_owner_index(projects@, *container, i as int);
            }
            return Some(&projects[i]);
        }
        i = i + 1;
    }
    proof {
        lemma_owner_index(projects@, *container, i as int);
    }
    None
}

/// Containers no project claims: plain `docker run` containers, and the ones
/// DSM created for a package. They would otherwise vanish from a
/// project-grouped view.
pub fn unowned_containers<'a>(projects: &[Project], containers: &'a [Container]) -> (r: Vec<&'a Container>)
    ensures
        deref_all(r@) == unowned(projects@, containers@),
{
    let mut out: Vec<&Container> = Vec::new();
    let mut i: usize = 0;
    while i < containers.len()
        invariant
            i <= containers@.len(),
            deref_all(out@) == unowned(projects@, containers@.subrange(0, i as int)),
        decreases containers.len() - i,
    {
        assert(containers@.subrange(0, i + 1).drop_last() =~= containers@.subrange(0, i as int));
        let ghost before = out@;
        if owning_project(projects, &containers[i]).is_none() {
            out.push(&containers[i]);
            assert(deref_all(out@) =~= deref_all(before).push(containers@[i as int]));
        }
        i = i + 1;
    }
    assert(containers@.subrange(0, containers@.len() as int) =~= containers@);
    out
}

// ---------------------------------------------------------------------------
// What the container readers guarantee.

/// Every container is reachable: it is among the containers of the project
/// that owns it, or among the unowned ones when no project claims it.
pub proof fn lemma_every_container_is_reachable(ps: Seq<Project>, cs: Seq<Container>, k: int)
    requires
        0 <= k < cs.len(),
    ensures
        owner_index(ps, cs[k]) matches Some(i) ==> owned_by(ps[i], cs).contains(cs[k]),
        owner_index(ps, cs[k]) is None ==> unowned(ps, cs).contains(cs[k]),
    decreases cs.len(),
{
    lemma_owner_claims(ps, cs[k]);
    let last = cs.len() - 1;
    if k < last {
        lemma_every_container_is_reachable(ps, cs.drop_last(), k);
        assert(cs.drop_last()[k] == cs[k]);
        match owner_index(ps, cs[k]) {
            Some(i) => {
                let before = owned_by(ps[i], cs.drop_last());
                let j = choose|j: int| 0 <= j < before.len() && before[j] == cs[k];
                if claims(ps[i], cs.last()) {
                    assert(before.push(cs.last())[j] == cs[k]);
                }
            },
            None => {
                let before = unowned(ps, cs.drop_last());
                let j = choose|j: int| 0 <= j < before.len() && before[j] == cs[k];
                if owner_index(ps, cs.last()) is None {
                    assert(before.push(cs.last())[j] == cs[k]);
                }
            },
        }
    } else {
        match owner_index(ps, cs[k]) {
            Some(i) => {
                let r = owned_by(ps[i], cs);
                assert(r[r.len() - 1] == cs[k]);
            },
            None => {
                let r = unowned(ps, cs);
                assert(r[r.len() - 1] == cs[k]);
            },
        }
    }
}

/// The owner a container is given claims it, and it is the first that does.
pub proof fn lemma_owner_claims(ps: Seq<Project>, c: Container)
    ensures
        owner_index(ps, c) matches Some(i) ==> 0 <= i < ps.len() && claims(ps[i], c) && forall|j: int|
            0 <= j < i ==> !claims(#[trigger] ps[j], c),
        owner_index(ps, c) is None ==> forall|j: int| 0 <= j < ps.len() ==> !claims(#[trigger] ps[j], c),
    decreases ps.len(),
{
    if ps.len() > 0 {
        lemma_owner_claims(ps.drop_first(), c);
        assert forall|j: int| 1 <= j < ps.len() implies ps[j] == ps.drop_first()[j - 1] by {}
    }
}


/// The project list is in name order, and holds exactly the projects that
/// were read, each as often as it was read.
pub proof fn lemma_projects_listed_by_name(read: Seq<Project>)
    ensures
        keys_sorted(projects_by_name(read), |p: Project| project_name(p)),
        projects_by_name(read).to_multiset() == read.to_multiset(),
{
    lemma_sort_by_sorted(read, |p: Project| project_name(p));
    lemma_sort_by_permutes(read, |p: Project| project_name(p));
}

/// The project list read from a reply: in name order, one project for each
/// object member and no other, each holding what its member says — its path
/// from `path`, or from `share_path` when `path` is absent, and none when
/// that is not a non-empty string.
pub proof fn lemma_project_list(entries: Seq<(String, Json)>, read: Seq<Project>)
    requires
        read.len() == object_values(entries).len(),
        forall|i: int| 0 <= i < read.len() ==> project_reads(#[trigger] read[i], object_values(entries)[i]),
    ensures
        keys_sorted(projects_by_name(read), |p: Project| project_name(p)),
        projects_by_name(read).len() == object_values(entries).len(),
        forall|k: int| 0 <= k < projects_by_name(read).len() ==> exists|i: int|
            0 <= i < object_values(entries).len() && project_reads(#[trigger] projects_by_name(read)[k], object_values(entries)[i])
                && opt_view(projects_by_name(read)[k].path) == project_path(object_values(entries)[i]),
{
    broadcast use vstd::seq_lib::group_to_multiset_ensures;

    lemma_projects_listed_by_name(read);
    let out = projects_by_name(read);
    assert(out.len() == out.to_multiset().len());
    assert forall|k: int| 0 <= k < out.len() implies exists|i: int|
        0 <= i < object_values(entries).len() && project_reads(#[trigger] out[k], object_values(entries)[i])
            && opt_view(out[k].path) == project_path(object_values(entries)[i]) by {
        assert(out.contains(out[k]));
        assert(out.to_multiset().count(out[k]) > 0);
        assert(read.contains(out[k]));
        let i = choose|i: int| 0 <= i < read.len() && read[i] == out[k];
        assert(project_reads(read[i], object_values(entries)[i]));
    }
}

/// A container is up when it is running, restarting or paused — a
/// restarting container is still up and is offered Stop and Restart — and
/// down when it has exited or its state is unknown; the status words read
/// so, in any case.
pub proof fn lemma_up_states(s: State, word: Seq<char>)
    ensures
        s.up() <==> (s == State::Running || s == State::Restarting || s == State::Paused),
        ascii_lower(word) == "running"@ || ascii_lower(word) == "restarting"@ || ascii_lower(word) == "paused"@
            ==> state_word(word).up(),
        ascii_lower(word) == "exited"@ || ascii_lower(word) == "stopped"@ || ascii_lower(word) == "created"@
            ==> !state_word(word).up(),
{
    reveal_strlit("running");
    reveal_strlit("restarting");
    reveal_strlit("paused");
    reveal_strlit("exited");
    reveal_strlit("stopped");
    reveal_strlit("created");
    let w = ascii_lower(word);
    if w == "exited"@ || w == "stopped"@ || w == "created"@ {
        assert(w[0] != 'r' && w[0] != 'p');
        assert("running"@[0] == 'r' && "restarting"@[0] == 'r' && "paused"@[0] == 'p');
        assert(w != "running"@ && w != "restarting"@ && w != "paused"@);
    }
}

} // verus!
