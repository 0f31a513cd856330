//! What the pages show, decided apart from drawing it.
//!
//! Each function here takes records and returns the words, badges and style
//! classes a page puts on screen. The widgets only place them; which word a
//! verdict reads as, which badge a row earns and which tile warns are
//! decisions, and they are made here.

use vstd::prelude::*;

use crate::action::ContainerAction;
use crate::model::container::state_word as state_named;
use crate::model::container::{Container, ContainerHealth, State};
use crate::model::log::Severity;
use crate::model::network::{speed_phrase, NetworkInterface};
use crate::model::opt_view;
use crate::model::package::{update_waiting, Package};
use crate::model::power::{fan_mode_label, runtime_phrase, ups_phrase, Cooling, Ups};
use crate::model::session::Session;
use crate::model::share::Share;
use crate::model::storage::{all_verdicts, worst, Disk, Health, Storage, Volume};
use crate::model::system::{is_white_space, SystemInfo};
use crate::poll::Snapshot;
use crate::text::{
    ascii_lower, char_to_uppercase, char_uppercase, chars_of, decimal, i64_text, signed_decimal, string_from_chars,
    to_lowercase, u64_text, unicode_lowercase, same_text,
};
use crate::sorting::{sort_by_number, sort_by_number_key};
use crate::trend::{Range, Sample};

verus! {

/// Severity, as the style classes Adwaita already defines.
pub open spec fn class_of(health: Health) -> Seq<char> {
    match health {
        Health::Normal => "success"@,
        Health::Warning => "warning"@,
        Health::Critical => "error"@,
        Health::Unknown => "dim-label"@,
    }
}

pub open spec fn word_of(health: Health) -> Seq<char> {
    match health {
        Health::Normal => "Normal"@,
        Health::Warning => "Warning"@,
        Health::Critical => "Critical"@,
        Health::Unknown => "Unknown"@,
    }
}

/// The style class a verdict is coloured with.
pub fn health_class(health: Health) -> (r: &'static str)
    ensures
        r@ == class_of(health),
{
    match health {
        Health::Normal => "success",
        Health::Warning => "warning",
        Health::Critical => "error",
        Health::Unknown => "dim-label",
    }
}

/// The word a verdict reads as.
pub fn health_word(health: Health) -> (r: &'static str)
    ensures
        r@ == word_of(health),
{
    match health {
        Health::Normal => "Normal",
        Health::Warning => "Warning",
        Health::Critical => "Critical",
        Health::Unknown => "Unknown",
    }
}

// ---------------------------------------------------------------------------
// DSM's compound status words.

/// `s` with every leading repetition of `p` taken off, as
/// `str::trim_start_matches` does it.
pub open spec fn strip_leading(s: Seq<char>, p: Seq<char>) -> Seq<char>
    decreases s.len(),
{
    if p.len() > 0 && p.len() <= s.len() && s.subrange(0, p.len() as int) == p {
        strip_leading(s.skip(p.len() as int), p)
    } else {
        s
    }
}

/// Underscores as spaces.
pub open spec fn spaced(s: Seq<char>) -> Seq<char> {
    s.map_values(|c: char| if c == '_' { ' ' } else { c })
}

/// The first character upper-cased, the rest as they are.
pub open spec fn capitalised(s: Seq<char>) -> Seq<char> {
    if s.len() == 0 {
        Seq::empty()
    } else {
        char_uppercase(s[0]) + s.drop_first()
    }
}

/// `background_scrubbing` → `Scrubbing`: the `fs_` and `background_`
/// prefixes off, underscores as spaces, the first letter capitalised.
pub open spec fn pretty_status(status: Seq<char>) -> Seq<char> {
    capitalised(spaced(strip_leading(strip_leading(status, "fs_"@), "background_"@)))
}

/// Where `strip_leading` leaves off in `cs[a..]`.
fn strip_leading_from(cs: &Vec<char>, a: usize, p: &str) -> (r: usize)
    requires
        a <= cs.len(),
    ensures
        a <= r <= cs.len(),
        cs@.subrange(r as int, cs@.len() as int) == strip_leading(cs@.subrange(a as int, cs@.len() as int), p@),
{
    let pc = chars_of(p);
    let mut i: usize = a;
    loop
        invariant
            a <= i <= cs.len(),
            pc@ == p@,
            strip_leading(cs@.subrange(a as int, cs@.len() as int), p@) == strip_leading(
                cs@.subrange(i as int, cs@.len() as int),
                p@,
            ),
        decreases cs.len() - i,
    {
        let ghost rest = cs@.subrange(i as int, cs@.len() as int);
        if pc.len() == 0 || pc.len() > cs.len() - i {
            return i;
        }
        let mut k: usize = 0;
        while k < pc.len()
            invariant
                k <= pc.len(),
                a <= i <= cs.len(),
                i + pc.len() <= cs.len(),
                pc@ == p@,
                rest == cs@.subrange(i as int, cs@.len() as int),
                strip_leading(cs@.subrange(a as int, cs@.len() as int), p@) == strip_leading(rest, p@),
                forall|j: int| 0 <= j < k ==> cs@[i + j] == pc@[j],
            decreases pc.len() - k,
        {
            if cs[i + k] != pc[k] {
                assert(rest.subrange(0, pc@.len() as int)[k as int] != pc@[k as int]);
                return i;
            }
            k = k + 1;
        }
        assert(rest.subrange(0, pc@.len() as int) =~= pc@);
        assert(rest.skip(pc@.len() as int) =~= cs@.subrange(i + pc.len(), cs@.len() as int));
        i = i + pc.len();
    }
}

/// DSM's `summary_status` as a word to show.
///
/// `summary_status` is the field that says a volume is busy — `status` reads
/// "normal" right through a scrub — so anywhere a volume's verdict is shown
/// runs the compound word through here rather than showing the bare health.
pub fn prettify_status(status: &str) -> (r: String)
    ensures
        r@ == pretty_status(status@),
{
    let cs = chars_of(status);
    let a = strip_leading_from(&cs, 0, "fs_");
    assert(cs@.subrange(0, cs@.len() as int) =~= status@);
    let b = strip_leading_from(&cs, a, "background_");
    let ghost kept = cs@.subrange(b as int, cs@.len() as int);
    if b == cs.len() {
        assert(kept =~= Seq::<char>::empty());
        assert(spaced(kept) =~= Seq::<char>::empty());
        return String::new();
    }
    let mut out = char_to_uppercase(if cs[b] == '_' { ' ' } else { cs[b] });
    let mut rest: Vec<char> = Vec::new();
    let mut i: usize = b + 1;
    while i < cs.len()
        invariant
            b < i <= cs.len(),
            kept == cs@.subrange(b as int, cs@.len() as int),
            rest@ == spaced(kept).subrange(1, i - b),
        decreases cs.len() - i,
    {
        let c = cs[i];
        rest.push(if c == '_' { ' ' } else { c });
        assert(spaced(kept).subrange(1, i + 1 - b) =~= spaced(kept).subrange(1, i - b).push(spaced(kept)[i - b]));
        i = i + 1;
    }
    assert(spaced(kept).subrange(1, spaced(kept).len() as int) =~= spaced(kept).drop_first());
    let tail = string_from_chars(rest.as_slice());
    out.append(tail.as_str());
    out
}

/// A volume's verdict and the class to colour it: `summary_status` when DSM
/// sent one, the plain health word otherwise.
pub fn volume_status(volume: &Volume) -> (r: (String, &'static str))
    ensures
        r.0@ == match volume.summary_status {
            Some(s) => pretty_status(s@),
            None => word_of(volume.health),
        },
        r.1@ == class_of(volume.health),
{
    let word = match &volume.summary_status {
        Some(s) => prettify_status(s.as_str()),
        None => String::from_str(health_word(volume.health)),
    };
    (word, health_class(volume.health))
}

// ---------------------------------------------------------------------------
// Containers.

/// The pill a container row shows: its health when it is up and failing or
/// still starting its health check — a container that is running and
/// failing reports `running`, the one case where the state word alone
/// misleads — and its state otherwise.
pub open spec fn pill_of(c: Container) -> (Seq<char>, Seq<char>) {
    if c.state.up() && c.health == Some(ContainerHealth::Unhealthy) {
        ("Unhealthy"@, "error"@)
    } else if c.state.up() && c.health == Some(ContainerHealth::Starting) {
        ("Starting"@, "warning"@)
    } else {
        state_pill_of(c.state)
    }
}

/// A state as a word and a class.
pub open spec fn state_pill_of(s: State) -> (Seq<char>, Seq<char>) {
    match s {
        State::Running => ("Running"@, "success"@),
        State::Paused => ("Paused"@, "warning"@),
        State::Restarting => ("Restarting"@, "warning"@),
        State::Exited => ("Exited"@, "dim-label"@),
        State::Unknown => ("Unknown"@, "dim-label"@),
    }
}

/// A state as a word and the class to colour it.
pub fn state_word(state: State) -> (r: (&'static str, &'static str))
    ensures
        (r.0@, r.1@) == state_pill_of(state),
{
    match state {
        State::Running => ("Running", "success"),
        State::Paused => ("Paused", "warning"),
        State::Restarting => ("Restarting", "warning"),
        State::Exited => ("Exited", "dim-label"),
        State::Unknown => ("Unknown", "dim-label"),
    }
}

/// The pill for a container row. Health outranks state when it is up.
pub fn container_pill(container: &Container) -> (r: (&'static str, &'static str))
    ensures
        (r.0@, r.1@) == pill_of(*container),
{
    if container.state.is_up() {
        match container.health {
            Some(ContainerHealth::Unhealthy) => return ("Unhealthy", "error"),
            Some(ContainerHealth::Starting) => return ("Starting", "warning"),
            _ => {},
        }
    }
    state_word(container.state)
}

/// The health check's verdict and the class to colour it, when the image
/// defines one at all.
pub fn health_verdict(container: &Container) -> (r: Option<(&'static str, &'static str)>)
    ensures
        match container.health {
            Some(ContainerHealth::Healthy) => r matches Some(p) && p.0@ == "Healthy"@ && p.1@ == "success"@,
            Some(ContainerHealth::Unhealthy) => r matches Some(p) && p.0@ == "Unhealthy"@ && p.1@ == "error"@,
            Some(ContainerHealth::Starting) => r matches Some(p) && p.0@ == "Starting"@ && p.1@ == "warning"@,
            None => r is None,
        },
{
    match container.health {
        Some(ContainerHealth::Healthy) => Some(("Healthy", "success")),
        Some(ContainerHealth::Unhealthy) => Some(("Unhealthy", "error")),
        Some(ContainerHealth::Starting) => Some(("Starting", "warning")),
        None => None,
    }
}

// ---------------------------------------------------------------------------
// The DSM version on a tile.

/// The runs of `s` between white space, in order: what
/// `str::split_whitespace` yields.
pub open spec fn words(s: Seq<char>) -> Seq<Seq<char>>
    decreases s.len(),
{
    if s.len() == 0 {
        Seq::empty()
    } else {
        let w = words(s.drop_last());
        let c = s.last();
        if is_white_space(c) {
            w
        } else if s.len() >= 2 && !is_white_space(s[s.len() - 2]) {
            w.update(w.len() - 1, w.last().push(c))
        } else {
            w.push(seq![c])
        }
    }
}

/// The second word of `s`, up to its first `-`, or all of `s` when there is
/// no second word: "DSM 7.2.2-72806 Update 3" is too wide for a tile; the
/// release is enough.
pub open spec fn short_version(s: Seq<char>) -> Seq<char> {
    if words(s).len() >= 2 {
        crate::text::before_first(words(s)[1], '-')
    } else {
        s
    }
}

/// The bounds of the words of `cs`.
fn word_bounds(cs: &Vec<char>) -> (r: Vec<(usize, usize)>)
    ensures
        r@.len() == words(cs@).len(),
        forall|k: int|
            0 <= k < r@.len() ==> {
                &&& (#[trigger] r@[k]).0 <= r@[k].1 <= cs@.len()
                &&& cs@.subrange(r@[k].0 as int, r@[k].1 as int) == words(cs@)[k]
            },
{
    let mut bounds: Vec<(usize, usize)> = Vec::new();
    let mut i: usize = 0;
    while i < cs.len()
        invariant
            i <= cs.len(),
            bounds@.len() == words(cs@.subrange(0, i as int)).len(),
            forall|k: int|
                0 <= k < bounds@.len() ==> {
                    &&& (#[trigger] bounds@[k]).0 <= bounds@[k].1 <= i
                    &&& cs@.subrange(bounds@[k].0 as int, bounds@[k].1 as int) == words(
                        cs@.subrange(0, i as int),
                    )[k]
                },
            i > 0 && !is_white_space(cs@[i - 1]) ==> bounds@.len() > 0 && bounds@.last().1 == i,
        decreases cs.len() - i,
    {
        let ghost prefix = cs@.subrange(0, i + 1);
        let ghost before = bounds@;
        assert(prefix.drop_last() =~= cs@.subrange(0, i as int));
        assert(prefix.last() == cs@[i as int]);
        let c = cs[i];
        let white = crate::model::system::white_space(c);
        if !white {
            if i > 0 && !crate::model::system::white_space(cs[i - 1]) {
                assert(prefix[prefix.len() - 2] == cs@[i - 1]);
                let k = bounds.len() - 1;
                let (start, _) = bounds[k];
                bounds.set(k, (start, i + 1));
                assert(cs@.subrange(start as int, i + 1) =~= cs@.subrange(start as int, i as int).push(c));
                assert forall|j: int| 0 <= j < bounds@.len() implies {
                    &&& (#[trigger] bounds@[j]).0 <= bounds@[j].1 <= i + 1
                    &&& cs@.subrange(bounds@[j].0 as int, bounds@[j].1 as int) == words(prefix)[j]
                } by {
                    if j < k {
                        assert(bounds@[j] == before[j]);
                    }
                }
            } else {
                bounds.push((i, i + 1));
                assert(cs@.subrange(i as int, i + 1) =~= seq![c]);
                assert forall|j: int| 0 <= j < bounds@.len() implies {
                    &&& (#[trigger] bounds@[j]).0 <= bounds@[j].1 <= i + 1
                    &&& cs@.subrange(bounds@[j].0 as int, bounds@[j].1 as int) == words(prefix)[j]
                } by {
                    if j < before.len() {
                        assert(bounds@[j] == before[j]);
                    }
                }
            }
        }
        i = i + 1;
    }
    assert(cs@.subrange(0, cs@.len() as int) =~= cs@);
    bounds
}

/// The DSM release on a tile: "DSM 7.2.2-72806 Update 3" reads "7.2.2".
/// A string of another shape is shown as it is rather than mangled.
pub fn short_dsm(version: Option<&str>) -> (r: String)
    ensures
        r@ == match version {
            Some(v) => short_version(v@),
            None => "—"@,
        },
{
    let v = match version {
        Some(v) => v,
        None => return String::from_str("—"),
    };
    let cs = chars_of(v);
    let bounds = word_bounds(&cs);
    if bounds.len() < 2 {
        return String::from_str(v);
    }
    let (a, b) = bounds[1];
    let cut = match crate::text::find_in(&cs, a, b, '-') {
        Some(k) => a + k,
        None => b,
    };
    let mut out: Vec<char> = Vec::new();
    let mut i: usize = a;
    while i < cut
        invariant
            a <= i <= cut <= b <= cs.len(),
            out@ == cs@.subrange(a as int, i as int),
        decreases cut - i,
    {
        out.push(cs[i]);
        assert(cs@.subrange(a as int, i + 1) =~= cs@.subrange(a as int, i as int).push(cs@[i as int]));
        i = i + 1;
    }
    let ghost w = cs@.subrange(a as int, b as int);
    assert(out@ =~= crate::text::before_first(w, '-')) by {
        match crate::text::first_index(w, '-') {
            Some(k) => assert(cs@.subrange(a as int, a + k) =~= w.subrange(0, k)),
            None => {},
        }
    }
    string_from_chars(out.as_slice())
}

// ---------------------------------------------------------------------------
// Rows and tiles.

/// One row of a table page: a title, a subtitle, and an optional trailing
/// pill with its text and style class.
#[derive(Debug, Clone, PartialEq, Eq)]
pub struct Row {
    pub title: String,
    pub subtitle: String,
    pub badge: Option<(String, &'static str)>,
}

/// One tile in a page's strip: a figure, a note under it, and whether it
/// warns.
#[derive(Debug, Clone, PartialEq, Eq)]
pub struct Stat {
    pub value: String,
    pub note: String,
    pub warn: bool,
}

pub open spec fn badge_view(b: Option<(String, &'static str)>) -> Option<(Seq<char>, Seq<char>)> {
    match b {
        Some((t, c)) => Some((t@, c@)),
        None => None,
    }
}

/// A row as values.
pub open spec fn row_view(r: Row) -> (Seq<char>, Seq<char>, Option<(Seq<char>, Seq<char>)>) {
    (r.title@, r.subtitle@, badge_view(r.badge))
}

/// A tile as values.
pub open spec fn stat_view(s: Stat) -> (Seq<char>, Seq<char>, bool) {
    (s.value@, s.note@, s.warn)
}

fn row(title: &str, subtitle: &str, badge: Option<(String, &'static str)>) -> (r: Row)
    ensures
        r.title@ == title@,
        r.subtitle@ == subtitle@,
        r.badge == badge,
{
    Row { title: String::from_str(title), subtitle: String::from_str(subtitle), badge }
}

fn stat(value: String, note: &str, warn: bool) -> (r: Stat)
    ensures
        r.value == value,
        r.note@ == note@,
        r.warn == warn,
{
    Stat { value, note: String::from_str(note), warn }
}

/// `a · b`.
pub open spec fn dotted(a: Seq<char>, b: Seq<char>) -> Seq<char> {
    a + " · "@ + b
}

fn join_dotted(a: &str, b: &str) -> (r: String)
    ensures
        r@ == dotted(a@, b@),
{
    let mut out = String::from_str(a);
    out.append(" · ");
    out.append(b);
    out
}

/// How a package row reads. An update is badged with the accent, not a
/// warning: it is an invitation, not a fault.
pub open spec fn package_row_of(p: Package) -> (Seq<char>, Seq<char>, Option<(Seq<char>, Seq<char>)>) {
    (
        p.name@,
        dotted(p.version@, p.id@),
        if update_waiting(opt_view(p.available_version), p.version@) {
            Some(
                (
                    "Update to "@ + match opt_view(p.available_version) {
                        Some(v) => v,
                        None => Seq::empty(),
                    },
                    "accent"@,
                ),
            )
        } else if ascii_lower(p.status@) == "running"@ {
            Some(("Running"@, "success"@))
        } else {
            Some(("Stopped"@, "dim-label"@))
        },
    )
}

/// A package as a row of the Packages page.
pub fn package_row(p: &Package) -> (r: Row)
    ensures
        row_view(r) == package_row_of(*p),
{
    let subtitle = join_dotted(p.version.as_str(), p.id.as_str());
    let badge = if p.has_update() {
        let mut text = String::from_str("Update to ");
        match &p.available_version {
            Some(v) => text.append(v.as_str()),
            None => {},
        }
        Some((text, "accent"))
    } else if p.is_running() {
        Some((String::from_str("Running"), "success"))
    } else {
        Some((String::from_str("Stopped"), "dim-label"))
    };
    row(p.name.as_str(), subtitle.as_str(), badge)
}

/// How a session row reads; the session doing the asking is marked so it is
/// recognisable.
pub open spec fn session_row_of(s: Session) -> (Seq<char>, Seq<char>, Option<(Seq<char>, Seq<char>)>) {
    (
        s.who@,
        s.service@ + " · "@ + s.from@ + " · since "@ + s.since@,
        if s.is_current { Some(("This session"@, "accent"@)) } else { None },
    )
}

/// A session as a row of the Users & sessions page.
pub fn session_row(s: &Session) -> (r: Row)
    ensures
        row_view(r) == session_row_of(*s),
{
    let mut subtitle = join_dotted(s.service.as_str(), s.from.as_str());
    subtitle.append(" · since ");
    subtitle.append(s.since.as_str());
    let badge = if s.is_current {
        Some((String::from_str("This session"), "accent"))
    } else {
        None
    };
    row(s.who.as_str(), subtitle.as_str(), badge)
}

/// An interface's address: address and mask, the address alone, or a note
/// that there is none.
pub open spec fn address_of(ip: Option<Seq<char>>, mask: Option<Seq<char>>) -> Seq<char> {
    match (ip, mask) {
        (Some(ip), Some(mask)) => ip + " / "@ + mask,
        (Some(ip), None) => ip,
        _ => "no address"@,
    }
}

/// How an interface row reads.
pub open spec fn interface_row_of(i: NetworkInterface) -> (Seq<char>, Seq<char>, Option<(Seq<char>, Seq<char>)>) {
    (
        i.name@,
        address_of(opt_view(i.ip), opt_view(i.netmask)) + " · "@ + speed_phrase(i.speed_mbit) + " · "@ + if i.dhcp {
            "DHCP"@
        } else {
            "static"@
        },
        if ascii_lower(i.status@) == "connected"@ {
            Some(("Connected"@, "success"@))
        } else {
            Some(("Disconnected"@, "dim-label"@))
        },
    )
}

/// An interface as a row of the Network page.
pub fn interface_row(i: &NetworkInterface) -> (r: Row)
    ensures
        row_view(r) == interface_row_of(*i),
{
    let mut subtitle = match (&i.ip, &i.netmask) {
        (Some(ip), Some(mask)) => {
            let mut a = ip.clone();
            a.append(" / ");
            a.append(mask.as_str());
            a
        },
        (Some(ip), None) => ip.clone(),
        _ => String::from_str("no address"),
    };
    subtitle.append(" · ");
    let speed = i.speed_label();
    subtitle.append(speed.as_str());
    subtitle.append(" · ");
    subtitle.append(if i.dhcp { "DHCP" } else { "static" });
    let badge = if i.is_connected() {
        Some((String::from_str("Connected"), "success"))
    } else {
        Some((String::from_str("Disconnected"), "dim-label"))
    };
    row(i.name.as_str(), subtitle.as_str(), badge)
}

// ---------------------------------------------------------------------------
// Temperature & power.

/// A temperature as a figure: `42 °C`, or a dash when there is none.
pub open spec fn degrees(t: Option<i64>) -> Seq<char> {
    match t {
        Some(t) => signed_decimal(t as int) + " °C"@,
        None => "—"@,
    }
}

/// `degrees`, computed.
pub fn temperature_text(t: Option<i64>) -> (r: String)
    ensures
        r@ == degrees(t),
{
    match t {
        Some(t) => {
            let mut out = i64_text(t);
            out.append(" °C");
            out
        },
        None => String::from_str("—"),
    }
}

/// The hottest drive's temperature, since that is the one that fails first.
pub open spec fn hottest(disks: Seq<Disk>) -> Option<i64>
    decreases disks.len(),
{
    if disks.len() == 0 {
        None
    } else {
        let rest = hottest(disks.drop_last());
        match (rest, disks.last().temperature_c) {
            (Some(a), Some(b)) => Some(if b > a { b } else { a }),
            (None, Some(b)) => Some(b),
            (a, None) => a,
        }
    }
}

/// How many drives run at 45 °C or more.
pub open spec fn hot_count(disks: Seq<Disk>) -> nat
    decreases disks.len(),
{
    if disks.len() == 0 {
        0
    } else {
        hot_count(disks.drop_last()) + if disks.last().temperature_c matches Some(t) && t >= 45 {
            1nat
        } else {
            0nat
        }
    }
}

/// The UPS tile: the charge when one is enabled (or "On" when it reports
/// none), "None" when none is configured, a dash when the call failed.
pub open spec fn battery_of(ups: Option<Ups>) -> Seq<char> {
    match ups {
        Some(u) => if u.enabled {
            match u.charge_percent {
                Some(c) => signed_decimal(c as int) + "%"@,
                None => "On"@,
            }
        } else {
            "None"@
        },
        None => "—"@,
    }
}

/// The four tiles of the Temperature & power page.
pub open spec fn power_stats_of(snap: Snapshot) -> Seq<(Seq<char>, Seq<char>, bool)> {
    let disks = match snap.storage {
        Some(s) => s.disks@,
        None => Seq::empty(),
    };
    let hot = hot_count(disks);
    seq![
        (
            degrees(match snap.system {
                Some(s) => s.temperature_c,
                None => None,
            }),
            "system"@,
            snap.system matches Some(s) && s.temperature_warning,
        ),
        (
            degrees(hottest(disks)),
            if hot > 0 { decimal(hot) + " running warm"@ } else { "hottest drive"@ },
            hot > 0,
        ),
        (
            match snap.cooling {
                Some(c) => fan_mode_label(opt_view(c.mode)),
                None => "—"@,
            },
            "fan profile"@,
            false,
        ),
        (battery_of(snap.ups), "battery"@, false),
    ]
}

fn hottest_and_count(disks: &Vec<Disk>) -> (r: (Option<i64>, u64))
    ensures
        r.0 == hottest(disks@),
        r.1 == hot_count(disks@),
{
    let mut best: Option<i64> = None;
    let mut count: u64 = 0;
    let mut i: usize = 0;
    while i < disks.len()
        invariant
            i <= disks@.len(),
            best == hottest(disks@.subrange(0, i as int)),
            count == hot_count(disks@.subrange(0, i as int)),
            count <= i,
        decreases disks.len() - i,
    {
        assert(disks@.subrange(0, i + 1).drop_last() =~= disks@.subrange(0, i as int));
        let d = &disks[i];
        best = match (best, d.temperature_c) {
            (Some(a), Some(b)) => Some(if b > a { b } else { a }),
            (None, Some(b)) => Some(b),
            (a, None) => a,
        };
        if d.is_hot() {
            count = count + 1;
        }
        i = i + 1;
    }
    assert(disks@.subrange(0, disks@.len() as int) =~= disks@);
    (best, count)
}

/// The tiles of the Temperature & power page: the system temperature, the
/// hottest drive, the fan profile and the battery.
pub fn power_stats(snap: &Snapshot) -> (r: Vec<Stat>)
    ensures
        r@.map_values(|s: Stat| stat_view(s)) == power_stats_of(*snap),
{
    let system_temp = temperature_text(
        match &snap.system {
            Some(s) => s.temperature_c,
            None => None,
        },
    );
    let warning = match &snap.system {
        Some(s) => s.temperature_warning,
        None => false,
    };
    let empty: Vec<Disk> = Vec::new();
    let (hot, count) = match &snap.storage {
        Some(s) => hottest_and_count(&s.disks),
        None => hottest_and_count(&empty),
    };
    proof {
        assert(empty@ =~= Seq::<Disk>::empty());
    }
    let drive_note = if count > 0 {
        let mut n = u64_text(count);
        n.append(" running warm");
        n
    } else {
        String::from_str("hottest drive")
    };
    let fan = match &snap.cooling {
        Some(c) => c.mode_label(),
        None => String::from_str("—"),
    };
    let battery = match &snap.ups {
        Some(u) => if u.enabled {
            match u.charge_percent {
                Some(c) => {
                    let mut t = i64_text(c);
                    t.append("%");
                    t
                },
                None => String::from_str("On"),
            }
        } else {
            String::from_str("None")
        },
        None => String::from_str("—"),
    };
    let mut out: Vec<Stat> = Vec::new();
    out.push(stat(system_temp, "system", warning));
    out.push(Stat { value: temperature_text(hot), note: drive_note, warn: count > 0 });
    out.push(stat(fan, "fan profile", false));
    out.push(stat(battery, "battery", false));
    assert(out@.map_values(|s: Stat| stat_view(s)) =~= power_stats_of(*snap));
    out
}

/// The Cooling rows.
pub open spec fn cooling_rows_of(c: Cooling) -> Seq<(Seq<char>, Seq<char>, Option<(Seq<char>, Seq<char>)>)> {
    seq![
        ("Fan speed mode"@, fan_mode_label(opt_view(c.mode)), None),
        (
            "Drive temperature sensors"@,
            if c.disk_temperature_fault { "A drive is not reporting its temperature"@ } else { "All reporting"@ },
            if c.disk_temperature_fault { Some(("Fault"@, "warning"@)) } else { Some(("OK"@, "success"@)) },
        ),
    ]
}

/// The rows of the Cooling section.
pub fn cooling_rows(c: &Cooling) -> (r: Vec<Row>)
    ensures
        r@.map_values(|x: Row| row_view(x)) == cooling_rows_of(*c),
{
    let mode = c.mode_label();
    let mut out: Vec<Row> = Vec::new();
    out.push(row("Fan speed mode", mode.as_str(), None));
    if c.disk_temperature_fault {
        out.push(row("Drive temperature sensors", "A drive is not reporting its temperature", Some((String::from_str("Fault"), "warning"))));
    } else {
        out.push(row("Drive temperature sensors", "All reporting", Some((String::from_str("OK"), "success"))));
    }
    assert(out@.map_values(|x: Row| row_view(x)) =~= cooling_rows_of(*c));
    out
}

/// The UPS rows. A DiskStation with no UPS configured is not a failure, so
/// it says so. The battery badge says what the charge is, not what the mains
/// are doing: `charge` does not tell "full and idle" from "discharging".
pub open spec fn ups_rows_of(u: Ups) -> Seq<(Seq<char>, Seq<char>, Option<(Seq<char>, Seq<char>)>)> {
    if !u.enabled {
        seq![("No UPS"@, "None is configured in DSM"@, None)]
    } else {
        let low = u.charge_percent matches Some(c) && c < 50;
        seq![
            ("Device"@, ups_phrase(opt_view(u.manufacturer), opt_view(u.model)), None),
            (
                "Battery"@,
                match u.charge_percent {
                    Some(c) => signed_decimal(c as int) + "%"@,
                    None => "—"@,
                },
                if low { Some(("Low charge"@, "warning"@)) } else { Some(("Charged"@, "success"@)) },
            ),
            ("Estimated runtime"@, runtime_phrase(u.runtime_seconds), None),
            (
                "Connection"@,
                match opt_view(u.mode) {
                    Some(m) => m,
                    None => "—"@,
                },
                None,
            ),
        ]
    }
}

/// The rows of the UPS section.
pub fn ups_rows(u: &Ups) -> (r: Vec<Row>)
    ensures
        r@.map_values(|x: Row| row_view(x)) == ups_rows_of(*u),
{
    let mut out: Vec<Row> = Vec::new();
    if !u.enabled {
        out.push(row("No UPS", "None is configured in DSM", None));
        assert(out@.map_values(|x: Row| row_view(x)) =~= ups_rows_of(*u));
        return out;
    }
    let device = u.description();
    out.push(row("Device", device.as_str(), None));
    let charge = match u.charge_percent {
        Some(c) => {
            let mut t = i64_text(c);
            t.append("%");
            t
        },
        None => String::from_str("—"),
    };
    let low = match u.charge_percent {
        Some(c) => c < 50,
        None => false,
    };
    let badge = if low {
        (String::from_str("Low charge"), "warning")
    } else {
        (String::from_str("Charged"), "success")
    };
    out.push(row("Battery", charge.as_str(), Some(badge)));
    let runtime = u.runtime_label();
    out.push(row("Estimated runtime", runtime.as_str(), None));
    let connection = match &u.mode {
        Some(m) => m.clone(),
        None => String::from_str("—"),
    };
    out.push(row("Connection", connection.as_str(), None));
    assert(out@.map_values(|x: Row| row_view(x)) =~= ups_rows_of(*u));
    out
}

// ---------------------------------------------------------------------------
// The Overview banner.

/// The banner's health: Warning while DSM says the temperature is too high,
/// since heat is the more urgent news; otherwise the worst storage verdict,
/// storage being what fails on a NAS; Unknown without a storage reply.
pub open spec fn banner_health_of(system: SystemInfo, storage: Option<Storage>) -> Health {
    if system.temperature_warning {
        Health::Warning
    } else {
        match storage {
            Some(s) => worst(all_verdicts(s)),
            None => Health::Unknown,
        }
    }
}

/// The verdict the Overview banner shows.
pub fn banner_health(system: &SystemInfo, storage: Option<&Storage>) -> (r: Health)
    ensures
        r == banner_health_of(
            *system,
            match storage {
                Some(s) => Some(*s),
                None => None,
            },
        ),
{
    if system.temperature_warning {
        Health::Warning
    } else {
        match storage {
            Some(s) => s.worst_health(),
            None => Health::Unknown,
        }
    }
}

// ---------------------------------------------------------------------------
// Chart ticks.

/// How long ago a tick is, as its label. The boundaries are inclusive so the
/// leftmost tick reads in the same unit as the range's own label: the 24 h
/// range starts at "-24h", not "-1d".
pub open spec fn tick_label(minutes_ago: int) -> Seq<char> {
    if minutes_ago == 0 {
        "now"@
    } else if minutes_ago <= 60 {
        "-"@ + signed_decimal(minutes_ago) + "m"@
    } else if minutes_ago <= 60 * 24 {
        "-"@ + signed_decimal(minutes_ago / 60) + "h"@
    } else {
        "-"@ + signed_decimal(minutes_ago / 1440) + "d"@
    }
}

/// The five tick labels for a range, oldest first, ending in "now".
pub open spec fn ticks_of(range: Range) -> Seq<Seq<char>> {
    let total = range.span_secs() / 60;
    seq![tick_label(total), tick_label(total * 3 / 4), tick_label(total / 2), tick_label(total / 4), tick_label(0)]
}

fn tick_text(minutes_ago: i64) -> (r: String)
    requires
        0 <= minutes_ago <= 43200,
    ensures
        r@ == tick_label(minutes_ago as int),
{
    if minutes_ago == 0 {
        return String::from_str("now");
    }
    let (n, unit) = if minutes_ago <= 60 {
        (minutes_ago, "m")
    } else if minutes_ago <= 60 * 24 {
        (minutes_ago / 60, "h")
    } else {
        (minutes_ago / (60 * 24), "d")
    };
    let mut out = String::from_str("-");
    let digits = i64_text(n);
    out.append(digits.as_str());
    out.append(unit);
    out
}

/// The tick labels under a chart of `range`.
pub fn tick_labels(range: Range) -> (r: Vec<String>)
    ensures
        r@.map_values(|s: String| s@) == ticks_of(range),
{
    let total = range.span() / 60;
    let mut out: Vec<String> = Vec::new();
    out.push(tick_text(total));
    out.push(tick_text(total * 3 / 4));
    out.push(tick_text(total / 2));
    out.push(tick_text(total / 4));
    out.push(tick_text(0));
    assert(out@.map_values(|s: String| s@) =~= ticks_of(range));
    out
}

// ---------------------------------------------------------------------------
// The log filter.

/// The log page's four exclusive buttons.
#[derive(Debug, Clone, Copy, PartialEq, Eq)]
pub enum Filter {
    All,
    Error,
    Warning,
    Info,
}

impl Filter {
    pub open spec fn admits_spec(self, severity: Severity) -> bool {
        match self {
            Filter::All => true,
            Filter::Error => severity is Error,
            Filter::Warning => severity is Warning,
            Filter::Info => severity is Info,
        }
    }

    /// The button's label.
    pub fn label(self) -> (r: &'static str)
        ensures
            r@ == match self {
                Filter::All => "All"@,
                Filter::Error => "Error"@,
                Filter::Warning => "Warning"@,
                Filter::Info => "Info"@,
            },
    {
        match self {
            Filter::All => "All",
            Filter::Error => "Error",
            Filter::Warning => "Warning",
            Filter::Info => "Info",
        }
    }

    /// Whether an entry passes. Equality, not a floor: picking "Warning"
    /// shows warnings, not warnings-and-errors.
    pub fn admits(self, severity: Severity) -> (r: bool)
        ensures
            r == self.admits_spec(severity),
    {
        match self {
            Filter::All => true,
            Filter::Error => matches!(severity, Severity::Error),
            Filter::Warning => matches!(severity, Severity::Warning),
            Filter::Info => matches!(severity, Severity::Info),
        }
    }
}

// ---------------------------------------------------------------------------
// Container Manager.

/// A project's status as a word and a class. The word is kept — a project
/// can be `PARTIAL`, which is neither running nor stopped — but DSM sends it
/// upper case, so it is lower-cased before being capitalised.
pub open spec fn project_pill_of(status: Seq<char>) -> (Seq<char>, Seq<char>) {
    let lowered = unicode_lowercase(status);
    (
        if lowered.len() == 0 { "Unknown"@ } else { capitalised(lowered) },
        match state_named(status) {
            State::Running => "success"@,
            State::Paused | State::Restarting => "warning"@,
            State::Exited => "dim-label"@,
            State::Unknown => "warning"@,
        },
    )
}

/// A project's status pill.
pub fn state_pill(status: &str) -> (r: (String, &'static str))
    ensures
        (r.0@, r.1@) == project_pill_of(status@),
{
    let class = match State::from_word(status) {
        State::Running => "success",
        State::Paused | State::Restarting => "warning",
        State::Exited => "dim-label",
        State::Unknown => "warning",
    };
    let lowered = to_lowercase(status);
    let cs = chars_of(lowered.as_str());
    if cs.len() == 0 {
        return (String::from_str("Unknown"), class);
    }
    let mut word = char_to_uppercase(cs[0]);
    let mut rest: Vec<char> = Vec::new();
    let mut i: usize = 1;
    while i < cs.len()
        invariant
            1 <= i <= cs.len(),
            rest@ == cs@.subrange(1, i as int),
        decreases cs.len() - i,
    {
        rest.push(cs[i]);
        assert(cs@.subrange(1, i + 1) =~= cs@.subrange(1, i as int).push(cs@[i as int]));
        i = i + 1;
    }
    assert(cs@.subrange(1, cs@.len() as int) =~= cs@.drop_first());
    let tail = string_from_chars(rest.as_slice());
    word.append(tail.as_str());
    (word, class)
}

/// "1 container", "3 containers".
pub fn count(n: usize, noun: &str) -> (r: String)
    ensures
        r@ == decimal(n as nat) + " "@ + noun@ + if n == 1 { Seq::empty() } else { "s"@ },
{
    let mut out = u64_text(n as u64);
    out.append(" ");
    out.append(noun);
    if n != 1 {
        out.append("s");
    }
    out
}

/// The verb on an action's button.
pub fn verb(action: ContainerAction) -> (r: &'static str)
    ensures
        r@ == match action {
            ContainerAction::Start => "Start"@,
            ContainerAction::Stop => "Stop"@,
            ContainerAction::Restart => "Restart"@,
        },
{
    match action {
        ContainerAction::Start => "Start",
        ContainerAction::Stop => "Stop",
        ContainerAction::Restart => "Restart",
    }
}

/// Why a stopped container stopped, when it says anything worth reading:
/// nothing while it is up, the memory killer first, then a non-zero exit
/// code; nothing for a clean exit.
pub open spec fn exit_note_of(c: Container) -> Option<Seq<char>> {
    if c.state.up() {
        None
    } else if c.oom_killed {
        Some("out of memory"@)
    } else {
        match c.exit_code {
            Some(code) => if code == 0 { None } else { Some("exit "@ + signed_decimal(code as int)) },
            None => None,
        }
    }
}

/// `exit_note_of`, computed.
pub fn exit_note(c: &Container) -> (r: Option<String>)
    ensures
        opt_view(r) == exit_note_of(*c),
{
    if c.state.is_up() {
        return None;
    }
    if c.oom_killed {
        return Some(String::from_str("out of memory"));
    }
    match c.exit_code {
        Some(code) => if code == 0 {
            None
        } else {
            let mut out = String::from_str("exit ");
            let n = i64_text(code);
            out.append(n.as_str());
            Some(out)
        },
        None => None,
    }
}

// ---------------------------------------------------------------------------
// Drives.

/// Model over serial, as two lines; the model alone without a serial; the
/// kernel name without a model.
pub open spec fn identity_of(d: Disk) -> Seq<char> {
    match (opt_view(d.model), opt_view(d.serial)) {
        (Some(m), Some(s)) => m + "\n"@ + s,
        (Some(m), None) => m,
        _ => d.id@,
    }
}

/// A drive's identity cell.
pub fn disk_identity(d: &Disk) -> (r: String)
    ensures
        r@ == identity_of(*d),
{
    match (&d.model, &d.serial) {
        (Some(m), Some(s)) => {
            let mut out = m.clone();
            out.append("\n");
            out.append(s.as_str());
            out
        },
        (Some(m), None) => m.clone(),
        _ => d.id.clone(),
    }
}

/// What a drive is allocated to, or "Unused".
pub fn disk_allocation(d: &Disk) -> (r: String)
    ensures
        r@ == match opt_view(d.used_by) {
            Some(u) => u,
            None => "Unused"@,
        },
{
    match &d.used_by {
        Some(u) => u.clone(),
        None => String::from_str("Unused"),
    }
}

// ---------------------------------------------------------------------------
// Page tiles.

/// How many of `ps` read `running`.
pub open spec fn running_count(ps: Seq<Package>) -> nat
    decreases ps.len(),
{
    if ps.len() == 0 {
        0
    } else {
        running_count(ps.drop_last()) + if ascii_lower(ps.last().status@) == "running"@ { 1nat } else { 0nat }
    }
}

/// How many of `ps` have an update waiting.
pub open spec fn update_count(ps: Seq<Package>) -> nat
    decreases ps.len(),
{
    if ps.len() == 0 {
        0
    } else {
        update_count(ps.drop_last()) + if update_waiting(opt_view(ps.last().available_version), ps.last().version@) {
            1nat
        } else {
            0nat
        }
    }
}

/// The Packages tiles: installed, running, stopped, and updates — the last
/// warning when there are any.
pub open spec fn package_stats_of(ps: Seq<Package>) -> Seq<(Seq<char>, Seq<char>, bool)> {
    seq![
        (decimal(ps.len()), "packages"@, false),
        (decimal(running_count(ps)), "running"@, false),
        (decimal((ps.len() - running_count(ps)) as nat), "stopped"@, false),
        (decimal(update_count(ps)), "available"@, update_count(ps) > 0),
    ]
}

/// The tiles of the Packages page.
pub fn package_stats(ps: &[Package]) -> (r: Vec<Stat>)
    ensures
        r@.map_values(|s: Stat| stat_view(s)) == package_stats_of(ps@),
{
    let mut running: usize = 0;
    let mut updates: usize = 0;
    let mut i: usize = 0;
    while i < ps.len()
        invariant
            i <= ps@.len(),
            running == running_count(ps@.subrange(0, i as int)),
            updates == update_count(ps@.subrange(0, i as int)),
            running <= i && updates <= i,
        decreases ps.len() - i,
    {
        assert(ps@.subrange(0, i + 1).drop_last() =~= ps@.subrange(0, i as int));
        if ps[i].is_running() {
            running = running + 1;
        }
        if ps[i].has_update() {
            updates = updates + 1;
        }
        i = i + 1;
    }
    assert(ps@.subrange(0, ps@.len() as int) =~= ps@);
    let mut out: Vec<Stat> = Vec::new();
    out.push(stat(u64_text(ps.len() as u64), "packages", false));
    out.push(stat(u64_text(running as u64), "running", false));
    out.push(stat(u64_text((ps.len() - running) as u64), "stopped", false));
    out.push(stat(u64_text(updates as u64), "available", updates > 0));
    assert(out@.map_values(|s: Stat| stat_view(s)) =~= package_stats_of(ps@));
    out
}

/// How many distinct values `s` holds.
pub open spec fn distinct_count(s: Seq<Seq<char>>) -> nat {
    s.to_set().len()
}

/// How many of `ss` are the session doing the asking.
pub open spec fn current_count(ss: Seq<Session>) -> nat
    decreases ss.len(),
{
    if ss.len() == 0 {
        0
    } else {
        current_count(ss.drop_last()) + if ss.last().is_current { 1nat } else { 0nat }
    }
}

/// The Users & sessions tiles: connections, distinct services, distinct
/// accounts, and how many are this machine.
pub open spec fn session_stats_of(ss: Seq<Session>) -> Seq<(Seq<char>, Seq<char>, bool)> {
    seq![
        (decimal(ss.len()), "connections"@, false),
        (decimal(distinct_count(ss.map_values(|x: Session| x.service@))), "services"@, false),
        (decimal(distinct_count(ss.map_values(|x: Session| x.who@))), "accounts"@, false),
        (decimal(current_count(ss)), "this session"@, false),
    ]
}

/// How many distinct texts `v` holds.
fn distinct_texts(v: &Vec<String>) -> (r: usize)
    ensures
        r == distinct_count(v@.map_values(|s: String| s@)),
{
    let ghost all = v@.map_values(|s: String| s@);
    let mut seen: Vec<String> = Vec::new();
    let mut i: usize = 0;
    while i < v.len()
        invariant
            i <= v@.len(),
            all == v@.map_values(|s: String| s@),
            seen@.len() <= i,
            seen@.map_values(|s: String| s@).no_duplicates(),
            seen@.map_values(|s: String| s@).to_set() == all.subrange(0, i as int).to_set(),
        decreases v.len() - i,
    {
        let ghost before = seen@.map_values(|s: String| s@);
        let mut k: usize = 0;
        let mut found = false;
        while k < seen.len()
            invariant
                k <= seen@.len(),
                i < v@.len(),
                before == seen@.map_values(|s: String| s@),
                found ==> before.contains(v@[i as int]@),
                !found ==> forall|j: int| 0 <= j < k ==> before[j] != v@[i as int]@,
            decreases seen.len() - k,
        {
            if !found && same_text(seen[k].as_str(), v[i].as_str()) {
                found = true;
                assert(before[k as int] == v@[i as int]@);
            }
            k = k + 1;
        }
        assert(all.subrange(0, i + 1) =~= all.subrange(0, i as int).push(all[i as int]));
        proof {
            all.subrange(0, i as int).lemma_push_to_set_commute(all[i as int]);
        }
        if !found {
            seen.push(v[i].clone());
            assert(seen@.map_values(|s: String| s@) =~= before.push(v@[i as int]@));
            assert(!before.contains(v@[i as int]@));
            proof {
                before.lemma_push_to_set_commute(v@[i as int]@);
            }
        } else {
            assert(before.to_set().contains(v@[i as int]@));
            assert(before.to_set().insert(v@[i as int]@) =~= before.to_set());
        }
        assert(seen@.map_values(|s: String| s@).to_set() =~= all.subrange(0, i + 1).to_set());
        i = i + 1;
    }
    assert(all.subrange(0, all.len() as int) =~= all);
    proof {
        seen@.map_values(|s: String| s@).unique_seq_to_set();
    }
    seen.len()
}

/// The tiles of the Users & sessions page.
pub fn session_stats(ss: &[Session]) -> (r: Vec<Stat>)
    ensures
        r@.map_values(|s: Stat| stat_view(s)) == session_stats_of(ss@),
{
    let mut services: Vec<String> = Vec::new();
    let mut accounts: Vec<String> = Vec::new();
    let mut current: usize = 0;
    let mut i: usize = 0;
    while i < ss.len()
        invariant
            i <= ss@.len(),
            services@.len() == i,
            accounts@.len() == i,
            forall|k: int| 0 <= k < i ==> #[trigger] services@[k]@ == ss@[k].service@,
            forall|k: int| 0 <= k < i ==> #[trigger] accounts@[k]@ == ss@[k].who@,
            current == current_count(ss@.subrange(0, i as int)),
            current <= i,
        decreases ss.len() - i,
    {
        assert(ss@.subrange(0, i + 1).drop_last() =~= ss@.subrange(0, i as int));
        services.push(ss[i].service.clone());
        accounts.push(ss[i].who.clone());
        if ss[i].is_current {
            current = current + 1;
        }
        i = i + 1;
    }
    assert(ss@.subrange(0, ss@.len() as int) =~= ss@);
    assert(services@.map_values(|s: String| s@) =~= ss@.map_values(|x: Session| x.service@));
    assert(accounts@.map_values(|s: String| s@) =~= ss@.map_values(|x: Session| x.who@));
    let s = distinct_texts(&services);
    let a = distinct_texts(&accounts);
    let mut out: Vec<Stat> = Vec::new();
    out.push(stat(u64_text(ss.len() as u64), "connections", false));
    out.push(stat(u64_text(s as u64), "services", false));
    out.push(stat(u64_text(a as u64), "accounts", false));
    out.push(stat(u64_text(current as u64), "this session", false));
    assert(out@.map_values(|s: Stat| stat_view(s)) =~= session_stats_of(ss@));
    out
}

/// Whether an interface's status reads `connected`.
pub open spec fn up(i: NetworkInterface) -> bool {
    ascii_lower(i.status@) == "connected"@
}

/// How many interfaces are connected.
pub open spec fn up_count(s: Seq<NetworkInterface>) -> nat
    decreases s.len(),
{
    if s.len() == 0 {
        0
    } else {
        up_count(s.drop_last()) + if up(s.last()) { 1nat } else { 0nat }
    }
}

/// The fastest connected interface: the last of the fastest, as
/// `max_by_key` picks among equals. A NAS with a 10 GbE port and three idle
/// gigabit ones is a 10 GbE NAS.
pub open spec fn fastest(s: Seq<NetworkInterface>) -> Option<int>
    decreases s.len(),
{
    if s.len() == 0 {
        None
    } else {
        let before = fastest(s.drop_last());
        if !up(s.last()) {
            before
        } else {
            match before {
                Some(b) => if s.last().speed_mbit >= s[b].speed_mbit { Some(s.len() - 1) } else { Some(b) },
                None => Some(s.len() - 1),
            }
        }
    }
}

/// The Network tiles: interfaces, connected (warning when none is), the
/// fastest link, and its address.
pub open spec fn network_stats_of(s: Seq<NetworkInterface>) -> Seq<(Seq<char>, Seq<char>, bool)> {
    seq![
        (decimal(s.len()), "interfaces"@, false),
        (decimal(up_count(s)), "connected"@, up_count(s) == 0),
        (
            match fastest(s) {
                Some(k) => speed_phrase(s[k].speed_mbit),
                None => "—"@,
            },
            "fastest link"@,
            false,
        ),
        (
            match fastest(s) {
                Some(k) => match opt_view(s[k].ip) {
                    Some(ip) => ip,
                    None => "—"@,
                },
                None => "—"@,
            },
            "primary address"@,
            false,
        ),
    ]
}

/// The tiles of the Network page.
pub fn network_stats(s: &[NetworkInterface]) -> (r: Vec<Stat>)
    ensures
        r@.map_values(|x: Stat| stat_view(x)) == network_stats_of(s@),
{
    let mut best: Option<usize> = None;
    let mut up_n: usize = 0;
    let mut i: usize = 0;
    while i < s.len()
        invariant
            i <= s@.len(),
            up_n == up_count(s@.subrange(0, i as int)),
            up_n <= i,
            match fastest(s@.subrange(0, i as int)) {
                Some(k) => best == Some(k as usize) && 0 <= k < i,
                None => best is None,
            },
        decreases s.len() - i,
    {
        let ghost prefix = s@.subrange(0, i + 1);
        assert(prefix.drop_last() =~= s@.subrange(0, i as int));
        if s[i].is_connected() {
            up_n = up_n + 1;
            best = match best {
                Some(b) => {
                    assert(prefix[b as int] == s@[b as int]);
                    if s[i].speed_mbit >= s[b].speed_mbit {
                        Some(i)
                    } else {
                        Some(b)
                    }
                },
                None => Some(i),
            };
        }
        i = i + 1;
    }
    let ghost all = s@.subrange(0, s@.len() as int);
    assert(all =~= s@);
    let speed = match best {
        Some(k) => s[k].speed_label(),
        None => String::from_str("—"),
    };
    let address = match best {
        Some(k) => match &s[k].ip {
            Some(ip) => ip.clone(),
            None => String::from_str("—"),
        },
        None => String::from_str("—"),
    };
    let mut out: Vec<Stat> = Vec::new();
    out.push(stat(u64_text(s.len() as u64), "interfaces", false));
    out.push(stat(u64_text(up_n as u64), "connected", up_n == 0));
    out.push(stat(speed, "fastest link", false));
    out.push(stat(address, "primary address", false));
    assert(out@.map_values(|x: Stat| stat_view(x)) =~= network_stats_of(s@));
    out
}

/// The System tiles: model, DSM release over its date, uptime, and the
/// temperature, warning when DSM says it is too high.
pub open spec fn system_stats_of(s: SystemInfo) -> Seq<(Seq<char>, Seq<char>, bool)> {
    seq![
        (
            match opt_view(s.model) {
                Some(m) => m,
                None => "—"@,
            },
            "model"@,
            false,
        ),
        (
            match opt_view(s.firmware_version) {
                Some(v) => short_version(v),
                None => "—"@,
            },
            match opt_view(s.firmware_date) {
                Some(d) => d,
                None => "—"@,
            },
            false,
        ),
        (
            match s.uptime {
                Some(u) => crate::model::system::uptime_phrase(u as nat),
                None => "—"@,
            },
            "since last boot"@,
            false,
        ),
        (degrees(s.temperature_c), "system"@, s.temperature_warning),
    ]
}

fn or_dash(o: &Option<String>) -> (r: String)
    ensures
        r@ == match opt_view(*o) {
            Some(t) => t,
            None => "—"@,
        },
{
    match o {
        Some(t) => t.clone(),
        None => String::from_str("—"),
    }
}

/// The tiles of the System information page.
pub fn system_stats(s: &SystemInfo) -> (r: Vec<Stat>)
    ensures
        r@.map_values(|x: Stat| stat_view(x)) == system_stats_of(*s),
{
    let dsm = short_dsm(
        match &s.firmware_version {
            Some(v) => Some(v.as_str()),
            None => None,
        },
    );
    let uptime = match s.uptime {
        Some(u) => crate::model::format_uptime(u),
        None => String::from_str("—"),
    };
    let mut out: Vec<Stat> = Vec::new();
    out.push(stat(or_dash(&s.model), "model", false));
    out.push(Stat { value: dsm, note: or_dash(&s.firmware_date), warn: false });
    out.push(stat(uptime, "since last boot", false));
    out.push(stat(temperature_text(s.temperature_c), "system", s.temperature_warning));
    assert(out@.map_values(|x: Stat| stat_view(x)) =~= system_stats_of(*s));
    out
}

/// The Time rows: the time zone, and NTP with its server.
pub open spec fn time_rows_of(s: SystemInfo) -> Seq<(Seq<char>, Seq<char>, Option<(Seq<char>, Seq<char>)>)> {
    seq![
        (
            "Time zone"@,
            match opt_view(s.time_zone) {
                Some(t) => t,
                None => "—"@,
            },
            None,
        ),
        (
            "NTP"@,
            if s.ntp_enabled {
                match opt_view(s.ntp_server) {
                    Some(t) => t,
                    None => "enabled"@,
                }
            } else {
                "disabled"@
            },
            if s.ntp_enabled { Some(("On"@, "success"@)) } else { Some(("Off"@, "dim-label"@)) },
        ),
    ]
}

/// The rows of the Time section.
pub fn time_rows(s: &SystemInfo) -> (r: Vec<Row>)
    ensures
        r@.map_values(|x: Row| row_view(x)) == time_rows_of(*s),
{
    let zone = or_dash(&s.time_zone);
    let ntp = if s.ntp_enabled {
        match &s.ntp_server {
            Some(t) => t.clone(),
            None => String::from_str("enabled"),
        }
    } else {
        String::from_str("disabled")
    };
    let badge = if s.ntp_enabled {
        (String::from_str("On"), "success")
    } else {
        (String::from_str("Off"), "dim-label")
    };
    let mut out: Vec<Row> = Vec::new();
    out.push(row("Time zone", zone.as_str(), None));
    out.push(row("NTP", ntp.as_str(), Some(badge)));
    assert(out@.map_values(|x: Row| row_view(x)) =~= time_rows_of(*s));
    out
}


/// A tier's cadence in the unit that suits it: seconds below a minute,
/// minutes from there.
pub open spec fn interval_phrase(range: Range) -> Seq<char> {
    let seconds = range.interval_secs();
    if seconds < 60 {
        signed_decimal(seconds) + " s"@
    } else {
        signed_decimal(seconds / 60) + " min"@
    }
}

/// `interval_phrase`, computed.
pub fn human_interval(range: Range) -> (r: String)
    ensures
        r@ == interval_phrase(range),
{
    let seconds = range.interval();
    let mut out = if seconds < 60 {
        i64_text(seconds)
    } else {
        i64_text(seconds / 60)
    };
    out.append(if seconds < 60 { " s" } else { " min" });
    out
}


/// How far up the overview's package card a package sits: one with an update
/// waiting first, then one running, then the rest.
pub open spec fn overview_rank(p: Package) -> u64 {
    let update: u64 = if update_waiting(opt_view(p.available_version), p.version@) { 0 } else { 2 };
    let running: u64 = if ascii_lower(p.status@) == "running"@ { 0 } else { 1 };
    (update + running) as u64
}

/// Where the packages the overview card lists sit in `ps`: every position,
/// stably ordered by `overview_rank`, so the listing order breaks ties, and
/// no more than six of them.
pub open spec fn overview_order_of(ps: Seq<Package>) -> Seq<usize> {
    let sorted = sort_by_number(
        Seq::new(ps.len(), |i: int| i as usize),
        |i: usize| overview_rank(ps[i as int]),
    );
    if sorted.len() > 6 {
        sorted.take(6)
    } else {
        sorted
    }
}

/// `overview_order_of`, computed: the positions in `ps` of the packages the
/// overview card shows, in the order it shows them.
pub fn overview_packages(ps: &[Package]) -> (r: Vec<usize>)
    ensures
        r@ == overview_order_of(ps@),
{
    let ghost key = |i: usize| overview_rank(ps@[i as int]);
    let mut order: Vec<usize> = Vec::new();
    let mut keys: Vec<u64> = Vec::new();
    let mut i: usize = 0;
    while i < ps.len()
        invariant
            i <= ps@.len(),
            order@ == Seq::new(i as nat, |k: int| k as usize),
            key == (|j: usize| overview_rank(ps@[j as int])),
            keys@.len() == i,
            forall|k: int| 0 <= k < i ==> #[trigger] keys@[k] == key(order@[k]),
        decreases ps@.len() - i,
    {
        let p = &ps[i];
        let rank: u64 = (if p.has_update() { 0u64 } else { 2u64 }) + (if p.is_running() { 0u64 } else { 1u64 });
        assert(rank == overview_rank(ps@[i as int]));
        order.push(i);
        keys.push(rank);
        assert(order@ =~= Seq::new((i + 1) as nat, |k: int| k as usize));
        assert forall|k: int| 0 <= k <= i implies #[trigger] keys@[k] == key(order@[k]) by {
            if k == i {
                assert(order@[k] == i);
            }
        }
        i = i + 1;
    }
    let mut sorted = sort_by_number_key(order, keys, Ghost(key));
    if sorted.len() > 6 {
        sorted.truncate(6);
    }
    sorted
}

/// The bytes a window of samples stands for. Each sample is a rate held for
/// the tier's interval, so it adds its receive and send rates times that
/// interval; adding the rates themselves would give a number in no unit.
pub open spec fn moved(samples: Seq<Sample>, range: Range) -> int
    decreases samples.len(),
{
    if samples.len() == 0 {
        0
    } else {
        moved(samples.drop_last(), range) + (samples.last().network_rx + samples.last().network_tx)
            * range.interval_secs()
    }
}

proof fn lemma_moved_grows(samples: Seq<Sample>, range: Range, i: int)
    requires
        0 <= i <= samples.len(),
    ensures
        0 <= moved(samples.take(i), range) <= moved(samples, range),
    decreases samples.len(),
{
    if samples.len() > 0 {
        let last = samples.last();
        assert((last.network_rx + last.network_tx) * range.interval_secs() >= 0) by (nonlinear_arith)
            requires
                last.network_rx + last.network_tx >= 0,
                range.interval_secs() >= 0,
        ;
    }
    if i < samples.len() {
        lemma_moved_grows(samples.drop_last(), range, i);
        assert(samples.drop_last().take(i) =~= samples.take(i));
    } else {
        assert(samples.take(i) =~= samples);
        if samples.len() > 0 {
            lemma_moved_grows(samples.drop_last(), range, 0);
        }
    }
}

/// How much a window moved over the network, in bytes: `moved`, computed.
/// A window whose total does not fit in a `u64` is left out.
pub fn transferred(samples: &[Sample], range: Range) -> (r: u64)
    requires
        moved(samples@, range) <= u64::MAX,
    ensures
        r == moved(samples@, range),
{
    let seconds = range.interval();
    let seconds: u64 = if seconds < 1 { 1 } else { seconds as u64 };
    let mut total: u64 = 0;
    let mut i: usize = 0;
    while i < samples.len()
        invariant
            i <= samples@.len(),
            seconds == range.interval_secs(),
            moved(samples@, range) <= u64::MAX,
            total == moved(samples@.take(i as int), range),
        decreases samples@.len() - i,
    {
        let s = samples[i];
        proof {
            lemma_moved_grows(samples@, range, i + 1);
            assert(samples@.take(i + 1).drop_last() =~= samples@.take(i as int));
            assert(samples@.take(i + 1).last() == s);
            assert((s.network_rx + s.network_tx) * range.interval_secs() >= s.network_rx + s.network_tx) by (nonlinear_arith)
                requires
                    s.network_rx + s.network_tx >= 0,
                    range.interval_secs() >= 1,
            ;
        }
        total = total + (s.network_rx + s.network_tx) * seconds;
        i = i + 1;
    }
    assert(samples@.take(samples@.len() as int) =~= samples@);
    total
}

/// The bytes all of `ss` use together.
pub open spec fn used_total(ss: Seq<Share>) -> int
    decreases ss.len(),
{
    if ss.len() == 0 {
        0
    } else {
        used_total(ss.drop_last()) + ss.last().used_bytes
    }
}

/// How many of `ss` have a quota.
pub open spec fn quota_count(ss: Seq<Share>) -> nat
    decreases ss.len(),
{
    if ss.len() == 0 {
        0
    } else {
        quota_count(ss.drop_last()) + if ss.last().quota_bytes is Some { 1nat } else { 0nat }
    }
}

/// How many of `ss` are hidden.
pub open spec fn hidden_count(ss: Seq<Share>) -> nat
    decreases ss.len(),
{
    if ss.len() == 0 {
        0
    } else {
        hidden_count(ss.drop_last()) + if ss.last().hidden { 1nat } else { 0nat }
    }
}

proof fn lemma_share_counts_grow(ss: Seq<Share>, i: int)
    requires
        0 <= i <= ss.len(),
    ensures
        0 <= used_total(ss.take(i)) <= used_total(ss),
        quota_count(ss) <= ss.len(),
        hidden_count(ss) <= ss.len(),
    decreases ss.len(),
{
    if ss.len() > 0 {
        if i < ss.len() {
            lemma_share_counts_grow(ss.drop_last(), i);
            assert(ss.drop_last().take(i) =~= ss.take(i));
        } else {
            lemma_share_counts_grow(ss.drop_last(), 0);
            assert(ss.take(i) =~= ss);
        }
    } else {
        assert(ss.take(i) =~= ss);
    }
}

/// The numbers behind the Shared folders tiles: the bytes used across every
/// share, how many have a quota and how many are hidden. A list whose total
/// does not fit in a `u64` is left out.
pub fn share_totals(ss: &[Share]) -> (r: (u64, usize, usize))
    requires
        used_total(ss@) <= u64::MAX,
    ensures
        r.0 == used_total(ss@),
        r.1 == quota_count(ss@),
        r.2 == hidden_count(ss@),
{
    let mut used: u64 = 0;
    let mut quotas: usize = 0;
    let mut hidden: usize = 0;
    let mut i: usize = 0;
    while i < ss.len()
        invariant
            i <= ss@.len(),
            used_total(ss@) <= u64::MAX,
            used == used_total(ss@.take(i as int)),
            quotas == quota_count(ss@.take(i as int)),
            hidden == hidden_count(ss@.take(i as int)),
        decreases ss@.len() - i,
    {
        proof {
            lemma_share_counts_grow(ss@, i + 1);
            lemma_share_counts_grow(ss@.take(i + 1), 0);
            assert(ss@.take(i + 1).drop_last() =~= ss@.take(i as int));
        }
        used = used + ss[i].used_bytes;
        if ss[i].quota_bytes.is_some() {
            quotas = quotas + 1;
        }
        if ss[i].hidden {
            hidden = hidden + 1;
        }
        i = i + 1;
    }
    assert(ss@.take(ss@.len() as int) =~= ss@);
    (used, quotas, hidden)
}

/// The style class a log entry's severity pill wears: errors and warnings in
/// their own colours, information dimmed.
pub fn severity_class(severity: Severity) -> (r: &'static str)
    ensures
        r@ == match severity {
            Severity::Error => "error"@,
            Severity::Warning => "warning"@,
            Severity::Info => "dim-label"@,
        },
{
    proof {
        reveal_strlit("error");
        reveal_strlit("warning");
        reveal_strlit("dim-label");
    }
    match severity {
        Severity::Error => "error",
        Severity::Warning => "warning",
        Severity::Info => "dim-label",
    }
}

} // verus!
