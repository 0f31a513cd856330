//! The records the app works in terms of.
//!
//! Each module reads one DSM reply into a typed record. They are readers
//! written by hand rather than derived: DSM sends the same value as a number
//! in one version and a quoted string in the next, omits fields without
//! warning, and spells one flag three ways in a single reply.

pub mod container;
pub mod log;
pub mod network;
pub mod package;
pub mod power;
pub mod session;
pub mod share;
pub mod storage;
pub mod system;
pub mod utilization;

use vstd::prelude::*;

use crate::json::Json;

pub use container::{owning_project, unowned_containers, Container, ContainerHealth, Project, State};
pub use log::{LogEntry, LogPage, Severity};
pub use network::NetworkInterface;
pub use package::Package;
pub use power::{Cooling, Ups};
pub use session::Session;
pub use share::Share;
pub use storage::{Disk, Health, Pool, Storage, Volume};
pub use system::{format_uptime, SystemInfo};
pub use utilization::{Cpu, Interface, Io, Memory, Utilization};

verus! {

/// The text under `key`, when there is text there.
pub open spec fn text_at(v: Json, key: Seq<char>) -> Option<Seq<char>> {
    match v.field(key) {
        Some(j) => j.text_of(),
        None => None,
    }
}

/// The text under `key`, or nothing.
pub open spec fn text_or_empty(v: Json, key: Seq<char>) -> Seq<char> {
    match text_at(v, key) {
        Some(t) => t,
        None => Seq::empty(),
    }
}

/// The list under `key`, or an empty one.
pub open spec fn items_at(v: Json, key: Seq<char>) -> Seq<Json> {
    match v.field(key) {
        Some(j) => match j.items_of() {
            Some(items) => items,
            None => Seq::empty(),
        },
        None => Seq::empty(),
    }
}

pub open spec fn opt_view(o: Option<String>) -> Option<Seq<char>> {
    match o {
        Some(s) => Some(s@),
        None => None,
    }
}

/// `v.get(key).and_then(as_str).map(to_owned)`.
pub fn opt_text(v: &Json, key: &str) -> (r: Option<String>)
    ensures
        opt_view(r) == text_at(*v, key@),
{
    match v.get(key) {
        Some(j) => match j.as_str() {
            Some(t) => Some(String::from_str(t)),
            None => None,
        },
        None => None,
    }
}

/// `v.get(key).and_then(as_str).unwrap_or_default().to_owned()`.
pub fn text(v: &Json, key: &str) -> (r: String)
    ensures
        r@ == text_or_empty(*v, key@),
{
    match opt_text(v, key) {
        Some(t) => t,
        None => String::new(),
    }
}

/// `v.get(key).and_then(as_array)`, or an empty list.
pub fn items<'a>(v: &'a Json, key: &str) -> (r: &'a [Json])
    ensures
        r@ == items_at(*v, key@),
{
    match v.get(key) {
        Some(j) => match j.as_array() {
            Some(list) => list.as_slice(),
            None => &[],
        },
        None => &[],
    }
}

} // verus!
