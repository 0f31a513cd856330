//! The short, fixed list of things this app will change.
//!
//! Everything else is read-only. String parameters must be JSON-quoted:
//! `name=brain-server` earns "not a json value" from the CGI, and an id that
//! looks like `8ec29f37…` sent unquoted is parsed as a number.

use vstd::prelude::*;

use crate::dsm::capabilities::{version_to_use, Capabilities};
use crate::dsm::envelope::{json_quoted, quoted, Call};
use crate::dsm::error::{Error, ErrorView};
use crate::model::container::Container;

verus! {

/// What can be done to a container.
#[derive(Debug, Clone, Copy, PartialEq, Eq)]
pub enum ContainerAction {
    Start,
    Stop,
    Restart,
}

impl ContainerAction {
    pub open spec fn method_name(self) -> Seq<char> {
        match self {
            ContainerAction::Start => "start"@,
            ContainerAction::Stop => "stop"@,
            ContainerAction::Restart => "restart"@,
        }
    }

    /// The DSM method name.
    pub fn method(self) -> (r: &'static str)
        ensures
            r@ == self.method_name(),
    {
        match self {
            ContainerAction::Start => "start",
            ContainerAction::Stop => "stop",
            ContainerAction::Restart => "restart",
        }
    }

    /// Whether to confirm before doing it. Starting something is undone by
    /// stopping it; stopping interrupts whatever the container was serving.
    pub fn needs_confirmation(self) -> (r: bool)
        ensures
            r == !(self is Start),
    {
        match self {
            ContainerAction::Start => false,
            _ => true,
        }
    }

    /// The word a toast shows afterwards.
    pub fn past_tense(self) -> (r: &'static str)
        ensures
            r@ == match self {
                ContainerAction::Start => "started"@,
                ContainerAction::Stop => "stopped"@,
                ContainerAction::Restart => "restarted"@,
            },
    {
        match self {
            ContainerAction::Start => "started",
            ContainerAction::Stop => "stopped",
            ContainerAction::Restart => "restarted",
        }
    }

    /// The call it becomes: `SYNO.Docker.Container` at `version`, with the
    /// container's name JSON-quoted.
    pub fn call(self, version: u32, container: &str) -> (r: Call)
        ensures
            r.api@ == "SYNO.Docker.Container"@,
            r.version == version,
            r.method@ == self.method_name(),
            r.params_view() == seq![("name"@, json_quoted(container@))],
    {
        let q = quoted(container);
        let c = Call::new("SYNO.Docker.Container", version, self.method()).param("name", q.as_str());
        assert(c.params_view() =~= seq![("name"@, json_quoted(container@))]);
        c
    }
}

/// The call that runs a container action, or why there is none: a
/// DiskStation without Container Manager (at a version this client reads)
/// has nothing to send it to.
pub fn container_call(caps: &Capabilities, action: ContainerAction, name: &str) -> (r: Result<Call, Error>)
    ensures
        match version_to_use(caps@, "SYNO.Docker.Container"@, 1) {
            Some(v) => r matches Ok(c) && c.api@ == "SYNO.Docker.Container"@ && c.version == v
                && c.method@ == action.method_name() && c.params_view() == seq![("name"@, json_quoted(name@))],
            None => r matches Err(e) && e@ == ErrorView::Malformed("this DiskStation has no Container Manager"@),
        },
{
    match caps.version_for("SYNO.Docker.Container", 1) {
        Some(version) => Ok(action.call(version, name)),
        None => Err(Error::Malformed(String::from_str("this DiskStation has no Container Manager"))),
    }
}

/// The buttons a container's row offers. DSM owns a package container's
/// lifecycle — stopping one from here leaves the package believing it still
/// runs — so it gets none; a container that is up can be stopped or
/// restarted; one that is not can be started.
pub fn row_actions(c: &Container) -> (r: Vec<ContainerAction>)
    ensures
        r@ == if c.is_package {
            seq![]
        } else if c.state.up() {
            seq![ContainerAction::Stop, ContainerAction::Restart]
        } else {
            seq![ContainerAction::Start]
        },
{
    let mut out: Vec<ContainerAction> = Vec::new();
    if c.is_package {
        return out;
    }
    if c.state.is_up() {
        out.push(ContainerAction::Stop);
        out.push(ContainerAction::Restart);
    } else {
        out.push(ContainerAction::Start);
    }
    proof {
        if c.state.up() {
            assert(out@ =~= seq![ContainerAction::Stop, ContainerAction::Restart]);
        } else {
            assert(out@ =~= seq![ContainerAction::Start]);
        }
    }
    out
}

} // verus!
