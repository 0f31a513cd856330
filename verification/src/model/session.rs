//! Who is connected: `SYNO.Core.CurrentConnection`.

use vstd::prelude::*;

use super::{items, items_at, text_or_empty};
use crate::dsm::{field_bool, opt_read_bool};
use crate::json::Json;

verus! {

#[derive(Debug, Clone, PartialEq, Eq)]
pub struct Session {
    pub who: String,
    /// The address it came from.
    pub from: String,
    /// The service: `DSM`, `SMB`, `FTP`, …
    pub service: String,
    /// DSM's own wording of when it started, kept verbatim.
    pub since: String,
    /// Whether DSM will let this session be ended — never the one doing the
    /// asking, whatever DSM says.
    pub can_be_ended: bool,
    pub is_current: bool,
}

impl Default for Session {
    fn default() -> (r: Session)
        ensures
            r.who@.len() == 0 && r.from@.len() == 0 && r.service@.len() == 0 && r.since@.len() == 0,
            !r.can_be_ended && !r.is_current,
    {
        Session {
            who: String::new(),
            from: String::new(),
            service: String::new(),
            since: String::new(),
            can_be_ended: false,
            is_current: false,
        }
    }
}

pub open spec fn flag(v: Json, key: Seq<char>) -> bool {
    match opt_read_bool(v.field(key)) {
        Some(b) => b,
        None => false,
    }
}

/// How one element of `items` reads. Offering an End button on the session
/// that is asking would let someone log themselves out mid-poll.
pub open spec fn session_reads(r: Session, v: Json) -> bool {
    let descr = text_or_empty(v, "descr"@);
    let is_current = flag(v, "is_current_connected"@);
    &&& r.who@ == text_or_empty(v, "who"@)
    &&& r.from@ == text_or_empty(v, "from"@)
    &&& r.service@ == if descr.len() == 0 { text_or_empty(v, "type"@) } else { descr }
    &&& r.since@ == text_or_empty(v, "first_login_time"@)
    &&& r.can_be_ended == (flag(v, "can_be_kicked"@) && !is_current)
    &&& r.is_current == is_current
}

fn flag_at(v: &Json, key: &str) -> (r: bool)
    ensures
        r == flag(*v, key@),
{
    match field_bool(v, key) {
        Some(b) => b,
        None => false,
    }
}

fn session_from(v: &Json) -> (r: Session)
    ensures
        session_reads(r, *v),
{
    let is_current = flag_at(v, "is_current_connected");
    let descr = super::text(v, "descr");
    let service = if descr.as_str().is_empty() {
        super::text(v, "type")
    } else {
        descr
    };
    Session {
        who: super::text(v, "who"),
        from: super::text(v, "from"),
        service,
        since: super::text(v, "first_login_time"),
        can_be_ended: flag_at(v, "can_be_kicked") && !is_current,
        is_current,
    }
}

impl Session {
    pub fn list_from_json(data: &Json) -> (r: Vec<Session>)
        ensures
            r@.len() == items_at(*data, "items"@).len(),
            forall|i: int| 0 <= i < r@.len() ==> session_reads(#[trigger] r@[i], items_at(*data, "items"@)[i]),
    {
        let list = items(data, "items");
        let mut out: Vec<Session> = Vec::new();
        let mut i: usize = 0;
        while i < list.len()
            invariant
                i <= list@.len(),
                out@.len() == i,
                forall|j: int| 0 <= j < i ==> session_reads(#[trigger] out@[j], list@[j]),
            decreases list.len() - i,
        {
            out.push(session_from(&list[i]));
            i = i + 1;
        }
        out
    }
}

} // verus!
