//! Network interfaces: `SYNO.Core.Network.Interface`.

use vstd::prelude::*;

use super::power::{nonempty, nonempty_text};
use super::{opt_view, text, text_or_empty};
use crate::dsm::{field_bool, field_u64, opt_read_bool, opt_read_u64};
use crate::json::Json;
use crate::sorting::{
    lemma_sort_by_number_elements, lemma_sort_by_number_permutes, lemma_sort_by_number_sorted, numbers_sorted,
    sort_by_number, sort_by_number_key,
};
use crate::text::{ascii_lower, ascii_lowercase, chars_are, decimal, parse_u64, parse_unsigned, u64_text};

verus! {

#[derive(Debug, Clone, PartialEq, Eq)]
pub struct NetworkInterface {
    /// `ovs_eth0`, `bond0`, `eth1`.
    pub name: String,
    pub ip: Option<String>,
    pub netmask: Option<String>,
    /// Link speed in Mbit/s. `0` when the link is down.
    pub speed_mbit: u64,
    /// `connected`, `disconnected`.
    pub status: String,
    /// `ovseth`, `bond`, `eth`.
    pub kind: String,
    pub dhcp: bool,
}

impl Default for NetworkInterface {
    fn default() -> (r: NetworkInterface)
        ensures
            r.name@.len() == 0 && (r.ip is None) && (r.netmask is None) && r.speed_mbit == 0,
            r.status@.len() == 0 && r.kind@.len() == 0 && !r.dhcp,
    {
        NetworkInterface {
            name: String::new(),
            ip: None,
            netmask: None,
            speed_mbit: 0,
            status: String::new(),
            kind: String::new(),
            dhcp: false,
        }
    }
}

/// The link speed as a phrase: a dash for no link, whole gigabits as GbE,
/// anything else in Mbit/s.
pub open spec fn speed_phrase(speed: u64) -> Seq<char> {
    if speed == 0 {
        "—"@
    } else if speed >= 1000 && speed % 1000 == 0 {
        decimal((speed / 1000) as nat) + " GbE"@
    } else {
        decimal(speed as nat) + " Mbit/s"@
    }
}

/// How one interface object reads.
pub open spec fn interface_reads(r: NetworkInterface, v: Json) -> bool {
    &&& r.name@ == text_or_empty(v, "ifname"@)
    &&& opt_view(r.ip) == nonempty_text(v, "ip"@)
    &&& opt_view(r.netmask) == nonempty_text(v, "mask"@)
    &&& r.speed_mbit == match opt_read_u64(v.field("speed"@)) {
        Some(s) => s,
        None => 0,
    }
    &&& r.status@ == text_or_empty(v, "status"@)
    &&& r.kind@ == text_or_empty(v, "type"@)
    &&& r.dhcp == match opt_read_bool(v.field("use_dhcp"@)) {
        Some(b) => b,
        None => false,
    }
}

/// An object key as the index it stands for; one that is not a number sorts
/// last.
pub open spec fn index_key(k: Seq<char>) -> u64 {
    match parse_unsigned(k, u64::MAX as nat) {
        Some(v) => v as u64,
        None => u64::MAX,
    }
}

/// The entries whose value is an object, each as its index and its position
/// among the entries, in the order they came.
pub open spec fn keyed(entries: Seq<(String, Json)>) -> Seq<(u64, usize)>
    decreases entries.len(),
{
    if entries.len() == 0 {
        Seq::empty()
    } else {
        let rest = keyed(entries.drop_last());
        if entries.last().1 is Object {
            rest.push((index_key(entries.last().0@), (entries.len() - 1) as usize))
        } else {
            rest
        }
    }
}

/// The interfaces in DSM's order: stably by their numeric key.
pub open spec fn by_index(entries: Seq<(String, Json)>) -> Seq<(u64, usize)> {
    sort_by_number(keyed(entries), |p: (u64, usize)| p.0)
}

proof fn lemma_keyed_positions(entries: Seq<(String, Json)>)
    ensures
        forall|i: int|
            0 <= i < keyed(entries).len() ==> (#[trigger] keyed(entries)[i]).1 < entries.len(),
    decreases entries.len(),
{
    if entries.len() > 0 {
        lemma_keyed_positions(entries.drop_last());
        let rest = keyed(entries.drop_last());
        assert forall|i: int| 0 <= i < keyed(entries).len() implies (#[trigger] keyed(entries)[i]).1 < entries.len() by {
            if i < rest.len() {
                assert(keyed(entries)[i] == rest[i]);
            }
        }
    }
}

fn interface_from(v: &Json) -> (r: NetworkInterface)
    ensures
        interface_reads(r, *v),
{
    NetworkInterface {
        name: text(v, "ifname"),
        ip: nonempty(v, "ip"),
        netmask: nonempty(v, "mask"),
        speed_mbit: match field_u64(v, "speed") {
            Some(s) => s,
            None => 0,
        },
        status: text(v, "status"),
        kind: text(v, "type"),
        dhcp: match field_bool(v, "use_dhcp") {
            Some(b) => b,
            None => false,
        },
    }
}

impl NetworkInterface {
    /// Whether the status reads `connected`, in any case.
    pub fn is_connected(&self) -> (r: bool)
        ensures
            r == (ascii_lower(self.status@) == "connected"@),
    {
        let w = ascii_lowercase(self.status.as_str());
        chars_are(&w, "connected")
    }

    /// The link speed as a phrase: DSM reports 10 GbE as `10000`.
    pub fn speed_label(&self) -> (r: String)
        ensures
            r@ == speed_phrase(self.speed_mbit),
    {
        let s = self.speed_mbit;
        if s == 0 {
            String::from_str("—")
        } else if s >= 1000 && s % 1000 == 0 {
            let mut out = u64_text(s / 1000);
            out.append(" GbE");
            out
        } else {
            let mut out = u64_text(s);
            out.append(" Mbit/s");
            out
        }
    }

    /// Read `SYNO.Core.Network.Interface`/`list`.
    ///
    /// The reply is an **object keyed by index** — `{"0": {...}, "1": {...}}`
    /// — not an array. Sorted numerically by the key so the order matches
    /// DSM's rather than the string order ("10" before "2").
    pub fn list_from_json(data: &Json) -> (r: Vec<NetworkInterface>)
        ensures
            match *data {
                Json::Object(entries) => {
                    &&& r@.len() == by_index(entries@).len()
                    &&& forall|i: int|
                        0 <= i < r@.len() ==> interface_reads(
                            #[trigger] r@[i],
                            entries@[by_index(entries@)[i].1 as int].1,
                        )
                },
                _ => r@.len() == 0,
            },
    {
        let entries = match data.as_object() {
            Some(e) => e,
            None => return Vec::new(),
        };
        let mut found: Vec<(u64, usize)> = Vec::new();
        let mut keys: Vec<u64> = Vec::new();
        let mut i: usize = 0;
        while i < entries.len()
            invariant
                i <= entries@.len(),
                found@ == keyed(entries@.subrange(0, i as int)),
                keys@.len() == found@.len(),
                forall|j: int| 0 <= j < found@.len() ==> #[trigger] keys@[j] == found@[j].0,
            decreases entries.len() - i,
        {
            assert(entries@.subrange(0, i + 1).drop_last() =~= entries@.subrange(0, i as int));
            if entries[i].1.is_object() {
                let k = match parse_u64(entries[i].0.as_str()) {
                    Some(v) => v,
                    None => u64::MAX,
                };
                found.push((k, i));
                keys.push(k);
            }
            i = i + 1;
        }
        assert(entries@.subrange(0, entries@.len() as int) =~= entries@);
        let ghost key = |p: (u64, usize)| p.0;
        let order = sort_by_number_key(found, keys, Ghost(key));
        assert(order@ == by_index(entries@));
        proof {
            lemma_keyed_positions(entries@);
            assert forall|j: int| 0 <= j < order@.len() implies (#[trigger] order@[j]).1 < entries@.len() by {
                lemma_sort_by_number_elements(keyed(entries@), key, j);
            }
        }
        let mut out: Vec<NetworkInterface> = Vec::new();
        let mut k: usize = 0;
        while k < order.len()
            invariant
                k <= order@.len(),
                order@ == by_index(entries@),
                out@.len() == k,
                forall|j: int| 0 <= j < order@.len() ==> (#[trigger] order@[j]).1 < entries@.len(),
                forall|j: int| 0 <= j < k ==> interface_reads(#[trigger] out@[j], entries@[order@[j].1 as int].1),
            decreases order.len() - k,
        {
            let pos = order[k].1;
            out.push(interface_from(&entries[pos].1));
            k = k + 1;
        }
        out
    }
}


/// The interfaces come back in numeric key order — "2" before "10" — and
/// each object entry exactly once.
pub proof fn lemma_interfaces_in_index_order(entries: Seq<(String, Json)>)
    ensures
        numbers_sorted(by_index(entries), |p: (u64, usize)| p.0),
        by_index(entries).to_multiset() == keyed(entries).to_multiset(),
{
    lemma_sort_by_number_sorted(keyed(entries), |p: (u64, usize)| p.0);
    lemma_sort_by_number_permutes(keyed(entries), |p: (u64, usize)| p.0);
}

} // verus!
