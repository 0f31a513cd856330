//! What this particular DiskStation can do.
//!
//! `SYNO.API.Info` answers without a session and lists every API the box
//! exposes with the version range it supports. A section whose namespace is
//! absent is hidden rather than shown broken, and a call is made at a
//! version the host actually has.

use vstd::prelude::*;

use super::error::{Error, ErrorView};
use crate::json::Json;
use crate::text::same_text;

verus! {

/// The version range one API supports.
#[derive(Debug, Clone, Copy, PartialEq, Eq)]
pub struct VersionRange {
    pub min: u32,
    pub max: u32,
}

/// Every API a DiskStation exposes, by name.
#[derive(Debug)]
pub struct Capabilities {
    apis: Vec<(String, VersionRange)>,
}

/// The catalogue a list of named ranges describes; each name once.
pub open spec fn map_of(s: Seq<(String, VersionRange)>) -> Map<Seq<char>, VersionRange>
    decreases s.len(),
{
    if s.len() == 0 {
        Map::empty()
    } else {
        map_of(s.drop_last()).insert(s.last().0@, s.last().1)
    }
}

pub open spec fn unique_names(s: Seq<(String, VersionRange)>) -> bool {
    forall|i: int, j: int| 0 <= i < j < s.len() ==> s[i].0@ != s[j].0@
}

/// The range an entry of the `SYNO.API.Info` reply gives, when it has both
/// bounds as unsigned integers. They are narrowed to `u32` the way `as`
/// narrows.
pub open spec fn version_range_of(entry: Json) -> Option<VersionRange> {
    match (entry.field("minVersion"@), entry.field("maxVersion"@)) {
        (Some(a), Some(b)) => match (a.u64_of(), b.u64_of()) {
            (Some(min), Some(max)) => Some(VersionRange { min: min as u32, max: max as u32 }),
            _ => None,
        },
        _ => None,
    }
}

/// The catalogue an `SYNO.API.Info` reply describes: every entry that has a
/// version range, a later entry for the same name replacing an earlier one.
pub open spec fn catalogue(entries: Seq<(String, Json)>) -> Map<Seq<char>, VersionRange>
    decreases entries.len(),
{
    if entries.len() == 0 {
        Map::empty()
    } else {
        let before = catalogue(entries.drop_last());
        match version_range_of(entries.last().1) {
            Some(r) => before.insert(entries.last().0@, r),
            None => before,
        }
    }
}

/// The version to call an API at: the highest the host supports, capped at
/// the highest this client understands; none when the API is absent or its
/// minimum is beyond what is understood.
pub open spec fn version_to_use(apis: Map<Seq<char>, VersionRange>, api: Seq<char>, understood: u32) -> Option<u32> {
    if !apis.contains_key(api) {
        None
    } else if apis[api].min > understood {
        None
    } else if apis[api].max < understood {
        Some(apis[api].max)
    } else {
        Some(understood)
    }
}

pub proof fn lemma_map_of(s: Seq<(String, VersionRange)>)
    requires
        unique_names(s),
    ensures
        map_of(s).dom().finite(),
        map_of(s).dom().len() == s.len(),
        forall|i: int| 0 <= i < s.len() ==> #[trigger] map_of(s).contains_key(s[i].0@) && map_of(s)[s[i].0@] == s[i].1,
        forall|k: Seq<char>| #[trigger] map_of(s).contains_key(k) ==> exists|i: int| 0 <= i < s.len() && s[i].0@ == k,
    decreases s.len(),
{
    if s.len() > 0 {
        let t = s.drop_last();
        lemma_map_of(t);
        assert(!map_of(t).contains_key(s.last().0@)) by {
            if map_of(t).contains_key(s.last().0@) {
                let i = choose|i: int| 0 <= i < t.len() && t[i].0@ == s.last().0@;
                assert(s[i].0@ == s[s.len() - 1].0@);
            }
        }
        assert forall|i: int| 0 <= i < s.len() implies #[trigger] map_of(s).contains_key(s[i].0@) && map_of(s)[s[i].0@] == s[i].1 by {
            if i < s.len() - 1 {
                assert(t[i] == s[i]);
            }
        }
        assert forall|k: Seq<char>| #[trigger] map_of(s).contains_key(k) implies exists|i: int| 0 <= i < s.len() && s[i].0@ == k by {
            if k != s.last().0@ {
                let i = choose|i: int| 0 <= i < t.len() && t[i].0@ == k;
                assert(s[i] == t[i]);
            }
        }
    }
}

pub proof fn lemma_map_of_update(s: Seq<(String, VersionRange)>, j: int, x: (String, VersionRange))
    requires
        0 <= j < s.len(),
        x.0@ == s[j].0@,
        unique_names(s),
    ensures
        map_of(s.update(j, x)) =~= map_of(s).insert(x.0@, x.1),
    decreases s.len(),
{
    let u = s.update(j, x);
    if j == s.len() - 1 {
        assert(u.drop_last() =~= s.drop_last());
    } else {
        assert(u.drop_last() =~= s.drop_last().update(j, x));
        lemma_map_of_update(s.drop_last(), j, x);
        assert(s[j].0@ != s[s.len() - 1].0@);
        assert(u.last() == s.last());
    }
}

impl View for Capabilities {
    type V = Map<Seq<char>, VersionRange>;

    closed spec fn view(&self) -> Map<Seq<char>, VersionRange> {
        map_of(self.apis@)
    }
}

impl Capabilities {
    #[verifier::type_invariant]
    closed spec fn names_once(self) -> bool {
        unique_names(self.apis@)
    }

    /// Parse the reply to `SYNO.API.Info`/`query`. An entry without both
    /// versions is skipped rather than failing the whole discovery; a reply
    /// that lists nothing usable is an error.
    pub fn parse(data: &Json) -> (r: Result<Capabilities, Error>)
        ensures
            match *data {
                Json::Object(entries) => if catalogue(entries@).dom().len() == 0 {
                    r matches Err(e) && e@ == ErrorView::Malformed("SYNO.API.Info: listed no usable APIs"@)
                } else {
                    r matches Ok(c) && c@ == catalogue(entries@)
                },
                _ => r matches Err(e) && e@ == ErrorView::Malformed("SYNO.API.Info: reply was not an object"@),
            },
            r matches Ok(c) ==> c@.dom().finite(),
    {
        let entries = match data.as_object() {
            Some(e) => e,
            None => return Err(Error::Malformed(String::from_str("SYNO.API.Info: reply was not an object"))),
        };
        let mut apis: Vec<(String, VersionRange)> = Vec::new();
        let mut i: usize = 0;
        while i < entries.len()
            invariant
                i <= entries.len(),
                unique_names(apis@),
                map_of(apis@) == catalogue(entries@.subrange(0, i as int)),
            decreases entries.len() - i,
        {
            assert(entries@.subrange(0, i + 1).drop_last() =~= entries@.subrange(0, i as int));
            let entry = &entries[i].1;
            let min = match entry.get("minVersion") {
                Some(v) => v.as_u64(),
                None => None,
            };
            let max = match entry.get("maxVersion") {
                Some(v) => v.as_u64(),
                None => None,
            };
            match (min, max) {
                (Some(min), Some(max)) => {
                    let range = VersionRange { min: min as u32, max: max as u32 };
                    insert_api(&mut apis, entries[i].0.clone(), range);
                },
                _ => {},
            }
            i = i + 1;
        }
        assert(entries@.subrange(0, entries@.len() as int) =~= entries@);
        proof {
            lemma_map_of(apis@);
        }
        if apis.len() == 0 {
            return Err(Error::Malformed(String::from_str("SYNO.API.Info: listed no usable APIs")));
        }
        Ok(Capabilities { apis })
    }

    /// Whether the host has this API at all.
    pub fn has(&self, api: &str) -> (r: bool)
        ensures
            r == self@.contains_key(api@),
    {
        proof {
            use_type_invariant(self);
        }
        self.find(api).is_some()
    }

    fn find(&self, api: &str) -> (r: Option<VersionRange>)
        ensures
            match r {
                Some(v) => self@.contains_key(api@) && self@[api@] == v,
                None => !self@.contains_key(api@),
            },
    {
        proof {
            use_type_invariant(self);
            lemma_map_of(self.apis@);
        }
        let mut i: usize = 0;
        while i < self.apis.len()
            invariant
                i <= self.apis.len(),
                unique_names(self.apis@),
                forall|j: int| 0 <= j < i ==> self.apis@[j].0@ != api@,
            decreases self.apis.len() - i,
        {
            if same_text(self.apis[i].0.as_str(), api) {
                proof {
                    lemma_map_of(self.apis@);
                    assert(map_of(self.apis@).contains_key(self.apis@[i as int].0@));
                }
                return Some(self.apis[i].1);
            }
            i = i + 1;
        }
        proof {
            lemma_map_of(self.apis@);
        }
        None
    }

    /// The version to call an API at: the highest the host supports, capped
    /// at the highest this client knows how to read. `None` when the API is
    /// absent, or when the host's minimum is above what is understood —
    /// calling it anyway earns a 104 and a broken card.
    pub fn version_for(&self, api: &str, understood: u32) -> (r: Option<u32>)
        ensures
            r == version_to_use(self@, api@, understood),
    {
        let range = match self.find(api) {
            Some(r) => r,
            None => return None,
        };
        if range.min > understood {
            return None;
        }
        if range.max < understood {
            Some(range.max)
        } else {
            Some(understood)
        }
    }

    /// How many APIs were discovered.
    pub fn len(&self) -> (r: usize)
        ensures
            self@.dom().finite(),
            r == self@.dom().len(),
    {
        proof {
            use_type_invariant(self);
            lemma_map_of(self.apis@);
        }
        self.apis.len()
    }

    pub fn is_empty(&self) -> (r: bool)
        ensures
            r == (self@.dom().len() == 0),
    {
        self.len() == 0
    }
}

impl Default for Capabilities {
    /// A catalogue with nothing in it: discovery has not run.
    fn default() -> (r: Capabilities)
        ensures
            r@ == Map::<Seq<char>, VersionRange>::empty(),
    {
        Capabilities { apis: Vec::new() }
    }
}

/// Record a named range, replacing the range already held under that name.
fn insert_api(apis: &mut Vec<(String, VersionRange)>, name: String, range: VersionRange)
    requires
        unique_names(old(apis)@),
    ensures
        unique_names(final(apis)@),
        map_of(final(apis)@) == map_of(old(apis)@).insert(name@, range),
{
    let mut j: usize = 0;
    while j < apis.len()
        invariant
            j <= apis.len(),
            apis@ == old(apis)@,
            unique_names(apis@),
            forall|k: int| 0 <= k < j ==> apis@[k].0@ != name@,
        decreases apis.len() - j,
    {
        if same_text(apis[j].0.as_str(), name.as_str()) {
            proof {
                lemma_map_of_update(apis@, j as int, (name, range));
            }
            let ghost before = apis@;
            apis.set(j, (name, range));
            assert(apis@ == before.update(j as int, (name, range)));
            return;
        }
        j = j + 1;
    }
    let ghost before = apis@;
    apis.push((name, range));
    assert(apis@.drop_last() =~= before);
}


/// A call is made at a version the host has and this client understands: at
/// most the pinned version, at most the host's maximum, and — for a range
/// that is not upside down — at least the host's minimum. Nothing is called
/// when the host lacks the API or its minimum is beyond us.
pub proof fn lemma_version_within_range(apis: Map<Seq<char>, VersionRange>, api: Seq<char>, understood: u32)
    ensures
        version_to_use(apis, api, understood) is None <==> (!apis.contains_key(api) || apis[api].min > understood),
        version_to_use(apis, api, understood) matches Some(v) ==> {
            &&& apis.contains_key(api)
            &&& v <= understood
            &&& v <= apis[api].max
            &&& (apis[api].min <= apis[api].max ==> apis[api].min <= v)
            &&& (v == understood || v == apis[api].max)
        },
{
}

/// How many entries of a reply carry a version range.
pub open spec fn usable_count(entries: Seq<(String, Json)>) -> nat
    decreases entries.len(),
{
    if entries.len() == 0 {
        0
    } else {
        usable_count(entries.drop_last()) + if version_range_of(entries.last().1) is Some { 1nat } else { 0nat }
    }
}

/// An API is in the catalogue exactly when some entry of the reply names it
/// with both versions; an entry missing one is skipped, not fatal. When the
/// reply names each API once — as a JSON object does — the catalogue holds
/// exactly as many APIs as there are such entries.
pub proof fn lemma_catalogue_members(entries: Seq<(String, Json)>, k: Seq<char>)
    ensures
        catalogue(entries).dom().finite(),
        catalogue(entries).contains_key(k) <==> exists|i: int|
            0 <= i < entries.len() && #[trigger] entries[i].0@ == k && version_range_of(entries[i].1) is Some,
        (forall|i: int, j: int| 0 <= i < j < entries.len() ==> entries[i].0@ != entries[j].0@)
            ==> catalogue(entries).dom().len() == usable_count(entries),
    decreases entries.len(),
{
    if entries.len() > 0 {
        let t = entries.drop_last();
        lemma_catalogue_members(t, k);
        lemma_catalogue_members(t, entries.last().0@);
        if catalogue(entries).contains_key(k) {
            if !(catalogue(t).contains_key(k)) {
                assert(entries[entries.len() - 1].0@ == k);
            } else {
                let i = choose|i: int| 0 <= i < t.len() && #[trigger] t[i].0@ == k && version_range_of(t[i].1) is Some;
                assert(entries[i] == t[i]);
            }
        }
        if exists|i: int| 0 <= i < entries.len() && #[trigger] entries[i].0@ == k && version_range_of(entries[i].1) is Some {
            let i = choose|i: int| 0 <= i < entries.len() && #[trigger] entries[i].0@ == k && version_range_of(entries[i].1) is Some;
            if i < entries.len() - 1 {
                assert(t[i] == entries[i]);
            }
        }
        if forall|i: int, j: int| 0 <= i < j < entries.len() ==> entries[i].0@ != entries[j].0@ {
            assert forall|i: int, j: int| 0 <= i < j < t.len() implies t[i].0@ != t[j].0@ by {
                assert(t[i] == entries[i] && t[j] == entries[j]);
            }
            assert(!catalogue(t).contains_key(entries.last().0@)) by {
                if catalogue(t).contains_key(entries.last().0@) {
                    let i = choose|i: int| 0 <= i < t.len() && #[trigger] t[i].0@ == entries.last().0@
                        && version_range_of(t[i].1) is Some;
                    assert(entries[i].0@ == entries[entries.len() - 1].0@);
                }
            }
        }
    }
}

/// Discovery keeps exactly the APIs listed with both versions, and fails
/// exactly when the reply lists none: the catalogue is empty if and only if
/// no entry carries a version range.
pub proof fn lemma_discovery_fails_iff_nothing_usable(entries: Seq<(String, Json)>)
    ensures
        catalogue(entries).dom().len() == 0 <==> forall|i: int|
            0 <= i < entries.len() ==> #[trigger] version_range_of(entries[i].1) is None,
{
    lemma_catalogue_members(entries, Seq::empty());
    if exists|i: int| 0 <= i < entries.len() && #[trigger] version_range_of(entries[i].1) is Some {
        let i = choose|i: int| 0 <= i < entries.len() && #[trigger] version_range_of(entries[i].1) is Some;
        lemma_catalogue_members(entries, entries[i].0@);
        assert(catalogue(entries).contains_key(entries[i].0@));
        assert(catalogue(entries).dom().contains(entries[i].0@));
    } else {
        assert forall|k: Seq<char>| !catalogue(entries).dom().contains(k) by {
            lemma_catalogue_members(entries, k);
        }
        assert(catalogue(entries).dom() =~= Set::empty());
    }
}

/// An API the host lists can always be called at some version by a client
/// that understands every version: `has` and `version_for(api, u32::MAX)`
/// agree.
pub proof fn lemma_listed_means_callable(apis: Map<Seq<char>, VersionRange>, api: Seq<char>)
    ensures
        apis.contains_key(api) <==> version_to_use(apis, api, u32::MAX) is Some,
{
}

} // verus!
