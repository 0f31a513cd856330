//! Installed packages: `SYNO.Core.Package`.

use vstd::prelude::*;

use super::{items, items_at, opt_view, text, text_or_empty};
use crate::dsm::{field_bool, opt_read_bool};
use crate::json::Json;
use crate::sorting::{keys_sorted, lemma_sort_by_permutes, lemma_sort_by_sorted, sort_by, sort_by_text};
use crate::text::{ascii_lower, ascii_lowercase, chars_are, same_text, to_lowercase, unicode_lowercase};

verus! {

#[derive(Debug, Clone, PartialEq, Eq)]
pub struct Package {
    pub id: String,
    /// DSM sends `name` for the human name and `id` for the short one.
    pub name: String,
    pub version: String,
    /// `running`, `stopped`, `installing`, …
    pub status: String,
    /// Present when the repository has something newer.
    pub available_version: Option<String>,
    pub beta: bool,
}

impl Default for Package {
    fn default() -> (r: Package)
        ensures
            r.id@.len() == 0 && r.name@.len() == 0 && r.version@.len() == 0 && r.status@.len() == 0,
            r.available_version is None && !r.beta,
    {
        Package {
            id: String::new(),
            name: String::new(),
            version: String::new(),
            status: String::new(),
            available_version: None,
            beta: false,
        }
    }
}

/// The status DSM reports under `additional`, where it puts it; there is no
/// top-level one.
pub open spec fn status_of(v: Json) -> Seq<char> {
    match v.field("additional"@) {
        Some(a) => text_or_empty(a, "status"@),
        None => Seq::empty(),
    }
}

/// The version on offer: `available_version` when the key is there at all,
/// `beta_version` otherwise, and only when it is non-empty text.
pub open spec fn available_of(v: Json) -> Option<Seq<char>> {
    let raw = match v.field("available_version"@) {
        Some(j) => Some(j),
        None => v.field("beta_version"@),
    };
    match raw {
        Some(j) => match j.text_of() {
            Some(t) => if t.len() > 0 { Some(t) } else { None },
            None => None,
        },
        None => None,
    }
}

/// How one element of `packages` reads.
pub open spec fn package_reads(r: Package, v: Json) -> bool {
    let id = text_or_empty(v, "id"@);
    let display = text_or_empty(v, "name"@);
    &&& r.id@ == id
    &&& r.name@ == if display.len() == 0 { id } else { display }
    &&& r.version@ == text_or_empty(v, "version"@)
    &&& r.status@ == status_of(v)
    &&& opt_view(r.available_version) == available_of(v)
    &&& r.beta == match opt_read_bool(v.field("beta"@)) {
        Some(b) => b,
        None => false,
    }
}

/// The key packages are listed by: the name, lower-cased, so "Antivirus" and
/// "antivirus" sort together.
pub open spec fn package_key(p: Package) -> Seq<char> {
    unicode_lowercase(p.name@)
}

/// Packages in the order the list shows them: stably, by `package_key`.
pub open spec fn packages_by_name(s: Seq<Package>) -> Seq<Package> {
    sort_by(s, |p: Package| package_key(p))
}

/// Whether a package with this status and these versions has an update
/// waiting: one is on offer and it differs from what is installed.
pub open spec fn update_waiting(available: Option<Seq<char>>, version: Seq<char>) -> bool {
    match available {
        Some(a) => a.len() > 0 && a != version,
        None => false,
    }
}

fn package_from(v: &Json) -> (r: Package)
    ensures
        package_reads(r, *v),
{
    let id = text(v, "id");
    let display = text(v, "name");
    let name = if display.as_str().is_empty() {
        id.clone()
    } else {
        display
    };
    let status = match v.get("additional") {
        Some(a) => text(a, "status"),
        None => String::new(),
    };
    let raw = match v.get("available_version") {
        Some(j) => Some(j),
        None => v.get("beta_version"),
    };
    let available_version = match raw {
        Some(j) => match j.as_str() {
            Some(t) => if t.is_empty() {
                None
            } else {
                Some(String::from_str(t))
            },
            None => None,
        },
        None => None,
    };
    let beta = match field_bool(v, "beta") {
        Some(b) => b,
        None => false,
    };
    Package { id, name, version: text(v, "version"), status, available_version, beta }
}

impl Package {
    /// Whether the status reads `running`, in any case.
    pub fn is_running(&self) -> (r: bool)
        ensures
            r == (ascii_lower(self.status@) == "running"@),
    {
        let w = ascii_lowercase(self.status.as_str());
        chars_are(&w, "running")
    }

    /// Whether an update is waiting.
    ///
    /// Compared as strings deliberately: DSM version strings carry build
    /// numbers (`1.2.3-4567`) that do not parse as semver, and any ordering
    /// this invented would be wrong for some package. "Different from what is
    /// installed" is the honest test and matches what Package Center shows.
    pub fn has_update(&self) -> (r: bool)
        ensures
            r == update_waiting(opt_view(self.available_version), self.version@),
    {
        match &self.available_version {
            Some(available) => !available.as_str().is_empty() && !same_text(available.as_str(), self.version.as_str()),
            None => false,
        }
    }

    /// Read `SYNO.Core.Package`/`list`, ordered by name without regard to
    /// case.
    pub fn list_from_json(data: &Json) -> (r: Vec<Package>)
        ensures
            exists|read: Seq<Package>| {
                &&& read.len() == items_at(*data, "packages"@).len()
                &&& forall|i: int| 0 <= i < read.len() ==> package_reads(#[trigger] read[i], items_at(*data, "packages"@)[i])
                &&& r@ == #[trigger] packages_by_name(read)
            },
    {
        let list = items(data, "packages");
        let mut read: Vec<Package> = Vec::new();
        let mut keys: Vec<String> = Vec::new();
        let mut i: usize = 0;
        while i < list.len()
            invariant
                i <= list@.len(),
                read@.len() == i,
                keys@.len() == i,
                forall|j: int| 0 <= j < i ==> package_reads(#[trigger] read@[j], list@[j]),
                forall|j: int| 0 <= j < i ==> #[trigger] keys@[j]@ == package_key(read@[j]),
            decreases list.len() - i,
        {
            let p = package_from(&list[i]);
            keys.push(to_lowercase(p.name.as_str()));
            read.push(p);
            i = i + 1;
        }
        let ghost key = |p: Package| package_key(p);
        let ghost read_all = read@;
        let r = sort_by_text(read, keys, Ghost(key));
        assert(r@ == packages_by_name(read_all));
        r
    }
}


/// The package list is in name order without regard to case, and holds
/// exactly the packages that were read, each as often as it was read.
pub proof fn lemma_packages_listed_by_name(read: Seq<Package>)
    ensures
        keys_sorted(packages_by_name(read), |p: Package| package_key(p)),
        packages_by_name(read).to_multiset() == read.to_multiset(),
{
    lemma_sort_by_sorted(read, |p: Package| package_key(p));
    lemma_sort_by_permutes(read, |p: Package| package_key(p));
}

} // verus!
