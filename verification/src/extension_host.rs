//! The extension host: the set of active extensions, keyed by their unique
//! ids, and the query the window builder uses to decide which entry scripts
//! a new window should auto-load.

use vstd::prelude::*;

use crate::assoc::{entry_keys_distinct, AssocMap};
use crate::extension::{Extension, ExtensionManifest};
use crate::extension_scanner::{candidate_entries, ExtensionsScanner, RootScan};

verus! {

/// Whether the manifest asks to be loaded into a window carrying one of the
/// given labels.
pub open spec fn spec_activates_on(m: ExtensionManifest, labels: Seq<String>) -> bool {
    exists|i: int, j: int|
        0 <= i < m.activate_on@.len() && 0 <= j < labels.len() && (#[trigger] m.activate_on@[i])@
            == (#[trigger] labels[j])@
}

/// Whether the manifest's activation labels intersect the given labels.
fn activates_on(m: &ExtensionManifest, labels: &Vec<String>) -> (r: bool)
    ensures
        r == spec_activates_on(*m, labels@),
{
    let n = m.activate_on.len();
    let mut i: usize = 0;
    while i < n
        invariant
            i <= n,
            n == m.activate_on@.len(),
            forall|a: int, b: int|
                0 <= a < i && 0 <= b < labels@.len() ==> (#[trigger] m.activate_on@[a])@ != (
                #[trigger] labels@[b])@,
        decreases n - i,
    {
        let k = labels.len();
        let mut j: usize = 0;
        while j < k
            invariant
                j <= k,
                i < n,
                n == m.activate_on@.len(),
                k == labels@.len(),
                forall|b: int| 0 <= b < j ==> (#[trigger] labels@[b])@ != m.activate_on@[i as int]@,
            decreases k - j,
        {
            if crate::text::str_eq(m.activate_on[i].as_str(), labels[j].as_str()) {
                return true;
            }
            j = j + 1;
        }
        i = i + 1;
    }
    false
}

/// The set of active extensions. An extension is stored under its
/// manifest-declared id.
pub struct ExtensionHost {
    extensions: AssocMap<String, Extension>,
}

impl ExtensionHost {
    /// The active extensions by id.
    pub closed spec fn active_map(&self) -> Map<Seq<char>, Extension> {
        self.extensions@
    }

    /// The active extensions in activation order.
    pub closed spec fn active_kv(&self) -> Seq<(String, Extension)> {
        self.extensions.kv()
    }

    /// Internal well-formedness: the table is well formed and every
    /// extension stands under its own id.
    pub closed spec fn inv(&self) -> bool {
        &&& self.extensions.inv()
        &&& forall|k: Seq<char>|
            self.extensions@.dom().contains(k) ==> (#[trigger] self.extensions@[k]).spec_id() == k
    }

    /// A host with no active extensions.
    pub fn new() -> (r: Self)
        ensures
            r.inv(),
            r.active_map() == Map::<Seq<char>, Extension>::empty(),
    {
        ExtensionHost { extensions: AssocMap::new() }
    }

    /// The active extension with the given id, if any.
    pub fn get_extension(&self, id: &str) -> (r: Option<&Extension>)
        requires
            self.inv(),
        ensures
            match r {
                Some(e) => self.active_map().dom().contains(id@) && *e == self.active_map()[id@],
                None => !self.active_map().dom().contains(id@),
            },
    {
        self.extensions.get(&id.to_owned())
    }

    /// Whether an extension with the given id is active.
    pub fn has_extension(&self, id: &str) -> (r: bool)
        requires
            self.inv(),
        ensures
            r == self.active_map().dom().contains(id@),
    {
        self.extensions.contains_key(&id.to_owned())
    }

    /// Inserts an extension into the active set under its id.
    pub fn add_extension(&mut self, extension: Extension)
        requires
            old(self).inv(),
        ensures
            final(self).inv(),
            final(self).active_map() == old(self).active_map().insert(
                extension.spec_id(),
                extension,
            ),
    {
        let id = extension.id();
        self.extensions.insert(id, extension);
    }

    /// Removes the extension with the given id from the active set, if any.
    pub fn remove_extension(&mut self, id: &str)
        requires
            old(self).inv(),
        ensures
            final(self).inv(),
            final(self).active_map() == old(self).active_map().remove(id@),
    {
        self.extensions.remove(&id.to_owned());
    }

    /// A discovery walk over the given scanned search roots, in order.
    pub fn search_extensions(&self, search_paths: Vec<RootScan>) -> (r: ExtensionsScanner)
        ensures
            r.inv(),
            r.pending() == candidate_entries(search_paths@),
    {
        ExtensionsScanner::new(search_paths)
    }

    /// Every active extension whose activation labels intersect the given
    /// window labels: each returned extension is active and matches; every
    /// active matching extension is returned; none repeats.
    #[verifier::rlimit(30)]
    pub fn extensions_for_window_labels<'a>(&'a self, labels: &Vec<String>) -> (r: Vec<
        &'a Extension,
    >)
        requires
            self.inv(),
        ensures
            forall|i: int|
                0 <= i < r@.len() ==> self.active_map().dom().contains(
                    (#[trigger] r@[i]).spec_id(),
                ) && self.active_map()[r@[i].spec_id()] == *r@[i] && spec_activates_on(
                    r@[i].spec_manifest(),
                    labels@,
                ),
            forall|k: Seq<char>|
                self.active_map().dom().contains(k) && spec_activates_on(
                    (#[trigger] self.active_map()[k]).spec_manifest(),
                    labels@,
                ) ==> exists|i: int| 0 <= i < r@.len() && (#[trigger] r@[i]).spec_id() == k,
            forall|i: int, j: int|
                0 <= i < j < r@.len() ==> (#[trigger] r@[i]).spec_id() != (
                #[trigger] r@[j]).spec_id(),
    {
        let n = self.extensions.num_entries();
        let mut out: Vec<&Extension> = Vec::new();
        let mut i: usize = 0;
        while i < n
            invariant
                i <= n,
                self.inv(),
                n == self.active_kv().len(),
                entry_keys_distinct(self.active_kv()),
                forall|a: int|
                    0 <= a < out@.len() ==> exists|j: int|
                        0 <= j < i && *(#[trigger] out@[a]) == self.active_kv()[j].1 && out@[a].spec_id()
                            == self.active_kv()[j].0@,
                forall|a: int|
                    0 <= a < out@.len() ==> self.active_map().dom().contains(
                        (#[trigger] out@[a]).spec_id(),
                    ) && self.active_map()[out@[a].spec_id()] == *out@[a] && spec_activates_on(
                        out@[a].spec_manifest(),
                        labels@,
                    ),
                forall|j: int|
                    0 <= j < i && spec_activates_on(
                        (#[trigger] self.active_kv()[j]).1.spec_manifest(),
                        labels@,
                    ) ==> exists|a: int|
                        0 <= a < out@.len() && (#[trigger] out@[a]).spec_id()
                            == self.active_kv()[j].0@,
                forall|a: int, b: int|
                    0 <= a < b < out@.len() ==> (#[trigger] out@[a]).spec_id() != (
                    #[trigger] out@[b]).spec_id(),
            decreases n - i,
        {
            let entry = self.extensions.entry_at(i);
            if activates_on(entry.1.manifest(), labels) {
                let ghost before = out@;
                out.push(&entry.1);
                proof {
                    assert(self.active_kv()[i as int].1.spec_id() == self.active_kv()[i as int].0@);
                    assert forall|a: int, b: int|
                        0 <= a < b < out@.len() implies (#[trigger] out@[a]).spec_id() != (
                    #[trigger] out@[b]).spec_id() by {
                        if b == out@.len() - 1 {
                            let j = choose|j: int|
                                0 <= j < i && *(#[trigger] before[a]) == self.active_kv()[j].1
                                    && before[a].spec_id() == self.active_kv()[j].0@;
                            assert(self.active_kv()[j].0@ != self.active_kv()[i as int].0@);
                        }
                    }
                    assert forall|j: int|
                        0 <= j < i + 1 && spec_activates_on(
                            (#[trigger] self.active_kv()[j]).1.spec_manifest(),
                            labels@,
                        ) implies exists|a: int|
                        0 <= a < out@.len() && (#[trigger] out@[a]).spec_id()
                            == self.active_kv()[j].0@ by {
                        if j < i {
                            let a = choose|a: int|
                                0 <= a < before.len() && (#[trigger] before[a]).spec_id()
                                    == self.active_kv()[j].0@;
                            assert(out@[a].spec_id() == self.active_kv()[j].0@);
                        } else {
                            assert(out@[out@.len() - 1].spec_id() == self.active_kv()[i as int].0@);
                        }
                    }
                }
            }
            i = i + 1;
        }
        proof {
            assert forall|k: Seq<char>|
                self.active_map().dom().contains(k) && spec_activates_on(
                    (#[trigger] self.active_map()[k]).spec_manifest(),
                    labels@,
                ) implies exists|i: int| 0 <= i < out@.len() && (#[trigger] out@[i]).spec_id()
                == k by {
                let j = choose|j: int|
                    0 <= j < self.active_kv().len() && (#[trigger] self.active_kv()[j]).0@ == k;
                assert(self.active_kv()[j].1 == self.active_map()[k]);
                assert(spec_activates_on(self.active_kv()[j].1.spec_manifest(), labels@));
            }
        }
        out
    }
}

} // verus!
