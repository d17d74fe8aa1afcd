//! Extension discovery: turns an ordered list of scanned search roots into
//! the extensions they hold, in root order then directory order. A root that
//! is missing or not a directory contributes nothing; a directory whose
//! manifest cannot be read or parsed is skipped; a single bad extension
//! never aborts the scan.

use vstd::prelude::*;

use crate::extension::{manifest_matches, manifest_shape_ok, Extension};
use crate::json::parsed_json;
use vstd::seq_lib::group_seq_properties;

verus! {

/// One immediate subdirectory of a search root: its path, and the raw bytes
/// of its manifest file, absent when the file could not be read.
pub struct EntryScan {
    pub path: String,
    pub manifest_bytes: Option<Vec<u8>>,
}

/// One search root: whether it exists and is a directory, and its immediate
/// subdirectories in directory order.
pub struct RootScan {
    pub path: String,
    pub is_dir: bool,
    pub entries: Vec<EntryScan>,
}

/// Whether a scanned directory yields an extension: its manifest was read,
/// parses, and has the declared shape.
pub open spec fn entry_good(e: EntryScan) -> bool {
    match e.manifest_bytes {
        Some(b) => match parsed_json(b@) {
            Ok(v) => manifest_shape_ok(v),
            Err(_) => false,
        },
        None => false,
    }
}

/// Whether `ext` is the extension that the scanned directory describes.
pub open spec fn ext_from_entry(ext: Extension, e: EntryScan) -> bool {
    &&& ext.dir_string()@ == e.path@
    &&& match e.manifest_bytes {
        Some(b) => match parsed_json(b@) {
            Ok(v) => manifest_matches(ext.spec_manifest(), v),
            Err(_) => false,
        },
        None => false,
    }
}

/// The candidate directories of the given roots: the subdirectories of every
/// root that is a directory, in root order then directory order.
pub open spec fn candidate_entries(roots: Seq<RootScan>) -> Seq<EntryScan>
    decreases roots.len(),
{
    if roots.len() == 0 {
        Seq::empty()
    } else {
        candidate_entries(roots.drop_last()) + (if roots.last().is_dir {
            roots.last().entries@
        } else {
            Seq::empty()
        })
    }
}

proof fn lemma_filter_all_bad(s: Seq<EntryScan>)
    requires
        forall|j: int| 0 <= j < s.len() ==> !entry_good(#[trigger] s[j]),
    ensures
        s.filter(|e: EntryScan| entry_good(e)).len() == 0,
    decreases s.len(),
{
    reveal(Seq::filter);
    if s.len() > 0 {
        lemma_filter_all_bad(s.drop_last());
    }
}

proof fn lemma_filter_bads_then_good(s: Seq<EntryScan>, k: int)
    requires
        s.len() == k + 1,
        0 <= k,
        forall|j: int| 0 <= j < k ==> !entry_good(#[trigger] s[j]),
        entry_good(s[k]),
    ensures
        s.filter(|e: EntryScan| entry_good(e)) =~= seq![s[k]],
{
    reveal(Seq::filter);
    lemma_filter_all_bad(s.drop_last());
    assert(s.drop_last().filter(|e: EntryScan| entry_good(e)).len() == 0);
    assert(s.drop_last().filter(|e: EntryScan| entry_good(e)) =~= Seq::<EntryScan>::empty());
}

/// A restartable walk over the candidate directories of an ordered list of
/// search roots.
pub struct ExtensionsScanner {
    queue: Vec<EntryScan>,
    pos: usize,
}

impl ExtensionsScanner {
    /// The scanner's position is inside its queue.
    pub closed spec fn inv(&self) -> bool {
        self.pos <= self.queue@.len()
    }

    /// The candidate directories not yet visited.
    pub closed spec fn pending(&self) -> Seq<EntryScan> {
        self.queue@.skip(self.pos as int)
    }

    /// A scanner over the candidates of the given roots, in order.
    pub fn new(search_paths: Vec<RootScan>) -> (r: Self)
        ensures
            r.inv(),
            r.pending() == candidate_entries(search_paths@),
    {
        let ghost roots0 = search_paths@;
        let mut remaining = search_paths;
        let mut queue: Vec<EntryScan> = Vec::new();
        let ghost mut a: int = 0;
        while remaining.len() > 0
            invariant
                0 <= a <= roots0.len(),
                remaining@ == roots0.skip(a),
                queue@ == candidate_entries(roots0.subrange(0, a)),
            decreases remaining@.len(),
        {
            let mut root = remaining.remove(0);
            if root.is_dir {
                queue.append(&mut root.entries);
            }
            proof {
                a = a + 1;
                assert(roots0.subrange(0, a).drop_last() =~= roots0.subrange(0, a - 1));
                assert(roots0.subrange(0, a).last() == roots0[a - 1]);
                assert(remaining@ =~= roots0.skip(a));
                if !roots0[a - 1].is_dir {
                    assert(queue@ =~= candidate_entries(roots0.subrange(0, a)));
                }
            }
        }
        proof {
            assert(roots0.subrange(0, roots0.len() as int) =~= roots0);
        }
        let r = ExtensionsScanner { queue, pos: 0 };
        proof {
            assert(r.pending() =~= r.queue@);
        }
        r
    }

    /// The next extension of the walk: skips candidates whose manifest is
    /// unreadable, unparsable or ill-shaped, and yields the first remaining
    /// one; `None` when no candidate is left, which ends the walk.
    pub fn next(&mut self) -> (r: Option<Extension>)
        requires
            old(self).inv(),
        ensures
            final(self).inv(),
            match r {
                Some(ext) => exists|k: int|
                    0 <= k < old(self).pending().len() && (forall|j: int|
                        0 <= j < k ==> !entry_good(#[trigger] old(self).pending()[j]))
                        && entry_good(#[trigger] old(self).pending()[k]) && ext_from_entry(
                        ext,
                        old(self).pending()[k],
                    ) && final(self).pending() == old(self).pending().skip(k + 1),
                None => (forall|j: int|
                    0 <= j < old(self).pending().len() ==> !entry_good(
                        #[trigger] old(self).pending()[j],
                    )) && final(self).pending().len() == 0,
            },
    {
        broadcast use group_seq_properties;

        let n = self.queue.len();
        let ghost p0 = self.pos as int;
        while self.pos < n
            invariant
                p0 <= self.pos as int <= n,
                p0 == old(self).pos as int,
                n == self.queue@.len(),
                self.queue == old(self).queue,
                forall|j: int| p0 <= j < self.pos as int ==> !entry_good(#[trigger] self.queue@[j]),
            decreases n - self.pos,
        {
            let at = self.pos;
            self.pos = at + 1;
            let found = match &self.queue[at].manifest_bytes {
                Some(bytes) => {
                    match Extension::from_dir(self.queue[at].path.as_str(), bytes.as_slice()) {
                        Ok(ext) => Some(ext),
                        Err(_) => None,
                    }
                },
                None => None,
            };
            if let Some(ext) = found {
                proof {
                    let k = at as int - p0;
                    assert(old(self).pending()[k] == self.queue@[at as int]);
                    assert(entry_good(self.queue@[at as int]));
                    assert(ext_from_entry(ext, old(self).pending()[k]));
                    assert forall|j: int|
                        0 <= j < k implies !entry_good(#[trigger] old(self).pending()[j]) by {
                        assert(old(self).pending()[j] == self.queue@[p0 + j]);
                    }
                    assert(final(self).pending() =~= old(self).pending().skip(k + 1));
                }
                return Some(ext);
            }
        }
        proof {
            assert forall|j: int|
                0 <= j < old(self).pending().len() implies !entry_good(
                #[trigger] old(self).pending()[j]) by {
                assert(old(self).pending()[j] == self.queue@[p0 + j]);
            }
        }
        None
    }

    /// Walks the scanner to its end: the yielded extensions are exactly the
    /// good candidates, in candidate order — discovery across search paths
    /// preserves the path-list order, earlier roots' extensions before later
    /// ones'.
    pub fn collect_all(&mut self) -> (r: Vec<Extension>)
        requires
            old(self).inv(),
        ensures
            final(self).inv(),
            final(self).pending().len() == 0,
            r@.len() == old(self).pending().filter(|e: EntryScan| entry_good(e)).len(),
            forall|i: int|
                0 <= i < r@.len() ==> ext_from_entry(
                    #[trigger] r@[i],
                    old(self).pending().filter(|e: EntryScan| entry_good(e))[i],
                ),
    {
        broadcast use group_seq_properties;

        let mut out: Vec<Extension> = Vec::new();
        let ghost mut done: Seq<EntryScan> = Seq::empty();
        let mut finished = false;
        while !finished
            invariant
                old(self).inv() && self.inv(),
                done + self.pending() =~= old(self).pending(),
                finished ==> self.pending().len() == 0,
                finished ==> done.filter(|e: EntryScan| entry_good(e)).len() == out@.len(),
                !finished ==> out@.len() == done.filter(|e: EntryScan| entry_good(e)).len(),
                forall|i: int|
                    0 <= i < out@.len() ==> ext_from_entry(
                        #[trigger] out@[i],
                        done.filter(|e: EntryScan| entry_good(e))[i],
                    ),
            decreases (if finished {
                0int
            } else {
                1int
            }), self.pending().len(),
        {
            let ghost pending_before = self.pending();
            match self.next() {
                Some(ext) => {
                    proof {
                        let k = choose|k: int|
                            0 <= k < pending_before.len() && (forall|j: int|
                                0 <= j < k ==> !entry_good(#[trigger] pending_before[j]))
                                && entry_good(#[trigger] pending_before[k]) && ext_from_entry(
                                ext,
                                pending_before[k],
                            ) && self.pending() == pending_before.skip(k + 1);
                        let segment = pending_before.subrange(0, k + 1);
                        lemma_filter_bads_then_good(segment, k);
                        Seq::<EntryScan>::filter_distributes_over_add(
                            done,
                            segment,
                            |e: EntryScan| entry_good(e),
                        );
                        assert(pending_before =~= segment + pending_before.skip(k + 1));
                        assert((done + segment) + self.pending() =~= old(self).pending());
                        let done_before = done;
                        done = done + segment;
                        assert(done.filter(|e: EntryScan| entry_good(e)) =~= done_before.filter(
                            |e: EntryScan| entry_good(e),
                        ) + seq![segment[k]]);
                    }
                    out.push(ext);
                },
                None => {
                    proof {
                        lemma_filter_all_bad(pending_before);
                        Seq::<EntryScan>::filter_distributes_over_add(
                            done,
                            pending_before,
                            |e: EntryScan| entry_good(e),
                        );
                        assert((done + pending_before) + self.pending() =~= old(self).pending());
                        assert(done.filter(|e: EntryScan| entry_good(e)) =~= (done
                            + pending_before).filter(|e: EntryScan| entry_good(e)));
                        done = done + pending_before;
                    }
                    finished = true;
                },
            }
        }
        proof {
            assert(done =~= old(self).pending());
        }
        out
    }
}

} // verus!
