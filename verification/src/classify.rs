//! The process classifier's discovery bookkeeping.
//!
//! Each scan of the process table yields the ids whose working directory is
//! the game's directory. [`TrackedPids`] remembers every id already
//! classified in this run, so that the classification write is issued at
//! most once per id, however often later scans return it again. (An id
//! re-used by the operating system within one run is deliberately not
//! re-classified; that window is an accepted limitation.)

use vstd::prelude::*;

use vstd::hash_set::HashSetWithView;

use crate::cgroup::CGroup;

verus! {

/// The ids whose working directory equals the target directory, in order.
pub open spec fn spec_matching_pids(procs: Seq<(i32, Seq<char>)>, dir: Seq<char>) -> Seq<i32>
    decreases procs.len(),
{
    if procs.len() == 0 {
        Seq::empty()
    } else {
        let rest = spec_matching_pids(procs.drop_last(), dir);
        if procs.last().1 == dir {
            rest.push(procs.last().0)
        } else {
            rest
        }
    }
}

/// Filters one scan of the process table: an entry is kept when its resolved
/// working directory equals the game's directory exactly (processes whose
/// directory could not be resolved are not in `procs` at all).
pub fn select_pids(procs: &Vec<(i32, String)>, dir: &str) -> (r: Vec<i32>)
    ensures
        r@ == spec_matching_pids(procs.deep_view(), dir@),
{
    let dir_owned = dir.to_owned();
    let mut out: Vec<i32> = Vec::new();
    let mut i: usize = 0;
    while i < procs.len()
        invariant
            dir_owned@ == dir@,
            i <= procs@.len(),
            procs.deep_view().len() == procs@.len(),
            forall|k: int|
                0 <= k < procs@.len() ==> #[trigger] procs.deep_view()[k] == (
                procs@[k].0,
                procs@[k].1@,
            ),
            out@ == spec_matching_pids(procs.deep_view().take(i as int), dir@),
        decreases procs@.len() - i,
    {
        let entry = &procs[i];
        if entry.1 == dir_owned {
            out.push(entry.0);
        }
        proof {
            let pre = procs.deep_view().take(i as int);
            let post = procs.deep_view().take(i + 1 as int);
            assert(post.drop_last() =~= pre);
            assert(post.last() == procs.deep_view()[i as int]);
        }
        i += 1;
    }
    proof {
        assert(procs.deep_view().take(procs@.len() as int) =~= procs.deep_view());
    }
    out
}

/// The ids of a scan that have not been seen yet, in scan order, each once:
/// an id already seen is skipped, and a fresh id is reported and counts as
/// seen for the rest of the same scan.
pub open spec fn spec_new_pids(scanned: Seq<i32>, seen: Set<i32>) -> Seq<i32>
    decreases scanned.len(),
{
    if scanned.len() == 0 {
        Seq::empty()
    } else if seen.contains(scanned[0]) {
        spec_new_pids(scanned.drop_first(), seen)
    } else {
        seq![scanned[0]] + spec_new_pids(scanned.drop_first(), seen.insert(scanned[0]))
    }
}

/// The set of process ids already classified in the current run.
pub struct TrackedPids {
    seen: HashSetWithView<i32>,
}

impl View for TrackedPids {
    type V = Set<i32>;

    closed spec fn view(&self) -> Set<i32> {
        self.seen@
    }
}

/// The classifier state and the group membership agree when every membership
/// write was for a tracked id and no id was written twice.
pub open spec fn spec_consistent(t: TrackedPids, g: CGroup) -> bool {
    &&& forall|i: int| 0 <= i < g.procs@.len() ==> t@.contains(#[trigger] g.procs@[i])
    &&& forall|i: int, j: int| 0 <= i < j < g.procs@.len() ==> g.procs@[i] != g.procs@[j]
}

impl TrackedPids {
    /// No id has been classified yet.
    pub fn new() -> (t: Self)
        ensures
            t@ == Set::<i32>::empty(),
    {
        broadcast use vstd::std_specs::hash::axiom_i32_obeys_hash_table_key_model;

        TrackedPids { seen: HashSetWithView::new() }
    }

    /// One discovery scan: returns the ids to classify now — those of
    /// `scanned` not seen in any earlier scan — records the classification
    /// write of each in `group`, and remembers them all.
    pub fn scan_step(&mut self, scanned: &Vec<i32>, group: &mut CGroup) -> (newly: Vec<i32>)
        requires
            spec_consistent(*old(self), *old(group)),
        ensures
            newly@ == spec_new_pids(scanned@, old(self)@),
            final(self)@ == old(self)@.union(scanned@.to_set()),
            final(group).procs@ == old(group).procs@ + newly@,
            spec_consistent(*final(self), *final(group)),
    {
        let mut newly: Vec<i32> = Vec::new();
        let mut k: usize = 0;
        proof {
            assert(scanned@.skip(0) =~= scanned@);
            assert(old(group).procs@ + newly@ =~= old(group).procs@);
        }
        while k < scanned.len()
            invariant
                k <= scanned@.len(),
                spec_new_pids(scanned@, old(self)@) == newly@ + spec_new_pids(
                    scanned@.skip(k as int),
                    self@,
                ),
                self@ == old(self)@.union(scanned@.take(k as int).to_set()),
                group.procs@ == old(group).procs@ + newly@,
                spec_consistent(*self, *group),
            decreases scanned@.len() - k,
        {
            let ghost pre_newly = newly@;
            let ghost pre_seen = self@;
            let ghost rem = scanned@.skip(k as int);
            let pid = scanned[k];
            proof {
                assert(rem.drop_first() =~= scanned@.skip(k + 1 as int));
                assert(rem[0] == pid);
            }
            let fresh = !self.seen.contains(&pid);
            if fresh {
                self.seen.insert(pid);
                group.add(pid);
                newly.push(pid);
                proof {
                    assert(spec_new_pids(rem, pre_seen) == seq![pid] + spec_new_pids(
                        scanned@.skip(k + 1 as int),
                        pre_seen.insert(pid),
                    ));
                    assert(pre_newly + (seq![pid] + spec_new_pids(
                        scanned@.skip(k + 1 as int),
                        self@,
                    )) =~= newly@ + spec_new_pids(scanned@.skip(k + 1 as int), self@));
                }
            } else {
                proof {
                    assert(spec_new_pids(rem, pre_seen) == spec_new_pids(
                        scanned@.skip(k + 1 as int),
                        pre_seen,
                    ));
                }
            }
            proof {
                lemma_take_to_set_push(scanned@, k as int);
                if fresh {
                    assert(self@ =~= old(self)@.union(scanned@.take(k + 1 as int).to_set()));
                } else {
                    assert(pre_seen.contains(pid));
                    assert(self@ =~= old(self)@.union(scanned@.take(k + 1 as int).to_set()));
                }
            }
            k += 1;
        }
        proof {
            assert(scanned@.take(scanned@.len() as int) =~= scanned@);
            assert(scanned@.skip(scanned@.len() as int) =~= Seq::<i32>::empty());
            assert(newly@ + spec_new_pids(Seq::<i32>::empty(), self@) =~= newly@);
        }
        newly
    }
}

/// Law: one scan classifies each id at most once, classifies only ids it
/// scanned and that were not already seen, and classifies every scanned id
/// that was not already seen.
pub proof fn lemma_scan_classifies_once(scanned: Seq<i32>, seen: Set<i32>)
    ensures
        forall|i: int, j: int|
            0 <= i < j < spec_new_pids(scanned, seen).len() ==> spec_new_pids(scanned, seen)[i]
                != spec_new_pids(scanned, seen)[j],
        forall|i: int|
            0 <= i < spec_new_pids(scanned, seen).len() ==> scanned.contains(
                #[trigger] spec_new_pids(scanned, seen)[i],
            ) && !seen.contains(spec_new_pids(scanned, seen)[i]),
        forall|p: i32|
            scanned.contains(p) && !seen.contains(p) ==> spec_new_pids(scanned, seen).contains(p),
    decreases scanned.len(),
{
    let new = spec_new_pids(scanned, seen);
    if scanned.len() == 0 {
        assert forall|p: i32| scanned.contains(p) && !seen.contains(p) implies new.contains(p) by {
            let i = choose|i: int| 0 <= i < scanned.len() && scanned[i] == p;
        }
    } else {
        let head = scanned[0];
        let tail = scanned.drop_first();
        assert forall|p: i32| tail.contains(p) implies scanned.contains(p) by {
            let i = choose|i: int| 0 <= i < tail.len() && tail[i] == p;
            assert(scanned[i + 1] == p);
        }
        if seen.contains(head) {
            lemma_scan_classifies_once(tail, seen);
            assert(new == spec_new_pids(tail, seen));
            assert forall|i: int, j: int| 0 <= i < j < new.len() implies new[i] != new[j] by {
                assert(spec_new_pids(tail, seen)[i] != spec_new_pids(tail, seen)[j]);
            }
            assert forall|i: int| 0 <= i < new.len() implies scanned.contains(#[trigger] new[i])
                && !seen.contains(new[i]) by {
                assert(tail.contains(spec_new_pids(tail, seen)[i]));
                assert(!seen.contains(spec_new_pids(tail, seen)[i]));
            }
            assert forall|p: i32| scanned.contains(p) && !seen.contains(p) implies new.contains(
                p,
            ) by {
                let i = choose|i: int| 0 <= i < scanned.len() && scanned[i] == p;
                assert(i != 0);
                assert(tail[i - 1] == p);
                assert(tail.contains(p));
            }
        } else {
            let rest = spec_new_pids(tail, seen.insert(head));
            lemma_scan_classifies_once(tail, seen.insert(head));
            assert(new == seq![head] + rest);
            assert(new[0] == head);
            assert forall|i: int| 0 <= i < new.len() implies scanned.contains(#[trigger] new[i])
                && !seen.contains(new[i]) by {
                if i == 0 {
                    assert(scanned[0] == head);
                } else {
                    assert(new[i] == rest[i - 1]);
                    assert(tail.contains(rest[i - 1]));
                    assert(!seen.insert(head).contains(rest[i - 1]));
                }
            }
            assert forall|i: int, j: int| 0 <= i < j < new.len() implies new[i] != new[j] by {
                if i == 0 {
                    assert(new[j] == rest[j - 1]);
                    assert(!seen.insert(head).contains(rest[j - 1]));
                    assert(rest[j - 1] != head);
                } else {
                    assert(new[i] == rest[i - 1]);
                    assert(new[j] == rest[j - 1]);
                }
            }
            assert forall|p: i32| scanned.contains(p) && !seen.contains(p) implies new.contains(
                p,
            ) by {
                if p == head {
                    assert(new[0] == p);
                } else {
                    let i = choose|i: int| 0 <= i < scanned.len() && scanned[i] == p;
                    assert(i != 0);
                    assert(tail[i - 1] == p);
                    assert(tail.contains(p));
                    assert(!seen.insert(head).contains(p));
                    assert(rest.contains(p));
                    let j = choose|j: int| 0 <= j < rest.len() && rest[j] == p;
                    assert(new[j + 1] == p);
                }
            }
        }
    }
}

/// Law: the tracked set only grows across scans, so an id classified by one
/// scan is never classified again by any later scan, however many scans
/// come between: `seen2` is any superset of the first scan's resulting
/// tracked set.
pub proof fn lemma_no_reclassification(
    s1: Seq<i32>,
    s2: Seq<i32>,
    seen1: Set<i32>,
    seen2: Set<i32>,
)
    requires
        seen1.union(s1.to_set()).subset_of(seen2),
    ensures
        forall|p: i32|
            spec_new_pids(s1, seen1).contains(p) ==> !spec_new_pids(s2, seen2).contains(p),
{
    lemma_scan_classifies_once(s1, seen1);
    lemma_scan_classifies_once(s2, seen2);
    let new1 = spec_new_pids(s1, seen1);
    let new2 = spec_new_pids(s2, seen2);
    assert forall|p: i32| new1.contains(p) implies !new2.contains(p) by {
        let i = choose|i: int| 0 <= i < new1.len() && new1[i] == p;
        assert(s1.contains(p));
        assert(seen1.union(s1.to_set()).contains(p));
        assert(seen2.contains(p));
        if new2.contains(p) {
            let j = choose|j: int| 0 <= j < new2.len() && new2[j] == p;
            assert(!seen2.contains(new2[j]));
        }
    }
}

/// Taking one more element adds exactly it to the prefix's set.
proof fn lemma_take_to_set_push(s: Seq<i32>, k: int)
    requires
        0 <= k < s.len(),
    ensures
        s.take(k + 1).to_set() == s.take(k).to_set().insert(s[k]),
{
    assert(s.take(k + 1) =~= s.take(k).push(s[k]));
    assert forall|x: i32| s.take(k + 1).to_set().contains(x) implies s.take(k).to_set().insert(
        s[k],
    ).contains(x) by {
        let i = choose|i: int| 0 <= i < s.take(k + 1).len() && #[trigger] s.take(k + 1)[i] == x;
        if i < k {
            assert(s.take(k)[i] == x);
            assert(s.take(k).contains(x));
        }
    }
    assert forall|x: i32| s.take(k).to_set().insert(s[k]).contains(x) implies s.take(
        k + 1,
    ).to_set().contains(x) by {
        if s.take(k).to_set().contains(x) {
            let i = choose|i: int| 0 <= i < s.take(k).len() && #[trigger] s.take(k)[i] == x;
            assert(s.take(k + 1)[i] == x);
            assert(s.take(k + 1).contains(x));
        } else {
            assert(s.take(k + 1)[k] == x);
            assert(s.take(k + 1).contains(x));
        }
    }
    assert(s.take(k + 1).to_set() =~= s.take(k).to_set().insert(s[k]));
}

} // verus!
