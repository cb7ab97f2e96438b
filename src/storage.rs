//! Disk guard: the free-space check and the plan for reclaiming space by
//! deleting the oldest files first.
//!
//! Measuring free space and deleting files are left to the caller; this module
//! decides what to measure against and which file goes next.

use vstd::prelude::*;
use vstd::multiset::Multiset;
use vstd::seq_lib::*;

verus! {

broadcast use vstd::seq_lib::group_to_multiset_ensures;

/// Free space under `path` is below what is required.
#[derive(Debug, Clone, PartialEq, Eq)]
pub struct StorageCapacityError {
    pub path: String,
    pub available_bytes: u64,
    pub required_bytes: u64,
}

/// Result of one reclaim pass.
#[derive(Debug, Default, Clone, Copy, PartialEq, Eq, Structural)]
pub struct ReclaimOutcome {
    pub deleted_files: usize,
    pub freed_bytes: u64,
    pub remaining_bytes: u64,
}

/// A regular file that a reclaim pass may delete.
#[derive(Debug, Clone, PartialEq, Eq)]
pub struct CandidateFile {
    pub path: String,
    pub len: u64,
    /// Modification time, in nanoseconds since the Unix epoch.
    pub modified: u128,
}

/// Most files deleted in one reclaim pass.
pub const MAX_AUTOPURGE_FILES: usize = 500;

/// The check passes: the guard is off (`min_free_bytes == 0`) or enough is free.
pub open spec fn headroom_ok(min_free_bytes: u64, available: u64) -> bool {
    min_free_bytes == 0 || available >= min_free_bytes
}

/// Checks that `available` bytes free under `dir` meet `min_free_bytes`.
///
/// A minimum of zero disables the guard.
pub fn ensure_disk_headroom(dir: &str, min_free_bytes: u64, available: u64) -> (r: Result<
    (),
    StorageCapacityError,
>)
    ensures
        r is Ok <==> headroom_ok(min_free_bytes, available),
        r is Err ==> r->Err_0.path@ == dir@ && r->Err_0.available_bytes == available
            && r->Err_0.required_bytes == min_free_bytes,
{
    if min_free_bytes == 0 || available >= min_free_bytes {
        Ok(())
    } else {
        Err(
            StorageCapacityError {
                path: String::from_str(dir),
                available_bytes: available,
                required_bytes: min_free_bytes,
            },
        )
    }
}

/// Final verdict of the disk guard after a reclaim pass left `available` bytes.
///
/// Fails if the check still fails; reports the pass only if it deleted a file.
pub fn settle_disk_guard(
    dir: &str,
    min_free_bytes: u64,
    outcome: ReclaimOutcome,
    available: u64,
) -> (r: Result<Option<ReclaimOutcome>, StorageCapacityError>)
    ensures
        r is Err <==> !headroom_ok(min_free_bytes, available),
        r is Err ==> r->Err_0.path@ == dir@ && r->Err_0.available_bytes == available
            && r->Err_0.required_bytes == min_free_bytes,
        r is Ok ==> r->Ok_0 == (if outcome.deleted_files > 0 {
            Some(outcome)
        } else {
            None
        }),
{
    match ensure_disk_headroom(dir, min_free_bytes, available) {
        Ok(()) => {
            if outcome.deleted_files > 0 {
                Ok(Some(outcome))
            } else {
                Ok(None)
            }
        },
        Err(e) => Err(e),
    }
}

/// Ordered oldest first.
pub open spec fn oldest_first(s: Seq<CandidateFile>) -> bool {
    forall|i: int, j: int| 0 <= i < j < s.len() ==> s[i].modified <= s[j].modified
}

/// The files reordered oldest first.
pub fn order_oldest_first(files: Vec<CandidateFile>) -> (r: Vec<CandidateFile>)
    ensures
        oldest_first(r@),
        r@.to_multiset() == files@.to_multiset(),
{
    let mut rest = files;
    let mut out: Vec<CandidateFile> = Vec::new();
    while rest.len() > 0
        invariant
            oldest_first(out@),
            out@.to_multiset().add(rest@.to_multiset()) == files@.to_multiset(),
        decreases rest.len(),
    {
        let ghost rest0 = rest@;
        let f = rest.pop().unwrap();
        proof {
            assert(rest0 =~= rest@.push(f));
        }
        let mut i: usize = 0;
        while i < out.len() && out[i].modified < f.modified
            invariant
                i <= out@.len(),
                oldest_first(out@),
                forall|j: int| 0 <= j < i ==> (#[trigger] out@[j]).modified < f.modified,
            decreases out@.len() - i,
        {
            i = i + 1;
        }
        let ghost out0 = out@;
        out.insert(i, f);
        proof {
            assert forall|a: int, b: int| 0 <= a < b < out@.len() implies out@[a].modified
                <= out@[b].modified by {
                if b < i {
                } else if b == i {
                } else if a < i {
                    assert(out@[b] == out0[b - 1]);
                    if i < out0.len() {
                        assert(out0[i as int].modified >= f.modified);
                        assert(out0[i as int].modified <= out0[b - 1].modified);
                    }
                } else if a == i {
                    assert(out@[b] == out0[b - 1]);
                    assert(out0[i as int].modified >= f.modified);
                    if i < b - 1 {
                        assert(out0[i as int].modified <= out0[b - 1].modified);
                    }
                } else {
                    assert(out@[a] == out0[a - 1]);
                    assert(out@[b] == out0[b - 1]);
                }
            }
            to_multiset_insert(out0, i as int, f);
            assert(out@.to_multiset() == out0.to_multiset().insert(f));
            assert(rest0.to_multiset() == rest@.to_multiset().insert(f));
            assert(out@.to_multiset().add(rest@.to_multiset()) =~= out0.to_multiset().add(
                rest0.to_multiset(),
            ));
        }
    }
    proof {
        assert(rest@.to_multiset() =~= Multiset::empty());
        assert(out@.to_multiset().add(rest@.to_multiset()) =~= out@.to_multiset());
    }
    out
}

/// The abstract state of a [`Reclaimer`].
pub struct ReclaimView {
    /// The files this pass may delete, oldest first.
    pub order: Seq<CandidateFile>,
    /// How many of them have been deleted: always the first ones.
    pub next: nat,
    pub outcome: ReclaimOutcome,
    pub min_free_bytes: u64,
}

/// One reclaim pass: deletes the oldest files one at a time until the
/// minimum free space is met or the cap is reached.
#[derive(Debug)]
pub struct Reclaimer {
    order: Vec<CandidateFile>,
    next: usize,
    outcome: ReclaimOutcome,
    min_free_bytes: u64,
}

/// Another file must go: still short of space and files are left.
pub open spec fn wants_deletion(v: ReclaimView) -> bool {
    !headroom_ok(v.min_free_bytes, v.outcome.remaining_bytes) && v.next < v.order.len()
}

/// The pass after deleting its next file, with `available` bytes free afterwards.
pub open spec fn after_deletion(v: ReclaimView, available: u64) -> ReclaimView {
    ReclaimView {
        next: v.next + 1,
        outcome: ReclaimOutcome {
            deleted_files: (v.outcome.deleted_files + 1) as usize,
            freed_bytes: if v.outcome.freed_bytes + v.order[v.next as int].len <= u64::MAX {
                (v.outcome.freed_bytes + v.order[v.next as int].len) as u64
            } else {
                u64::MAX
            },
            remaining_bytes: available,
        },
        ..v
    }
}

impl View for Reclaimer {
    type V = ReclaimView;

    closed spec fn view(&self) -> ReclaimView {
        ReclaimView {
            order: self.order@,
            next: self.next as nat,
            outcome: self.outcome,
            min_free_bytes: self.min_free_bytes,
        }
    }
}

impl Reclaimer {
    /// Files ordered oldest first, progress within them, a count that matches it.
    pub open spec fn wf(&self) -> bool {
        &&& oldest_first(self@.order)
        &&& self@.next <= self@.order.len() <= MAX_AUTOPURGE_FILES
        &&& self@.outcome.deleted_files == self@.next
    }

    /// Plans a pass over `files` when `available` bytes are free.
    ///
    /// At most [`MAX_AUTOPURGE_FILES`] of the oldest files are considered.
    pub fn new(files: Vec<CandidateFile>, min_free_bytes: u64, available: u64) -> (r: Reclaimer)
        ensures
            r.wf(),
            r@.next == 0,
            r@.min_free_bytes == min_free_bytes,
            r@.outcome == (ReclaimOutcome {
                deleted_files: 0,
                freed_bytes: 0,
                remaining_bytes: available,
            }),
            r@.order.len() == if files@.len() <= MAX_AUTOPURGE_FILES {
                files@.len()
            } else {
                MAX_AUTOPURGE_FILES as nat
            },
            exists|all: Seq<CandidateFile>|
                oldest_first(all) && all.to_multiset() == files@.to_multiset() && r@.order
                    == all.subrange(0, r@.order.len() as int),
    {
        let ghost input = files@;
        let mut order = order_oldest_first(files);
        let ghost all = order@;
        proof {
            to_multiset_len(all);
            to_multiset_len(input);
        }
        order.truncate(MAX_AUTOPURGE_FILES);
        proof {
            assert(order@ == all.subrange(0, order@.len() as int));
            assert(oldest_first(order@));
        }
        Reclaimer {
            order,
            next: 0,
            outcome: ReclaimOutcome { deleted_files: 0, freed_bytes: 0, remaining_bytes: available },
            min_free_bytes,
        }
    }

    /// The report of the pass so far.
    pub fn outcome(&self) -> (r: ReclaimOutcome)
        ensures
            r == self@.outcome,
    {
        self.outcome
    }

    /// The path of the file to delete next, if another deletion is needed.
    pub fn next_deletion(&self) -> (r: Option<String>)
        requires
            self.wf(),
        ensures
            r is Some <==> wants_deletion(self@),
            r is Some ==> r->Some_0 == self@.order[self@.next as int].path,
    {
        if (self.min_free_bytes == 0 || self.outcome.remaining_bytes >= self.min_free_bytes) || self.next
            >= self.order.len() {
            None
        } else {
            Some(self.order[self.next].path.clone())
        }
    }

    /// Records that the file named by `next_deletion` was deleted and that
    /// `available` bytes are now free.
    pub fn record_deletion(&mut self, available: u64)
        requires
            old(self).wf(),
        ensures
            final(self).wf(),
            wants_deletion(old(self)@) ==> final(self)@ == after_deletion(old(self)@, available),
            !wants_deletion(old(self)@) ==> final(self)@ == old(self)@,
    {
        if (self.min_free_bytes == 0 || self.outcome.remaining_bytes >= self.min_free_bytes) || self.next
            >= self.order.len() {
            return;
        }
        let len = self.order[self.next].len;
        self.outcome.deleted_files = self.outcome.deleted_files + 1;
        self.outcome.freed_bytes = self.outcome.freed_bytes.saturating_add(len);
        self.outcome.remaining_bytes = available;
        self.next = self.next + 1;
    }
}

/// Files deleted by a reclaim pass are never newer than the files it keeps,
/// and the pass asks for no further deletion once the minimum is met.
pub proof fn lemma_reclaim_oldest_first(r: ReclaimView)
    requires
        oldest_first(r.order),
        r.next <= r.order.len(),
    ensures
        forall|i: int, j: int|
            0 <= i < r.next <= j < r.order.len() ==> r.order[i].modified <= r.order[j].modified,
        headroom_ok(r.min_free_bytes, r.outcome.remaining_bytes) ==> !wants_deletion(r),
{
}

/// A whole pass whose free space is `avail(k)` after `k` deletions,
/// `avail(0)` at the start.
pub open spec fn reclaim_pass(v: ReclaimView, avail: spec_fn(nat) -> u64, fuel: nat) -> ReclaimView
    decreases fuel,
{
    if fuel == 0 || !wants_deletion(v) {
        v
    } else {
        reclaim_pass(after_deletion(v, avail(v.next + 1)), avail, (fuel - 1) as nat)
    }
}

/// The first `k >= j`, at most `limit`, at which `avail(k)` meets the minimum;
/// `limit` if there is none.
pub open spec fn first_met(min_free_bytes: u64, avail: spec_fn(nat) -> u64, j: nat, limit: nat) -> nat
    decreases limit - j,
{
    if j >= limit || headroom_ok(min_free_bytes, avail(j)) {
        j
    } else {
        first_met(min_free_bytes, avail, j + 1, limit)
    }
}

/// Total length of the first `k` files, saturating.
pub open spec fn freed_by(order: Seq<CandidateFile>, k: nat) -> u64
    decreases k,
{
    if k == 0 {
        0
    } else {
        let prev = freed_by(order, (k - 1) as nat);
        if prev + order[k - 1].len <= u64::MAX {
            (prev + order[k - 1].len) as u64
        } else {
            u64::MAX
        }
    }
}

/// The pass after deleting its first `k` files.
spec fn pass_after(v: ReclaimView, avail: spec_fn(nat) -> u64, k: nat) -> ReclaimView {
    ReclaimView {
        next: k,
        outcome: ReclaimOutcome {
            deleted_files: k as usize,
            freed_bytes: freed_by(v.order, k),
            remaining_bytes: avail(k),
        },
        ..v
    }
}

proof fn lemma_reclaim_pass_from(v: ReclaimView, avail: spec_fn(nat) -> u64, j: nat, fuel: nat)
    requires
        v.order.len() <= MAX_AUTOPURGE_FILES,
        j <= v.order.len(),
        fuel >= v.order.len() - j + 1,
    ensures
        reclaim_pass(pass_after(v, avail, j), avail, fuel) == pass_after(
            v,
            avail,
            first_met(v.min_free_bytes, avail, j, v.order.len()),
        ),
    decreases fuel,
{
    let s = pass_after(v, avail, j);
    if j < v.order.len() && !headroom_ok(v.min_free_bytes, avail(j)) {
        assert(wants_deletion(s));
        assert(after_deletion(s, avail(j + 1)) =~= pass_after(v, avail, j + 1));
        lemma_reclaim_pass_from(v, avail, j + 1, (fuel - 1) as nat);
    } else {
        assert(!wants_deletion(s));
    }
}

/// A whole reclaim pass deletes exactly its first `d` files, the oldest ones,
/// where `d` is the first count of deletions after which the minimum free
/// space is met (all files of the pass if it never is); it reports `d`
/// deletions, the free space measured after the last one, and the total
/// length of the deleted files. Files after the first `d` are never deleted.
pub proof fn lemma_reclaim_whole_pass(v: ReclaimView, avail: spec_fn(nat) -> u64)
    requires
        oldest_first(v.order),
        v.order.len() <= MAX_AUTOPURGE_FILES,
        v.next == 0,
        v.outcome == (ReclaimOutcome {
            deleted_files: 0,
            freed_bytes: 0,
            remaining_bytes: avail(0),
        }),
    ensures
        ({
            let r = reclaim_pass(v, avail, v.order.len() + 1);
            let d = first_met(v.min_free_bytes, avail, 0, v.order.len());
            &&& r.next == d
            &&& r.order == v.order
            &&& r.outcome.deleted_files == d
            &&& r.outcome.remaining_bytes == avail(d)
            &&& r.outcome.freed_bytes == freed_by(v.order, d)
            &&& forall|i: int, k: int|
                0 <= i < d <= k < v.order.len() ==> v.order[i].modified <= v.order[k].modified
        }),
{
    assert(pass_after(v, avail, 0) =~= v);
    lemma_reclaim_pass_from(v, avail, 0, v.order.len() + 1);
    lemma_first_met_bounds(v.min_free_bytes, avail, 0, v.order.len());
}

proof fn lemma_first_met_bounds(min_free_bytes: u64, avail: spec_fn(nat) -> u64, j: nat, limit: nat)
    requires
        j <= limit,
    ensures
        j <= first_met(min_free_bytes, avail, j, limit) <= limit,
    decreases limit - j,
{
    if j < limit && !headroom_ok(min_free_bytes, avail(j)) {
        lemma_first_met_bounds(min_free_bytes, avail, j + 1, limit);
    }
}

} // verus!
