//! The multi-reason pause state: one user flag and a set of automatic reasons.

use vstd::prelude::*;

verus! {

/// Why the session was paused automatically, in a fixed order.
#[derive(Debug, Clone, Copy, PartialEq, Eq, Structural, PartialOrd, Ord, Hash)]
pub enum PauseReason {
    PermissionDenied,
    ScreenLocked,
    DisplayAsleep,
}

/// Position of a reason in the fixed order of reasons.
pub open spec fn rank(r: PauseReason) -> nat {
    match r {
        PauseReason::PermissionDenied => 0,
        PauseReason::ScreenLocked => 1,
        PauseReason::DisplayAsleep => 2,
    }
}

fn rank_of(r: PauseReason) -> (k: u8)
    ensures
        k as nat == rank(r),
{
    match r {
        PauseReason::PermissionDenied => 0,
        PauseReason::ScreenLocked => 1,
        PauseReason::DisplayAsleep => 2,
    }
}

/// The abstract pause state.
pub struct PauseView {
    pub user_paused: bool,
    pub auto_pauses: Set<PauseReason>,
}

/// Effective pause: the user flag or any automatic reason.
pub open spec fn effectively_paused(v: PauseView) -> bool {
    v.user_paused || v.auto_pauses != Set::<PauseReason>::empty()
}

/// User flag and automatic reasons; reasons are kept ordered and distinct.
#[derive(Debug, Clone)]
pub struct PauseState {
    user_paused: bool,
    auto_pauses: Vec<PauseReason>,
}

impl View for PauseState {
    type V = PauseView;

    closed spec fn view(&self) -> PauseView {
        PauseView { user_paused: self.user_paused, auto_pauses: self.auto_pauses@.to_set() }
    }
}

impl PauseState {
    /// The stored reasons are strictly increasing in the fixed order.
    pub closed spec fn wf(&self) -> bool {
        forall|i: int, j: int|
            0 <= i < j < self.auto_pauses@.len() ==> rank(self.auto_pauses@[i]) < rank(
                self.auto_pauses@[j],
            )
    }

    /// Not paused at all.
    pub fn new() -> (r: PauseState)
        ensures
            r.wf(),
            r@ == (PauseView { user_paused: false, auto_pauses: Set::empty() }),
    {
        let r = PauseState { user_paused: false, auto_pauses: Vec::new() };
        assert(r.auto_pauses@.to_set() =~= Set::empty());
        r
    }

    /// The user flag or any automatic reason is set.
    pub fn is_paused(&self) -> (r: bool)
        ensures
            r == effectively_paused(self@),
    {
        proof {
            if self.auto_pauses@.len() > 0 {
                assert(self@.auto_pauses.contains(self.auto_pauses@[0]));
            } else {
                assert(self@.auto_pauses =~= Set::empty());
            }
        }
        self.user_paused || self.auto_pauses.len() > 0
    }

    /// The automatic reasons, in the fixed order.
    pub fn reasons(&self) -> (r: Vec<PauseReason>)
        requires
            self.wf(),
        ensures
            r@.to_set() == self@.auto_pauses,
            r@.no_duplicates(),
    {
        let r = self.auto_pauses.clone();
        proof {
            assert(r@ =~= self.auto_pauses@);
            assert forall|i: int, j: int| 0 <= i < r@.len() && 0 <= j < r@.len() && i != j
                implies r@[i] != r@[j] by {
                if i < j {
                    assert(rank(r@[i]) < rank(r@[j]));
                } else {
                    assert(rank(r@[j]) < rank(r@[i]));
                }
            }
        }
        r
    }

    /// Sets the user flag; true iff it was clear.
    pub fn user_pause(&mut self) -> (changed: bool)
        requires
            old(self).wf(),
        ensures
            final(self).wf(),
            changed == !old(self)@.user_paused,
            final(self)@ == (PauseView { user_paused: true, ..old(self)@ }),
    {
        let changed = !self.user_paused;
        self.user_paused = true;
        changed
    }

    /// Clears the user flag; true iff it was set.
    pub fn user_resume(&mut self) -> (changed: bool)
        requires
            old(self).wf(),
        ensures
            final(self).wf(),
            changed == old(self)@.user_paused,
            final(self)@ == (PauseView { user_paused: false, ..old(self)@ }),
    {
        let changed = self.user_paused;
        self.user_paused = false;
        changed
    }

    /// Adds `reason`; true iff it was absent.
    pub fn auto_pause(&mut self, reason: PauseReason) -> (inserted: bool)
        requires
            old(self).wf(),
        ensures
            final(self).wf(),
            inserted == !old(self)@.auto_pauses.contains(reason),
            final(self)@ == (PauseView {
                auto_pauses: old(self)@.auto_pauses.insert(reason),
                ..old(self)@
            }),
    {
        let k = rank_of(reason);
        let mut i: usize = 0;
        while i < self.auto_pauses.len()
            invariant
                self.wf(),
                self.auto_pauses@ == old(self).auto_pauses@,
                self.user_paused == old(self).user_paused,
                i <= self.auto_pauses@.len(),
                k as nat == rank(reason),
                forall|j: int| 0 <= j < i ==> rank(#[trigger] self.auto_pauses@[j]) < k,
            ensures
                i <= self.auto_pauses@.len(),
                self.auto_pauses@ == old(self).auto_pauses@,
                self.user_paused == old(self).user_paused,
                forall|j: int| 0 <= j < i ==> rank(#[trigger] self.auto_pauses@[j]) < k,
                i == self.auto_pauses@.len() || rank(self.auto_pauses@[i as int]) > k,
            decreases self.auto_pauses@.len() - i,
        {
            let here = rank_of(self.auto_pauses[i]);
            if here == k {
                proof {
                    assert(self.auto_pauses@[i as int] == reason);
                    assert(self@.auto_pauses.insert(reason) =~= self@.auto_pauses);
                }
                return false;
            }
            if here > k {
                break;
            }
            i = i + 1;
        }
        let ghost before = self.auto_pauses@;
        proof {
            assert forall|j: int| 0 <= j < before.len() implies before[j] != reason by {
                if j >= i {
                    assert(rank(before[i as int]) > k || i == before.len());
                    if j > i {
                        assert(rank(before[i as int]) < rank(before[j]));
                    }
                }
            }
            assert(!before.to_set().contains(reason));
        }
        self.auto_pauses.insert(i, reason);
        proof {
            let after = self.auto_pauses@;
            assert(after =~= before.insert(i as int, reason));
            assert forall|a: int, b: int| 0 <= a < b < after.len() implies rank(after[a]) < rank(
                after[b],
            ) by {
                if i < before.len() {
                    assert(rank(before[i as int]) > k);
                }
                if b < i {
                } else if b == i {
                } else if a < i {
                    assert(after[b] == before[b - 1]);
                    if a + 1 < b - 1 || a < i {
                    }
                    if i < b - 1 {
                        assert(rank(before[i as int]) < rank(before[b - 1]));
                    }
                } else if a == i {
                    assert(after[b] == before[b - 1]);
                    if i < b - 1 {
                        assert(rank(before[i as int]) < rank(before[b - 1]));
                    }
                } else {
                    assert(after[a] == before[a - 1]);
                    assert(after[b] == before[b - 1]);
                }
            }
            assert forall|x: PauseReason| after.to_set().contains(x) <==> before.to_set().insert(
                reason,
            ).contains(x) by {
                if after.to_set().contains(x) {
                    let j = choose|j: int| 0 <= j < after.len() && after[j] == x;
                    if j < i {
                        assert(before[j] == x);
                    } else if j > i {
                        assert(before[j - 1] == x);
                    }
                }
                if before.to_set().contains(x) {
                    let j = choose|j: int| 0 <= j < before.len() && before[j] == x;
                    if j < i {
                        assert(after[j] == x);
                    } else {
                        assert(after[j + 1] == x);
                    }
                }
                if x == reason {
                    assert(after[i as int] == x);
                }
            }
            assert(after.to_set() =~= before.to_set().insert(reason));
        }
        true
    }

    /// Removes `reason`; true iff it was present.
    pub fn auto_resume(&mut self, reason: PauseReason) -> (removed: bool)
        requires
            old(self).wf(),
        ensures
            final(self).wf(),
            removed == old(self)@.auto_pauses.contains(reason),
            final(self)@ == (PauseView {
                auto_pauses: old(self)@.auto_pauses.remove(reason),
                ..old(self)@
            }),
    {
        let k = rank_of(reason);
        let mut i: usize = 0;
        while i < self.auto_pauses.len()
            invariant
                self.wf(),
                self.auto_pauses@ == old(self).auto_pauses@,
                self.user_paused == old(self).user_paused,
                i <= self.auto_pauses@.len(),
                k as nat == rank(reason),
                forall|j: int| 0 <= j < i ==> #[trigger] self.auto_pauses@[j] != reason,
            decreases self.auto_pauses@.len() - i,
        {
            if rank_of(self.auto_pauses[i]) == k {
                let ghost before = self.auto_pauses@;
                proof {
                    assert(before[i as int] == reason);
                }
                self.auto_pauses.remove(i);
                proof {
                    let after = self.auto_pauses@;
                    assert(after =~= before.remove(i as int));
                    assert forall|a: int, b: int| 0 <= a < b < after.len() implies rank(after[a])
                        < rank(after[b]) by {
                        if a < i {
                            if b < i {
                            } else {
                                assert(after[b] == before[b + 1]);
                            }
                        } else {
                            assert(after[a] == before[a + 1]);
                            assert(after[b] == before[b + 1]);
                        }
                    }
                    assert forall|x: PauseReason| after.to_set().contains(x) <==> before.to_set().remove(
                        reason,
                    ).contains(x) by {
                        if after.to_set().contains(x) {
                            let j = choose|j: int| 0 <= j < after.len() && after[j] == x;
                            if j < i {
                                assert(before[j] == x);
                                assert(rank(before[j]) < rank(before[i as int]));
                            } else {
                                assert(before[j + 1] == x);
                                assert(rank(before[i as int]) < rank(before[j + 1]));
                            }
                        }
                        if before.to_set().contains(x) && x != reason {
                            let j = choose|j: int| 0 <= j < before.len() && before[j] == x;
                            if j < i {
                                assert(after[j] == x);
                            } else {
                                assert(j != i);
                                assert(after[j - 1] == x);
                            }
                        }
                    }
                    assert(after.to_set() =~= before.to_set().remove(reason));
                }
                return true;
            }
            i = i + 1;
        }
        proof {
            assert(!self.auto_pauses@.to_set().contains(reason));
            assert(self@.auto_pauses.remove(reason) =~= self@.auto_pauses);
        }
        false
    }

    /// Clears the user flag and every automatic reason.
    pub fn clear(&mut self)
        ensures
            final(self).wf(),
            final(self)@ == (PauseView { user_paused: false, auto_pauses: Set::empty() }),
    {
        self.user_paused = false;
        self.auto_pauses = Vec::new();
        proof {
            assert(self.auto_pauses@.to_set() =~= Set::empty());
        }
    }
}

} // verus!
