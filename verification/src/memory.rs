//! In-memory implementations of the two storage capabilities.
//!
//! These keep everything in ordinary owned values. The slot never fails; the
//! store fails only when its identifier space is exhausted, since identifiers
//! are assigned monotonically forever: a deleted identifier is not reused.

use vstd::prelude::*;

use crate::activity::{Activity, ActivityId, ActivityModel, OngoingActivity, OngoingModel};
use crate::errors::RtwError;
use crate::model::{entries_view, entry_view};
use crate::storage::{CurrentActivityRepository, FinishedActivityRepository};

verus! {

/// An in-memory current-activity slot: zero-or-one ongoing activity, held as
/// a plain owned value. Never fails.
pub struct MemoryCurrentActivityRepository {
    slot: Option<OngoingActivity>,
}

impl MemoryCurrentActivityRepository {
    /// An empty slot.
    pub fn new() -> (r: MemoryCurrentActivityRepository)
        ensures
            r.inv(),
            r.current() is None,
            !r.may_fail(),
    {
        MemoryCurrentActivityRepository { slot: None }
    }
}

impl CurrentActivityRepository for MemoryCurrentActivityRepository {
    closed spec fn inv(&self) -> bool {
        true
    }

    closed spec fn current(&self) -> Option<OngoingModel> {
        match self.slot {
            Some(a) => Some(a@),
            None => None,
        }
    }

    closed spec fn may_fail(&self) -> bool {
        false
    }

    fn get_current_activity(&self) -> (r: Result<Option<OngoingActivity>, RtwError>) {
        match &self.slot {
            None => Ok(None),
            Some(a) => Ok(Some(a.duplicate())),
        }
    }

    fn set_current_activity(&mut self, activity: OngoingActivity) -> (r: Result<(), RtwError>) {
        self.slot = Some(activity);
        Ok(())
    }

    fn reset_current_activity(&mut self) -> (r: Result<(), RtwError>) {
        self.slot = None;
        Ok(())
    }
}

/// An in-memory finished-activity store: the entries in insertion order, and
/// the identifier the next write will be given. Fails only when the
/// identifier space is exhausted.
pub struct MemoryFinishedActivityRepository {
    items: Vec<(ActivityId, Activity)>,
    next_id: ActivityId,
}

impl MemoryFinishedActivityRepository {
    /// An empty store; the first write is given identifier 0.
    pub fn new() -> (r: MemoryFinishedActivityRepository)
        ensures
            r.inv(),
            r.entries() == Seq::<(int, ActivityModel)>::empty(),
            !r.may_fail(),
    {
        let r = MemoryFinishedActivityRepository { items: Vec::new(), next_id: 0 };
        proof {
            assert(r.entries() =~= Seq::<(int, ActivityModel)>::empty());
        }
        r
    }
}

impl FinishedActivityRepository for MemoryFinishedActivityRepository {
    closed spec fn inv(&self) -> bool {
        &&& forall|i: int|
            0 <= i < self.items@.len() ==> (#[trigger] self.items@[i]).0 < self.next_id
        &&& forall|i: int, j: int|
            0 <= i < j < self.items@.len() ==> (#[trigger] self.items@[i]).0 != (
            #[trigger] self.items@[j]).0
        &&& forall|i: int| 0 <= i < self.items@.len() ==> (#[trigger] self.items@[i]).1@.valid()
    }

    closed spec fn entries(&self) -> Seq<(int, ActivityModel)> {
        entries_view(self.items@)
    }

    closed spec fn may_fail(&self) -> bool {
        self.next_id == usize::MAX
    }

    proof fn lemma_entries_wf(&self) {
        assert forall|i: int, j: int| 0 <= i < j < self.entries().len() implies (
        #[trigger] self.entries()[i]).0 != (#[trigger] self.entries()[j]).0 by {
            assert(self.items@[i].0 != self.items@[j].0);
        }
        assert forall|i: int| 0 <= i < self.entries().len() implies (
        #[trigger] self.entries()[i]).1.valid() by {
            assert(self.items@[i].1@.valid());
        }
    }

    fn write_activity(&mut self, activity: Activity) -> (r: Result<ActivityId, RtwError>) {
        if self.next_id == usize::MAX {
            return Err(RtwError::StorageFailure);
        }
        let id = self.next_id;
        proof {
            use_type_invariant(&activity);
            assert forall|i: int| 0 <= i < old(self).entries().len() implies (
            #[trigger] old(self).entries()[i]).0 != id as int by {
                assert(old(self).items@[i].0 < id);
            }
        }
        self.items.push((id, activity));
        self.next_id = id + 1;
        proof {
            assert(self.entries() =~= old(self).entries().push((id as int, activity@)));
        }
        Ok(id)
    }

    fn read_activities(&self) -> (r: Result<Vec<(ActivityId, Activity)>, RtwError>) {
        let mut v: Vec<(ActivityId, Activity)> = Vec::new();
        let mut i: usize = 0;
        while i < self.items.len()
            invariant
                i <= self.items@.len(),
                v@.len() == i as int,
                forall|j: int| 0 <= j < i as int ==> entry_view(#[trigger] v@[j]) == entry_view(
                    self.items@[j],
                ),
            decreases self.items@.len() - i,
        {
            let id = self.items[i].0;
            let a = self.items[i].1.duplicate();
            v.push((id, a));
            i = i + 1;
        }
        proof {
            assert(entries_view(v@) =~= self.entries());
        }
        Ok(v)
    }

    fn delete_activity(&mut self, id: ActivityId) -> (r: Result<Option<Activity>, RtwError>) {
        let mut i: usize = 0;
        while i < self.items.len()
            invariant
                self == old(self),
                old(self).inv(),
                i <= self.items@.len(),
                forall|j: int| 0 <= j < i as int ==> (#[trigger] self.items@[j]).0 != id,
            decreases self.items@.len() - i,
        {
            if self.items[i].0 == id {
                let e = self.items.remove(i);
                proof {
                    let k = i as int;
                    old(self).items@.remove_ensures(k);
                    assert(old(self).entries()[k] == (id as int, e.1@));
                    assert(self.entries() =~= old(self).entries().remove(k));
                    assert forall|a: int, b: int|
                        0 <= a < b < self.items@.len() implies (#[trigger] self.items@[a]).0 != (
                    #[trigger] self.items@[b]).0 by {
                        let a0: int = if a < k {
                            a
                        } else {
                            a + 1
                        };
                        let b0: int = if b < k {
                            b
                        } else {
                            b + 1
                        };
                        assert(self.items@[a] == old(self).items@[a0]);
                        assert(self.items@[b] == old(self).items@[b0]);
                    }
                    assert forall|a: int| 0 <= a < self.items@.len() implies (
                    #[trigger] self.items@[a]).0 < self.next_id && self.items@[a].1@.valid() by {
                        let a0: int = if a < k {
                            a
                        } else {
                            a + 1
                        };
                        assert(self.items@[a] == old(self).items@[a0]);
                    }
                }
                return Ok(Some(e.1));
            }
            i = i + 1;
        }
        proof {
            assert forall|k: int| 0 <= k < old(self).entries().len() implies (
            #[trigger] old(self).entries()[k]).0 != id as int by {
                assert(old(self).items@[k].0 != id);
            }
        }
        Ok(None)
    }
}

} // verus!
