//! The two storage capabilities the lifecycle service is written against.
//!
//! The service never touches a concrete storage type: it sees one slot that
//! holds zero-or-one ongoing activity, and one identifier-indexed store of
//! finished activities. Each trait describes its state abstractly — an
//! invariant, a mathematical view of the contents, and a `may_fail` flag — and
//! each method says exactly what it did on success and that it changed nothing
//! it should not have on failure. An implementation that cannot fail (such as
//! the in-memory one in [`crate::memory`]) sets `may_fail` to false and its
//! callers are thereby owed success.

use vstd::prelude::*;

use crate::activity::{Activity, ActivityId, ActivityModel, OngoingActivity, OngoingModel};
use crate::errors::RtwError;
use crate::model::{entries_view, fresh_id, unique_ids, entries_valid};

verus! {

/// The single-valued storage location holding the ongoing activity, if any.
///
/// Each call is independently atomic from the slot's point of view; the
/// service composes the calls without locking of its own.
pub trait CurrentActivityRepository: Sized {
    /// The implementation's internal well-formedness condition.
    spec fn inv(&self) -> bool;

    /// The slot's contents, as a model value.
    spec fn current(&self) -> Option<OngoingModel>;

    /// True when a call on this slot is permitted to fail with
    /// [`RtwError::StorageFailure`]. An infallible implementation returns
    /// false and thereby owes success on every call.
    spec fn may_fail(&self) -> bool;

    /// Reads the slot without side effects.
    fn get_current_activity(&self) -> (r: Result<Option<OngoingActivity>, RtwError>)
        requires
            self.inv(),
        ensures
            (match r {
                Ok(Some(a)) => self.current() == Some(a@),
                Ok(None) => self.current() is None,
                Err(e) => e == RtwError::StorageFailure && self.may_fail(),
            }),
    ;

    /// Makes `activity` the slot's contents, replacing whatever was there.
    fn set_current_activity(&mut self, activity: OngoingActivity) -> (r: Result<(), RtwError>)
        requires
            old(self).inv(),
        ensures
            final(self).inv(),
            final(self).may_fail() == old(self).may_fail(),
            (match r {
                Ok(()) => final(self).current() == Some(activity@),
                Err(e) => e == RtwError::StorageFailure && old(self).may_fail() && final(self).current()
                    == old(self).current(),
            }),
    ;

    /// Empties the slot.
    fn reset_current_activity(&mut self) -> (r: Result<(), RtwError>)
        requires
            old(self).inv(),
        ensures
            final(self).inv(),
            final(self).may_fail() == old(self).may_fail(),
            (match r {
                Ok(()) => final(self).current() is None,
                Err(e) => e == RtwError::StorageFailure && old(self).may_fail() && final(self).current()
                    == old(self).current(),
            }),
    ;
}

/// The identifier-indexed, append-growing store of finished activities.
///
/// The store assigns identifiers itself at write time; they are unique among
/// the live entries, and the entries keep their insertion order.
pub trait FinishedActivityRepository: Sized {
    /// The implementation's internal well-formedness condition.
    spec fn inv(&self) -> bool;

    /// The store's contents in store order, as model values.
    spec fn entries(&self) -> Seq<(int, ActivityModel)>;

    /// True when a call on this store is permitted to fail with
    /// [`RtwError::StorageFailure`]. An infallible implementation returns
    /// false and thereby owes success on every call.
    spec fn may_fail(&self) -> bool;

    /// The store's standing guarantees: identifiers are unique and every
    /// entry is a valid interval.
    proof fn lemma_entries_wf(&self)
        requires
            self.inv(),
        ensures
            unique_ids(self.entries()),
            entries_valid(self.entries()),
    ;

    /// Appends `activity` under a freshly assigned identifier, which it
    /// returns.
    fn write_activity(&mut self, activity: Activity) -> (r: Result<ActivityId, RtwError>)
        requires
            old(self).inv(),
        ensures
            final(self).inv(),
            r is Err ==> final(self).may_fail() == old(self).may_fail(),
            (match r {
                Ok(id) => fresh_id(old(self).entries(), id as int) && final(self).entries() == old(
                    self,
                ).entries().push((id as int, activity@)),
                Err(e) => e == RtwError::StorageFailure && old(self).may_fail() && final(self).entries()
                    == old(self).entries(),
            }),
    ;

    /// Reads every entry, in store order, without side effects.
    fn read_activities(&self) -> (r: Result<Vec<(ActivityId, Activity)>, RtwError>)
        requires
            self.inv(),
        ensures
            (match r {
                Ok(v) => entries_view(v@) == self.entries(),
                Err(e) => e == RtwError::StorageFailure && self.may_fail(),
            }),
    ;

    /// Removes and returns the entry stored under `id`; returns nothing, and
    /// changes nothing, when no entry carries `id`.
    fn delete_activity(&mut self, id: ActivityId) -> (r: Result<Option<Activity>, RtwError>)
        requires
            old(self).inv(),
        ensures
            final(self).inv(),
            final(self).may_fail() == old(self).may_fail(),
            (match r {
                Ok(Some(a)) => exists|i: int|
                    {
                        &&& 0 <= i < old(self).entries().len()
                        &&& #[trigger] old(self).entries()[i] == (id as int, a@)
                        &&& final(self).entries() == old(self).entries().remove(i)
                    },
                Ok(None) => fresh_id(old(self).entries(), id as int) && final(self).entries() == old(
                    self,
                ).entries(),
                Err(e) => e == RtwError::StorageFailure && old(self).may_fail() && final(self).entries()
                    == old(self).entries(),
            }),
    ;
}

} // verus!
