//! The activity lifecycle service.
//!
//! The service orchestrates the current-activity slot and the
//! finished-activity store, whatever their implementations, and enforces the
//! single-current-activity discipline: starting a new activity first closes
//! whatever is ongoing, using the new start time as the boundary, and stopping
//! turns the ongoing activity into a stored record. Its contracts are stated
//! over the session model of [`crate::model`]; on a storage failure nothing is
//! swallowed and each clause says exactly which partial effect a caller may
//! observe.

use vstd::prelude::*;

use crate::activity::{Activity, ActivityId, OngoingActivity};
use crate::datetimew::DateTimeW;
use crate::errors::RtwError;
use crate::model::{
    entries_valid, entries_view, fresh_id, start_allowed, start_step, stop_allowed, stop_step,
    stop_value, track_step, unique_ids, ServiceView,
};
use crate::storage::{CurrentActivityRepository, FinishedActivityRepository};

verus! {

/// The predicate a caller's filter closure computes, seen as a mathematical
/// predicate on store rows: the rows on which the closure answers true.
pub open spec fn accepted_by<P: Fn(&(ActivityId, Activity)) -> bool>(p: P) -> spec_fn(
    (ActivityId, Activity),
) -> bool {
    |e: (ActivityId, Activity)| call_ensures(p, (&e,), true)
}

/// True when the closure is a function of its argument: any two possible
/// answers on the same row agree. A pure predicate satisfies this.
pub open spec fn decisive<P: Fn(&(ActivityId, Activity)) -> bool>(p: P) -> bool {
    forall|e: (ActivityId, Activity), b1: bool, b2: bool|
        #[trigger] call_ensures(p, (&e,), b1) && #[trigger] call_ensures(p, (&e,), b2) ==> b1 == b2
}

/// Filtering one more row extends the filtered prefix by that row exactly
/// when the predicate accepts it.
proof fn lemma_filter_take_step<A>(s: Seq<A>, pred: spec_fn(A) -> bool, k: int)
    requires
        0 <= k < s.len(),
    ensures
        s.take(k + 1).filter(pred) == (if pred(s[k]) {
            s.take(k).filter(pred).push(s[k])
        } else {
            s.take(k).filter(pred)
        }),
    decreases s.len(),
{
    reveal(Seq::filter);
    assert(s.take(k + 1).drop_last() =~= s.take(k));
    assert(s.take(k + 1).last() == s[k]);
}

/// The activity lifecycle service, written against the two storage
/// capability traits and never against a concrete storage type.
pub struct Service<F, C> where F: FinishedActivityRepository, C: CurrentActivityRepository {
    finished: F,
    current: C,
}

impl<F, C> Service<F, C> where F: FinishedActivityRepository, C: CurrentActivityRepository {
    /// The service is well-formed when both storage capabilities are.
    pub closed spec fn inv(&self) -> bool {
        self.finished.inv() && self.current.inv()
    }

    /// The session the service currently holds, as a model value.
    pub closed spec fn sv(&self) -> ServiceView {
        ServiceView { current: self.current.current(), entries: self.finished.entries() }
    }

    /// True when the slot capability is permitted to fail.
    pub closed spec fn slot_may_fail(&self) -> bool {
        self.current.may_fail()
    }

    /// True when the store capability is permitted to fail.
    pub closed spec fn store_may_fail(&self) -> bool {
        self.finished.may_fail()
    }

    /// True when some storage call is permitted to fail; when false, every
    /// service operation owes success on the inputs it accepts.
    pub open spec fn may_fail(&self) -> bool {
        self.slot_may_fail() || self.store_may_fail()
    }

    /// The store's standing guarantees, visible at the service level: the
    /// identifiers of the finished entries are unique and every entry is a
    /// valid interval.
    pub proof fn lemma_store_wf(&self)
        requires
            self.inv(),
        ensures
            unique_ids(self.sv().entries),
            entries_valid(self.sv().entries),
    {
        self.finished.lemma_entries_wf();
    }

    /// Builds a service over the given store and slot.
    pub fn new(finished: F, current: C) -> (s: Service<F, C>)
        requires
            finished.inv(),
            current.inv(),
        ensures
            s.inv(),
            s.sv() == (ServiceView { current: current.current(), entries: finished.entries() }),
            s.slot_may_fail() == current.may_fail(),
            s.store_may_fail() == finished.may_fail(),
    {
        Service { finished, current }
    }

    /// Reads the ongoing activity, if any. Read-only: no side effects.
    pub fn get_current_activity(&self) -> (r: Result<Option<OngoingActivity>, RtwError>)
        requires
            self.inv(),
        ensures
            (match r {
                Ok(Some(a)) => self.sv().current == Some(a@),
                Ok(None) => self.sv().current is None,
                Err(e) => e == RtwError::StorageFailure && self.may_fail(),
            }),
            !self.may_fail() ==> r is Ok,
    {
        self.current.get_current_activity()
    }

    /// Stops the ongoing activity at `time`, if there is one: the closed
    /// interval is written to the store under a fresh identifier and the slot
    /// is emptied. Stopping when idle is a no-op that returns nothing.
    ///
    /// Fails with [`RtwError::InvalidInterval`] exactly when an activity is
    /// ongoing and `time` precedes its start; the session is then unchanged.
    /// On a storage failure the slot is always unchanged — the store write
    /// comes first, so a failed write leaves the stop safely retryable —
    /// though a record may already have been written.
    pub fn stop_current_activity(&mut self, time: DateTimeW) -> (r: Result<
        Option<Activity>,
        RtwError,
    >)
        requires
            old(self).inv(),
        ensures
            final(self).inv(),
            final(self).slot_may_fail() == old(self).slot_may_fail(),
            final(self).sv().entries == old(self).sv().entries ==> final(self).store_may_fail()
                == old(self).store_may_fail(),
            (match r {
                Ok(None) => old(self).sv().current is None && final(self).sv() == old(self).sv(),
                Ok(Some(a)) => {
                    &&& stop_allowed(old(self).sv(), time@)
                    &&& Some(a@) == stop_value(old(self).sv(), time@)
                    &&& exists|id: int|
                        #[trigger] fresh_id(old(self).sv().entries, id) && final(self).sv()
                            == stop_step(old(self).sv(), time@, id)
                },
                Err(RtwError::InvalidInterval) => {
                    &&& old(self).sv().current matches Some(c) && time@ < c.start_time
                    &&& final(self).sv() == old(self).sv()
                },
                Err(RtwError::StorageFailure) => {
                    &&& old(self).may_fail()
                    &&& final(self).sv().current == old(self).sv().current
                    &&& (final(self).sv().entries == old(self).sv().entries || (stop_allowed(
                        old(self).sv(),
                        time@,
                    ) && old(self).sv().current is Some && exists|id: int|
                        #[trigger] fresh_id(old(self).sv().entries, id) && final(self).sv().entries
                            == stop_step(old(self).sv(), time@, id).entries))
                },
            }),
            (!old(self).may_fail() && stop_allowed(old(self).sv(), time@)) ==> r is Ok,
    {
        let cur = match self.current.get_current_activity() {
            Err(e) => {
                return Err(e);
            },
            Ok(c) => c,
        };
        match cur {
            None => Ok(None),
            Some(current_activity) => {
                let finished_activity = match current_activity.into_activity(time) {
                    Err(e) => {
                        return Err(e);
                    },
                    Ok(a) => a,
                };
                let wid = match self.finished.write_activity(finished_activity.duplicate()) {
                    Err(e) => {
                        return Err(e);
                    },
                    Ok(id) => id,
                };
                match self.current.reset_current_activity() {
                    Err(e) => {
                        return Err(e);
                    },
                    Ok(()) => {},
                }
                proof {
                    assert(fresh_id(old(self).sv().entries, wid as int));
                    assert(self.sv() == stop_step(old(self).sv(), time@, wid as int));
                }
                Ok(Some(finished_activity))
            },
        }
    }

    /// Starts `activity`: whatever is ongoing is first stopped, with
    /// `activity`'s start time as its end — the deliberate auto-close policy —
    /// and `activity` becomes the one ongoing activity. Returns the started
    /// activity.
    ///
    /// No ordering is enforced against the present moment: starting in the
    /// past is accepted, as the caller supplies the timestamps. Fails with
    /// [`RtwError::InvalidInterval`] exactly when the new start precedes the
    /// ongoing activity's start, so that the auto-closed interval would run
    /// backwards.
    pub fn start_activity(&mut self, activity: OngoingActivity) -> (r: Result<
        OngoingActivity,
        RtwError,
    >)
        requires
            old(self).inv(),
        ensures
            final(self).inv(),
            final(self).slot_may_fail() == old(self).slot_may_fail(),
            final(self).sv().entries == old(self).sv().entries ==> final(self).store_may_fail()
                == old(self).store_may_fail(),
            (match r {
                Ok(started) => {
                    &&& started@ == activity@
                    &&& start_allowed(old(self).sv(), activity@)
                    &&& (old(self).sv().current is None ==> final(self).sv() == start_step(
                        old(self).sv(),
                        activity@,
                        0,
                    ))
                    &&& (old(self).sv().current is Some ==> exists|id: int|
                        #[trigger] fresh_id(old(self).sv().entries, id) && final(self).sv()
                            == start_step(old(self).sv(), activity@, id))
                },
                Err(RtwError::InvalidInterval) => {
                    &&& old(self).sv().current matches Some(c) && activity@.start_time
                        < c.start_time
                    &&& final(self).sv() == old(self).sv()
                },
                Err(RtwError::StorageFailure) => {
                    &&& old(self).may_fail()
                    &&& (final(self).sv().current == old(self).sv().current || final(self).sv().current is None)
                    &&& (final(self).sv().entries == old(self).sv().entries || (start_allowed(
                        old(self).sv(),
                        activity@,
                    ) && old(self).sv().current is Some && exists|id: int|
                        #[trigger] fresh_id(old(self).sv().entries, id) && final(self).sv().entries
                            == start_step(old(self).sv(), activity@, id).entries))
                },
            }),
            (!old(self).may_fail() && start_allowed(old(self).sv(), activity@)) ==> r is Ok,
    {
        match self.stop_current_activity(activity.start_time) {
            Err(e) => {
                return Err(e);
            },
            Ok(_stopped) => {},
        }
        let started = OngoingActivity::new(activity.start_time, activity.tags);
        match self.current.set_current_activity(started.duplicate()) {
            Err(e) => {
                return Err(e);
            },
            Ok(()) => {},
        }
        Ok(started)
    }

    /// Writes a fully-formed, already-closed activity straight to the store,
    /// bypassing the ongoing stage; the slot is untouched. Returns the
    /// tracked activity. An invalid interval cannot reach this function: no
    /// [`Activity`] value violates `start_time <= end_time`.
    pub fn track_activity(&mut self, activity: Activity) -> (r: Result<Activity, RtwError>)
        requires
            old(self).inv(),
        ensures
            final(self).inv(),
            final(self).slot_may_fail() == old(self).slot_may_fail(),
            final(self).sv().entries == old(self).sv().entries ==> final(self).store_may_fail()
                == old(self).store_may_fail(),
            (match r {
                Ok(a) => a@ == activity@ && exists|id: int|
                    #[trigger] fresh_id(old(self).sv().entries, id) && final(self).sv()
                        == track_step(old(self).sv(), activity@, id),
                Err(e) => e == RtwError::StorageFailure && old(self).may_fail() && final(self).sv()
                    == old(self).sv(),
            }),
            !old(self).may_fail() ==> r is Ok,
    {
        match self.finished.write_activity(activity.duplicate()) {
            Err(e) => Err(e),
            Ok(wid) => {
                proof {
                    assert(fresh_id(old(self).sv().entries, wid as int));
                    assert(self.sv() == track_step(old(self).sv(), activity@, wid as int));
                }
                Ok(activity)
            },
        }
    }

    /// Removes and returns the stored activity with identifier `id`; returns
    /// nothing, and changes nothing, when the identifier is unknown — that is
    /// not an error.
    pub fn delete_activity(&mut self, id: ActivityId) -> (r: Result<Option<Activity>, RtwError>)
        requires
            old(self).inv(),
        ensures
            final(self).inv(),
            final(self).slot_may_fail() == old(self).slot_may_fail(),
            final(self).store_may_fail() == old(self).store_may_fail(),
            final(self).sv().current == old(self).sv().current,
            (match r {
                Ok(Some(a)) => exists|i: int|
                    {
                        &&& 0 <= i < old(self).sv().entries.len()
                        &&& #[trigger] old(self).sv().entries[i] == (id as int, a@)
                        &&& final(self).sv().entries == old(self).sv().entries.remove(i)
                    },
                Ok(None) => fresh_id(old(self).sv().entries, id as int) && final(self).sv() == old(
                    self,
                ).sv(),
                Err(e) => e == RtwError::StorageFailure && old(self).may_fail() && final(self).sv()
                    == old(self).sv(),
            }),
            !old(self).may_fail() ==> r is Ok,
    {
        match self.finished.delete_activity(id) {
            Err(e) => Err(e),
            Ok(None) => Ok(None),
            Ok(Some(a)) => {
                proof {
                    let i = choose|i: int|
                        0 <= i < old(self).finished.entries().len() && #[trigger] old(
                            self,
                        ).finished.entries()[i] == (id as int, a@) && self.finished.entries()
                            == old(self).finished.entries().remove(i);
                    assert(old(self).sv().entries[i] == (id as int, a@));
                    assert(self.sv().entries == old(self).sv().entries.remove(i));
                }
                Ok(Some(a))
            },
        }
    }

    /// Returns exactly the stored rows the caller's predicate accepts, in
    /// store order; an empty result is not an error. Read-only: no side
    /// effects. The predicate must be callable on any row and must answer as
    /// a pure function of the row.
    pub fn filter_activities<P: Fn(&(ActivityId, Activity)) -> bool>(&self, p: P) -> (r: Result<
        Vec<(ActivityId, Activity)>,
        RtwError,
    >)
        requires
            self.inv(),
            forall|e: (ActivityId, Activity)| #[trigger] call_requires(p, (&e,)),
            decisive(p),
        ensures
            (match r {
                Ok(v) => exists|rows: Seq<(ActivityId, Activity)>|
                    {
                        &&& #[trigger] entries_view(rows) == self.sv().entries
                        &&& v@ == rows.filter(accepted_by(p))
                    },
                Err(e) => e == RtwError::StorageFailure && self.may_fail(),
            }),
            !self.may_fail() ==> r is Ok,
    {
        let mut rows = match self.finished.read_activities() {
            Err(e) => {
                return Err(e);
            },
            Ok(v) => v,
        };
        let ghost all: Seq<(ActivityId, Activity)> = rows@;
        let mut out: Vec<(ActivityId, Activity)> = Vec::new();
        while rows.len() > 0
            invariant
                forall|e: (ActivityId, Activity)| #[trigger] call_requires(p, (&e,)),
                decisive(p),
                rows@.len() <= all.len(),
                rows@ == all.skip(all.len() - rows@.len()),
                out@ == all.take(all.len() - rows@.len()).filter(accepted_by(p)),
            decreases rows@.len(),
        {
            let ghost k = all.len() - rows@.len();
            let e = rows.remove(0);
            proof {
                assert(e == all[k]);
                assert(rows@ =~= all.skip(k + 1));
            }
            let keep = p(&e);
            proof {
                lemma_filter_take_step(all, accepted_by(p), k);
                assert(keep == accepted_by(p)(e));
            }
            if keep {
                out.push(e);
            }
            proof {
                assert(out@ == all.take(k + 1).filter(accepted_by(p)));
            }
        }
        proof {
            assert(all.take(all.len() as int) =~= all);
            assert(out@ == all.filter(accepted_by(p)));
        }
        Ok(out)
    }
}

} // verus!
