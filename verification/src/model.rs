//! The mathematical model of a tracking session, and the laws proved of it.
//!
//! A session is a pair: the contents of the current-activity slot and the
//! finished-activity store. The spec functions here describe what `start`,
//! `stop` and `track` do to that pair on their successful path; the service's
//! contracts in [`crate::service`] are stated over them, and the proof
//! functions at the bottom state the laws a reader should be able to rely on.

use vstd::prelude::*;

use crate::activity::{Activity, ActivityId, ActivityModel, OngoingModel};

verus! {

/// The abstract state of a tracking session: at most one ongoing activity,
/// and the finished entries in store order, each with its identifier.
pub struct ServiceView {
    pub current: Option<OngoingModel>,
    pub entries: Seq<(int, ActivityModel)>,
}

/// The model of one store row: its identifier and the finished activity.
pub open spec fn entry_view(e: (ActivityId, Activity)) -> (int, ActivityModel) {
    (e.0 as int, e.1@)
}

/// The model of a whole result row sequence, in order.
pub open spec fn entries_view(v: Seq<(ActivityId, Activity)>) -> Seq<(int, ActivityModel)> {
    v.map_values(|e: (ActivityId, Activity)| entry_view(e))
}

/// True when `id` is not the identifier of any entry: the store may assign it
/// to the next write.
pub open spec fn fresh_id(entries: Seq<(int, ActivityModel)>, id: int) -> bool {
    forall|i: int| 0 <= i < entries.len() ==> (#[trigger] entries[i]).0 != id
}

/// True when no two entries share an identifier.
pub open spec fn unique_ids(entries: Seq<(int, ActivityModel)>) -> bool {
    forall|i: int, j: int|
        0 <= i < j < entries.len() ==> (#[trigger] entries[i]).0 != (#[trigger] entries[j]).0
}

/// True when every entry is a valid interval.
pub open spec fn entries_valid(entries: Seq<(int, ActivityModel)>) -> bool {
    forall|i: int| 0 <= i < entries.len() ==> (#[trigger] entries[i]).1.valid()
}

/// The finished activity an ongoing one becomes when closed at `end_time`.
pub open spec fn closed_at(c: OngoingModel, end_time: int) -> ActivityModel {
    ActivityModel { start_time: c.start_time, end_time, tags: c.tags }
}

/// True when stopping at `end_time` cannot be refused: either the session is
/// idle, or the ongoing activity started no later than `end_time`.
pub open spec fn stop_allowed(s: ServiceView, end_time: int) -> bool {
    match s.current {
        None => true,
        Some(c) => c.start_time <= end_time,
    }
}

/// What `stop` returns on its successful path: the closed interval, or
/// nothing when the session was idle.
pub open spec fn stop_value(s: ServiceView, end_time: int) -> Option<ActivityModel> {
    match s.current {
        None => None,
        Some(c) => Some(closed_at(c, end_time)),
    }
}

/// The session after a successful `stop` at `end_time`, where the store
/// assigned `id` to the closed interval. Stopping an idle session changes
/// nothing.
pub open spec fn stop_step(s: ServiceView, end_time: int, id: int) -> ServiceView {
    match s.current {
        None => s,
        Some(c) => ServiceView {
            current: None,
            entries: s.entries.push((id, closed_at(c, end_time))),
        },
    }
}

/// True when starting `a` cannot be refused: any ongoing activity can be
/// auto-closed at `a.start_time`.
pub open spec fn start_allowed(s: ServiceView, a: OngoingModel) -> bool {
    stop_allowed(s, a.start_time)
}

/// The session after a successful `start` of `a`: the previous ongoing
/// activity, if any, is first closed at `a.start_time` and stored under `id`,
/// then `a` becomes the one ongoing activity.
pub open spec fn start_step(s: ServiceView, a: OngoingModel, id: int) -> ServiceView {
    ServiceView { current: Some(a), entries: stop_step(s, a.start_time, id).entries }
}

/// The session after a successful `track` of the finished activity `a`,
/// stored under `id`: the slot is untouched.
pub open spec fn track_step(s: ServiceView, a: ActivityModel, id: int) -> ServiceView {
    ServiceView { current: s.current, entries: s.entries.push((id, a)) }
}

/// Stopping an idle session is a no-op, however often it is repeated: it
/// returns nothing and leaves the session exactly as it was.
pub proof fn lemma_stop_idle_is_noop(s: ServiceView, end_time: int, id: int)
    requires
        s.current is None,
    ensures
        stop_allowed(s, end_time),
        stop_value(s, end_time) is None,
        stop_step(s, end_time, id) == s,
{
}

/// After any sequence of starts at most one activity is ongoing — the session
/// always holds `Some(a)` for the activity started last — and a second start
/// closes the prior one: exactly one finished entry is appended, ending at
/// the new start time and keeping the old start time and tags.
pub proof fn lemma_start_closes_previous(s: ServiceView, c: OngoingModel, a: OngoingModel, id: int)
    requires
        s.current == Some(c),
        start_allowed(s, a),
    ensures
        start_step(s, a, id).current == Some(a),
        start_step(s, a, id).entries == s.entries.push(
            (id, ActivityModel { start_time: c.start_time, end_time: a.start_time, tags: c.tags }),
        ),
{
}

/// Starting from idle opens the activity without recording anything.
pub proof fn lemma_start_from_idle(s: ServiceView, a: OngoingModel, id: int)
    requires
        s.current is None,
    ensures
        start_allowed(s, a),
        start_step(s, a, id).current == Some(a),
        start_step(s, a, id).entries == s.entries,
{
}

/// Round trip: starting `a` from idle and stopping at `end_time >= a.start_time`
/// yields exactly the finished activity `{a.start_time, end_time, a.tags}`,
/// appends it as the one new store entry, and leaves the session idle.
pub proof fn lemma_start_stop_round_trip(
    s: ServiceView,
    a: OngoingModel,
    end_time: int,
    id_start: int,
    id_stop: int,
)
    requires
        s.current is None,
        a.start_time <= end_time,
    ensures
        stop_allowed(start_step(s, a, id_start), end_time),
        stop_value(start_step(s, a, id_start), end_time) == Some(
            ActivityModel { start_time: a.start_time, end_time, tags: a.tags },
        ),
        stop_step(start_step(s, a, id_start), end_time, id_stop) == (ServiceView {
            current: None,
            entries: s.entries.push(
                (id_stop, ActivityModel { start_time: a.start_time, end_time, tags: a.tags }),
            ),
        }),
{
}

/// The session transitions preserve the store invariants: identifiers stay
/// unique and every entry stays a valid interval, as long as the store hands
/// out fresh identifiers and only allowed transitions are taken.
pub proof fn lemma_steps_preserve_store_invariants(s: ServiceView, end_time: int, id: int)
    requires
        unique_ids(s.entries),
        entries_valid(s.entries),
        fresh_id(s.entries, id),
        stop_allowed(s, end_time),
    ensures
        unique_ids(stop_step(s, end_time, id).entries),
        entries_valid(stop_step(s, end_time, id).entries),
{
    let post = stop_step(s, end_time, id).entries;
    match s.current {
        None => {}
        Some(c) => {
            assert forall|i: int, j: int| 0 <= i < j < post.len() implies (#[trigger] post[i]).0
                != (#[trigger] post[j]).0 by {
                if j == post.len() - 1 {
                    assert(s.entries[i].0 != id);
                }
            }
        }
    }
}

/// Tracking an already-closed activity preserves the store invariants too,
/// as long as the activity is a valid interval and its identifier is fresh.
/// `start_step` is covered as well: its store entries are those of a
/// `stop_step` at the new start time.
pub proof fn lemma_track_preserves_store_invariants(s: ServiceView, a: ActivityModel, id: int)
    requires
        unique_ids(s.entries),
        entries_valid(s.entries),
        fresh_id(s.entries, id),
        a.valid(),
    ensures
        unique_ids(track_step(s, a, id).entries),
        entries_valid(track_step(s, a, id).entries),
{
    let post = track_step(s, a, id).entries;
    assert forall|i: int, j: int| 0 <= i < j < post.len() implies (#[trigger] post[i]).0 != (
    #[trigger] post[j]).0 by {
        if j == post.len() - 1 {
            assert(s.entries[i].0 != id);
        }
    }
}

/// Deleting the entry at index `i` of a store with unique identifiers leaves
/// no entry carrying that identifier; every other entry survives, in order.
pub proof fn lemma_delete_removes_id(entries: Seq<(int, ActivityModel)>, i: int)
    requires
        unique_ids(entries),
        0 <= i < entries.len(),
    ensures
        fresh_id(entries.remove(i), entries[i].0),
        forall|j: int| 0 <= j < i ==> entries.remove(i)[j] == entries[j],
        forall|j: int| i <= j < entries.len() - 1 ==> entries.remove(i)[j] == entries[j + 1],
{
    let removed = entries.remove(i);
    assert forall|k: int| 0 <= k < removed.len() implies (#[trigger] removed[k]).0
        != entries[i].0 by {
        if k < i {
            assert(removed[k] == entries[k]);
        } else {
            assert(removed[k] == entries[k + 1]);
        }
    }
}

} // verus!
