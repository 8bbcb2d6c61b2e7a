//! Ongoing and finished activities, and their mathematical models.

use vstd::prelude::*;

use crate::datetimew::DateTimeW;
use crate::errors::RtwError;

verus! {

/// An opaque text label attached to an activity.
pub type Tag = String;

/// An ordered sequence of tags. Order is preserved as written by the user and
/// duplicates are permitted.
pub type Tags = Vec<Tag>;

/// The identifier of a finished activity, unique within a store and assigned
/// by the store at write time.
pub type ActivityId = usize;

/// The mathematical model of an ongoing activity: a start instant and the
/// tags it was started with.
pub struct OngoingModel {
    pub start_time: int,
    pub tags: Seq<Tag>,
}

/// The mathematical model of a finished activity: a closed interval with
/// `start_time <= end_time`, and its tags.
pub struct ActivityModel {
    pub start_time: int,
    pub end_time: int,
    pub tags: Seq<Tag>,
}

impl ActivityModel {
    /// The interval invariant every finished activity satisfies.
    pub open spec fn valid(self) -> bool {
        self.start_time <= self.end_time
    }
}

/// An activity that has started but not yet ended. It exists only inside the
/// current-activity slot; the service guarantees at most one at any time.
#[derive(Debug)]
pub struct OngoingActivity {
    /// When the activity started.
    pub start_time: DateTimeW,
    /// The labels it was started with.
    pub tags: Tags,
}

impl View for OngoingActivity {
    type V = OngoingModel;

    open spec fn view(&self) -> OngoingModel {
        OngoingModel { start_time: self.start_time@, tags: self.tags@ }
    }
}

/// Copies a tag sequence, element for element.
pub fn duplicate_tags(tags: &Tags) -> (r: Tags)
    ensures
        r@ == tags@,
{
    let mut r: Tags = Vec::new();
    let mut i: usize = 0;
    while i < tags.len()
        invariant
            i <= tags.len(),
            r@ == tags@.take(i as int),
        decreases tags.len() - i,
    {
        r.push(tags[i].clone());
        i = i + 1;
        proof {
            assert(r@ =~= tags@.take(i as int));
        }
    }
    proof {
        assert(tags@.take(tags@.len() as int) =~= tags@);
    }
    r
}

impl OngoingActivity {
    /// Builds an ongoing activity from its start instant and tags.
    pub fn new(start_time: DateTimeW, tags: Tags) -> (r: OngoingActivity)
        ensures
            r@ == (OngoingModel { start_time: start_time@, tags: tags@ }),
    {
        OngoingActivity { start_time, tags }
    }

    /// Copies the ongoing activity, value for value.
    pub fn duplicate(&self) -> (r: OngoingActivity)
        ensures
            r@ == self@,
    {
        OngoingActivity { start_time: self.start_time, tags: duplicate_tags(&self.tags) }
    }

    /// Closes the ongoing activity at `end_time`, turning it into a finished
    /// one. Fails with [`RtwError::InvalidInterval`] exactly when `end_time`
    /// precedes the start.
    pub fn into_activity(self, end_time: DateTimeW) -> (r: Result<Activity, RtwError>)
        ensures
            self@.start_time <= end_time@ ==> (r matches Ok(a) && a@ == (ActivityModel {
                start_time: self@.start_time,
                end_time: end_time@,
                tags: self@.tags,
            })),
            self@.start_time > end_time@ ==> (r matches Err(e) && e == RtwError::InvalidInterval),
    {
        Activity::new(self.start_time, end_time, self.tags)
    }
}

/// A finished activity: an immutable closed interval with tags. Every value
/// of this type satisfies `start_time <= end_time`; constructing one where
/// the end precedes the start fails instead.
#[derive(Debug)]
pub struct Activity {
    start_time: DateTimeW,
    end_time: DateTimeW,
    tags: Tags,
}

impl View for Activity {
    type V = ActivityModel;

    closed spec fn view(&self) -> ActivityModel {
        ActivityModel {
            start_time: self.start_time@,
            end_time: self.end_time@,
            tags: self.tags@,
        }
    }
}

impl Activity {
    /// The interval invariant, carried by every value of the type.
    #[verifier::type_invariant]
    pub open spec fn wf(self) -> bool {
        self@.valid()
    }

    /// Builds a finished activity. Fails with [`RtwError::InvalidInterval`]
    /// exactly when `end_time` precedes `start_time`; a zero-length interval
    /// is tolerated.
    pub fn new(start_time: DateTimeW, end_time: DateTimeW, tags: Tags) -> (r: Result<
        Activity,
        RtwError,
    >)
        ensures
            start_time@ <= end_time@ ==> (r matches Ok(a) && a@ == (ActivityModel {
                start_time: start_time@,
                end_time: end_time@,
                tags: tags@,
            })),
            start_time@ > end_time@ ==> (r matches Err(e) && e == RtwError::InvalidInterval),
    {
        if end_time.seconds < start_time.seconds {
            Err(RtwError::InvalidInterval)
        } else {
            Ok(Activity { start_time, end_time, tags })
        }
    }

    /// When the activity started.
    pub fn get_start_time(&self) -> (r: DateTimeW)
        ensures
            r@ == self@.start_time,
    {
        self.start_time
    }

    /// When the activity ended.
    pub fn get_end_time(&self) -> (r: DateTimeW)
        ensures
            r@ == self@.end_time,
    {
        self.end_time
    }

    /// The labels the activity carries.
    pub fn get_tags(&self) -> (r: &Tags)
        ensures
            r@ == self@.tags,
    {
        &self.tags
    }

    /// Copies the finished activity, value for value.
    pub fn duplicate(&self) -> (r: Activity)
        ensures
            r@ == self@,
    {
        proof {
            use_type_invariant(self);
        }
        Activity {
            start_time: self.start_time,
            end_time: self.end_time,
            tags: duplicate_tags(&self.tags),
        }
    }
}

} // verus!
