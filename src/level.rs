//! The review level of a task under the memory model: not started yet, or
//! started with the full history of its reviews.

use crate::clock::{add_secs, saturating_sum, ReviewTime};
use vstd::prelude::*;

verus! {

/// How well the user recalled an answer.
#[derive(Clone, Copy, Debug, PartialEq, Eq, Structural)]
pub enum Quality {
    Again,
    Hard,
    Good,
    Easy,
}

impl Quality {
    pub open spec fn rating_spec(self) -> u32 {
        match self {
            Quality::Again => 1,
            Quality::Hard => 2,
            Quality::Good => 3,
            Quality::Easy => 4,
        }
    }

    /// The grade as the memory model counts it: 1 for `Again` up to 4 for
    /// `Easy`.
    pub fn rating(self) -> (r: u32)
        ensures
            r == self.rating_spec(),
    {
        match self {
            Quality::Again => 1,
            Quality::Hard => 2,
            Quality::Good => 3,
            Quality::Easy => 4,
        }
    }
}

/// One review: its grade, and the whole days since the review before it.
#[derive(Clone, Copy, Debug, PartialEq, Eq, Structural)]
pub struct Review {
    pub rating: u32,
    pub delta_t: u32,
}

impl DeepView for Review {
    type V = Review;

    open spec fn deep_view(&self) -> Review {
        *self
    }
}

/// A started level: the last grade, when it was given, and every review so
/// far, oldest first.
#[derive(Debug)]
pub struct StartedLevel {
    last_quality: Quality,
    last_review: ReviewTime,
    history: Vec<Review>,
}

/// A grade given at a moment.
#[derive(Clone, Copy, Debug)]
pub struct RepetitionContext {
    pub quality: Quality,
    pub review_time: ReviewTime,
}

#[derive(Debug)]
pub enum Level {
    Started(StartedLevel),
    NotStarted,
}

/// The whole days between two moments, by their calendar days.
pub open spec fn days_between(first: ReviewTime, second: ReviewTime) -> int {
    second.day - first.day
}

/// A review history as reviews are recorded: at least one review, the first
/// with no days before it.
pub open spec fn valid_history(h: Seq<Review>) -> bool {
    h.len() >= 1 && h[0].delta_t == 0
}

impl StartedLevel {
    pub closed spec fn last_quality_spec(&self) -> Quality {
        self.last_quality
    }

    pub closed spec fn last_review_spec(&self) -> ReviewTime {
        self.last_review
    }

    pub closed spec fn history_spec(&self) -> Seq<Review> {
        self.history@
    }

    /// The level is one that reviews can produce: its history is valid and
    /// ends with the last grade.
    pub open spec fn wf(&self) -> bool {
        &&& valid_history(self.history_spec())
        &&& self.history_spec().last().rating == self.last_quality_spec().rating_spec()
    }

    /// The level after a first review.
    pub fn new(quality: Quality, review_time: ReviewTime) -> (r: StartedLevel)
        ensures
            r.last_quality_spec() == quality,
            r.last_review_spec() == review_time,
            r.history_spec() == seq![Review { rating: quality.rating_spec(), delta_t: 0 }],
            r.wf(),
    {
        let mut history: Vec<Review> = Vec::new();
        history.push(Review { rating: quality.rating(), delta_t: 0 });
        StartedLevel { last_quality: quality, last_review: review_time, history }
    }

    /// A started level read back from its parts, if they are valid.
    pub fn restore(last_quality: Quality, last_review: ReviewTime, history: Vec<Review>) -> (r:
        Option<StartedLevel>)
        ensures
            r is Some <==> (valid_history(history@) && history@.last().rating
                == last_quality.rating_spec()),
            r is Some ==> r->Some_0.last_quality_spec() == last_quality
                && r->Some_0.last_review_spec() == last_review && r->Some_0.history_spec()
                == history@,
    {
        if history.len() >= 1 && history[0].delta_t == 0 && history[history.len() - 1].rating
            == last_quality.rating() {
            Some(StartedLevel { last_quality, last_review, history })
        } else {
            None
        }
    }

    pub fn last_quality(&self) -> (r: Quality)
        ensures
            r == self.last_quality_spec(),
    {
        self.last_quality
    }

    pub fn last_review(&self) -> (r: ReviewTime)
        ensures
            r == self.last_review_spec(),
    {
        self.last_review
    }

    pub fn history(&self) -> (r: &Vec<Review>)
        ensures
            r@ == self.history_spec(),
    {
        &self.history
    }

    /// Records a review: appends its grade with the whole days since the last
    /// review.
    pub fn add_repetition(&mut self, repetition: RepetitionContext)
        requires
            0 <= days_between(old(self).last_review_spec(), repetition.review_time) <= u32::MAX,
        ensures
            final(self).history_spec() == old(self).history_spec().push(
                Review {
                    rating: repetition.quality.rating_spec(),
                    delta_t: days_between(
                        old(self).last_review_spec(),
                        repetition.review_time,
                    ) as u32,
                },
            ),
            final(self).last_quality_spec() == repetition.quality,
            final(self).last_review_spec() == repetition.review_time,
            old(self).wf() ==> final(self).wf(),
    {
        let days = repetition.review_time.day - self.last_review.day;
        self.history.push(Review { rating: repetition.quality.rating(), delta_t: days as u32 });
        self.last_quality = repetition.quality;
        self.last_review = repetition.review_time;
    }

    /// The moment of the next review, `interval_secs` after the last one.
    pub fn get_next_repetition(&self, interval_secs: i64) -> (r: i64)
        requires
            interval_secs >= 0,
        ensures
            r == saturating_sum(self.last_review_spec().secs as int, interval_secs as int),
    {
        add_secs(self.last_review.secs, interval_secs)
    }

    /// The whole days from the last review to `now`.
    pub fn days_since_last_review(&self, now: ReviewTime) -> (r: i64)
        requires
            i64::MIN <= days_between(self.last_review_spec(), now) <= i64::MAX,
        ensures
            r == days_between(self.last_review_spec(), now),
    {
        now.day - self.last_review.day
    }
}

impl Level {
    /// A repetition can be recorded at this moment: not before the last review
    /// by calendar day, and within the range of a day count.
    pub open spec fn can_add(&self, review_time: ReviewTime) -> bool {
        match self {
            Level::Started(s) => 0 <= days_between(s.last_review_spec(), review_time) <= u32::MAX,
            Level::NotStarted => true,
        }
    }

    /// Whether a repetition can be recorded at this moment.
    pub fn accepts(&self, review_time: ReviewTime) -> (r: bool)
        ensures
            r == self.can_add(review_time),
    {
        match self {
            Level::Started(s) => {
                let last = s.last_review().day;
                last <= review_time.day && (review_time.day as i128 - last as i128)
                    <= u32::MAX as i128
            },
            Level::NotStarted => true,
        }
    }

    /// The history of reviews; empty before the first.
    pub open spec fn history_spec(&self) -> Seq<Review> {
        match self {
            Level::Started(s) => s.history_spec(),
            Level::NotStarted => Seq::empty(),
        }
    }

    pub open spec fn wf(&self) -> bool {
        match self {
            Level::Started(s) => s.wf(),
            Level::NotStarted => true,
        }
    }

    /// The level after a review at `repetition`.
    pub open spec fn after(self, repetition: RepetitionContext) -> Seq<Review> {
        match self {
            Level::Started(s) => s.history_spec().push(
                Review {
                    rating: repetition.quality.rating_spec(),
                    delta_t: days_between(s.last_review_spec(), repetition.review_time) as u32,
                },
            ),
            Level::NotStarted => seq![
                Review { rating: repetition.quality.rating_spec(), delta_t: 0 },
            ],
        }
    }

    /// Records a review. A level not started yet starts, with a history of
    /// that one review.
    pub fn add_repetition(&mut self, repetition: RepetitionContext)
        requires
            old(self).can_add(repetition.review_time),
        ensures
            (*final(self)) is Started,
            final(self).history_spec() == old(self).after(repetition),
            (*final(self))->Started_0.last_quality_spec() == repetition.quality,
            (*final(self))->Started_0.last_review_spec() == repetition.review_time,
            old(self).wf() ==> final(self).wf(),
    {
        match self {
            Level::Started(level) => {
                level.add_repetition(repetition);
            },
            Level::NotStarted => {
                *self = Level::Started(StartedLevel::new(repetition.quality, repetition.review_time));
            },
        }
    }

    /// When the next review is due: the epoch for a level not started yet
    /// (due at once), else `interval_secs` after the last review.
    pub fn get_next_repetition(&self, interval_secs: i64) -> (r: i64)
        requires
            interval_secs >= 0,
        ensures
            r == self.next_repetition_spec(interval_secs),
            self is NotStarted ==> r == 0,
    {
        match self {
            Level::Started(level) => level.get_next_repetition(interval_secs),
            Level::NotStarted => 0,
        }
    }

    pub open spec fn next_repetition_spec(&self, interval_secs: i64) -> i64 {
        match self {
            Level::Started(s) => saturating_sum(
                s.last_review_spec().secs as int,
                interval_secs as int,
            ) as i64,
            Level::NotStarted => 0,
        }
    }

    pub fn as_started(&self) -> (r: Option<&StartedLevel>)
        ensures
            r is Some <==> self is Started,
            r is Some ==> *r->Some_0 == self->Started_0,
    {
        match self {
            Level::Started(v) => Some(v),
            Level::NotStarted => None,
        }
    }

    /// The review history, for a started level.
    pub fn history(&self) -> (r: Option<&Vec<Review>>)
        ensures
            r is Some <==> self is Started,
            r is Some ==> r->Some_0@ == self.history_spec(),
    {
        match self {
            Level::Started(v) => Some(v.history()),
            Level::NotStarted => None,
        }
    }
}

/// A first review at `repetition` starts the history with that one grade
/// and no days before it; and for any positive interval that the memory model
/// gives, the task is next due strictly after the review.
pub proof fn lemma_first_review_due_later(
    after: Level,
    repetition: RepetitionContext,
    interval_secs: i64,
)
    requires
        after is Started,
        after.history_spec() == Level::NotStarted.after(repetition),
        after->Started_0.last_review_spec() == repetition.review_time,
        interval_secs > 0,
        repetition.review_time.secs < i64::MAX,
    ensures
        after.history_spec() == seq![
            Review { rating: repetition.quality.rating_spec(), delta_t: 0 },
        ],
        after.next_repetition_spec(interval_secs) > repetition.review_time.secs,
{
}

} // verus!
