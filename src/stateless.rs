//! A task that holds only its level and the key of its exercise in a content
//! store, which the caller looks up.

use crate::blocks::{Block, BlockModel, Blocks, ParagraphItem, ParagraphItemModel, Response};
use crate::clock::ReviewTime;
use crate::facade::Error;
use crate::feedback::{chosen_option, label, read_choice, text};
use crate::level::{Level, Quality, RepetitionContext};
use crate::task::{correct_options, graded, NextIntervals};
use vstd::prelude::*;

verus! {

/// The key of an exercise in a content store.
pub type BlocksDatabaseId = u64;

/// A content store: the exercise, its canonical answer and the other
/// accepted answers, by key.
pub trait TaskDatabase {
    /// The store holds an exercise under `id`.
    spec fn has_record(&self, id: BlocksDatabaseId) -> bool;

    fn get_blocks(&self, id: BlocksDatabaseId) -> (r: Option<(Blocks, Response, Vec<Response>)>)
        ensures
            r is Some <==> self.has_record(id),
    ;
}

#[derive(Debug)]
pub struct StatelessTask {
    level: Level,
    task_id: BlocksDatabaseId,
}

/// Where a review stands: a grade is awaited after a correct answer, or the
/// acknowledgement of a wrong one.
#[derive(Clone, Copy, Debug, PartialEq, Eq, Structural)]
pub enum Stage {
    Grade,
    Acknowledge,
}

#[derive(Clone, Copy, Debug, PartialEq, Eq, Structural)]
pub struct Completion {
    pub stage: Stage,
    pub review_time: ReviewTime,
}

/// The form after a correct answer.
pub open spec fn correct_form(iv: NextIntervals) -> Seq<BlockModel> {
    seq![
        BlockModel::Paragraph(seq![ParagraphItemModel::Text("Correct! Choose difficulty:"@)]),
        BlockModel::OneOf(correct_options(iv)),
    ]
}

/// The message after a wrong answer.
pub open spec fn wrong_form(iv: NextIntervals) -> Seq<BlockModel> {
    seq![
        BlockModel::Paragraph(
            seq![
                ParagraphItemModel::Text(
                    "Wrong. Next review in "@ + crate::feedback::decimal_of(iv.again_hours as nat)
                        + "h"@,
                ),
            ],
        ),
    ]
}

impl StatelessTask {
    pub closed spec fn level_spec(&self) -> &Level {
        &self.level
    }

    pub closed spec fn id_spec(&self) -> BlocksDatabaseId {
        self.task_id
    }

    /// A new task for the exercise under `id`, not started yet.
    pub fn new(id: BlocksDatabaseId) -> (r: StatelessTask)
        ensures
            *r.level_spec() is NotStarted,
            r.id_spec() == id,
    {
        StatelessTask { level: Level::NotStarted, task_id: id }
    }

    /// A task read back with its level.
    pub fn restore(level: Level, id: BlocksDatabaseId) -> (r: StatelessTask)
        ensures
            *r.level_spec() == level,
            r.id_spec() == id,
    {
        StatelessTask { level, task_id: id }
    }

    pub fn get_id(&self) -> (r: BlocksDatabaseId)
        ensures
            r == self.id_spec(),
    {
        self.task_id
    }

    pub fn level(&self) -> (r: &Level)
        ensures
            r == self.level_spec(),
    {
        &self.level
    }

    /// When the task is next due, for the interval that the memory model
    /// gives: at once before the first review.
    pub fn next_repetition(&self, interval_secs: i64) -> (r: i64)
        requires
            interval_secs >= 0,
        ensures
            r == self.level_spec().next_repetition_spec(interval_secs),
    {
        self.level.get_next_repetition(interval_secs)
    }

    /// The exercise of the task from the store; `NotFound` where the store
    /// has none under its key.
    pub fn resolve<D: TaskDatabase>(&self, db: &D) -> (r: Result<
        (Blocks, Response, Vec<Response>),
        Error,
    >)
        ensures
            r is Ok <==> db.has_record(self.id_spec()),
            r is Err ==> r == Err::<(Blocks, Response, Vec<Response>), Error>(Error::NotFound),
    {
        match db.get_blocks(self.task_id) {
            Some(record) => Ok(record),
            None => Err(Error::NotFound),
        }
    }

    /// Starts the feedback on an answer already judged (`is_correct`): a
    /// correct one asks for a grade, a wrong one is told when the next
    /// review is.
    pub fn start_completion(&self, is_correct: bool, review_time: ReviewTime, iv: NextIntervals) -> (r:
        (Completion, Blocks))
        ensures
            r.0 == (Completion {
                stage: if is_correct {
                    Stage::Grade
                } else {
                    Stage::Acknowledge
                },
                review_time,
            }),
            r.1.deep_view() == if is_correct {
                correct_form(iv)
            } else {
                wrong_form(iv)
            },
    {
        let mut form: Blocks = Vec::new();
        if is_correct {
            let mut line: Vec<ParagraphItem> = Vec::new();
            line.push(ParagraphItem::Text(text("Correct! Choose difficulty:")));
            let mut options: Vec<String> = Vec::new();
            options.push(label("Hard ", iv.hard_days, "d"));
            options.push(label("Good ", iv.good_days, "d"));
            options.push(label("Easy ", iv.easy_days, "d"));
            form.push(Block::Paragraph(line));
            form.push(Block::OneOf(options));
            proof {
                assert(line.deep_view() =~= seq![
                    ParagraphItemModel::Text("Correct! Choose difficulty:"@),
                ]);
                assert(options.deep_view() =~= correct_options(iv));
                assert(form.deep_view() =~= correct_form(iv));
            }
            (Completion { stage: Stage::Grade, review_time }, form)
        } else {
            let mut line: Vec<ParagraphItem> = Vec::new();
            line.push(ParagraphItem::Text(label("Wrong. Next review in ", iv.again_hours, "h")));
            form.push(Block::Paragraph(line));
            proof {
                assert(line.deep_view() =~= seq![
                    ParagraphItemModel::Text(
                        "Wrong. Next review in "@ + crate::feedback::decimal_of(iv.again_hours as nat)
                            + "h"@,
                    ),
                ]);
                assert(form.deep_view() =~= wrong_form(iv));
            }
            (Completion { stage: Stage::Acknowledge, review_time }, form)
        }
    }

    /// The grade that ends the review, from the response to the form;
    /// `None` where a grade was asked for and the response chose none.
    pub fn continue_completion(&self, completion: Completion, response: &Response) -> (r: Option<
        Quality,
    >)
        ensures
            completion.stage == Stage::Acknowledge ==> r == Some(Quality::Again),
            completion.stage == Stage::Grade ==> match chosen_option(response.deep_view(), 3) {
                Some(i) => r == Some(graded(i)),
                None => r is None,
            },
    {
        match completion.stage {
            Stage::Acknowledge => Some(Quality::Again),
            Stage::Grade => match read_choice(response, 3) {
                Some(i) => {
                    if i == 0 {
                        Some(Quality::Hard)
                    } else if i == 1 {
                        Some(Quality::Good)
                    } else {
                        Some(Quality::Easy)
                    }
                },
                None => None,
            },
        }
    }

    /// Records the grade of a review.
    pub fn finish_completion(&mut self, quality: Quality, review_time: ReviewTime)
        requires
            old(self).level_spec().can_add(review_time),
        ensures
            final(self).id_spec() == old(self).id_spec(),
            final(self).level_spec().history_spec() == old(self).level_spec().after(
                RepetitionContext { quality, review_time },
            ),
            *final(self).level_spec() is Started,
            (*final(self).level_spec())->Started_0.last_quality_spec() == quality,
            (*final(self).level_spec())->Started_0.last_review_spec() == review_time,
    {
        self.level.add_repetition(RepetitionContext { quality, review_time });
    }
}

} // verus!
