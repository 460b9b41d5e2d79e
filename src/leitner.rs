//! The box model: a task sits in a numbered box; a correct answer moves it up
//! one box, a wrong one back to the first, and each box has a fixed interval.

use crate::blocks::{
    copy_blocks, copy_response, eq_response, Block, BlockModel, Blocks, BlocksWithAnswer,
    ParagraphItem, ParagraphItemModel, Response,
};
use crate::clock::{add_secs, saturating_sum, SECS_IN_DAY};
use crate::feedback::{answer_form, answer_form_model, can_show, showable, text};
use crate::task::{answer_matches, CompletionError, Exercise, ResponseModel};
use vstd::prelude::*;

verus! {

/// The highest box.
pub const TOP_BOX: u32 = 6;

/// The days between reviews of a task in box `b`: one day in the first box,
/// doubling with each box up to the top one.
pub open spec fn box_interval_days(b: u32) -> i64 {
    if b == 0 {
        1
    } else if b == 1 {
        2
    } else if b == 2 {
        4
    } else if b == 3 {
        8
    } else if b == 4 {
        16
    } else if b == 5 {
        32
    } else {
        64
    }
}

/// The box after an answer.
pub open spec fn next_box(b: u32, correct: bool) -> u32 {
    if !correct {
        0
    } else if b < TOP_BOX {
        (b + 1) as u32
    } else {
        TOP_BOX
    }
}

/// The days between reviews of a task in a box.
pub fn interval_days(b: u32) -> (r: i64)
    ensures
        r == box_interval_days(b),
        1 <= r <= 64,
{
    if b == 0 {
        1
    } else if b == 1 {
        2
    } else if b == 2 {
        4
    } else if b == 3 {
        8
    } else if b == 4 {
        16
    } else if b == 5 {
        32
    } else {
        64
    }
}

/// A box holds its tasks longer than the box below it.
pub proof fn lemma_higher_box_longer_interval(b: u32)
    requires
        b < TOP_BOX,
    ensures
        box_interval_days((b + 1) as u32) > box_interval_days(b),
{
}

#[derive(Clone, Copy, Debug, PartialEq, Eq, Structural)]
pub enum LeitnerLevel {
    NotStarted,
    Started { box_index: u32, last_review: i64 },
}

impl LeitnerLevel {
    /// The box of the task; a task not started yet counts as in the first.
    pub open spec fn box_spec(self) -> u32 {
        match self {
            LeitnerLevel::Started { box_index, .. } => box_index,
            LeitnerLevel::NotStarted => 0,
        }
    }

    pub open spec fn next_repetition_spec(self) -> i64 {
        match self {
            LeitnerLevel::Started { box_index, last_review } => saturating_sum(
                last_review as int,
                box_interval_days(box_index) * SECS_IN_DAY,
            ) as i64,
            LeitnerLevel::NotStarted => 0,
        }
    }

    /// Records an answer given at `review_time` (seconds since the epoch).
    pub fn update(&mut self, review_time: i64, correct: bool)
        ensures
            *final(self) == (LeitnerLevel::Started {
                box_index: next_box(old(self).box_spec(), correct),
                last_review: review_time,
            }),
    {
        let b = match *self {
            LeitnerLevel::Started { box_index, .. } => box_index,
            LeitnerLevel::NotStarted => 0,
        };
        let box_index = if !correct {
            0
        } else if b < TOP_BOX {
            b + 1
        } else {
            TOP_BOX
        };
        *self = LeitnerLevel::Started { box_index, last_review: review_time };
    }

    /// When the next review is due: the epoch before the first review, else
    /// the interval of the task's box after the last review.
    pub fn next_repetition(&self) -> (r: i64)
        ensures
            r == self.next_repetition_spec(),
    {
        match *self {
            LeitnerLevel::Started { box_index, last_review } => add_secs(
                last_review,
                interval_days(box_index) * SECS_IN_DAY,
            ),
            LeitnerLevel::NotStarted => 0,
        }
    }
}

/// A task of the box model: an exercise, its answer and its box.
#[derive(Debug)]
pub struct WriteAnswer {
    level: LeitnerLevel,
    input_blocks: Blocks,
    correct_answer: Response,
}

/// Where a review stands: the answer is awaited, or the acknowledgement of
/// the feedback on it.
#[derive(Clone, Copy, Debug, PartialEq, Eq, Structural)]
pub enum Stage {
    Answer,
    Acknowledge { correct: bool },
}

/// A review in progress, started at `review_time` (seconds since the epoch).
#[derive(Clone, Copy, Debug, PartialEq, Eq, Structural)]
pub struct Completion {
    pub stage: Stage,
    pub review_time: i64,
}

#[derive(Debug)]
pub enum Step {
    Ask(Completion, Blocks),
    Done { correct: bool, review_time: i64 },
}

pub enum StepModel {
    Ask(Completion, Seq<BlockModel>),
    Done { correct: bool, review_time: i64 },
}

impl DeepView for Step {
    type V = StepModel;

    open spec fn deep_view(&self) -> StepModel {
        match self {
            Step::Ask(c, b) => StepModel::Ask(*c, b.deep_view()),
            Step::Done { correct, review_time } => StepModel::Done {
                correct: *correct,
                review_time: *review_time,
            },
        }
    }
}

/// The feedback on a correct answer.
pub open spec fn correct_feedback() -> Seq<BlockModel> {
    seq![
        BlockModel::Paragraph(seq![ParagraphItemModel::Text("All answers correct!"@)]),
        BlockModel::OneOf(seq!["OK"@]),
    ]
}

/// The next step of a review of `blocks` with the answer `answer`.
pub open spec fn step_spec(
    blocks: Seq<BlockModel>,
    answer: ResponseModel,
    c: Completion,
    resp: ResponseModel,
) -> Option<StepModel> {
    match c.stage {
        Stage::Answer => if answer_matches(resp, answer) {
            Some(
                StepModel::Ask(
                    Completion { stage: Stage::Acknowledge { correct: true }, ..c },
                    correct_feedback(),
                ),
            )
        } else if showable(blocks, resp, answer) {
            Some(
                StepModel::Ask(
                    Completion { stage: Stage::Acknowledge { correct: false }, ..c },
                    answer_form_model(blocks, resp, answer, seq!["OK"@]),
                ),
            )
        } else {
            None
        },
        Stage::Acknowledge { correct } => Some(
            StepModel::Done { correct, review_time: c.review_time },
        ),
    }
}

impl WriteAnswer {
    pub closed spec fn level_spec(&self) -> LeitnerLevel {
        self.level
    }

    pub closed spec fn blocks_spec(&self) -> Seq<BlockModel> {
        self.input_blocks.deep_view()
    }

    pub closed spec fn answer_spec(&self) -> ResponseModel {
        self.correct_answer.deep_view()
    }

    /// A new task, in no box yet.
    pub fn new(input_blocks: Blocks, correct_answer: Response) -> (r: WriteAnswer)
        ensures
            r.level_spec() == LeitnerLevel::NotStarted,
            r.blocks_spec() == input_blocks.deep_view(),
            r.answer_spec() == correct_answer.deep_view(),
    {
        WriteAnswer { level: LeitnerLevel::NotStarted, input_blocks, correct_answer }
    }

    /// A task read back with its level.
    pub fn restore(level: LeitnerLevel, input_blocks: Blocks, correct_answer: Response) -> (r:
        WriteAnswer)
        ensures
            r.level_spec() == level,
            r.blocks_spec() == input_blocks.deep_view(),
            r.answer_spec() == correct_answer.deep_view(),
    {
        WriteAnswer { level, input_blocks, correct_answer }
    }

    pub fn level(&self) -> (r: LeitnerLevel)
        ensures
            r == self.level_spec(),
    {
        self.level
    }

    pub fn next_repetition(&self) -> (r: i64)
        ensures
            r == self.level_spec().next_repetition_spec(),
    {
        self.level.next_repetition()
    }

    /// Starts a review at `review_time`: the exercise is shown.
    pub fn start_completion(&self, review_time: i64) -> (r: (Completion, Blocks))
        ensures
            r.0 == (Completion { stage: Stage::Answer, review_time }),
            r.1.deep_view() == self.blocks_spec(),
    {
        (Completion { stage: Stage::Answer, review_time }, copy_blocks(&self.input_blocks))
    }

    /// Takes a review one step further with the response to the last form;
    /// the task is not changed.
    pub fn continue_completion(&self, completion: Completion, response: Response) -> (r: Result<
        Step,
        CompletionError,
    >)
        ensures
            r is Ok <==> step_spec(
                self.blocks_spec(),
                self.answer_spec(),
                completion,
                response.deep_view(),
            ) is Some,
            r is Ok ==> r->Ok_0.deep_view() == step_spec(
                self.blocks_spec(),
                self.answer_spec(),
                completion,
                response.deep_view(),
            )->Some_0,
    {
        match completion.stage {
            Stage::Answer => {
                if eq_response(&response, &self.correct_answer, true, false) {
                    let mut line: Vec<ParagraphItem> = Vec::new();
                    line.push(ParagraphItem::Text(text("All answers correct!")));
                    let mut ok: Vec<String> = Vec::new();
                    ok.push(text("OK"));
                    let mut form: Blocks = Vec::new();
                    form.push(Block::Paragraph(line));
                    form.push(Block::OneOf(ok));
                    proof {
                        assert(line.deep_view() =~= seq![
                            ParagraphItemModel::Text("All answers correct!"@),
                        ]);
                        assert(ok.deep_view() =~= seq!["OK"@]);
                        assert(form.deep_view() =~= correct_feedback());
                    }
                    Ok(
                        Step::Ask(
                            Completion {
                                stage: Stage::Acknowledge { correct: true },
                                review_time: completion.review_time,
                            },
                            form,
                        ),
                    )
                } else {
                    if !can_show(&self.input_blocks, &response, &self.correct_answer) {
                        return Err(CompletionError::MalformedResponse);
                    }
                    let mut ok: Vec<String> = Vec::new();
                    ok.push(text("OK"));
                    proof {
                        assert(ok.deep_view() =~= seq!["OK"@]);
                    }
                    let form = answer_form(&self.input_blocks, &response, &self.correct_answer, ok);
                    Ok(
                        Step::Ask(
                            Completion {
                                stage: Stage::Acknowledge { correct: false },
                                review_time: completion.review_time,
                            },
                            form,
                        ),
                    )
                }
            },
            Stage::Acknowledge { correct } => Ok(
                Step::Done { correct, review_time: completion.review_time },
            ),
        }
    }

    /// Records the result of a review: the task moves up a box, or back to
    /// the first.
    pub fn finish_completion(&mut self, correct: bool, review_time: i64)
        ensures
            final(self).level_spec() == (LeitnerLevel::Started {
                box_index: next_box(old(self).level_spec().box_spec(), correct),
                last_review: review_time,
            }),
            final(self).blocks_spec() == old(self).blocks_spec(),
            final(self).answer_spec() == old(self).answer_spec(),
    {
        self.level.update(review_time, correct);
    }
}

impl Exercise for WriteAnswer {
    open spec fn exercise_blocks(&self) -> Seq<BlockModel> {
        self.blocks_spec()
    }

    open spec fn exercise_answer(&self) -> ResponseModel {
        self.answer_spec()
    }

    open spec fn is_fresh(&self) -> bool {
        self.level_spec() == LeitnerLevel::NotStarted
    }

    fn from_blocks(input: BlocksWithAnswer) -> (r: WriteAnswer) {
        WriteAnswer::new(input.blocks, input.answer)
    }

    fn get_blocks(&self) -> (r: BlocksWithAnswer) {
        BlocksWithAnswer {
            blocks: copy_blocks(&self.input_blocks),
            answer: copy_response(&self.correct_answer),
        }
    }
}

} // verus!
