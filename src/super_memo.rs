//! The ease model: each task has an ease factor, an interval and a count of
//! successful reviews in a row, updated by the classical recurrence.

use crate::blocks::{copy_blocks, copy_response, eq_response, BlockModel, Blocks, BlocksWithAnswer, Response};
use crate::clock::{add_secs, saturating_sum, SECS_IN_DAY};
use crate::feedback::{can_show, chosen_option, feedback_form, feedback_form_model, read_choice, showable, text};
use crate::task::{answer_matches, CompletionError, Exercise, ResponseModel};
use vstd::prelude::*;

verus! {

/// The ease factor of a new task, in hundredths.
pub const INITIAL_EASE: u32 = 250;

/// The lowest ease factor, in hundredths.
pub const MIN_EASE: u32 = 130;

/// The quality of a response, from 0 (nothing recalled) to 5 (perfect).
#[derive(Clone, Copy, Debug, PartialEq, Eq, Structural)]
pub enum Quality {
    CompleteBlackout,
    IncorrectResponseButCorrectRemembered,
    IncorrectResponseAndSeemedEasyToRecall,
    CorrectResponseRecalledWithSeriousDifficulty,
    CorrectResponseAfterHesitation,
    PerfectResponse,
}

impl Quality {
    pub open spec fn value_spec(self) -> u32 {
        match self {
            Quality::CompleteBlackout => 0,
            Quality::IncorrectResponseButCorrectRemembered => 1,
            Quality::IncorrectResponseAndSeemedEasyToRecall => 2,
            Quality::CorrectResponseRecalledWithSeriousDifficulty => 3,
            Quality::CorrectResponseAfterHesitation => 4,
            Quality::PerfectResponse => 5,
        }
    }

    pub fn value(self) -> (r: u32)
        ensures
            r == self.value_spec(),
    {
        match self {
            Quality::CompleteBlackout => 0,
            Quality::IncorrectResponseButCorrectRemembered => 1,
            Quality::IncorrectResponseAndSeemedEasyToRecall => 2,
            Quality::CorrectResponseRecalledWithSeriousDifficulty => 3,
            Quality::CorrectResponseAfterHesitation => 4,
            Quality::PerfectResponse => 5,
        }
    }
}

/// Ease factor (hundredths), interval (days) and successful reviews in a row.
#[derive(Clone, Copy, Debug, PartialEq, Eq, Structural)]
pub struct EaseState {
    pub ease: u32,
    pub interval_days: u32,
    pub repetitions: u32,
}

/// The state of a task that has no review yet.
pub open spec fn initial_state() -> EaseState {
    EaseState { ease: INITIAL_EASE, interval_days: 0, repetitions: 0 }
}

/// `v` held within `[lo, hi]`.
pub open spec fn clamp(v: int, lo: int, hi: int) -> int {
    if v < lo {
        lo
    } else if v > hi {
        hi
    } else {
        v
    }
}

/// The ease factor after a review of quality `q`:
/// `ease + 0.1 - (5 - q) * (0.08 + (5 - q) * 0.02)`, never below the minimum.
pub open spec fn ease_after(ease: u32, q: u32) -> u32 {
    let m = 5 - q;
    clamp(ease + 10 - m * (8 + m * 2), MIN_EASE as int, u32::MAX as int) as u32
}

/// The interval after a review of quality `q`: one day after a failure and
/// after the first success, six after the second, then the last interval
/// times the ease factor, rounded.
pub open spec fn interval_after(s: EaseState, q: u32) -> u32 {
    if q < 3 || s.repetitions == 0 {
        1
    } else if s.repetitions == 1 {
        6
    } else {
        clamp((s.interval_days * s.ease + 50) / 100, 0, u32::MAX as int) as u32
    }
}

pub open spec fn state_after(s: EaseState, q: u32) -> EaseState {
    EaseState {
        ease: ease_after(s.ease, q),
        interval_days: interval_after(s, q),
        repetitions: if q < 3 {
            0
        } else {
            clamp(s.repetitions + 1, 0, u32::MAX as int) as u32
        },
    }
}

impl EaseState {
    /// The state after a review of quality `q` (at most 5).
    pub fn after(self, q: u32) -> (r: EaseState)
        requires
            q <= 5,
        ensures
            r == state_after(self, q),
            r.ease >= MIN_EASE,
    {
        let m = (5 - q) as i64;
        assert(0 <= m * (8 + m * 2) <= 90) by (nonlinear_arith)
            requires
                0 <= m <= 5,
        ;
        let e = self.ease as i64 + 10 - m * (8 + m * 2);
        let ease = if e < MIN_EASE as i64 {
            MIN_EASE
        } else if e > u32::MAX as i64 {
            u32::MAX
        } else {
            e as u32
        };
        let interval_days = if q < 3 || self.repetitions == 0 {
            1
        } else if self.repetitions == 1 {
            6
        } else {
            assert(self.interval_days as u64 * self.ease as u64 <= u32::MAX as u64 * u32::MAX as u64)
                by (nonlinear_arith);
            let p = (self.interval_days as u64 * self.ease as u64 + 50) / 100;
            if p > u32::MAX as u64 {
                u32::MAX
            } else {
                p as u32
            }
        };
        let repetitions = if q < 3 {
            0
        } else if self.repetitions < u32::MAX {
            self.repetitions + 1
        } else {
            u32::MAX
        };
        EaseState { ease, interval_days, repetitions }
    }
}

#[derive(Clone, Copy, Debug, PartialEq, Eq, Structural)]
pub enum SuperMemoLevel {
    NotStarted,
    Started { state: EaseState, last_review: i64 },
}

impl SuperMemoLevel {
    /// The ease state; a task not started yet has the initial one.
    pub open spec fn state_spec(self) -> EaseState {
        match self {
            SuperMemoLevel::Started { state, .. } => state,
            SuperMemoLevel::NotStarted => initial_state(),
        }
    }

    pub open spec fn next_repetition_spec(self) -> i64 {
        match self {
            SuperMemoLevel::Started { state, last_review } => saturating_sum(
                last_review as int,
                state.interval_days * SECS_IN_DAY,
            ) as i64,
            SuperMemoLevel::NotStarted => 0,
        }
    }

    /// The ease state of the task.
    pub fn state(&self) -> (r: EaseState)
        ensures
            r == self.state_spec(),
    {
        match *self {
            SuperMemoLevel::Started { state, .. } => state,
            SuperMemoLevel::NotStarted => EaseState {
                ease: INITIAL_EASE,
                interval_days: 0,
                repetitions: 0,
            },
        }
    }

    /// Records a review of the given quality at `review_time` (seconds since
    /// the epoch).
    pub fn update(&mut self, review_time: i64, quality: Quality)
        ensures
            *final(self) == (SuperMemoLevel::Started {
                state: state_after(old(self).state_spec(), quality.value_spec()),
                last_review: review_time,
            }),
            final(self).state_spec().ease >= MIN_EASE,
    {
        let state = self.state().after(quality.value());
        *self = SuperMemoLevel::Started { state, last_review: review_time };
    }

    /// When the next review is due: the epoch before the first review, else
    /// the current interval after the last review.
    pub fn next_repetition(&self) -> (r: i64)
        ensures
            r == self.next_repetition_spec(),
    {
        match *self {
            SuperMemoLevel::Started { state, last_review } => add_secs(
                last_review,
                state.interval_days as i64 * SECS_IN_DAY,
            ),
            SuperMemoLevel::NotStarted => 0,
        }
    }
}

/// The seconds from a review at `t` to the next one that the level sets.
pub open spec fn interval_after_review(l: SuperMemoLevel, t: i64) -> int {
    l.next_repetition_spec() - t
}

/// Three perfect reviews of a new task, at `t1 <= t2 <= t3`, lengthen the
/// wait until the next review each time (one day, six days, then sixteen),
/// while the ease factor stays at or above its minimum.
pub proof fn lemma_perfect_reviews_lengthen(t1: i64, t2: i64, t3: i64)
    requires
        0 <= t1 <= t2 <= t3 <= 0x1000_0000_0000_0000,
    ensures
        ({
            let q = Quality::PerfectResponse.value_spec();
            let s1 = state_after(SuperMemoLevel::NotStarted.state_spec(), q);
            let l1 = SuperMemoLevel::Started { state: s1, last_review: t1 };
            let s2 = state_after(l1.state_spec(), q);
            let l2 = SuperMemoLevel::Started { state: s2, last_review: t2 };
            let s3 = state_after(l2.state_spec(), q);
            let l3 = SuperMemoLevel::Started { state: s3, last_review: t3 };
            &&& interval_after_review(l1, t1) < interval_after_review(l2, t2)
            &&& interval_after_review(l2, t2) < interval_after_review(l3, t3)
            &&& s1.ease >= MIN_EASE && s2.ease >= MIN_EASE && s3.ease >= MIN_EASE
            &&& s1.interval_days == 1 && s2.interval_days == 6 && s3.interval_days == 16
        }),
{
    let q = Quality::PerfectResponse.value_spec();
    assert(q == 5);
    assert(ease_after(250, 5) == 260) by {
        assert(0int * (8 + 0int * 2) == 0) by (nonlinear_arith);
    }
    assert(ease_after(260, 5) == 270) by {
        assert(0int * (8 + 0int * 2) == 0) by (nonlinear_arith);
    }
    assert(ease_after(270, 5) == 280) by {
        assert(0int * (8 + 0int * 2) == 0) by (nonlinear_arith);
    }
    let s1 = state_after(initial_state(), q);
    assert(s1 == EaseState { ease: 260, interval_days: 1, repetitions: 1 });
    let s2 = state_after(s1, q);
    assert(s2 == EaseState { ease: 270, interval_days: 6, repetitions: 2 });
    let s3 = state_after(s2, q);
    assert((6 * 270 + 50) / 100 == 16) by (nonlinear_arith);
    assert(s3 == EaseState { ease: 280, interval_days: 16, repetitions: 3 });
}

/// A task of the ease model: an exercise, its answer and its ease state.
#[derive(Debug)]
pub struct WriteAnswer {
    level: SuperMemoLevel,
    input_blocks: Blocks,
    correct_answer: Response,
}

/// Where a review stands: the answer is awaited, or the quality that the
/// user gives it.
#[derive(Clone, Copy, Debug, PartialEq, Eq, Structural)]
pub enum Stage {
    Answer,
    Grade { correct: bool },
}

/// A review in progress, started at `review_time` (seconds since the epoch).
#[derive(Clone, Copy, Debug, PartialEq, Eq, Structural)]
pub struct Completion {
    pub stage: Stage,
    pub review_time: i64,
}

#[derive(Debug)]
pub enum Step {
    Ask(Completion, Blocks),
    Done { quality: Quality, review_time: i64 },
}

pub enum StepModel {
    Ask(Completion, Seq<BlockModel>),
    Done { quality: Quality, review_time: i64 },
}

impl DeepView for Step {
    type V = StepModel;

    open spec fn deep_view(&self) -> StepModel {
        match self {
            Step::Ask(c, b) => StepModel::Ask(*c, b.deep_view()),
            Step::Done { quality, review_time } => StepModel::Done {
                quality: *quality,
                review_time: *review_time,
            },
        }
    }
}

pub open spec fn correct_options() -> Seq<Seq<char>> {
    seq![
        "recalled with serious difficulty"@,
        "correct, but after hesitation"@,
        "perfect response"@,
    ]
}

pub open spec fn wrong_options() -> Seq<Seq<char>> {
    seq![
        "complete blackout"@,
        "incorrect response, but correct remembered"@,
        "incorrect response, but seemed easy to recall"@,
    ]
}

/// The quality of option `i` after a correct or a wrong answer.
pub open spec fn graded(correct: bool, i: nat) -> Quality {
    if correct {
        if i == 0 {
            Quality::CorrectResponseRecalledWithSeriousDifficulty
        } else if i == 1 {
            Quality::CorrectResponseAfterHesitation
        } else {
            Quality::PerfectResponse
        }
    } else {
        if i == 0 {
            Quality::CompleteBlackout
        } else if i == 1 {
            Quality::IncorrectResponseButCorrectRemembered
        } else {
            Quality::IncorrectResponseAndSeemedEasyToRecall
        }
    }
}

/// The next step of a review of `blocks` with the answer `answer`.
pub open spec fn step_spec(
    blocks: Seq<BlockModel>,
    answer: ResponseModel,
    c: Completion,
    resp: ResponseModel,
) -> Option<StepModel> {
    match c.stage {
        Stage::Answer => if !showable(blocks, resp, answer) {
            None
        } else if answer_matches(resp, answer) {
            Some(
                StepModel::Ask(
                    Completion { stage: Stage::Grade { correct: true }, ..c },
                    feedback_form_model(
                        blocks,
                        resp,
                        answer,
                        "All answers correct! Choose difficulty:"@,
                        correct_options(),
                    ),
                ),
            )
        } else {
            Some(
                StepModel::Ask(
                    Completion { stage: Stage::Grade { correct: false }, ..c },
                    feedback_form_model(
                        blocks,
                        resp,
                        answer,
                        "Choose difficulty:"@,
                        wrong_options(),
                    ),
                ),
            )
        },
        Stage::Grade { correct } => match chosen_option(resp, 3) {
            Some(i) => Some(StepModel::Done { quality: graded(correct, i), review_time: c.review_time }),
            None => None,
        },
    }
}

impl WriteAnswer {
    pub closed spec fn level_spec(&self) -> SuperMemoLevel {
        self.level
    }

    pub closed spec fn blocks_spec(&self) -> Seq<BlockModel> {
        self.input_blocks.deep_view()
    }

    pub closed spec fn answer_spec(&self) -> ResponseModel {
        self.correct_answer.deep_view()
    }

    /// A new task, not reviewed yet.
    pub fn new(input_blocks: Blocks, correct_answer: Response) -> (r: WriteAnswer)
        ensures
            r.level_spec() == SuperMemoLevel::NotStarted,
            r.blocks_spec() == input_blocks.deep_view(),
            r.answer_spec() == correct_answer.deep_view(),
    {
        WriteAnswer { level: SuperMemoLevel::NotStarted, input_blocks, correct_answer }
    }

    /// A task read back with its level.
    pub fn restore(level: SuperMemoLevel, input_blocks: Blocks, correct_answer: Response) -> (r:
        WriteAnswer)
        ensures
            r.level_spec() == level,
            r.blocks_spec() == input_blocks.deep_view(),
            r.answer_spec() == correct_answer.deep_view(),
    {
        WriteAnswer { level, input_blocks, correct_answer }
    }

    pub fn level(&self) -> (r: SuperMemoLevel)
        ensures
            r == self.level_spec(),
    {
        self.level
    }

    pub fn next_repetition(&self) -> (r: i64)
        ensures
            r == self.level_spec().next_repetition_spec(),
    {
        self.level.next_repetition()
    }

    /// Starts a review at `review_time`: the exercise is shown.
    pub fn start_completion(&self, review_time: i64) -> (r: (Completion, Blocks))
        ensures
            r.0 == (Completion { stage: Stage::Answer, review_time }),
            r.1.deep_view() == self.blocks_spec(),
    {
        (Completion { stage: Stage::Answer, review_time }, copy_blocks(&self.input_blocks))
    }

    /// Takes a review one step further with the response to the last form;
    /// the task is not changed.
    pub fn continue_completion(&self, completion: Completion, response: Response) -> (r: Result<
        Step,
        CompletionError,
    >)
        ensures
            r is Ok <==> step_spec(
                self.blocks_spec(),
                self.answer_spec(),
                completion,
                response.deep_view(),
            ) is Some,
            r is Ok ==> r->Ok_0.deep_view() == step_spec(
                self.blocks_spec(),
                self.answer_spec(),
                completion,
                response.deep_view(),
            )->Some_0,
    {
        match completion.stage {
            Stage::Answer => {
                if !can_show(&self.input_blocks, &response, &self.correct_answer) {
                    return Err(CompletionError::MalformedResponse);
                }
                let correct = eq_response(&response, &self.correct_answer, true, false);
                let mut options: Vec<String> = Vec::new();
                let directive;
                if correct {
                    options.push(text("recalled with serious difficulty"));
                    options.push(text("correct, but after hesitation"));
                    options.push(text("perfect response"));
                    directive = text("All answers correct! Choose difficulty:");
                    assert(options.deep_view() =~= correct_options());
                } else {
                    options.push(text("complete blackout"));
                    options.push(text("incorrect response, but correct remembered"));
                    options.push(text("incorrect response, but seemed easy to recall"));
                    directive = text("Choose difficulty:");
                    assert(options.deep_view() =~= wrong_options());
                }
                let form = feedback_form(
                    &self.input_blocks,
                    &response,
                    &self.correct_answer,
                    directive,
                    options,
                );
                Ok(
                    Step::Ask(
                        Completion {
                            stage: Stage::Grade { correct },
                            review_time: completion.review_time,
                        },
                        form,
                    ),
                )
            },
            Stage::Grade { correct } => match read_choice(&response, 3) {
                Some(i) => {
                    let quality = if correct {
                        if i == 0 {
                            Quality::CorrectResponseRecalledWithSeriousDifficulty
                        } else if i == 1 {
                            Quality::CorrectResponseAfterHesitation
                        } else {
                            Quality::PerfectResponse
                        }
                    } else {
                        if i == 0 {
                            Quality::CompleteBlackout
                        } else if i == 1 {
                            Quality::IncorrectResponseButCorrectRemembered
                        } else {
                            Quality::IncorrectResponseAndSeemedEasyToRecall
                        }
                    };
                    Ok(Step::Done { quality, review_time: completion.review_time })
                },
                None => Err(CompletionError::MalformedResponse),
            },
        }
    }

    /// Records the result of a review in the ease state.
    pub fn finish_completion(&mut self, quality: Quality, review_time: i64)
        ensures
            final(self).level_spec() == (SuperMemoLevel::Started {
                state: state_after(old(self).level_spec().state_spec(), quality.value_spec()),
                last_review: review_time,
            }),
            final(self).blocks_spec() == old(self).blocks_spec(),
            final(self).answer_spec() == old(self).answer_spec(),
    {
        self.level.update(review_time, quality);
    }
}

impl Exercise for WriteAnswer {
    open spec fn exercise_blocks(&self) -> Seq<BlockModel> {
        self.blocks_spec()
    }

    open spec fn exercise_answer(&self) -> ResponseModel {
        self.answer_spec()
    }

    open spec fn is_fresh(&self) -> bool {
        self.level_spec() == SuperMemoLevel::NotStarted
    }

    fn from_blocks(input: BlocksWithAnswer) -> (r: WriteAnswer) {
        WriteAnswer::new(input.blocks, input.answer)
    }

    fn get_blocks(&self) -> (r: BlocksWithAnswer) {
        BlocksWithAnswer {
            blocks: copy_blocks(&self.input_blocks),
            answer: copy_response(&self.correct_answer),
        }
    }
}

} // verus!
