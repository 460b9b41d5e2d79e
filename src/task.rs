//! A task under the memory model: an exercise, its correct answers and its
//! level, and the protocol that takes it through one review.

use crate::blocks::{
    copy_blocks, copy_response, responses_match, BlockModel, Blocks, BlocksWithAnswer, Response,
    eq_response,
};
use crate::clock::ReviewTime;
use crate::feedback::{
    can_show, chosen_option, decimal_of, feedback_form, feedback_form_model, label, read_choice,
    showable, text,
};
use crate::level::{Level, Quality, RepetitionContext};
use vstd::prelude::*;

verus! {

/// A response as a value.
pub type ResponseModel = Seq<Seq<Seq<char>>>;

/// The user's answer matches an accepted one: equal value by value, once
/// trimmed.
pub open spec fn answer_matches(accepted: ResponseModel, user: ResponseModel) -> bool {
    responses_match(accepted, user, true, false)
}

/// How the user's answer compares with the accepted ones.
#[derive(Clone, Copy, Debug, PartialEq, Eq, Structural)]
pub enum Correctness {
    Wrong,
    DefaultCorrect,
    OtherCorrect { index: usize },
}

impl Correctness {
    pub fn is_correct(&self) -> (r: bool)
        ensures
            r == !(*self is Wrong),
    {
        match self {
            Correctness::Wrong => false,
            Correctness::DefaultCorrect | Correctness::OtherCorrect { .. } => true,
        }
    }
}

/// `index` is the first of the other accepted answers that matches.
pub open spec fn is_first_match(others: Seq<ResponseModel>, user: ResponseModel, index: int) -> bool {
    &&& 0 <= index < others.len()
    &&& answer_matches(others[index], user)
    &&& forall|j: int| 0 <= j < index ==> !#[trigger] answer_matches(others[j], user)
}

/// The correctness of an answer: the canonical answer first, then the first
/// other accepted answer that matches.
pub open spec fn correctness_spec(
    answer: ResponseModel,
    others: Seq<ResponseModel>,
    user: ResponseModel,
) -> Correctness {
    if answer_matches(answer, user) {
        Correctness::DefaultCorrect
    } else if exists|i: int| is_first_match(others, user, i) {
        Correctness::OtherCorrect {
            index: (choose|i: int| is_first_match(others, user, i)) as usize,
        }
    } else {
        Correctness::Wrong
    }
}

/// The intervals that the memory model previews for each grade.
#[derive(Clone, Copy, Debug, PartialEq, Eq, Structural)]
pub struct NextIntervals {
    pub again_hours: u64,
    pub hard_days: u64,
    pub good_days: u64,
    pub easy_days: u64,
}

pub open spec fn correct_directive() -> Seq<char> {
    "All answers correct! Choose difficulty:"@
}

pub open spec fn wrong_directive() -> Seq<char> {
    "Your answer is wrong."@
}

/// The grades offered for a correct answer, with their intervals.
pub open spec fn correct_options(iv: NextIntervals) -> Seq<Seq<char>> {
    seq![
        "Hard "@ + decimal_of(iv.hard_days as nat) + "d"@,
        "Good "@ + decimal_of(iv.good_days as nat) + "d"@,
        "Easy "@ + decimal_of(iv.easy_days as nat) + "d"@,
    ]
}

/// The choices offered for a wrong answer.
pub open spec fn wrong_options(iv: NextIntervals) -> Seq<Seq<char>> {
    seq!["OK "@ + decimal_of(iv.again_hours as nat) + "h"@, "It is actually correct"@]
}

/// The grade of option `i` of those offered for a correct answer.
pub open spec fn graded(i: nat) -> Quality {
    if i == 0 {
        Quality::Hard
    } else if i == 1 {
        Quality::Good
    } else {
        Quality::Easy
    }
}

/// Where a review stands.
#[derive(Debug)]
pub enum Stage {
    /// The exercise is shown; the answer is awaited.
    Answer,
    /// The answer was correct (or declared so, `accepted`); a grade is awaited.
    Grade { user_answer: Response, accepted: bool },
    /// The answer was wrong; awaited: agreement, or a claim that it is correct.
    WrongAnswer { user_answer: Response },
}

pub enum StageModel {
    Answer,
    Grade { user_answer: ResponseModel, accepted: bool },
    WrongAnswer { user_answer: ResponseModel },
}

impl DeepView for Stage {
    type V = StageModel;

    open spec fn deep_view(&self) -> StageModel {
        match self {
            Stage::Answer => StageModel::Answer,
            Stage::Grade { user_answer, accepted } => StageModel::Grade {
                user_answer: user_answer.deep_view(),
                accepted: *accepted,
            },
            Stage::WrongAnswer { user_answer } => StageModel::WrongAnswer {
                user_answer: user_answer.deep_view(),
            },
        }
    }
}

/// A review in progress: its stage, when it started, and the intervals to
/// offer.
#[derive(Debug)]
pub struct Completion {
    pub stage: Stage,
    pub review_time: ReviewTime,
    pub intervals: NextIntervals,
}

pub struct CompletionModel {
    pub stage: StageModel,
    pub review_time: ReviewTime,
    pub intervals: NextIntervals,
}

impl DeepView for Completion {
    type V = CompletionModel;

    open spec fn deep_view(&self) -> CompletionModel {
        CompletionModel {
            stage: self.stage.deep_view(),
            review_time: self.review_time,
            intervals: self.intervals,
        }
    }
}

/// The result of a review: the grade, an answer to accept from now on, if
/// the user declared one correct, and the moment of the review.
#[derive(Debug)]
pub struct Outcome {
    pub quality: Quality,
    pub accepted_answer: Option<Response>,
    pub review_time: ReviewTime,
}

pub struct OutcomeModel {
    pub quality: Quality,
    pub accepted_answer: Option<ResponseModel>,
    pub review_time: ReviewTime,
}

impl DeepView for Outcome {
    type V = OutcomeModel;

    open spec fn deep_view(&self) -> OutcomeModel {
        OutcomeModel {
            quality: self.quality,
            accepted_answer: match &self.accepted_answer {
                Some(a) => Some(a.deep_view()),
                None => None,
            },
            review_time: self.review_time,
        }
    }
}

/// What a review does next: show a form and await the response, or end.
#[derive(Debug)]
pub enum Step {
    Ask(Completion, Blocks),
    Done(Outcome),
}

pub enum StepModel {
    Ask(CompletionModel, Seq<BlockModel>),
    Done(OutcomeModel),
}

impl DeepView for Step {
    type V = StepModel;

    open spec fn deep_view(&self) -> StepModel {
        match self {
            Step::Ask(c, b) => StepModel::Ask(c.deep_view(), b.deep_view()),
            Step::Done(o) => StepModel::Done(o.deep_view()),
        }
    }
}

/// A response that the review cannot read: its shape does not fit the form.
#[derive(Clone, Copy, Debug, PartialEq, Eq, Structural)]
pub enum CompletionError {
    MalformedResponse,
}

pub open spec fn ask(
    stage: StageModel,
    c: CompletionModel,
    blocks: Seq<BlockModel>,
) -> Option<StepModel> {
    Some(
        StepModel::Ask(
            CompletionModel { stage, review_time: c.review_time, intervals: c.intervals },
            blocks,
        ),
    )
}

/// The next step of a review of the exercise `blocks` with the canonical
/// answer `answer` and the other accepted ones `others`, in the state `c`,
/// on the response `resp`; `None` where the response cannot be read.
pub open spec fn step_spec(
    blocks: Seq<BlockModel>,
    answer: ResponseModel,
    others: Seq<ResponseModel>,
    c: CompletionModel,
    resp: ResponseModel,
) -> Option<StepModel> {
    match c.stage {
        StageModel::Answer => {
            let corr = correctness_spec(answer, others, resp);
            if corr is Wrong {
                if showable(blocks, resp, answer) {
                    ask(
                        StageModel::WrongAnswer { user_answer: resp },
                        c,
                        feedback_form_model(
                            blocks,
                            resp,
                            answer,
                            wrong_directive(),
                            wrong_options(c.intervals),
                        ),
                    )
                } else {
                    None
                }
            } else {
                let shown = match corr {
                    Correctness::OtherCorrect { index } => others[index as int],
                    _ => answer,
                };
                if showable(blocks, resp, shown) {
                    ask(
                        StageModel::Grade { user_answer: resp, accepted: false },
                        c,
                        feedback_form_model(
                            blocks,
                            resp,
                            shown,
                            correct_directive(),
                            correct_options(c.intervals),
                        ),
                    )
                } else {
                    None
                }
            }
        },
        StageModel::Grade { user_answer, accepted } => match chosen_option(resp, 3) {
            Some(i) => Some(
                StepModel::Done(
                    OutcomeModel {
                        quality: graded(i),
                        accepted_answer: if accepted {
                            Some(user_answer)
                        } else {
                            None
                        },
                        review_time: c.review_time,
                    },
                ),
            ),
            None => None,
        },
        StageModel::WrongAnswer { user_answer } => match chosen_option(resp, 2) {
            Some(i) => if i == 0 {
                Some(
                    StepModel::Done(
                        OutcomeModel {
                            quality: Quality::Again,
                            accepted_answer: None,
                            review_time: c.review_time,
                        },
                    ),
                )
            } else if showable(blocks, user_answer, user_answer) {
                ask(
                    StageModel::Grade { user_answer, accepted: true },
                    c,
                    feedback_form_model(
                        blocks,
                        user_answer,
                        user_answer,
                        correct_directive(),
                        correct_options(c.intervals),
                    ),
                )
            } else {
                None
            },
            None => None,
        },
    }
}

/// An exercise with its canonical answer, from which a task can be made
/// under any policy.
pub trait Exercise: Sized {
    spec fn exercise_blocks(&self) -> Seq<BlockModel>;

    spec fn exercise_answer(&self) -> ResponseModel;

    /// The task has no review yet.
    spec fn is_fresh(&self) -> bool;

    /// A new task, not started yet, for this exercise and answer.
    fn from_blocks(input: BlocksWithAnswer) -> (r: Self)
        ensures
            r.is_fresh(),
            r.exercise_blocks() == input.blocks.deep_view(),
            r.exercise_answer() == input.answer.deep_view(),
    ;

    /// The exercise and its canonical answer.
    fn get_blocks(&self) -> (r: BlocksWithAnswer)
        ensures
            r.blocks.deep_view() == self.exercise_blocks(),
            r.answer.deep_view() == self.exercise_answer(),
    ;
}

/// A task of the memory model.
#[derive(Debug)]
pub struct Task {
    level: Level,
    input_blocks: Blocks,
    correct_answer: Response,
    other_answers: Vec<Response>,
}

impl Task {
    pub closed spec fn level_spec(&self) -> &Level {
        &self.level
    }

    pub closed spec fn blocks_spec(&self) -> Seq<BlockModel> {
        self.input_blocks.deep_view()
    }

    pub closed spec fn answer_spec(&self) -> ResponseModel {
        self.correct_answer.deep_view()
    }

    pub closed spec fn others_spec(&self) -> Seq<ResponseModel> {
        self.other_answers.deep_view()
    }

    /// A new task, not started yet.
    pub fn new(input_blocks: Blocks, correct_answer: Response, other_answers: Vec<Response>) -> (r:
        Task)
        ensures
            *r.level_spec() is NotStarted,
            r.blocks_spec() == input_blocks.deep_view(),
            r.answer_spec() == correct_answer.deep_view(),
            r.others_spec() == other_answers.deep_view(),
    {
        Task { level: Level::NotStarted, input_blocks, correct_answer, other_answers }
    }

    /// A task read back with its level.
    pub fn restore(
        level: Level,
        input_blocks: Blocks,
        correct_answer: Response,
        other_answers: Vec<Response>,
    ) -> (r: Task)
        ensures
            *r.level_spec() == level,
            r.blocks_spec() == input_blocks.deep_view(),
            r.answer_spec() == correct_answer.deep_view(),
            r.others_spec() == other_answers.deep_view(),
    {
        Task { level, input_blocks, correct_answer, other_answers }
    }

    pub fn level(&self) -> (r: &Level)
        ensures
            r == self.level_spec(),
    {
        &self.level
    }

    pub fn other_answers(&self) -> (r: &Vec<Response>)
        ensures
            r.deep_view() == self.others_spec(),
    {
        &self.other_answers
    }

    /// When the task is next due, for an interval of `interval_secs` that the
    /// memory model gives for the current level: at once before the first
    /// review.
    pub fn next_repetition(&self, interval_secs: i64) -> (r: i64)
        requires
            interval_secs >= 0,
        ensures
            r == self.level_spec().next_repetition_spec(interval_secs),
    {
        self.level.get_next_repetition(interval_secs)
    }

    /// How the user's answer compares with the accepted ones.
    pub fn correctness(&self, user_answer: &Response) -> (r: Correctness)
        ensures
            r == correctness_spec(self.answer_spec(), self.others_spec(), user_answer.deep_view()),
    {
        let ghost user = user_answer.deep_view();
        let ghost others = self.others_spec();
        if eq_response(&self.correct_answer, user_answer, true, false) {
            return Correctness::DefaultCorrect;
        }
        let mut index: usize = 0;
        while index < self.other_answers.len()
            invariant
                index <= self.other_answers.len(),
                others == self.other_answers.deep_view(),
                user == user_answer.deep_view(),
                !answer_matches(self.answer_spec(), user),
                forall|j: int| 0 <= j < index ==> !#[trigger] answer_matches(others[j], user),
            decreases self.other_answers.len() - index,
        {
            if eq_response(&self.other_answers[index], user_answer, true, false) {
                assert(is_first_match(others, user, index as int));
                assert forall|k: int| is_first_match(others, user, k) implies k == index by {
                    if k < index {
                        assert(!answer_matches(others[k], user));
                    }
                    if k > index {
                        assert(!answer_matches(others[index as int], user));
                    }
                }
                let ghost c = choose|i: int| is_first_match(others, user, i);
                assert(is_first_match(others, user, c));
                assert(c == index);
                return Correctness::OtherCorrect { index };
            }
            index += 1;
        }
        assert(!exists|i: int| is_first_match(others, user, i));
        Correctness::Wrong
    }

    /// Starts a review at `review_time`: the exercise is shown.
    pub fn start_completion(&self, review_time: ReviewTime, intervals: NextIntervals) -> (r: (
        Completion,
        Blocks,
    ))
        ensures
            r.0.deep_view() == (CompletionModel {
                stage: StageModel::Answer,
                review_time,
                intervals,
            }),
            r.1.deep_view() == self.blocks_spec(),
    {
        (
            Completion { stage: Stage::Answer, review_time, intervals },
            copy_blocks(&self.input_blocks),
        )
    }

    fn correct_feedback(&self, user_answer: &Response, shown: &Response, iv: NextIntervals) -> (r:
        Blocks)
        requires
            showable(self.blocks_spec(), user_answer.deep_view(), shown.deep_view()),
        ensures
            r.deep_view() == feedback_form_model(
                self.blocks_spec(),
                user_answer.deep_view(),
                shown.deep_view(),
                correct_directive(),
                correct_options(iv),
            ),
    {
        let mut options: Vec<String> = Vec::new();
        options.push(label("Hard ", iv.hard_days, "d"));
        options.push(label("Good ", iv.good_days, "d"));
        options.push(label("Easy ", iv.easy_days, "d"));
        assert(options.deep_view() =~= correct_options(iv));
        feedback_form(
            &self.input_blocks,
            user_answer,
            shown,
            text("All answers correct! Choose difficulty:"),
            options,
        )
    }

    fn wrong_feedback(&self, user_answer: &Response, iv: NextIntervals) -> (r: Blocks)
        requires
            showable(self.blocks_spec(), user_answer.deep_view(), self.answer_spec()),
        ensures
            r.deep_view() == feedback_form_model(
                self.blocks_spec(),
                user_answer.deep_view(),
                self.answer_spec(),
                wrong_directive(),
                wrong_options(iv),
            ),
    {
        let mut options: Vec<String> = Vec::new();
        options.push(label("OK ", iv.again_hours, "h"));
        options.push(text("It is actually correct"));
        assert(options.deep_view() =~= wrong_options(iv));
        feedback_form(
            &self.input_blocks,
            user_answer,
            &self.correct_answer,
            text("Your answer is wrong."),
            options,
        )
    }

    /// Takes a review one step further with the response to the last form.
    /// The task itself is not changed: see [`Task::finish_completion`].
    pub fn continue_completion(&self, completion: Completion, response: Response) -> (r: Result<
        Step,
        CompletionError,
    >)
        ensures
            r is Ok <==> step_spec(
                self.blocks_spec(),
                self.answer_spec(),
                self.others_spec(),
                completion.deep_view(),
                response.deep_view(),
            ) is Some,
            r is Ok ==> r->Ok_0.deep_view() == step_spec(
                self.blocks_spec(),
                self.answer_spec(),
                self.others_spec(),
                completion.deep_view(),
                response.deep_view(),
            )->Some_0,
    {
        let Completion { stage, review_time, intervals } = completion;
        match stage {
            Stage::Answer => {
                let corr = self.correctness(&response);
                match corr {
                    Correctness::Wrong => {
                        if !can_show(&self.input_blocks, &response, &self.correct_answer) {
                            return Err(CompletionError::MalformedResponse);
                        }
                        let form = self.wrong_feedback(&response, intervals);
                        Ok(
                            Step::Ask(
                                Completion {
                                    stage: Stage::WrongAnswer { user_answer: response },
                                    review_time,
                                    intervals,
                                },
                                form,
                            ),
                        )
                    },
                    Correctness::DefaultCorrect => {
                        if !can_show(&self.input_blocks, &response, &self.correct_answer) {
                            return Err(CompletionError::MalformedResponse);
                        }
                        let form = self.correct_feedback(&response, &self.correct_answer, intervals);
                        Ok(
                            Step::Ask(
                                Completion {
                                    stage: Stage::Grade { user_answer: response, accepted: false },
                                    review_time,
                                    intervals,
                                },
                                form,
                            ),
                        )
                    },
                    Correctness::OtherCorrect { index } => {
                        let shown = &self.other_answers[index];
                        if !can_show(&self.input_blocks, &response, shown) {
                            return Err(CompletionError::MalformedResponse);
                        }
                        let form = self.correct_feedback(&response, shown, intervals);
                        Ok(
                            Step::Ask(
                                Completion {
                                    stage: Stage::Grade { user_answer: response, accepted: false },
                                    review_time,
                                    intervals,
                                },
                                form,
                            ),
                        )
                    },
                }
            },
            Stage::Grade { user_answer, accepted } => {
                match read_choice(&response, 3) {
                    Some(i) => {
                        let quality = if i == 0 {
                            Quality::Hard
                        } else if i == 1 {
                            Quality::Good
                        } else {
                            Quality::Easy
                        };
                        let accepted_answer = if accepted {
                            Some(user_answer)
                        } else {
                            None
                        };
                        Ok(Step::Done(Outcome { quality, accepted_answer, review_time }))
                    },
                    None => Err(CompletionError::MalformedResponse),
                }
            },
            Stage::WrongAnswer { user_answer } => {
                match read_choice(&response, 2) {
                    Some(i) => {
                        if i == 0 {
                            Ok(
                                Step::Done(
                                    Outcome {
                                        quality: Quality::Again,
                                        accepted_answer: None,
                                        review_time,
                                    },
                                ),
                            )
                        } else {
                            if !can_show(&self.input_blocks, &user_answer, &user_answer) {
                                return Err(CompletionError::MalformedResponse);
                            }
                            let form = self.correct_feedback(&user_answer, &user_answer, intervals);
                            Ok(
                                Step::Ask(
                                    Completion {
                                        stage: Stage::Grade { user_answer, accepted: true },
                                        review_time,
                                        intervals,
                                    },
                                    form,
                                ),
                            )
                        }
                    },
                    None => Err(CompletionError::MalformedResponse),
                }
            },
        }
    }

    /// Records the result of a review: the answer declared correct, if any,
    /// joins the accepted ones, and the grade joins the level's history.
    pub fn finish_completion(&mut self, outcome: Outcome)
        requires
            old(self).level_spec().can_add(outcome.review_time),
        ensures
            final(self).blocks_spec() == old(self).blocks_spec(),
            final(self).answer_spec() == old(self).answer_spec(),
            final(self).others_spec() == match outcome.deep_view().accepted_answer {
                Some(a) => old(self).others_spec().push(a),
                None => old(self).others_spec(),
            },
            final(self).level_spec().history_spec() == old(self).level_spec().after(
                RepetitionContext { quality: outcome.quality, review_time: outcome.review_time },
            ),
            *final(self).level_spec() is Started,
            (*final(self).level_spec())->Started_0.last_quality_spec() == outcome.quality,
            (*final(self).level_spec())->Started_0.last_review_spec() == outcome.review_time,
            old(self).level_spec().wf() ==> final(self).level_spec().wf(),
    {
        let Outcome { quality, accepted_answer, review_time } = outcome;
        match accepted_answer {
            Some(a) => {
                let ghost before = self.other_answers.deep_view();
                let ghost av = a.deep_view();
                self.other_answers.push(a);
                assert(self.other_answers.deep_view() =~= before.push(av));
            },
            None => {},
        }
        self.level.add_repetition(RepetitionContext { quality, review_time });
    }
}

impl Exercise for Task {
    open spec fn exercise_blocks(&self) -> Seq<BlockModel> {
        self.blocks_spec()
    }

    open spec fn exercise_answer(&self) -> ResponseModel {
        self.answer_spec()
    }

    open spec fn is_fresh(&self) -> bool {
        *self.level_spec() is NotStarted
    }

    fn from_blocks(input: BlocksWithAnswer) -> (r: Task) {
        let others: Vec<Response> = Vec::new();
        Task::new(input.blocks, input.answer, others)
    }

    fn get_blocks(&self) -> (r: BlocksWithAnswer) {
        BlocksWithAnswer {
            blocks: copy_blocks(&self.input_blocks),
            answer: copy_response(&self.correct_answer),
        }
    }
}

} // verus!
