use ssr::blocks::{Block, BlockAnswered, ParagraphItem};
use ssr::clock::{utc_day, ReviewTime};
use ssr::leitner::{self, interval_days, LeitnerLevel};
use ssr::level::{Level, Quality, RepetitionContext, Review};
use ssr::super_memo::{self, EaseState, SuperMemoLevel, INITIAL_EASE, MIN_EASE};
use ssr::task::{Correctness, NextIntervals, Stage, Step, Task};

fn s(x: &str) -> String {
    x.to_string()
}

fn resp(items: &[&[&str]]) -> Vec<Vec<String>> {
    items.iter().map(|i| i.iter().map(|x| s(x)).collect()).collect()
}

fn capital_task() -> Task {
    Task::new(
        vec![Block::Paragraph(vec![
            ParagraphItem::Text(s("Capital of France: ")),
            ParagraphItem::Placeholder,
        ])],
        resp(&[&["Paris"]]),
        vec![],
    )
}

const IV: NextIntervals = NextIntervals { again_hours: 5, hard_days: 3, good_days: 5, easy_days: 9 };

const NOW: ReviewTime = ReviewTime { secs: 1_700_000_000, day: 738_840 };

fn options(form: &[Block]) -> Vec<String> {
    match form.last() {
        Some(Block::OneOf(items)) => items.clone(),
        other => panic!("unexpected {other:?}"),
    }
}

#[test]
fn not_started_level_is_due_at_epoch() {
    assert_eq!(Level::NotStarted.get_next_repetition(0), 0);
    assert_eq!(Level::NotStarted.get_next_repetition(86_400 * 30), 0);
    assert_eq!(capital_task().next_repetition(1000), 0);
}

#[test]
fn new_task_graded_good_starts_its_history() {
    let mut task = capital_task();
    let (c, shown) = task.start_completion(NOW, IV);
    assert_eq!(shown.len(), 1);
    let step = task.continue_completion(c, resp(&[&[" Paris "]])).unwrap();
    let c = match step {
        Step::Ask(c, form) => {
            assert_eq!(form.len(), 4);
            assert!(matches!(&form[0], Block::Answered(BlockAnswered::Paragraph(_))));
            assert_eq!(options(&form), vec![s("Hard 3d"), s("Good 5d"), s("Easy 9d")]);
            c
        }
        Step::Done(_) => panic!("a grade is awaited"),
    };
    let outcome = match task.continue_completion(c, resp(&[&["1"]])).unwrap() {
        Step::Done(o) => o,
        Step::Ask(..) => panic!("the review should end"),
    };
    assert_eq!(outcome.quality, Quality::Good);
    assert!(outcome.accepted_answer.is_none());
    task.finish_completion(outcome);
    let history = task.level().history().unwrap();
    assert_eq!(history, &vec![Review { rating: 3, delta_t: 0 }]);
    assert!(task.next_repetition(86_400) > NOW.secs);
}

#[test]
fn wrong_answer_declared_correct_is_accepted() {
    let mut task = capital_task();
    let (c, _) = task.start_completion(NOW, IV);
    let c = match task.continue_completion(c, resp(&[&["Lyon"]])).unwrap() {
        Step::Ask(c, form) => {
            assert_eq!(options(&form), vec![s("OK 5h"), s("It is actually correct")]);
            assert!(matches!(c.stage, Stage::WrongAnswer { .. }));
            c
        }
        Step::Done(_) => panic!("feedback is awaited"),
    };
    let c = match task.continue_completion(c, resp(&[&["1"]])).unwrap() {
        Step::Ask(c, form) => {
            assert_eq!(options(&form), vec![s("Hard 3d"), s("Good 5d"), s("Easy 9d")]);
            c
        }
        Step::Done(_) => panic!("a grade is awaited"),
    };
    let outcome = match task.continue_completion(c, resp(&[&["2"]])).unwrap() {
        Step::Done(o) => o,
        Step::Ask(..) => panic!("the review should end"),
    };
    assert_eq!(outcome.quality, Quality::Easy);
    task.finish_completion(outcome);
    assert_eq!(task.other_answers(), &vec![resp(&[&["Lyon"]])]);
    assert_eq!(task.correctness(&resp(&[&["Lyon"]])), Correctness::OtherCorrect { index: 0 });
}

#[test]
fn wrong_answer_agreed_is_graded_again() {
    let mut task = capital_task();
    let (c, _) = task.start_completion(NOW, IV);
    let Step::Ask(c, _) = task.continue_completion(c, resp(&[&["Lyon"]])).unwrap() else {
        panic!("feedback is awaited")
    };
    let Step::Done(o) = task.continue_completion(c, resp(&[&["0"]])).unwrap() else {
        panic!("the review should end")
    };
    assert_eq!(o.quality, Quality::Again);
    task.finish_completion(o);
    assert!(task.other_answers().is_empty());
    assert_eq!(task.level().history().unwrap(), &vec![Review { rating: 1, delta_t: 0 }]);
}

#[test]
fn unreadable_grade_is_refused() {
    let task = capital_task();
    let (c, _) = task.start_completion(NOW, IV);
    let Step::Ask(c, _) = task.continue_completion(c, resp(&[&["Paris"]])).unwrap() else {
        panic!("a grade is awaited")
    };
    assert!(task.continue_completion(c, resp(&[&["7"]])).is_err());
    let (c, _) = task.start_completion(NOW, IV);
    assert!(task.continue_completion(c, resp(&[&["a", "b"], &["c"]])).is_err());
}

#[test]
fn correctness_prefers_canonical_then_first_other() {
    let task = Task::new(vec![], resp(&[&["a"]]), vec![resp(&[&["b"]]), resp(&[&["b"]])]);
    assert_eq!(task.correctness(&resp(&[&["a "]])), Correctness::DefaultCorrect);
    assert_eq!(task.correctness(&resp(&[&["b"]])), Correctness::OtherCorrect { index: 0 });
    assert_eq!(task.correctness(&resp(&[&["c"]])), Correctness::Wrong);
    assert!(!Correctness::Wrong.is_correct());
    assert!(Correctness::OtherCorrect { index: 3 }.is_correct());
}

#[test]
fn repetition_counts_calendar_days() {
    let mut level = Level::NotStarted;
    level.add_repetition(RepetitionContext { quality: Quality::Hard, review_time: NOW });
    let later = ReviewTime { secs: NOW.secs + 3 * 86_400 + 60, day: NOW.day + 3 };
    assert!(level.accepts(later));
    level.add_repetition(RepetitionContext { quality: Quality::Good, review_time: later });
    assert_eq!(
        level.history().unwrap(),
        &vec![Review { rating: 2, delta_t: 0 }, Review { rating: 3, delta_t: 3 }]
    );
    let earlier = ReviewTime { secs: NOW.secs, day: NOW.day - 1 };
    assert!(!level.accepts(earlier));
    let started = level.as_started().unwrap();
    assert_eq!(started.last_quality(), Quality::Good);
    assert_eq!(level.get_next_repetition(100), later.secs + 100);
}

#[test]
fn leitner_boxes() {
    let mut level = LeitnerLevel::NotStarted;
    level.update(1000, false);
    assert_eq!(level, LeitnerLevel::Started { box_index: 0, last_review: 1000 });
    level.update(2000, true);
    assert_eq!(level, LeitnerLevel::Started { box_index: 1, last_review: 2000 });
    assert!(interval_days(1) > interval_days(0));
    assert_eq!(level.next_repetition(), 2000 + 2 * 86_400);
    level.update(3000, false);
    assert_eq!(level, LeitnerLevel::Started { box_index: 0, last_review: 3000 });
}

#[test]
fn leitner_top_box_holds() {
    let mut level = LeitnerLevel::NotStarted;
    for t in 0..10 {
        level.update(t, true);
    }
    assert_eq!(level, LeitnerLevel::Started { box_index: leitner::TOP_BOX, last_review: 9 });
    assert_eq!(interval_days(leitner::TOP_BOX), 64);
}

#[test]
fn super_memo_perfect_grades_lengthen_interval() {
    let mut level = SuperMemoLevel::NotStarted;
    assert_eq!(level.state().ease, INITIAL_EASE);
    let mut last = 0;
    let mut intervals = vec![];
    for t in 0..3 {
        level.update(t, super_memo::Quality::PerfectResponse);
        let st = level.state();
        assert!(st.interval_days > last);
        assert!(st.ease >= MIN_EASE);
        last = st.interval_days;
        intervals.push(st.interval_days);
    }
    assert_eq!(intervals, vec![1, 6, 16]);
    assert_eq!(level.state().ease, 280);
}

#[test]
fn super_memo_ease_floor_and_reset() {
    let mut level = SuperMemoLevel::NotStarted;
    for t in 0..10 {
        level.update(t, super_memo::Quality::CompleteBlackout);
        assert!(level.state().ease >= MIN_EASE);
    }
    assert_eq!(level.state(), EaseState { ease: MIN_EASE, interval_days: 1, repetitions: 0 });
    assert_eq!(level.next_repetition(), 9 + 86_400);
}

#[test]
fn super_memo_task_review() {
    let mut task = super_memo::WriteAnswer::new(
        vec![Block::Paragraph(vec![ParagraphItem::Placeholder])],
        resp(&[&["42"]]),
    );
    let (c, _) = task.start_completion(100);
    let super_memo::Step::Ask(c, form) = task.continue_completion(c, resp(&[&["42"]])).unwrap()
    else {
        panic!("a grade is awaited")
    };
    assert_eq!(options(&form)[2], "perfect response");
    let super_memo::Step::Done { quality, review_time } =
        task.continue_completion(c, resp(&[&["2"]])).unwrap()
    else {
        panic!("the review should end")
    };
    assert_eq!(quality, super_memo::Quality::PerfectResponse);
    task.finish_completion(quality, review_time);
    assert_eq!(task.level().state().interval_days, 1);
}

#[test]
fn leitner_task_review() {
    let mut task = leitner::WriteAnswer::new(
        vec![Block::Paragraph(vec![ParagraphItem::Placeholder])],
        resp(&[&["42"]]),
    );
    let (c, _) = task.start_completion(100);
    let leitner::Step::Ask(c, form) = task.continue_completion(c, resp(&[&["41"]])).unwrap()
    else {
        panic!("an acknowledgement is awaited")
    };
    assert_eq!(options(&form), vec![s("OK")]);
    let leitner::Step::Done { correct, review_time } =
        task.continue_completion(c, resp(&[&["0"]])).unwrap()
    else {
        panic!("the review should end")
    };
    assert!(!correct);
    task.finish_completion(correct, review_time);
    assert_eq!(task.level(), LeitnerLevel::Started { box_index: 0, last_review: 100 });
    assert_eq!(task.next_repetition(), 100 + 86_400);
}

#[test]
fn utc_days_from_common_era() {
    assert_eq!(utc_day(0), 719_163);
    assert_eq!(utc_day(86_399), 719_163);
    assert_eq!(utc_day(-1), 719_162);
    assert_eq!(utc_day(-86_400), 719_162);
    assert_eq!(utc_day(-86_401), 719_161);
}

#[test]
fn now_is_after_the_epoch() {
    let t = ReviewTime::now();
    assert!(t.secs > 0);
    assert!(t.day > 719_163);
}

#[test]
fn moment_gets_its_local_day() {
    let t = ReviewTime::at(0);
    assert_eq!(t.secs, 0);
    assert!(t.day >= 719_162 && t.day <= 719_164);
    let noon = ReviewTime::at(12 * 3600);
    assert_eq!(noon.day, 719_163);
}
