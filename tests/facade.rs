use ssr::blocks::{Block, BlocksWithAnswer, ParagraphItem};
use ssr::clock::ReviewTime;
use ssr::facade::{Error, Facade};
use ssr::leitner;
use ssr::level::{Level, Review};
use ssr::task::{Exercise, NextIntervals, Step, Task};
use ssr::weights::{extract_first_long_term_reviews, Weights};

fn s(x: &str) -> String {
    x.to_string()
}

fn resp(items: &[&[&str]]) -> Vec<Vec<String>> {
    items.iter().map(|i| i.iter().map(|x| s(x)).collect()).collect()
}

fn exercise(answer: &str) -> BlocksWithAnswer {
    BlocksWithAnswer {
        blocks: vec![Block::Paragraph(vec![ParagraphItem::Placeholder])],
        answer: resp(&[&[answer]]),
    }
}

fn memory_pool() -> Facade<Task, Weights> {
    Facade::new(s("pool"), 8500, Weights::default())
}

fn leitner_pool() -> Facade<leitner::WriteAnswer, ()> {
    Facade::new(s("boxes"), 9000, ())
}

const IV: NextIntervals = NextIntervals { again_hours: 5, hard_days: 3, good_days: 5, easy_days: 9 };

#[test]
fn empty_pool_has_no_task() {
    let mut pool = memory_pool();
    assert_eq!(pool.begin_task(1000, &vec![]).unwrap_err(), Error::NoTask);
    assert_eq!(pool.until_next_repetition(1000, &vec![]), None);
}

#[test]
fn pool_of_future_tasks_reports_shortest_wait() {
    let mut pool = leitner_pool();
    pool.insert(leitner::WriteAnswer::from_blocks(exercise("a")));
    pool.insert(leitner::WriteAnswer::from_blocks(exercise("b")));
    let now = 1_000_000;
    let r = pool.begin_task(now, &vec![now + 7200, now + 3600]);
    assert_eq!(r.unwrap_err(), Error::NoTaskToComplete { time_until_next_repetition: 3600 });
    assert_eq!(pool.tasks_to_complete(), 0);
    assert_eq!(pool.tasks_total(), 2);
}

#[test]
fn task_due_within_lookahead_is_offered() {
    let mut pool = leitner_pool();
    let id = pool.insert(leitner::WriteAnswer::from_blocks(exercise("a")));
    let w = pool.begin_task(500, &vec![505]).unwrap();
    assert_eq!(w.id, id);
    pool.return_task(w);
    assert_eq!(pool.not_due().len(), 1);
}

#[test]
fn every_task_is_in_exactly_one_collection() {
    let mut pool = memory_pool();
    let a = pool.insert(Task::from_blocks(exercise("a")));
    let b = pool.insert(Task::from_blocks(exercise("b")));
    let c = pool.insert(Task::from_blocks(exercise("c")));
    assert!(a != b && b != c && a != c);
    pool.find_tasks_to_recall(100, &vec![0, 1000, 50]);
    let not_due: Vec<u64> = pool.not_due().iter().map(|w| w.id).collect();
    let due: Vec<u64> = pool.due().iter().map(|w| w.id).collect();
    assert_eq!(not_due, vec![b]);
    assert_eq!(due, vec![a, c]);
    for id in [a, b, c] {
        assert!(not_due.contains(&id) != due.contains(&id));
        assert!(pool.contains_id(id));
    }
}

#[test]
fn finding_due_tasks_twice_changes_nothing() {
    let mut pool = memory_pool();
    for x in ["a", "b", "c", "d"] {
        pool.insert(Task::from_blocks(exercise(x)));
    }
    let times = vec![0, 5000, 10, 9000];
    pool.find_tasks_to_recall(100, &times);
    let due_once: Vec<u64> = pool.due().iter().map(|w| w.id).collect();
    pool.find_tasks_to_recall(100, &vec![5000, 9000]);
    let due_twice: Vec<u64> = pool.due().iter().map(|w| w.id).collect();
    assert_eq!(due_once, due_twice);
    assert_eq!(pool.not_due().len(), 2);
}

#[test]
fn failed_review_keeps_task_unchanged_in_pool() {
    let mut pool = memory_pool();
    let id = pool.insert(Task::from_blocks(exercise("42")));
    let w = pool.begin_task(100, &vec![0]).unwrap();
    assert_eq!(pool.tasks_to_complete(), 0);
    assert!(pool.contains_id(id));
    let (c, _) = w.task.start_completion(ReviewTime { secs: 100, day: 700_000 }, IV);
    let failure = w.task.continue_completion(c, resp(&[&["a"], &["b"]]));
    assert!(failure.is_err());
    pool.return_task(w);
    assert_eq!(pool.not_due().len(), 1);
    assert_eq!(pool.not_due()[0].id, id);
    assert!(matches!(pool.not_due()[0].task.level(), Level::NotStarted));
}

#[test]
fn completed_review_returns_task_with_new_level() {
    let mut pool = memory_pool();
    pool.insert(Task::from_blocks(exercise("42")));
    let mut w = pool.begin_task(100, &vec![0]).unwrap();
    let rt = ReviewTime { secs: 100, day: 700_000 };
    let (c, _) = w.task.start_completion(rt, IV);
    let Step::Ask(c, _) = w.task.continue_completion(c, resp(&[&["42"]])).unwrap() else {
        panic!("a grade is awaited")
    };
    let Step::Done(o) = w.task.continue_completion(c, resp(&[&["0"]])).unwrap() else {
        panic!("the review should end")
    };
    w.task.finish_completion(o);
    pool.return_task(w);
    assert_eq!(
        pool.not_due()[0].task.level().history().unwrap(),
        &vec![Review { rating: 2, delta_t: 0 }]
    );
}

#[test]
fn optimizer_without_history_fails_and_keeps_weights() {
    let mut pool = memory_pool();
    pool.insert(Task::from_blocks(exercise("a")));
    let before = pool.state().weights;
    let r = pool.optimize(Some(vec![1; 19]), 100, &vec![0]);
    assert_eq!(r, Err(Error::OptimizeFailed));
    assert_eq!(pool.state().weights, before);
    let mut empty = memory_pool();
    assert_eq!(empty.optimize(None, 100, &vec![]), Err(Error::OptimizeFailed));
    assert_eq!(empty.state().weights, Weights::default().weights);
}

#[test]
fn optimizer_takes_fitted_weights() {
    let mut pool = memory_pool();
    pool.insert(Task::from_blocks(exercise("42")));
    let mut w = pool.begin_task(100, &vec![0]).unwrap();
    let rt = ReviewTime { secs: 100, day: 700_000 };
    let (c, _) = w.task.start_completion(rt, IV);
    let Step::Ask(c, _) = w.task.continue_completion(c, resp(&[&["42"]])).unwrap() else {
        panic!("a grade is awaited")
    };
    let Step::Done(o) = w.task.continue_completion(c, resp(&[&["1"]])).unwrap() else {
        panic!("the review should end")
    };
    w.task.finish_completion(o);
    pool.return_task(w);
    assert_eq!(pool.training_items(), vec![vec![Review { rating: 3, delta_t: 0 }]]);
    assert_eq!(pool.optimize(Some(vec![1; 18]), 100, &vec![0]), Err(Error::OptimizeFailed));
    assert!(pool.optimize(Some(vec![7; 19]), 100, &vec![i64::MAX]).is_ok());
    assert_eq!(pool.state().weights, [7u32; 19]);
    assert_eq!(pool.tasks_to_complete(), 0);
}

#[test]
fn default_weights_are_the_model_defaults() {
    let w = Weights::default().weights;
    assert_eq!(w[0], 0.40255f32.to_bits());
    assert_eq!(w[18], 0.6621f32.to_bits());
}

#[test]
fn first_long_term_prefix_is_extracted() {
    let r = |rating, delta_t| Review { rating, delta_t };
    let items = vec![
        vec![r(3, 0), r(3, 0), r(3, 2), r(3, 5)],
        vec![r(3, 0), r(3, 0)],
        vec![r(3, 0), r(3, 4)],
        vec![r(1, 0), r(2, 1), r(3, 1)],
    ];
    let out = extract_first_long_term_reviews(&items);
    assert_eq!(
        out,
        vec![vec![r(3, 0), r(3, 0), r(3, 2)], vec![r(1, 0), r(2, 1)]]
    );
}

#[test]
fn removing_tasks() {
    let mut pool = memory_pool();
    let a = pool.insert(Task::from_blocks(exercise("a")));
    let b = pool.insert(Task::from_blocks(exercise("b")));
    pool.find_tasks_to_recall(100, &vec![0, 1000]);
    assert!(pool.remove(a));
    assert!(!pool.remove(a));
    assert!(pool.remove(b));
    assert_eq!(pool.tasks_total(), 0);
}

#[test]
fn retention_change_sorts_again() {
    let mut pool = memory_pool();
    pool.insert(Task::from_blocks(exercise("a")));
    pool.insert(Task::from_blocks(exercise("b")));
    pool.find_tasks_to_recall(100, &vec![0, 1000]);
    assert_eq!(pool.tasks_to_complete(), 1);
    pool.set_desired_retention(9500, 100, &vec![50, 5000]);
    assert_eq!(pool.get_desired_retention(), 9500);
    assert_eq!(pool.tasks_to_complete(), 1);
    assert_eq!(pool.not_due().len(), 1);
    pool.reload_all_tasks_timings(100, &vec![0, 0]);
    assert_eq!(pool.tasks_to_complete(), 2);
}

#[test]
fn migration_keeps_exercises_only() {
    let mut pool = memory_pool();
    pool.insert(Task::from_blocks(exercise("a")));
    pool.insert(Task::from_blocks(exercise("b")));
    pool.find_tasks_to_recall(100, &vec![0, 1000]);
    let moved: Facade<leitner::WriteAnswer, ()> = pool.migrate(());
    assert_eq!(moved.get_name(), "pool");
    assert_eq!(moved.get_desired_retention(), 8500);
    assert_eq!(moved.tasks_to_complete(), 0);
    let answers: Vec<Vec<Vec<String>>> =
        moved.not_due().iter().map(|w| w.task.get_blocks().answer).collect();
    assert_eq!(answers, vec![resp(&[&["b"]]), resp(&[&["a"]])]);
    assert!(moved
        .not_due()
        .iter()
        .all(|w| w.task.level() == leitner::LeitnerLevel::NotStarted));
}

#[test]
fn created_task_waits_not_due() {
    let mut pool = leitner_pool();
    let id = pool.create_task(exercise("z"));
    assert_eq!(pool.not_due().len(), 1);
    assert_eq!(pool.not_due()[0].id, id);
    assert_eq!(pool.not_due()[0].task.get_blocks().answer, resp(&[&["z"]]));
    assert_eq!(pool.not_due()[0].task.next_repetition(), 0);
}
