use ssr::blocks::{Block, Blocks, ParagraphItem, Response};
use ssr::clock::ReviewTime;
use ssr::facade::{Error, Facade, FacadeParts, TaskWrapper};
use ssr::level::{Quality, Review};
use ssr::stateless::{Stage, StatelessTask, TaskDatabase};
use ssr::task::{Exercise, NextIntervals, Task};
use ssr::weights::Weights;

const IV: NextIntervals = NextIntervals { again_hours: 5, hard_days: 3, good_days: 5, easy_days: 9 };
const NOW: ReviewTime = ReviewTime { secs: 1_700_000_000, day: 738_840 };

struct Store;

impl TaskDatabase for Store {
    fn has_record(&self, id: u64) -> bool {
        id == 7
    }

    fn get_blocks(&self, id: u64) -> Option<(Blocks, Response, Vec<Response>)> {
        if id == 7 {
            Some((vec![Block::Paragraph(vec![ParagraphItem::Placeholder])], vec![vec!["x".to_string()]], vec![]))
        } else {
            None
        }
    }
}

fn texts(form: &[Block]) -> Vec<String> {
    let mut out = vec![];
    for b in form {
        match b {
            Block::Paragraph(items) => {
                for i in items {
                    if let ParagraphItem::Text(t) = i {
                        out.push(t.clone());
                    }
                }
            }
            Block::OneOf(items) => out.extend(items.iter().cloned()),
            other => panic!("unexpected {other:?}"),
        }
    }
    out
}

#[test]
fn missing_content_is_not_found() {
    let task = StatelessTask::new(8);
    assert_eq!(task.resolve(&Store).unwrap_err(), Error::NotFound);
    assert!(!Store.has_record(8) && Store.has_record(7));
    let found = StatelessTask::new(7).resolve(&Store).unwrap();
    assert_eq!(found.1, vec![vec!["x".to_string()]]);
}

#[test]
fn correct_answer_is_graded() {
    let mut task = StatelessTask::new(7);
    assert_eq!(task.next_repetition(100), 0);
    let (c, form) = task.start_completion(true, NOW, IV);
    assert_eq!(c.stage, Stage::Grade);
    assert_eq!(texts(&form), vec!["Correct! Choose difficulty:", "Hard 3d", "Good 5d", "Easy 9d"]);
    assert_eq!(task.continue_completion(c, &vec![vec!["2".to_string()]]), Some(Quality::Easy));
    assert_eq!(task.continue_completion(c, &vec![vec!["3".to_string()]]), None);
    task.finish_completion(Quality::Easy, NOW);
    assert_eq!(task.level().history().unwrap(), &vec![Review { rating: 4, delta_t: 0 }]);
    assert_eq!(task.get_id(), 7);
}

#[test]
fn wrong_answer_is_again() {
    let task = StatelessTask::new(7);
    let (c, form) = task.start_completion(false, NOW, IV);
    assert_eq!(texts(&form), vec!["Wrong. Next review in 5h"]);
    assert_eq!(task.continue_completion(c, &vec![]), Some(Quality::Again));
}

#[test]
fn parts_round_trip() {
    let mut pool: Facade<Task, Weights> = Facade::new("p".to_string(), 9000, Weights::default());
    for x in ["a", "b", "c"] {
        pool.insert(Task::from_blocks(ssr::blocks::BlocksWithAnswer {
            blocks: vec![Block::Paragraph(vec![ParagraphItem::Placeholder])],
            answer: vec![vec![x.to_string()]],
        }));
    }
    pool.find_tasks_to_recall(100, &vec![0, 1000, 0]);
    let not_due: Vec<u64> = pool.not_due().iter().map(|w| w.id).collect();
    let due: Vec<u64> = pool.due().iter().map(|w| w.id).collect();
    let parts = pool.into_parts();
    let back = Facade::from_parts(parts).unwrap();
    assert_eq!(back.not_due().iter().map(|w| w.id).collect::<Vec<_>>(), not_due);
    assert_eq!(back.due().iter().map(|w| w.id).collect::<Vec<_>>(), due);
    assert_eq!(back.get_desired_retention(), 9000);
    assert_eq!(back.get_name(), "p");
    assert_eq!(back.state().weights, Weights::default().weights);
}

#[test]
fn parts_with_repeated_id_are_refused() {
    let t = |id| TaskWrapper { task: StatelessTask::new(id), id };
    let parts = FacadeParts { name: "p".to_string(), not_due: vec![t(1), t(2)], due: vec![t(1)], desired_retention: 9000, state: () };
    assert!(Facade::from_parts(parts).is_none());
    let parts = FacadeParts { name: "p".to_string(), not_due: vec![t(1), t(2)], due: vec![t(3)], desired_retention: 9000, state: () };
    assert!(Facade::from_parts(parts).is_some());
}
