//! A spaced-repetition study engine: exercise blocks and responses, the
//! review level of a task, the scheduling policies, the task completion
//! protocol and the pool of tasks that decides what is due; and the
//! key-by-key input of answers to exercises.

pub mod blocks;
pub mod clock;
pub mod level;
pub mod leitner;
pub mod super_memo;
pub mod feedback;
pub mod task;
pub mod facade;
pub mod weights;
pub mod editor;
pub mod telegram;
pub mod stateless;
pub mod choice;
pub mod paragraph_input;
pub mod blocks_input;
