//! A workload generator for frame stores.
//!
//! Named cameras each own a gap-free sequence of frames. One writer per
//! camera appends frames, readers sample frames at random, and every task
//! tracks the slowest operation it has seen. The store itself is any back end
//! that meets the contract of [`storage::FakeStorageImpl`].
//!
//! The library holds the state of every task and what one tick of it does;
//! the program around it owns the timers and the back ends that touch a disk.

pub mod args;
mod clock;
pub mod filesystem;
pub mod latency;
pub mod layout;
pub mod memory;
pub mod orchestrator;
pub mod payload;
mod random;
pub mod rate;
pub mod reader;
pub mod seeder;
pub mod storage;
pub mod writer;
