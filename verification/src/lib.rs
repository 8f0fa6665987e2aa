//! A periodic task scheduler as a deterministic state machine.
//!
//! Any number of tasks, each with its own job and interval, share one tick
//! loop. The scheduler holds no clock and starts no thread: a caller hands it
//! the time of each tick and receives the identifiers of the tasks whose jobs
//! must be started. Time is counted in nanoseconds from an origin of the
//! caller's choosing.

pub mod errors;
pub mod freshness;
pub mod laws;
pub mod scheduler;
pub mod worker;

pub use errors::SchedulerError;
pub use scheduler::{Step, TaskScheduler, TickReport};
pub use worker::TaskWorker;
