//! The ways in which a scheduler operation fails.

use vstd::prelude::*;

verus! {

/// Every failure is reported to the immediate caller and none is retried.
#[derive(Debug, Clone, Copy, PartialEq, Eq, Structural)]
pub enum SchedulerError {
    /// A run was requested while another run was active.
    AlreadyRunning,
    /// The shared state was left inconsistent by an abnormal termination.
    Poisoned,
    /// The identifier names no registered task.
    NoSuchTask,
    /// A tick could not be delivered to a task that is still registered.
    ConsumerDied,
}

impl SchedulerError {
    /// The text shown to a user for this error.
    pub open spec fn message_text(self) -> Seq<char> {
        match self {
            SchedulerError::AlreadyRunning => "scheduler was already running"@,
            SchedulerError::Poisoned => "mutex poisoned"@,
            SchedulerError::NoSuchTask => "trying to delete nonexistent task"@,
            SchedulerError::ConsumerDied => "task thread died unexpectedly"@,
        }
    }

    /// Renders the error as text.
    pub fn message(&self) -> (text: String)
        ensures
            text@ == self.message_text(),
    {
        match self {
            SchedulerError::AlreadyRunning => "scheduler was already running".to_owned(),
            SchedulerError::Poisoned => "mutex poisoned".to_owned(),
            SchedulerError::NoSuchTask => "trying to delete nonexistent task".to_owned(),
            SchedulerError::ConsumerDied => "task thread died unexpectedly".to_owned(),
        }
    }
}

} // verus!
