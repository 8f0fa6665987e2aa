use task_scheduler::SchedulerError;

#[test]
fn each_error_has_its_message() {
    assert_eq!(SchedulerError::AlreadyRunning.message(), "scheduler was already running");
    assert_eq!(SchedulerError::Poisoned.message(), "mutex poisoned");
    assert_eq!(SchedulerError::NoSuchTask.message(), "trying to delete nonexistent task");
    assert_eq!(SchedulerError::ConsumerDied.message(), "task thread died unexpectedly");
}

#[test]
fn errors_compare_by_kind() {
    assert_eq!(SchedulerError::Poisoned, SchedulerError::Poisoned);
    assert_ne!(SchedulerError::Poisoned, SchedulerError::NoSuchTask);
}
