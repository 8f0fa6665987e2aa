use task_scheduler::TaskWorker;

#[test]
fn fresh_worker_is_due_from_its_registration_on() {
    let w = TaskWorker::new(100, 40);
    assert_eq!(w.interval(), 100);
    assert!(!w.is_due(39));
    assert!(w.is_due(40));
    assert!(w.is_due(41));
}

#[test]
fn fresh_worker_with_a_long_interval_is_not_due_before_registration() {
    let w = TaskWorker::new(1000, 40);
    assert!(!w.is_due(0));
    assert!(w.is_due(40));
}

#[test]
fn due_tick_resets_the_wait() {
    let mut w = TaskWorker::new(100, 0);
    assert!(w.on_tick(7));
    assert!(!w.on_tick(7));
    assert!(!w.on_tick(106));
    assert!(w.on_tick(107));
    assert!(!w.is_due(206));
    assert!(w.is_due(207));
}

#[test]
fn tick_that_is_not_due_changes_nothing() {
    let mut w = TaskWorker::new(100, 0);
    assert!(w.on_tick(0));
    for now in 1..100u128 {
        assert!(!w.on_tick(now));
    }
    assert!(w.on_tick(100));
}

#[test]
fn elapsed_time_is_zero_before_the_last_run() {
    let mut w = TaskWorker::new(10, 0);
    assert!(w.on_tick(500));
    assert!(!w.is_due(100));
    assert!(!w.on_tick(100));
    assert!(w.is_due(510));
}

#[test]
fn zero_interval_is_always_due() {
    let mut w = TaskWorker::new(0, 50);
    assert!(w.is_due(0));
    assert!(w.on_tick(60));
    assert!(w.on_tick(60));
    assert!(w.is_due(10));
}

#[test]
fn largest_times_do_not_overflow() {
    let mut w = TaskWorker::new(u128::MAX, 0);
    assert!(w.on_tick(0));
    assert!(!w.is_due(u128::MAX - 1));
    assert!(w.is_due(u128::MAX));
    let mut late = TaskWorker::new(u128::MAX, u128::MAX);
    assert!(!late.is_due(u128::MAX - 1));
    assert!(late.on_tick(u128::MAX));
    assert!(!late.on_tick(u128::MAX));
}
