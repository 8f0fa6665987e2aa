use task_scheduler::{SchedulerError, Step, TaskScheduler};

const MS: u128 = 1_000_000;

#[test]
fn new_scheduler_is_empty_and_stopped() {
    let s: TaskScheduler<&str> = TaskScheduler::new();
    assert!(!s.is_running());
    assert!(!s.is_poisoned());
    assert_eq!(s.task_count(), 0);
    assert_eq!(s.next_task_id(), Some(0));
}

#[test]
fn sequential_registrations_get_increasing_ids() {
    let mut s = TaskScheduler::new();
    assert_eq!(s.add_task(100 * MS, "job", 0), Ok(0));
    assert_eq!(s.add_task(50 * MS, "job", 0), Ok(1));
    assert_eq!(s.add_task(200 * MS, "job", 7), Ok(2));
    assert_eq!(s.task_count(), 3);
    assert!(s.has_task(0) && s.has_task(1) && s.has_task(2));
    assert!(!s.has_task(3));
}

#[test]
fn id_after_removing_a_middle_task_is_above_all_issued() {
    let mut s = TaskScheduler::new();
    for expected in 0..4usize {
        assert_eq!(s.add_task(10 * MS, "job", 0), Ok(expected));
    }
    assert_eq!(s.remove_task(1), Ok(()));
    assert_eq!(s.next_task_id(), Some(4));
    assert_eq!(s.add_task(10 * MS, "job", 0), Ok(4));
    assert!(!s.has_task(1));
    assert_eq!(s.task_count(), 4);
}

#[test]
fn id_is_never_issued_twice() {
    let mut s = TaskScheduler::new();
    assert_eq!(s.add_task(10 * MS, "job", 0), Ok(0));
    assert_eq!(s.add_task(10 * MS, "job", 0), Ok(1));
    assert_eq!(s.add_task(10 * MS, "job", 0), Ok(2));
    assert_eq!(s.remove_task(2), Ok(()));
    assert_eq!(s.next_task_id(), Some(3));
    assert_eq!(s.add_task(10 * MS, "job", 0), Ok(3));
    assert_eq!(s.remove_task(0), Ok(()));
    assert_eq!(s.remove_task(1), Ok(()));
    assert_eq!(s.remove_task(2), Err(SchedulerError::NoSuchTask));
    assert_eq!(s.remove_task(3), Ok(()));
    assert_eq!(s.task_count(), 0);
    assert_eq!(s.add_task(10 * MS, "job", 0), Ok(4));
}

#[test]
fn id_after_removing_the_only_task_is_fresh() {
    let mut s = TaskScheduler::new();
    assert_eq!(s.add_task(10 * MS, "job", 0), Ok(0));
    assert_eq!(s.remove_task(0), Ok(()));
    assert_eq!(s.add_task(10 * MS, "job", 0), Ok(1));
    assert_eq!(s.add_task(10 * MS, "job", 0), Ok(2));
    assert_eq!(s.remove_task(1), Ok(()));
    assert_eq!(s.add_task(10 * MS, "job", 0), Ok(3));
    assert!(s.has_task(2) && s.has_task(3));
    assert!(!s.has_task(0) && !s.has_task(1));
}

#[test]
fn failed_operations_issue_no_id() {
    let mut s = TaskScheduler::new();
    assert_eq!(s.add_task(10 * MS, "job", 0), Ok(0));
    assert_eq!(s.remove_task(9), Err(SchedulerError::NoSuchTask));
    assert_eq!(s.begin_run(), Ok(()));
    s.step(0);
    assert!(s.worker_exited(0));
    assert_eq!(s.stop(), Ok(()));
    assert_eq!(s.next_task_id(), Some(1));
    s.poison();
    assert_eq!(s.add_task(10 * MS, "job", 0), Err(SchedulerError::Poisoned));
    assert_eq!(s.next_task_id(), Some(1));
}

#[test]
fn removing_an_unknown_task_fails() {
    let mut s: TaskScheduler<&str> = TaskScheduler::new();
    assert_eq!(s.remove_task(0), Err(SchedulerError::NoSuchTask));
    assert_eq!(s.add_task(10 * MS, "job", 0), Ok(0));
    assert_eq!(s.remove_task(5), Err(SchedulerError::NoSuchTask));
    assert_eq!(s.task_count(), 1);
    assert_eq!(s.remove_task(0), Ok(()));
    assert_eq!(s.remove_task(0), Err(SchedulerError::NoSuchTask));
}

#[test]
fn removed_task_stops_firing_while_others_continue() {
    let mut s = TaskScheduler::new();
    let a = s.add_task(100 * MS, "job", 0).unwrap();
    let b = s.add_task(100 * MS, "job", 0).unwrap();
    assert_eq!(s.begin_run(), Ok(()));
    assert_eq!(s.step(0), Step::Continue(vec![a, b]));
    assert_eq!(s.remove_task(a), Ok(()));
    let mut fired_b = 0;
    for tick in 1..=100u128 {
        match s.step(tick * 10 * MS) {
            Step::Continue(fired) => {
                assert!(!fired.contains(&a));
                if fired.contains(&b) {
                    fired_b += 1;
                }
            }
            other => panic!("unexpected step {:?}", other),
        }
    }
    assert_eq!(fired_b, 10);
}

#[test]
fn poisoned_scheduler_refuses_everything() {
    let mut s = TaskScheduler::new();
    assert_eq!(s.add_task(10 * MS, "job", 0), Ok(0));
    s.poison();
    assert!(s.is_poisoned());
    assert_eq!(s.add_task(10 * MS, "job", 0), Err(SchedulerError::Poisoned));
    assert_eq!(s.remove_task(0), Err(SchedulerError::Poisoned));
    assert_eq!(s.remove_task(9), Err(SchedulerError::Poisoned));
    assert_eq!(s.begin_run(), Err(SchedulerError::Poisoned));
    assert_eq!(s.stop(), Err(SchedulerError::Poisoned));
    assert_eq!(s.step(0), Step::Abort(SchedulerError::Poisoned, vec![]));
    let report = s.broadcast_tick(0);
    assert_eq!(report.result, Err(SchedulerError::Poisoned));
    assert!(report.fired.is_empty());
    assert_eq!(s.task_count(), 1);
    assert!(!s.is_running());
}

#[test]
fn worker_exit_is_recorded_only_for_known_tasks() {
    let mut s = TaskScheduler::new();
    assert_eq!(s.add_task(10 * MS, "job", 0), Ok(0));
    assert!(!s.worker_exited(3));
    assert_eq!(s.broadcast_tick(0).result, Ok(()));
    assert!(s.worker_exited(0));
    assert_eq!(s.broadcast_tick(10 * MS).result, Err(SchedulerError::ConsumerDied));
    assert!(s.has_task(0));
}

#[test]
fn each_task_keeps_its_own_job() {
    let mut s = TaskScheduler::new();
    let a = s.add_task(10 * MS, "fetch", 0).unwrap();
    let b = s.add_task(20 * MS, "sweep", 0).unwrap();
    assert_eq!(s.job(a), Some(&"fetch"));
    assert_eq!(s.job(b), Some(&"sweep"));
    assert_eq!(s.job(2), None);
    assert_eq!(s.remove_task(a), Ok(()));
    assert_eq!(s.job(a), None);
    assert_eq!(s.job(b), Some(&"sweep"));
    s.broadcast_tick(0);
    assert!(s.worker_exited(b));
    assert_eq!(s.job(b), Some(&"sweep"));
}

#[test]
fn fired_jobs_can_be_run_by_the_caller() {
    let mut s: TaskScheduler<Box<dyn Fn(u32) -> u32>> = TaskScheduler::new();
    s.add_task(10 * MS, Box::new(|x| x + 1), 0).unwrap();
    s.add_task(20 * MS, Box::new(|x| x * 10), 0).unwrap();
    assert_eq!(s.begin_run(), Ok(()));
    let mut value = 1;
    for tick in 0..3u128 {
        match s.step(tick * 10 * MS) {
            Step::Continue(fired) => {
                for id in fired {
                    let job = s.job(id).unwrap();
                    value = job(value);
                }
            }
            other => panic!("unexpected step {:?}", other),
        }
    }
    assert_eq!(value, 220);
}
