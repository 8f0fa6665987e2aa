//! The per-task worker: it owns the task's last-run time and decides, tick by
//! tick, whether the job is due.

use vstd::prelude::*;

verus! {

/// What a worker is, mathematically: its interval and the instant of its last
/// run, both in nanoseconds. The last run of a worker that has never fired
/// lies one interval before its registration, possibly before the origin of
/// time.
pub struct WorkerView {
    pub interval: nat,
    pub last_run: int,
}

impl WorkerView {
    /// The worker as it stands right after registration at `now`.
    pub open spec fn fresh(interval: nat, now: nat) -> WorkerView {
        WorkerView { interval, last_run: now - interval }
    }

    /// Time elapsed since the last run; zero when `now` lies before it.
    pub open spec fn elapsed(self, now: nat) -> nat {
        if now >= self.last_run {
            (now - self.last_run) as nat
        } else {
            0
        }
    }

    /// The job is due when at least one interval has elapsed.
    pub open spec fn due(self, now: nat) -> bool {
        self.elapsed(now) >= self.interval
    }

    /// The worker after a tick at `now`: a due tick resets the last run, any
    /// other tick changes nothing.
    pub open spec fn after_tick(self, now: nat) -> WorkerView {
        if self.due(now) {
            WorkerView { interval: self.interval, last_run: now as int }
        } else {
            self
        }
    }
}

/// The instant of the tick with the given index in a run whose ticks start
/// at `start` and follow each other exactly one resolution apart.
pub open spec fn tick_time(start: nat, resolution: nat, index: nat) -> nat {
    start + index * resolution
}

/// The worker after the first `count` ticks of such a run.
pub open spec fn after_ticks(w: WorkerView, start: nat, resolution: nat, count: nat) -> WorkerView
    decreases count,
{
    if count == 0 {
        w
    } else {
        let before = after_ticks(w, start, resolution, (count - 1) as nat);
        before.after_tick(tick_time(start, resolution, (count - 1) as nat))
    }
}

/// How often the worker fires on the first `count` ticks of such a run.
pub open spec fn firings(w: WorkerView, start: nat, resolution: nat, count: nat) -> nat
    decreases count,
{
    if count == 0 {
        0
    } else {
        let before = after_ticks(w, start, resolution, (count - 1) as nat);
        let earlier = firings(w, start, resolution, (count - 1) as nat);
        if before.due(tick_time(start, resolution, (count - 1) as nat)) {
            earlier + 1
        } else {
            earlier
        }
    }
}

/// The state of one task's worker.
#[derive(Clone, Copy, Debug)]
pub struct TaskWorker {
    interval: u128,
    registered_at: u128,
    last_fired: Option<u128>,
}

impl View for TaskWorker {
    type V = WorkerView;

    closed spec fn view(&self) -> WorkerView {
        WorkerView {
            interval: self.interval as nat,
            last_run: match self.last_fired {
                Some(t) => t as int,
                None => self.registered_at - self.interval,
            },
        }
    }
}

impl TaskWorker {
    /// A worker registered at `now`, biased so that its first tick fires.
    pub fn new(interval: u128, now: u128) -> (worker: TaskWorker)
        ensures
            worker@ == WorkerView::fresh(interval as nat, now as nat),
    {
        TaskWorker { interval, registered_at: now, last_fired: None }
    }

    /// The task's interval in nanoseconds.
    pub fn interval(&self) -> (interval: u128)
        ensures
            interval == self@.interval,
    {
        self.interval
    }

    /// Whether a tick at `now` would start the job.
    pub fn is_due(&self, now: u128) -> (due: bool)
        ensures
            due == self@.due(now as nat),
    {
        if self.interval == 0 {
            return true;
        }
        match self.last_fired {
            Some(t) => now >= t && now - t >= self.interval,
            None => now >= self.registered_at,
        }
    }

    /// Handles one tick: reports whether the job must be started, and if so
    /// records `now` as the last run.
    pub fn on_tick(&mut self, now: u128) -> (fired: bool)
        ensures
            fired == old(self)@.due(now as nat),
            final(self)@ == old(self)@.after_tick(now as nat),
    {
        let due = self.is_due(now);
        if due {
            self.last_fired = Some(now);
        }
        due
    }
}

} // verus!
