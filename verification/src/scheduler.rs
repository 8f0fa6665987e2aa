//! The task registry, the run-state gate and the tick loop's decisions.

use vstd::prelude::*;
use crate::errors::SchedulerError;
use crate::worker::{after_ticks, firings, tick_time, TaskWorker, WorkerView};

verus! {

/// One registered task as the contracts see it.
pub struct EntryView<J> {
    pub id: usize,
    /// What the task runs; the scheduler hands it back and never looks inside.
    pub job: J,
    pub worker: WorkerView,
    /// Whether the task's worker can still receive ticks.
    pub alive: bool,
}

impl<J> EntryView<J> {
    /// A tick at `now` starts the job of a live worker that is due.
    pub open spec fn fires(self, now: nat) -> bool {
        self.alive && self.worker.due(now)
    }

    /// The entry after a tick at `now`. A dead worker receives nothing.
    pub open spec fn after_tick(self, now: nat) -> EntryView<J> {
        if self.alive {
            EntryView {
                id: self.id,
                job: self.job,
                worker: self.worker.after_tick(now),
                alive: true,
            }
        } else {
            self
        }
    }
}

/// The identifiers of the entries that fire at `now`, in registry order.
pub open spec fn fired_ids<J>(entries: Seq<EntryView<J>>, now: nat) -> Seq<usize>
    decreases entries.len(),
{
    if entries.len() == 0 {
        Seq::empty()
    } else if entries.last().fires(now) {
        fired_ids(entries.drop_last(), now).push(entries.last().id)
    } else {
        fired_ids(entries.drop_last(), now)
    }
}

/// The scheduler as the contracts see it: the run-state flag, the
/// corrupted-state flag, the registry in order of registration, and how many
/// identifiers have been issued so far.
pub struct SchedulerView<J> {
    pub running: bool,
    pub poisoned: bool,
    pub entries: Seq<EntryView<J>>,
    /// Identifiers are issued in order from zero, so this is also the next
    /// one. No removal lowers it.
    pub issued: nat,
}

impl<J> SchedulerView<J> {
    /// Identifiers grow along the registry, so none occurs twice, and every
    /// registered identifier is one that has been issued.
    pub open spec fn wf(self) -> bool {
        &&& forall|i: int, j: int|
            #![trigger self.entries[i], self.entries[j]]
            0 <= i < j < self.entries.len() ==> self.entries[i].id < self.entries[j].id
        &&& forall|k: int|
            0 <= k < self.entries.len() ==> (#[trigger] self.entries[k]).id < self.issued
    }

    /// Whether a task with this identifier is registered.
    pub open spec fn contains(self, id: usize) -> bool {
        exists|k: int| 0 <= k < self.entries.len() && #[trigger] self.entries[k].id == id
    }

    /// Where the task `id` stands in the registry, if it is registered.
    pub open spec fn position(self, id: usize) -> int {
        choose|k: int| 0 <= k < self.entries.len() && #[trigger] self.entries[k].id == id
    }

    /// The job of the task `id`, if it is registered.
    pub open spec fn job_of(self, id: usize) -> J {
        self.entries[self.position(id)].job
    }

    /// The identifier that the next registration receives: one more than the
    /// largest identifier ever issued, or zero where none was.
    pub open spec fn next_id(self) -> nat {
        self.issued
    }

    /// Some registered task has lost its worker.
    pub open spec fn has_dead(self) -> bool {
        exists|k: int| 0 <= k < self.entries.len() && !(#[trigger] self.entries[k]).alive
    }

    /// The tasks whose jobs a tick at `now` starts.
    pub open spec fn fired(self, now: nat) -> Seq<usize> {
        fired_ids(self.entries, now)
    }

    /// What a broadcast reports: it fails as soon as one worker is dead.
    pub open spec fn tick_result(self) -> Result<(), SchedulerError> {
        if self.has_dead() {
            Err(SchedulerError::ConsumerDied)
        } else {
            Ok(())
        }
    }

    /// The scheduler after a tick at `now` has reached every entry.
    pub open spec fn after_tick(self, now: nat) -> SchedulerView<J> {
        SchedulerView {
            running: self.running,
            poisoned: self.poisoned,
            entries: Seq::new(self.entries.len(), |k: int| self.entries[k].after_tick(now)),
            issued: self.issued,
        }
    }

    /// The scheduler with a run opened.
    pub open spec fn started(self) -> SchedulerView<J> {
        SchedulerView {
            running: true,
            poisoned: self.poisoned,
            entries: self.entries,
            issued: self.issued,
        }
    }

    /// The scheduler with the run-state flipped to stopped.
    pub open spec fn stopped(self) -> SchedulerView<J> {
        SchedulerView {
            running: false,
            poisoned: self.poisoned,
            entries: self.entries,
            issued: self.issued,
        }
    }

    /// What a request to open a run is answered with.
    pub open spec fn begin_run_result(self) -> Result<(), SchedulerError> {
        if self.poisoned {
            Err(SchedulerError::Poisoned)
        } else if self.running {
            Err(SchedulerError::AlreadyRunning)
        } else {
            Ok(())
        }
    }

    /// What one turn of the tick loop at `now` decides.
    pub open spec fn step_outcome(self, now: nat) -> StepView {
        if self.poisoned {
            StepView::Abort(SchedulerError::Poisoned, Seq::empty())
        } else if !self.running {
            StepView::Stopped
        } else if self.has_dead() {
            StepView::Abort(SchedulerError::ConsumerDied, self.fired(now))
        } else {
            StepView::Continue(self.fired(now))
        }
    }

    /// The scheduler after one turn of the tick loop at `now`.
    pub open spec fn after_step(self, now: nat) -> SchedulerView<J> {
        if self.poisoned || !self.running {
            self
        } else {
            self.after_tick(now)
        }
    }

    /// The scheduler after a whole run of `count` ticks, the first at `start`
    /// and each one resolution after the one before, in which every worker
    /// has had every tick: the run-state is stopped again.
    pub open spec fn after_run(self, start: nat, resolution: nat, count: nat) -> SchedulerView<J> {
        SchedulerView {
            running: false,
            poisoned: self.poisoned,
            entries: Seq::new(
                self.entries.len(),
                |k: int|
                    EntryView {
                        id: self.entries[k].id,
                        job: self.entries[k].job,
                        worker: after_ticks(self.entries[k].worker, start, resolution, count),
                        alive: self.entries[k].alive,
                    },
            ),
            issued: self.issued,
        }
    }

    /// How often each task fires in such a run, in registry order.
    pub open spec fn run_counts(self, start: nat, resolution: nat, count: nat) -> Seq<nat> {
        Seq::new(
            self.entries.len(),
            |k: int| firings(self.entries[k].worker, start, resolution, count),
        )
    }

    /// The scheduler after the registration of a task at `now`.
    pub open spec fn with_task(self, interval: nat, job: J, now: nat) -> SchedulerView<J> {
        SchedulerView {
            running: self.running,
            poisoned: self.poisoned,
            entries: self.entries.push(
                EntryView {
                    id: self.next_id() as usize,
                    job,
                    worker: WorkerView::fresh(interval, now),
                    alive: true,
                },
            ),
            issued: self.issued + 1,
        }
    }

    /// The scheduler without the task `id`.
    pub open spec fn without_task(self, id: usize) -> SchedulerView<J> {
        SchedulerView {
            running: self.running,
            poisoned: self.poisoned,
            entries: self.entries.remove(self.position(id)),
            issued: self.issued,
        }
    }

    /// The scheduler after the worker of task `id` has gone.
    pub open spec fn with_dead_worker(self, id: usize) -> SchedulerView<J> {
        let k = self.position(id);
        SchedulerView {
            running: self.running,
            poisoned: self.poisoned,
            entries: self.entries.update(
                k,
                EntryView {
                    id,
                    job: self.entries[k].job,
                    worker: self.entries[k].worker,
                    alive: false,
                },
            ),
            issued: self.issued,
        }
    }
}

struct TaskEntry<J> {
    id: usize,
    job: J,
    worker: TaskWorker,
    alive: bool,
}

impl<J> View for TaskEntry<J> {
    type V = EntryView<J>;

    closed spec fn view(&self) -> EntryView<J> {
        EntryView { id: self.id, job: self.job, worker: self.worker@, alive: self.alive }
    }
}

/// What one broadcast did: the tasks whose jobs must be started, in registry
/// order, and whether every registered task could be reached.
#[derive(Debug, PartialEq, Eq)]
pub struct TickReport {
    pub fired: Vec<usize>,
    pub result: Result<(), SchedulerError>,
}

/// What the tick loop does next.
#[derive(Debug, PartialEq, Eq)]
pub enum Step {
    /// The run-state is stopped: the run ends without error.
    Stopped,
    /// Start the jobs of these tasks, sleep one resolution, step again.
    Continue(Vec<usize>),
    /// The run ends with this error, after starting the jobs of these tasks.
    Abort(SchedulerError, Vec<usize>),
}

/// A step with its task lists as sequences.
pub enum StepView {
    Stopped,
    Continue(Seq<usize>),
    Abort(SchedulerError, Seq<usize>),
}

impl View for Step {
    type V = StepView;

    open spec fn view(&self) -> StepView {
        match *self {
            Step::Stopped => StepView::Stopped,
            Step::Continue(fired) => StepView::Continue(fired@),
            Step::Abort(error, fired) => StepView::Abort(error, fired@),
        }
    }
}

/// A scheduler for tasks that run repeatedly at regular intervals.
pub struct TaskScheduler<J> {
    running: bool,
    poisoned: bool,
    entries: Vec<TaskEntry<J>>,
    /// The identifier for the next registration; `None` once the last
    /// identifier that the type can hold has been issued.
    next: Option<usize>,
}

impl<J> View for TaskScheduler<J> {
    type V = SchedulerView<J>;

    closed spec fn view(&self) -> SchedulerView<J> {
        SchedulerView {
            running: self.running,
            poisoned: self.poisoned,
            entries: Seq::new(self.entries@.len(), |k: int| self.entries@[k]@),
            issued: match self.next {
                Some(next) => next as nat,
                None => (usize::MAX + 1) as nat,
            },
        }
    }
}

impl<J> TaskScheduler<J> {
    /// A scheduler with no task, stopped and sound.
    pub fn new() -> (scheduler: TaskScheduler<J>)
        ensures
            scheduler@.wf(),
            !scheduler@.running,
            !scheduler@.poisoned,
            scheduler@.entries.len() == 0,
            scheduler@.issued == 0,
    {
        TaskScheduler { running: false, poisoned: false, entries: Vec::new(), next: Some(0) }
    }

    /// Whether a run is active.
    pub fn is_running(&self) -> (running: bool)
        ensures
            running == self@.running,
    {
        self.running
    }

    /// Whether the state has been marked as corrupted.
    pub fn is_poisoned(&self) -> (poisoned: bool)
        ensures
            poisoned == self@.poisoned,
    {
        self.poisoned
    }

    /// The number of registered tasks.
    pub fn task_count(&self) -> (count: usize)
        ensures
            count == self@.entries.len(),
    {
        self.entries.len()
    }

    /// The position of task `id` in the registry.
    fn find(&self, id: usize) -> (found: Option<usize>)
        requires
            self@.wf(),
        ensures
            found is Some <==> self@.contains(id),
            found is Some ==> found->0 == self@.position(id) && found->0 < self.entries.len(),
    {
        let mut k: usize = 0;
        while k < self.entries.len()
            invariant
                self@.wf(),
                k <= self.entries.len(),
                forall|j: int| 0 <= j < k ==> self@.entries[j].id != id,
            decreases self.entries.len() - k,
        {
            if self.entries[k].id == id {
                proof {
                    let p = self@.position(id);
                    assert(self@.entries[k as int].id == id);
                    assert(0 <= p < self@.entries.len() && self@.entries[p].id == id);
                    assert(p == k) by {
                        if p < k {
                            assert(self@.entries[p].id < self@.entries[k as int].id);
                        } else if k < p {
                            assert(self@.entries[k as int].id < self@.entries[p].id);
                        }
                    }
                }
                return Some(k);
            }
            k += 1;
        }
        None
    }

    /// Whether task `id` is registered.
    pub fn has_task(&self, id: usize) -> (present: bool)
        requires
            self@.wf(),
        ensures
            present == self@.contains(id),
    {
        self.find(id).is_some()
    }

    /// The identifier that the next registration would hand out, or `None`
    /// where it would not fit the identifier type.
    pub fn next_task_id(&self) -> (next: Option<usize>)
        ensures
            next is Some <==> self@.next_id() <= usize::MAX,
            next is Some ==> next->0 == self@.next_id(),
    {
        self.next
    }

    /// The job of task `id`, for the caller to start when the task fires.
    pub fn job(&self, id: usize) -> (job: Option<&J>)
        requires
            self@.wf(),
        ensures
            job is Some <==> self@.contains(id),
            job is Some ==> *job->0 == self@.job_of(id),
    {
        match self.find(id) {
            Some(k) => Some(&self.entries[k].job),
            None => None,
        }
    }

    /// Registers, at time `now`, a task that is to run `job` every `interval`
    /// nanoseconds. Its first tick fires. The task receives an identifier
    /// that this scheduler has never issued before, whatever was removed in
    /// between. A corrupted scheduler registers nothing. The new identifier must fit the identifier type, which
    /// `next_task_id` tells.
    pub fn add_task(&mut self, interval: u128, job: J, now: u128) -> (result: Result<
        usize,
        SchedulerError,
    >)
        requires
            old(self)@.wf(),
            old(self)@.poisoned || old(self)@.next_id() <= usize::MAX,
        ensures
            final(self)@.wf(),
            old(self)@.poisoned ==> result == Err::<usize, SchedulerError>(
                SchedulerError::Poisoned,
            ) && final(self)@ == old(self)@,
            !old(self)@.poisoned ==> result == Ok::<usize, SchedulerError>(
                old(self)@.next_id() as usize,
            ) && final(self)@ == old(self)@.with_task(interval as nat, job, now as nat),
            result is Ok ==> forall|k: int|
                0 <= k < old(self)@.entries.len() ==> old(self)@.entries[k].id < result->Ok_0,
            result is Ok ==> final(self)@.contains(result->Ok_0) && !old(self)@.contains(
                result->Ok_0,
            ),
    {
        if self.poisoned {
            return Err(SchedulerError::Poisoned);
        }
        let id: usize = self.next.unwrap();
        self.next = if id == usize::MAX {
            None
        } else {
            Some(id + 1)
        };
        self.entries.push(
            TaskEntry { id, job, worker: TaskWorker::new(interval, now), alive: true },
        );
        assert(self@.entries =~= old(self)@.with_task(interval as nat, job, now as nat).entries);
        assert(self@.entries[self.entries.len() - 1].id == id);
        Ok(id)
    }

    /// Removes the task `id`, so that no later tick reaches it.
    pub fn remove_task(&mut self, id: usize) -> (result: Result<(), SchedulerError>)
        requires
            old(self)@.wf(),
        ensures
            final(self)@.wf(),
            old(self)@.poisoned ==> result == Err::<(), SchedulerError>(SchedulerError::Poisoned),
            !old(self)@.poisoned && !old(self)@.contains(id) ==> result == Err::<
                (),
                SchedulerError,
            >(SchedulerError::NoSuchTask),
            !old(self)@.poisoned && old(self)@.contains(id) ==> result == Ok::<(), SchedulerError>(
                (),
            ),
            result is Err ==> final(self)@ == old(self)@,
            result is Ok ==> final(self)@ == old(self)@.without_task(id),
            result is Ok ==> !final(self)@.contains(id),
    {
        if self.poisoned {
            return Err(SchedulerError::Poisoned);
        }
        match self.find(id) {
            Some(k) => {
                self.entries.remove(k);
                assert(self@.entries =~= old(self)@.without_task(id).entries);
                Ok(())
            },
            None => Err(SchedulerError::NoSuchTask),
        }
    }

    /// Marks the shared state as corrupted: from now on every operation that
    /// needs it fails with `Poisoned`. There is no way back.
    pub fn poison(&mut self)
        ensures
            final(self)@.poisoned,
            final(self)@.running == old(self)@.running,
            final(self)@.entries == old(self)@.entries,
            final(self)@.issued == old(self)@.issued,
    {
        self.poisoned = true;
    }

    /// Records that the worker of task `id` has gone, so that the next
    /// broadcast cannot reach it. Returns whether the task is registered.
    pub fn worker_exited(&mut self, id: usize) -> (known: bool)
        requires
            old(self)@.wf(),
        ensures
            final(self)@.wf(),
            known == old(self)@.contains(id),
            known ==> final(self)@ == old(self)@.with_dead_worker(id),
            !known ==> final(self)@ == old(self)@,
    {
        match self.find(id) {
            Some(k) => {
                self.entries[k].alive = false;
                assert(self@.entries =~= old(self)@.with_dead_worker(id).entries);
                true
            },
            None => false,
        }
    }

    /// Opens a run: checks that none is active and sets the run-state.
    pub fn begin_run(&mut self) -> (result: Result<(), SchedulerError>)
        ensures
            result == old(self)@.begin_run_result(),
            result is Err ==> final(self)@ == old(self)@,
            result is Ok ==> final(self)@ == old(self)@.started(),
    {
        if self.poisoned {
            return Err(SchedulerError::Poisoned);
        }
        if self.running {
            return Err(SchedulerError::AlreadyRunning);
        }
        self.running = true;
        Ok(())
    }

    /// Asks the active run to stop: the next turn of the loop ends it.
    pub fn stop(&mut self) -> (result: Result<(), SchedulerError>)
        ensures
            old(self)@.poisoned ==> result == Err::<(), SchedulerError>(SchedulerError::Poisoned)
                && final(self)@ == old(self)@,
            !old(self)@.poisoned ==> result == Ok::<(), SchedulerError>(()) && final(self)@
                == old(self)@.stopped(),
    {
        if self.poisoned {
            return Err(SchedulerError::Poisoned);
        }
        self.running = false;
        Ok(())
    }

    /// Sends one tick, at time `now`, to every registered task. Each live
    /// worker that is due fires and resets its last run. If a worker is dead
    /// the broadcast fails, yet the live workers have had their tick.
    pub fn broadcast_tick(&mut self, now: u128) -> (report: TickReport)
        requires
            old(self)@.wf(),
        ensures
            final(self)@.wf(),
            old(self)@.poisoned ==> final(self)@ == old(self)@ && report.fired@.len() == 0
                && report.result == Err::<(), SchedulerError>(SchedulerError::Poisoned),
            !old(self)@.poisoned ==> final(self)@ == old(self)@.after_tick(now as nat)
                && report.fired@ == old(self)@.fired(now as nat) && report.result == old(
                self,
            )@.tick_result(),
    {
        let mut fired: Vec<usize> = Vec::new();
        if self.poisoned {
            return TickReport { fired, result: Err(SchedulerError::Poisoned) };
        }
        let n = self.entries.len();
        let mut dead = false;
        let mut i: usize = 0;
        while i < n
            invariant
                i <= n,
                n == self.entries.len(),
                n == old(self).entries.len(),
                self.running == old(self).running,
                self.poisoned == old(self).poisoned,
                self.next == old(self).next,
                forall|k: int|
                    0 <= k < i ==> (#[trigger] self.entries[k])@ == old(self).entries[k]@.after_tick(
                        now as nat,
                    ),
                forall|k: int| i <= k < n ==> (#[trigger] self.entries[k])@ == old(self).entries[k]@,
                fired@ == fired_ids(old(self)@.entries.take(i as int), now as nat),
                dead == (exists|k: int| 0 <= k < i && !(#[trigger] old(self)@.entries[k]).alive),
            decreases n - i,
        {
            proof {
                let prefix = old(self)@.entries.take(i as int + 1);
                assert(prefix.drop_last() =~= old(self)@.entries.take(i as int));
                assert(prefix.last() == old(self)@.entries[i as int]);
            }
            if self.entries[i].alive {
                if self.entries[i].worker.on_tick(now) {
                    fired.push(self.entries[i].id);
                }
            } else {
                assert(!old(self)@.entries[i as int].alive);
                dead = true;
            }
            i += 1;
        }
        proof {
            assert(old(self)@.entries.take(n as int) =~= old(self)@.entries);
            assert(self@.entries =~= old(self)@.after_tick(now as nat).entries);
            assert forall|a: int, b: int| 0 <= a < b < self@.entries.len() implies
                self@.entries[a].id < self@.entries[b].id by {
                assert(old(self)@.entries[a].id < old(self)@.entries[b].id);
            }
            assert forall|k: int| 0 <= k < self@.entries.len() implies (#[trigger] self@.entries[k]).id
                < self@.issued by {
                assert(old(self)@.entries[k].id < old(self)@.issued);
            }
        }
        let result = if dead {
            Err(SchedulerError::ConsumerDied)
        } else {
            Ok(())
        };
        TickReport { fired, result }
    }

    /// One turn of the tick loop at time `now`: a corrupted state aborts the
    /// run, a stopped run-state ends it, and otherwise every task is ticked.
    pub fn step(&mut self, now: u128) -> (step: Step)
        requires
            old(self)@.wf(),
        ensures
            final(self)@.wf(),
            step@ == old(self)@.step_outcome(now as nat),
            final(self)@ == old(self)@.after_step(now as nat),
    {
        if self.poisoned {
            return Step::Abort(SchedulerError::Poisoned, Vec::new());
        }
        if !self.running {
            return Step::Stopped;
        }
        let report = self.broadcast_tick(now);
        match report.result {
            Ok(_) => Step::Continue(report.fired),
            Err(error) => Step::Abort(error, report.fired),
        }
    }

    /// Whether some registered task has lost its worker.
    fn has_dead_worker(&self) -> (dead: bool)
        ensures
            dead == self@.has_dead(),
    {
        let mut k: usize = 0;
        while k < self.entries.len()
            invariant
                k <= self.entries.len(),
                forall|j: int| 0 <= j < k ==> (#[trigger] self@.entries[j]).alive,
            decreases self.entries.len() - k,
        {
            if !self.entries[k].alive {
                assert(!self@.entries[k as int].alive);
                return true;
            }
            k += 1;
        }
        false
    }

    /// Runs the tick loop for `ticks` turns on an even clock: opens a run,
    /// ticks every task at `start` and then once every `resolution`, and
    /// stops. Returns how often each task fired, in registry order. A run
    /// that cannot be opened changes nothing. A dead worker ends the run at
    /// its first tick, which the live workers still receive, and leaves the
    /// run-state as it is.
    pub fn run(&mut self, resolution: u128, start: u128, ticks: usize) -> (result: Result<
        Vec<usize>,
        SchedulerError,
    >)
        requires
            old(self)@.wf(),
            start + ticks * resolution <= u128::MAX,
        ensures
            final(self)@.wf(),
            old(self)@.begin_run_result() is Err ==> final(self)@ == old(self)@ && result is Err
                && Err::<(), SchedulerError>(result->Err_0) == old(self)@.begin_run_result(),
            old(self)@.begin_run_result() is Ok && ticks > 0 && old(self)@.has_dead() ==> result
                == Err::<Vec<usize>, SchedulerError>(SchedulerError::ConsumerDied) && final(self)@
                == old(self)@.started().after_tick(start as nat),
            old(self)@.begin_run_result() is Ok && (ticks == 0 || !old(self)@.has_dead())
                ==> result is Ok && final(self)@ == old(self)@.after_run(
                start as nat,
                resolution as nat,
                ticks as nat,
            ) && result->Ok_0@.len() == old(self)@.entries.len() && (forall|k: int|
                0 <= k < old(self)@.entries.len() ==> (#[trigger] result->Ok_0@[k])
                    == old(self)@.run_counts(start as nat, resolution as nat, ticks as nat)[k]),
    {
        match self.begin_run() {
            Err(error) => {
                return Err(error);
            },
            Ok(_) => {},
        }
        if ticks > 0 && self.has_dead_worker() {
            let _report = self.broadcast_tick(start);
            return Err(SchedulerError::ConsumerDied);
        }
        let n = self.entries.len();
        let mut counts: Vec<usize> = Vec::new();
        let mut k: usize = 0;
        while k < n
            invariant
                k <= n,
                counts.len() == k,
                forall|j: int| 0 <= j < k ==> counts[j] == 0,
                self@ == old(self)@.started(),
                n == self.entries.len(),
                ticks > 0 ==> !old(self)@.has_dead(),
            decreases n - k,
        {
            counts.push(0);
            k += 1;
        }
        let mut t: usize = 0;
        let mut now: u128 = start;
        proof {
            assert(self@.entries.len() == old(self)@.entries.len());
            assert forall|k: int| 0 <= k < n implies (#[trigger] self.entries[k])@ == old(
                self,
            ).entries[k]@ by {
                assert(self@.entries[k] == old(self)@.entries[k]);
            }
        }
        while t < ticks
            invariant
                t <= ticks,
                start + ticks * resolution <= u128::MAX,
                now == tick_time(start as nat, resolution as nat, t as nat),
                n == self.entries.len(),
                n == old(self).entries.len(),
                counts.len() == n,
                self.running,
                self.poisoned == old(self).poisoned,
                self.next == old(self).next,
                ticks > 0 ==> !old(self)@.has_dead(),
                forall|k: int|
                    0 <= k < n ==> (#[trigger] self.entries[k])@ == (EntryView {
                        id: old(self).entries[k]@.id,
                        job: old(self).entries[k]@.job,
                        worker: after_ticks(
                            old(self).entries[k]@.worker,
                            start as nat,
                            resolution as nat,
                            t as nat,
                        ),
                        alive: old(self).entries[k]@.alive,
                    }),
                forall|k: int|
                    0 <= k < n ==> (#[trigger] counts[k]) <= t && counts[k] == firings(
                        old(self).entries[k]@.worker,
                        start as nat,
                        resolution as nat,
                        t as nat,
                    ),
            decreases ticks - t,
        {
            let mut i: usize = 0;
            while i < n
                invariant
                    i <= n,
                    t < ticks,
                    now == tick_time(start as nat, resolution as nat, t as nat),
                    n == self.entries.len(),
                    n == old(self).entries.len(),
                    counts.len() == n,
                    self.running,
                    self.poisoned == old(self).poisoned,
                    self.next == old(self).next,
                    forall|k: int|
                        0 <= k < n ==> (#[trigger] self.entries[k])@ == (EntryView {
                            id: old(self).entries[k]@.id,
                            job: old(self).entries[k]@.job,
                            worker: after_ticks(
                                old(self).entries[k]@.worker,
                                start as nat,
                                resolution as nat,
                                if k < i {
                                    (t + 1) as nat
                                } else {
                                    t as nat
                                },
                            ),
                            alive: old(self).entries[k]@.alive,
                        }),
                    forall|k: int|
                        0 <= k < n ==> (#[trigger] counts[k]) <= t + 1 && (k >= i ==> counts[k]
                            <= t) && counts[k] == firings(
                            old(self).entries[k]@.worker,
                            start as nat,
                            resolution as nat,
                            if k < i {
                                (t + 1) as nat
                            } else {
                                t as nat
                            },
                        ),
                decreases n - i,
            {
                // No worker is dead here, so every entry receives the tick.
                if self.entries[i].worker.on_tick(now) {
                    counts[i] = counts[i] + 1;
                }
                i += 1;
            }
            assert(now + resolution <= start + ticks * resolution) by (nonlinear_arith)
                requires
                    now == start + t * resolution,
                    t < ticks,
                    resolution >= 0,
            ;
            assert(now + resolution == tick_time(start as nat, resolution as nat, (t + 1) as nat))
                by (nonlinear_arith)
                requires
                    now == start + t * resolution,
                    tick_time(start as nat, resolution as nat, (t + 1) as nat) == start + (t + 1)
                        * resolution,
            ;
            now = now + resolution;
            t += 1;
        }
        self.running = false;
        proof {
            let goal = old(self)@.after_run(start as nat, resolution as nat, ticks as nat);
            assert(self@.entries =~= goal.entries);
            assert forall|a: int, b: int| 0 <= a < b < self@.entries.len() implies
                self@.entries[a].id < self@.entries[b].id by {
                assert(old(self)@.entries[a].id < old(self)@.entries[b].id);
            }
            assert forall|k: int| 0 <= k < self@.entries.len() implies (#[trigger] self@.entries[k]).id
                < self@.issued by {
                assert(old(self)@.entries[k].id < old(self)@.issued);
            }
        }
        Ok(counts)
    }
}

} // verus!
