//! Properties of the scheduler that relate several of its operations, each
//! stated over the models that the operations' contracts use.

use vstd::prelude::*;
use crate::errors::SchedulerError;
use crate::scheduler::{fired_ids, EntryView, SchedulerView, StepView};
use crate::worker::{after_ticks, firings, tick_time, WorkerView};

verus! {

/// A task is among those that a tick fires exactly when one of its entries
/// fires.
pub proof fn lemma_fired_ids_contains<J>(entries: Seq<EntryView<J>>, now: nat, id: usize)
    ensures
        fired_ids(entries, now).contains(id) <==> exists|k: int|
            0 <= k < entries.len() && (#[trigger] entries[k]).id == id && entries[k].fires(now),
    decreases entries.len(),
{
    if entries.len() > 0 {
        let rest = entries.drop_last();
        let last = entries.last();
        lemma_fired_ids_contains(rest, now, id);
        let fired_rest = fired_ids(rest, now);
        if fired_ids(entries, now).contains(id) {
            if last.fires(now) && last.id == id {
                assert(entries[entries.len() - 1].id == id);
            } else {
                if last.fires(now) {
                    let pushed = fired_rest.push(last.id);
                    let at = choose|at: int| 0 <= at < pushed.len() && pushed[at] == id;
                    assert(at < fired_rest.len());
                    assert(fired_rest[at] == id);
                }
                assert(fired_rest.contains(id));
                let k = choose|k: int|
                    0 <= k < rest.len() && (#[trigger] rest[k]).id == id && rest[k].fires(now);
                assert(entries[k] == rest[k]);
            }
        }
        if exists|k: int|
            0 <= k < entries.len() && (#[trigger] entries[k]).id == id && entries[k].fires(now) {
            let k = choose|k: int|
                0 <= k < entries.len() && (#[trigger] entries[k]).id == id && entries[k].fires(now);
            if k == entries.len() - 1 {
                let pushed = fired_rest.push(last.id);
                assert(pushed[fired_rest.len() as int] == id);
            } else {
                assert(rest[k] == entries[k]);
                assert(fired_rest.contains(id));
                if last.fires(now) {
                    let at = choose|at: int| 0 <= at < fired_rest.len() && fired_rest[at] == id;
                    assert(fired_rest.push(last.id)[at] == id);
                }
            }
        }
    }
}

/// Registration keeps the registry well formed and hands out an identifier
/// above every registered one, so that registrations with no removal between
/// them receive strictly increasing identifiers.
pub proof fn lemma_sequential_ids_increase<J>(
    s: SchedulerView<J>,
    interval: nat,
    job: J,
    now: nat,
)
    requires
        s.wf(),
        s.next_id() <= usize::MAX,
    ensures
        s.with_task(interval, job, now).wf(),
        s.with_task(interval, job, now).next_id() == s.next_id() + 1,
        forall|k: int| 0 <= k < s.entries.len() ==> (#[trigger] s.entries[k]).id < s.next_id(),
        s.with_task(interval, job, now).contains(s.next_id() as usize),
        !s.contains(s.next_id() as usize),
{
    let t = s.with_task(interval, job, now);
    assert forall|k: int| 0 <= k < s.entries.len() implies (#[trigger] s.entries[k]).id
        < s.next_id() by {
        if k < s.entries.len() - 1 {
            assert(s.entries[k].id < s.entries[s.entries.len() - 1].id);
        }
    }
    assert(t.entries[s.entries.len() as int].id == s.next_id());
}

/// Removing a task keeps the registry well formed and takes away that task
/// alone.
pub proof fn lemma_remove_takes_one<J>(s: SchedulerView<J>, id: usize, other: usize)
    requires
        s.wf(),
        s.contains(id),
    ensures
        s.without_task(id).wf(),
        !s.without_task(id).contains(id),
        other != id ==> (s.without_task(id).contains(other) <==> s.contains(other)),
{
    let p = s.position(id);
    let t = s.without_task(id);
    assert forall|k: int| 0 <= k < t.entries.len() implies (#[trigger] t.entries[k]).id != id by {
        if k < p {
            assert(t.entries[k] == s.entries[k]);
            assert(s.entries[k].id < s.entries[p].id);
        } else {
            assert(t.entries[k] == s.entries[k + 1]);
            assert(s.entries[p].id < s.entries[k + 1].id);
        }
    }
    assert forall|i: int, j: int|
        #![trigger t.entries[i], t.entries[j]]
        0 <= i < j < t.entries.len() implies t.entries[i].id < t.entries[j].id by {
        let a = if i < p { i } else { i + 1 };
        let b = if j < p { j } else { j + 1 };
        assert(t.entries[i] == s.entries[a]);
        assert(t.entries[j] == s.entries[b]);
        assert(s.entries[a].id < s.entries[b].id);
    }
    if other != id {
        if s.contains(other) {
            let k = choose|k: int| 0 <= k < s.entries.len() && (#[trigger] s.entries[k]).id == other;
            let a = if k < p { k } else { k - 1 };
            assert(t.entries[a] == s.entries[k]);
            assert(t.entries[a].id == other);
        }
        if t.contains(other) {
            let k = choose|k: int| 0 <= k < t.entries.len() && (#[trigger] t.entries[k]).id == other;
            let a = if k < p { k } else { k + 1 };
            assert(s.entries[a] == t.entries[k]);
            assert(s.entries[a].id == other);
        }
    }
}

/// Removal returns no identifier to the pool: after the removal of any task
/// the next registration still receives an identifier above the removed one
/// and above every one that was registered beside it.
pub proof fn lemma_id_fresh_after_removal<J>(s: SchedulerView<J>, id: usize)
    requires
        s.wf(),
        s.contains(id),
    ensures
        s.without_task(id).next_id() == s.next_id(),
        id < s.without_task(id).next_id(),
        forall|k: int|
            0 <= k < s.entries.len() ==> (#[trigger] s.entries[k]).id < s.without_task(
                id,
            ).next_id(),
{
    let p = s.position(id);
    assert(s.entries[p].id == id);
}

/// One operation on a scheduler, with its arguments.
pub enum Operation<J> {
    AddTask { interval: nat, job: J, now: nat },
    RemoveTask { id: usize },
    BroadcastTick { now: nat },
    Step { now: nat },
    BeginRun,
    Stop,
    WorkerExited { id: usize },
    Poison,
}

/// The scheduler after one operation, as the operation's contract gives it.
pub open spec fn after_operation<J>(s: SchedulerView<J>, operation: Operation<J>) -> SchedulerView<
    J,
> {
    match operation {
        Operation::AddTask { interval, job, now } => if s.poisoned {
            s
        } else {
            s.with_task(interval, job, now)
        },
        Operation::RemoveTask { id } => if s.poisoned || !s.contains(id) {
            s
        } else {
            s.without_task(id)
        },
        Operation::BroadcastTick { now } => if s.poisoned {
            s
        } else {
            s.after_tick(now)
        },
        Operation::Step { now } => s.after_step(now),
        Operation::BeginRun => if s.begin_run_result() is Ok {
            s.started()
        } else {
            s
        },
        Operation::Stop => if s.poisoned {
            s
        } else {
            s.stopped()
        },
        Operation::WorkerExited { id } => if s.contains(id) {
            s.with_dead_worker(id)
        } else {
            s
        },
        Operation::Poison => SchedulerView {
            running: s.running,
            poisoned: true,
            entries: s.entries,
            issued: s.issued,
        },
    }
}

/// The scheduler after a sequence of operations, first to last.
pub open spec fn after_operations<J>(
    s: SchedulerView<J>,
    operations: Seq<Operation<J>>,
) -> SchedulerView<J>
    decreases operations.len(),
{
    if operations.len() == 0 {
        s
    } else {
        after_operation(after_operations(s, operations.drop_last()), operations.last())
    }
}

/// No sequence of operations lowers the next identifier.
pub proof fn lemma_next_id_never_falls<J>(s: SchedulerView<J>, operations: Seq<Operation<J>>)
    ensures
        after_operations(s, operations).next_id() >= s.next_id(),
    decreases operations.len(),
{
    if operations.len() > 0 {
        lemma_next_id_never_falls(s, operations.drop_last());
    }
}

/// An identifier is never issued twice: whatever is registered, removed, run
/// or stopped after a registration, every later registration receives an
/// identifier above the one that this registration received.
pub proof fn lemma_id_never_reused<J>(
    s: SchedulerView<J>,
    interval: nat,
    job: J,
    now: nat,
    operations: Seq<Operation<J>>,
)
    requires
        !s.poisoned,
    ensures
        after_operations(s.with_task(interval, job, now), operations).next_id() > s.next_id(),
{
    lemma_next_id_never_falls(s.with_task(interval, job, now), operations);
}

/// Once a task is removed no tick fires it, while every other task fires on
/// exactly the ticks on which it would have fired.
pub proof fn lemma_removal_halts_only_that_task<J>(
    s: SchedulerView<J>,
    id: usize,
    other: usize,
    now: nat,
)
    requires
        s.wf(),
        s.contains(id),
    ensures
        !s.without_task(id).fired(now).contains(id),
        other != id ==> (s.without_task(id).fired(now).contains(other) <==> s.fired(now).contains(
            other,
        )),
{
    let p = s.position(id);
    let t = s.without_task(id);
    lemma_remove_takes_one(s, id, other);
    lemma_fired_ids_contains(t.entries, now, id);
    lemma_fired_ids_contains(t.entries, now, other);
    lemma_fired_ids_contains(s.entries, now, other);
    if other != id {
        if s.fired(now).contains(other) {
            let k = choose|k: int|
                0 <= k < s.entries.len() && (#[trigger] s.entries[k]).id == other
                    && s.entries[k].fires(now);
            let a = if k < p { k } else { k - 1 };
            assert(t.entries[a] == s.entries[k]);
        }
        if t.fired(now).contains(other) {
            let k = choose|k: int|
                0 <= k < t.entries.len() && (#[trigger] t.entries[k]).id == other
                    && t.entries[k].fires(now);
            let a = if k < p { k } else { k + 1 };
            assert(s.entries[a] == t.entries[k]);
        }
    }
}

/// While a run is active a second request to run is refused.
pub proof fn lemma_second_run_refused<J>(s: SchedulerView<J>)
    requires
        s.begin_run_result() is Ok,
    ensures
        s.started().begin_run_result() == Err::<(), SchedulerError>(SchedulerError::AlreadyRunning),
{
}

/// Once the run-state is flipped to stopped, the next turn of the loop ends
/// the run, fires nothing and leaves the scheduler as it is.
pub proof fn lemma_stop_ends_run<J>(s: SchedulerView<J>, now: nat)
    requires
        !s.poisoned,
    ensures
        s.stopped().step_outcome(now) == StepView::Stopped,
        s.stopped().after_step(now) == s.stopped(),
{
}

/// The first tick at or after a task's registration fires it.
pub proof fn lemma_first_tick_fires(interval: nat, registered: nat, now: nat)
    requires
        registered <= now,
    ensures
        WorkerView::fresh(interval, registered).due(now),
{
}

/// Two firings of one task are at least an interval apart, and, where the
/// ticks follow each other within one resolution, less than an interval and
/// a resolution apart. Here `previous` and `now` are consecutive ticks and
/// `w` is the worker before the first of them.
pub proof fn lemma_firing_spacing(w: WorkerView, previous: nat, now: nat, resolution: nat)
    requires
        w.interval > 0,
        previous <= now,
        now - previous <= resolution,
        w.after_tick(previous).due(now),
    ensures
        w.interval <= now - w.after_tick(previous).last_run,
        now - w.after_tick(previous).last_run < w.interval + resolution,
{
}

/// A task whose interval does not exceed the gap between two consecutive
/// ticks fires on the second of them.
pub proof fn lemma_short_interval_fires_every_tick(w: WorkerView, previous: nat, now: nat)
    requires
        w.last_run <= previous,
        previous <= now,
        w.interval <= now - previous,
    ensures
        w.after_tick(previous).due(now),
{
}

/// After a due tick the worker is due again exactly when a full interval has
/// passed since that tick.
pub proof fn lemma_tick_resets_wait(w: WorkerView, now: nat, later: nat)
    requires
        w.interval > 0,
        w.due(now),
        now <= later,
    ensures
        w.after_tick(now).due(later) <==> later - now >= w.interval,
{
}

/// A tick changes no identifier and no worker's liveness, so it keeps the
/// registry well formed and registers or removes nothing.
pub proof fn lemma_tick_keeps_registry<J>(s: SchedulerView<J>, now: nat, id: usize)
    requires
        s.wf(),
    ensures
        s.after_tick(now).wf(),
        s.after_tick(now).contains(id) <==> s.contains(id),
        s.after_tick(now).has_dead() <==> s.has_dead(),
{
    let t = s.after_tick(now);
    assert forall|i: int, j: int|
        #![trigger t.entries[i], t.entries[j]]
        0 <= i < j < t.entries.len() implies t.entries[i].id < t.entries[j].id by {
        assert(s.entries[i].id < s.entries[j].id);
    }
    if s.contains(id) {
        let k = choose|k: int| 0 <= k < s.entries.len() && (#[trigger] s.entries[k]).id == id;
        assert(t.entries[k].id == id);
    }
    if t.contains(id) {
        let k = choose|k: int| 0 <= k < t.entries.len() && (#[trigger] t.entries[k]).id == id;
        assert(s.entries[k].id == id);
    }
    if s.has_dead() {
        let k = choose|k: int| 0 <= k < s.entries.len() && !(#[trigger] s.entries[k]).alive;
        assert(!t.entries[k].alive);
    }
    if t.has_dead() {
        let k = choose|k: int| 0 <= k < t.entries.len() && !(#[trigger] t.entries[k]).alive;
        assert(!s.entries[k].alive);
    }
}

/// The timing of a registered task under the tick loop: where the task in
/// place `k` of the registry fires on a tick that follows the previous one
/// within a resolution, its last firing lies at least an interval and less
/// than an interval and a resolution back.
pub proof fn lemma_task_firing_spacing<J>(
    s: SchedulerView<J>,
    k: int,
    previous: nat,
    now: nat,
    resolution: nat,
)
    requires
        0 <= k < s.entries.len(),
        s.entries[k].worker.interval > 0,
        previous <= now,
        now - previous <= resolution,
        s.after_tick(previous).entries[k].fires(now),
    ensures
        s.entries[k].worker.interval <= now - s.after_tick(previous).entries[k].worker.last_run,
        now - s.after_tick(previous).entries[k].worker.last_run < s.entries[k].worker.interval
            + resolution,
{
    lemma_firing_spacing(s.entries[k].worker, previous, now, resolution);
}

/// Under evenly spaced ticks a task fires on every `m`-th tick, where `m`
/// resolutions are the least whole number of them that cover its interval:
/// after `q * m + p` ticks, with `p` from one to `m`, it has fired `q + 1`
/// times, the last time on the tick with index `q * m`.
pub proof fn lemma_fires_every_mth_tick(
    interval: nat,
    registered: nat,
    start: nat,
    resolution: nat,
    m: nat,
    q: nat,
    p: nat,
)
    requires
        registered <= start,
        m >= 1,
        (m - 1) * resolution < interval <= m * resolution,
        1 <= p <= m,
    ensures
        firings(WorkerView::fresh(interval, registered), start, resolution, q * m + p) == q + 1,
        after_ticks(WorkerView::fresh(interval, registered), start, resolution, q * m + p)
            == (WorkerView { interval, last_run: tick_time(start, resolution, q * m) as int }),
    decreases q, p,
{
    let w = WorkerView::fresh(interval, registered);
    let count = q * m + p;
    let index = (count - 1) as nat;
    let now = tick_time(start, resolution, index);
    let before = after_ticks(w, start, resolution, index);
    assert(q * m >= 0) by (nonlinear_arith)
        requires
            q >= 0,
            m >= 0,
    ;
    if p == 1 {
        assert(index == q * m);
        if q == 0 {
            assert(index == 0) by (nonlinear_arith)
                requires
                    index == q * m,
                    q == 0,
            ;
            assert(before == w);
            assert(now == start) by (nonlinear_arith)
                requires
                    now == start + index * resolution,
                    index == 0,
            ;
            assert(w.due(now));
            assert(firings(w, start, resolution, 0) == 0);
        } else {
            let earlier = (q - 1) as nat;
            lemma_fires_every_mth_tick(interval, registered, start, resolution, m, earlier, m);
            assert(earlier * m + m == index) by (nonlinear_arith)
                requires
                    earlier == q - 1,
                    index == q * m,
            ;
            assert(now - tick_time(start, resolution, earlier * m) == m * resolution)
                by (nonlinear_arith)
                requires
                    now == start + index * resolution,
                    tick_time(start, resolution, earlier * m) == start + (earlier * m)
                        * resolution,
                    earlier * m + m == index,
            ;
            assert(before.due(now));
        }
    } else {
        let less = (p - 1) as nat;
        lemma_fires_every_mth_tick(interval, registered, start, resolution, m, q, less);
        assert(q * m + less == index);
        assert(now - tick_time(start, resolution, q * m) == less * resolution)
            by (nonlinear_arith)
            requires
                now == start + index * resolution,
                tick_time(start, resolution, q * m) == start + (q * m) * resolution,
                q * m + less == index,
        ;
        assert(less * resolution <= (m - 1) * resolution) by (nonlinear_arith)
            requires
                less <= m - 1,
                resolution >= 0,
        ;
        assert(!before.due(now));
    }
}

/// A whole run is its ticks one after the other: where no worker is dead, a
/// run of one more tick leaves the registry as one more broadcast would, and
/// counts one more firing for exactly the tasks that this broadcast fires.
pub proof fn lemma_run_is_repeated_ticks<J>(
    s: SchedulerView<J>,
    start: nat,
    resolution: nat,
    count: nat,
    k: int,
)
    requires
        !s.has_dead(),
        0 <= k < s.entries.len(),
    ensures
        s.after_run(start, resolution, count + 1).entries == s.after_run(
            start,
            resolution,
            count,
        ).after_tick(tick_time(start, resolution, count)).entries,
        s.run_counts(start, resolution, count + 1)[k] == s.run_counts(start, resolution, count)[k]
            + (if s.after_run(start, resolution, count).entries[k].fires(
            tick_time(start, resolution, count),
        ) {
            1nat
        } else {
            0nat
        }),
        s.after_run(start, resolution, 0).entries == s.entries,
        s.run_counts(start, resolution, 0)[k] == 0,
{
    let before = s.after_run(start, resolution, count);
    let now = tick_time(start, resolution, count);
    assert forall|j: int| 0 <= j < s.entries.len() implies (#[trigger] s.entries[j]).alive by {}
    assert(s.after_run(start, resolution, count + 1).entries =~= before.after_tick(now).entries);
    assert(s.after_run(start, resolution, 0).entries =~= s.entries);
}

/// The firing count of a whole run: a task registered at or before the first
/// tick, whose interval is covered by `m` resolutions and by no fewer, has
/// fired `q + 1` times after a run of `q * m + p` ticks, `p` from one to `m`.
pub proof fn lemma_run_count_of_task<J>(
    s: SchedulerView<J>,
    k: int,
    registered: nat,
    start: nat,
    resolution: nat,
    m: nat,
    q: nat,
    p: nat,
)
    requires
        0 <= k < s.entries.len(),
        s.entries[k].worker == WorkerView::fresh(s.entries[k].worker.interval, registered),
        registered <= start,
        m >= 1,
        (m - 1) * resolution < s.entries[k].worker.interval <= m * resolution,
        1 <= p <= m,
    ensures
        s.run_counts(start, resolution, q * m + p)[k] == q + 1,
{
    lemma_fires_every_mth_tick(
        s.entries[k].worker.interval,
        registered,
        start,
        resolution,
        m,
        q,
        p,
    );
}

} // verus!
