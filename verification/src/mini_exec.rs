//! A minimal executor for platform tasks: a fixed number of task slots, a
//! millisecond clock that the platform advances, and tasks that sleep until
//! a deadline or until they are woken.
use vstd::prelude::*;

use crate::callback::CommandResult;
use crate::job::{PlatformJob, PlatformRuntime};
use crate::time::{Clock, Duration, Instant};
use crate::{Poll, ReturnCodes};

verus! {

/// The poll function of a task. The executor calls it with the task's
/// context each time it polls a task that is ready; it answers `Ready` with
/// the task's result once the task has finished, else `Pending`.
///
/// The handle is opaque to the library's specifications: the library only
/// copies it and hands it to `run_task`, the one place where it is called.
#[verifier::external_body]
pub struct MiniTaskPoll(pub fn(&mut MiniTaskContext) -> Poll<CommandResult>);

impl Clone for MiniTaskPoll {
    /// Copies the function pointer that the handle holds.
    #[verifier::external_body]
    fn clone(&self) -> (r: Self)
        ensures
            r == *self,
    {
        MiniTaskPoll(self.0)
    }
}

impl Copy for MiniTaskPoll {}

/// Calls the task's poll function (code of the executor's user) on the
/// context. Nothing is promised of what it answers, nor of the state,
/// value, readiness and deadline it leaves in the context: the executor
/// takes in whatever comes back.
#[verifier::external_body]
fn run_task(poll: MiniTaskPoll, context: &mut MiniTaskContext) -> (r: Poll<CommandResult>) {
    (poll.0)(context)
}

/// What a task holds, as plain values.
pub struct TaskView {
    pub job: PlatformJob,
    pub name: &'static str,
    pub state: i32,
    pub value: i64,
    pub poll: MiniTaskPoll,
    /// The task is to be polled.
    pub ready: bool,
    /// The task has finished.
    pub done: bool,
    /// When a sleeping task is to be woken, in executor milliseconds.
    pub deadline_ms: Option<u64>,
    /// The result the task finished with.
    pub result: Option<CommandResult>,
}

/// What a task context holds, as plain values.
pub struct ContextView {
    pub job: PlatformJob,
    pub name: &'static str,
    pub now_ms: u64,
    pub state: i32,
    pub value: i64,
    pub ready: bool,
    pub deadline_ms: Option<u64>,
}

impl TaskView {
    /// A task as `spawn` files it: ready, not finished, no deadline.
    pub open spec fn fresh(job: PlatformJob, name: &'static str, poll: MiniTaskPoll) -> TaskView {
        TaskView {
            job,
            name,
            state: 0,
            value: 0,
            poll,
            ready: true,
            done: false,
            deadline_ms: None,
            result: None,
        }
    }

    /// Not finished.
    pub open spec fn is_live(self) -> bool {
        !self.done
    }

    /// Not finished, and due to be polled.
    pub open spec fn is_runnable(self) -> bool {
        !self.done && self.ready
    }

    /// Not finished, and its deadline has come at `now_ms`.
    pub open spec fn is_expired(self, now_ms: u64) -> bool {
        !self.done && (self.deadline_ms matches Some(d) && d <= now_ms)
    }

    /// The task made ready, its deadline cleared.
    pub open spec fn woken(self) -> TaskView {
        TaskView { ready: true, deadline_ms: None, ..self }
    }

    /// A task is finished exactly when it holds a result, a finished task
    /// has no deadline, and a task with a deadline is not ready.
    pub open spec fn is_consistent(self) -> bool {
        &&& (self.done <==> self.result is Some)
        &&& self.done ==> self.deadline_ms is None
        &&& self.deadline_ms is Some ==> !self.ready
    }

    /// The task after a run of its poll function that left the context at
    /// `context` and answered `answer`: it takes the context's state, value,
    /// readiness and deadline; `Ready` finishes it with that result and
    /// clears its deadline.
    pub open spec fn recorded(self, context: ContextView, answer: Poll<CommandResult>) -> TaskView {
        match answer {
            Poll::Ready(r) => TaskView {
                state: context.state,
                value: context.value,
                ready: context.ready,
                done: true,
                result: Some(r),
                deadline_ms: None,
                ..self
            },
            Poll::Pending => TaskView {
                state: context.state,
                value: context.value,
                ready: context.ready,
                deadline_ms: context.deadline_ms,
                ..self
            },
        }
    }

    /// `after` is what one run of the task's poll function, answering
    /// `answer`, can leave: the same job, name and poll function; `Ready`
    /// finishes the task with that result and clears its deadline; `Pending`
    /// leaves it unfinished. State, value, readiness and (while pending) the
    /// deadline are what the poll function chose, where a task left with a
    /// deadline is not ready.
    pub open spec fn ran(self, after: TaskView, answer: Poll<CommandResult>) -> bool {
        &&& after.job == self.job
        &&& after.name == self.name
        &&& after.poll == self.poll
        &&& after.deadline_ms is Some ==> !after.ready
        &&& match answer {
            Poll::Ready(r) => after.done && after.result == Some(r) && after.deadline_ms is None,
            Poll::Pending => after.done == self.done && after.result == self.result,
        }
    }
}

pub open spec fn holds_job(slot: Option<TaskView>, job: PlatformJob) -> bool {
    slot matches Some(task) && task.job == job
}

/// Slot `i` is the first that holds a task of the job.
pub open spec fn is_first_with(slots: Seq<Option<TaskView>>, job: PlatformJob, i: int) -> bool {
    &&& 0 <= i < slots.len()
    &&& holds_job(slots[i], job)
    &&& forall|k: int| 0 <= k < i ==> !holds_job(#[trigger] slots[k], job)
}

pub open spec fn contains_job(slots: Seq<Option<TaskView>>, job: PlatformJob) -> bool {
    exists|i: int| 0 <= i < slots.len() && holds_job(#[trigger] slots[i], job)
}

/// Slot `i` is the first empty one.
pub open spec fn is_first_free(slots: Seq<Option<TaskView>>, i: int) -> bool {
    &&& 0 <= i < slots.len()
    &&& slots[i] is None
    &&& forall|k: int| 0 <= k < i ==> (#[trigger] slots[k]) is Some
}

pub open spec fn has_free(slots: Seq<Option<TaskView>>) -> bool {
    exists|i: int| 0 <= i < slots.len() && (#[trigger] slots[i]) is None
}

pub open spec fn is_runnable_slot(slot: Option<TaskView>) -> bool {
    slot matches Some(task) && task.is_runnable()
}

pub open spec fn is_live_slot(slot: Option<TaskView>) -> bool {
    slot matches Some(task) && task.is_live()
}

pub open spec fn is_done_slot(slot: Option<TaskView>) -> bool {
    slot matches Some(task) && task.done
}

pub open spec fn is_consistent_slot(slot: Option<TaskView>) -> bool {
    slot matches Some(task) ==> task.is_consistent()
}

/// Every task in the slots is consistent.
pub open spec fn all_consistent(slots: Seq<Option<TaskView>>) -> bool {
    forall|i: int| 0 <= i < slots.len() ==> is_consistent_slot(#[trigger] slots[i])
}

/// The slot once the clock reads `now_ms`: an expired task is woken.
pub open spec fn expired_slot(slot: Option<TaskView>, now_ms: u64) -> Option<TaskView> {
    match slot {
        Some(task) => if task.is_expired(now_ms) {
            Some(task.woken())
        } else {
            slot
        },
        None => None,
    }
}

/// All slots once the clock reads `now_ms`.
pub open spec fn expire_all(slots: Seq<Option<TaskView>>, now_ms: u64) -> Seq<Option<TaskView>> {
    Seq::new(slots.len(), |i: int| expired_slot(slots[i], now_ms))
}

/// The deadline of a live task in the slot.
pub open spec fn live_deadline(slot: Option<TaskView>) -> Option<u64> {
    match slot {
        Some(task) => if task.done {
            None
        } else {
            task.deadline_ms
        },
        None => None,
    }
}

/// `r` is the earliest deadline of a live task, `None` if no live task has one.
pub open spec fn is_earliest_deadline(slots: Seq<Option<TaskView>>, r: Option<u64>) -> bool {
    match r {
        None => forall|i: int| 0 <= i < slots.len() ==> (#[trigger] live_deadline(slots[i])) is None,
        Some(d) => {
            &&& exists|i: int| 0 <= i < slots.len() && #[trigger] live_deadline(slots[i]) == Some(d)
            &&& forall|i: int|
                0 <= i < slots.len() ==> (#[trigger] live_deadline(slots[i]) matches Some(e)
                    ==> d <= e)
        },
    }
}

/// The number of runnable tasks in the slots.
pub open spec fn count_runnable(slots: Seq<Option<TaskView>>) -> nat
    decreases slots.len(),
{
    if slots.len() == 0 {
        0
    } else {
        count_runnable(slots.drop_last()) + if is_runnable_slot(slots.last()) {
            1nat
        } else {
            0nat
        }
    }
}

/// One poll of a slot, which answered `answer` and left `after`: an empty
/// slot answers `NotFound`; a known result is answered again; a finished
/// task without a result fails; a task that is not ready stays pending;
/// a ready task is run (see `TaskView::ran`). Only a run changes the slot.
pub open spec fn poll_step(
    before: Option<TaskView>,
    after: Option<TaskView>,
    answer: Poll<CommandResult>,
) -> bool {
    match before {
        None => answer == Poll::<CommandResult>::Ready(Err(ReturnCodes::NotFound)) && after
            == before,
        Some(task) => match task.result {
            Some(res) => answer == Poll::Ready(res) && after == before,
            None => if task.done {
                answer == Poll::<CommandResult>::Ready(Err(ReturnCodes::Failed)) && after == before
            } else if !task.ready {
                answer == Poll::<CommandResult>::Pending && after == before
            } else {
                after matches Some(a) && task.ran(a, answer)
            },
        },
    }
}

/// A task: its job handle, name, a state and a value that its poll function
/// keeps between polls, and what the executor knows of it.
#[derive(Clone, Copy)]
pub struct MiniTask {
    pub job: PlatformJob,
    pub name: &'static str,
    pub state: i32,
    pub value: i64,
    poll: MiniTaskPoll,
    ready: bool,
    done: bool,
    deadline_ms: Option<u64>,
    result: Option<CommandResult>,
}

impl View for MiniTask {
    type V = TaskView;

    closed spec fn view(&self) -> TaskView {
        TaskView {
            job: self.job,
            name: self.name,
            state: self.state,
            value: self.value,
            poll: self.poll,
            ready: self.ready,
            done: self.done,
            deadline_ms: self.deadline_ms,
            result: self.result,
        }
    }
}

pub open spec fn opt_view(slot: Option<MiniTask>) -> Option<TaskView> {
    match slot {
        Some(task) => Some(task@),
        None => None,
    }
}

impl MiniTask {
    pub fn new(job: PlatformJob, name: &'static str, poll: MiniTaskPoll) -> (t: Self)
        ensures
            t@ == TaskView::fresh(job, name, poll),
    {
        MiniTask {
            job,
            name,
            state: 0,
            value: 0,
            poll,
            ready: true,
            done: false,
            deadline_ms: None,
            result: None,
        }
    }

    pub fn is_ready(&self) -> (b: bool)
        ensures
            b == self@.ready,
    {
        self.ready
    }

    pub fn is_done(&self) -> (b: bool)
        ensures
            b == self@.done,
    {
        self.done
    }

    pub fn deadline_ms(&self) -> (d: Option<u64>)
        ensures
            d == self@.deadline_ms,
    {
        self.deadline_ms
    }

    pub fn result(&self) -> (r: Option<CommandResult>)
        ensures
            r == self@.result,
    {
        self.result
    }

    /// Takes in what a run of the poll function left and answered: see
    /// `TaskView::recorded`.
    pub(crate) fn record_poll(&mut self, context: &MiniTaskContext, answer: Poll<CommandResult>) -> (r:
        Poll<CommandResult>)
        ensures
            final(self)@ == old(self)@.recorded(context@, answer),
            r == answer,
    {
        self.state = context.state;
        self.value = context.value;
        self.ready = context.ready;
        match answer {
            Poll::Ready(result) => {
                self.done = true;
                self.result = Some(result);
                self.deadline_ms = None;
                Poll::Ready(result)
            },
            Poll::Pending => {
                self.deadline_ms = context.deadline_ms;
                Poll::Pending
            },
        }
    }
}

/// What a task's poll function works on: the task's job, name, state and
/// value, the executor's clock, and the task's readiness and deadline, which
/// decide when it is polled next.
pub struct MiniTaskContext {
    job: PlatformJob,
    name: &'static str,
    now_ms: u64,
    state: i32,
    value: i64,
    ready: bool,
    deadline_ms: Option<u64>,
}

impl View for MiniTaskContext {
    type V = ContextView;

    closed spec fn view(&self) -> ContextView {
        ContextView {
            job: self.job,
            name: self.name,
            now_ms: self.now_ms,
            state: self.state,
            value: self.value,
            ready: self.ready,
            deadline_ms: self.deadline_ms,
        }
    }
}

impl MiniTaskContext {
    /// A context with a deadline is not ready: only `wake` and the `sleep`
    /// methods change either, and they set both.
    #[verifier::type_invariant]
    spec fn inv(self) -> bool {
        self.deadline_ms is Some ==> !self.ready
    }

    fn new(task: &MiniTask, now_ms: u64) -> (c: Self)
        requires
            task@.deadline_ms is Some ==> !task@.ready,
        ensures
            c@ == (ContextView {
                job: task@.job,
                name: task@.name,
                now_ms,
                state: task@.state,
                value: task@.value,
                ready: task@.ready,
                deadline_ms: task@.deadline_ms,
            }),
    {
        MiniTaskContext {
            job: task.job,
            name: task.name,
            now_ms,
            state: task.state,
            value: task.value,
            ready: task.ready,
            deadline_ms: task.deadline_ms,
        }
    }

    pub fn job(&self) -> (j: PlatformJob)
        ensures
            j == self@.job,
    {
        self.job
    }

    pub fn name(&self) -> (n: &'static str)
        ensures
            n == self@.name,
    {
        self.name
    }

    pub fn now_ms(&self) -> (m: u64)
        ensures
            m == self@.now_ms,
    {
        self.now_ms
    }

    pub fn now(&self) -> (i: Instant)
        ensures
            i@ == self@.now_ms,
    {
        Instant::from_millis(self.now_ms)
    }

    pub fn state(&self) -> (s: i32)
        ensures
            s == self@.state,
    {
        self.state
    }

    pub fn set_state(&mut self, state: i32)
        ensures
            final(self)@ == (ContextView { state, ..old(self)@ }),
    {
        proof {
            use_type_invariant(&*self);
        }
        self.state = state;
    }

    pub fn value(&self) -> (v: i64)
        ensures
            v == self@.value,
    {
        self.value
    }

    pub fn set_value(&mut self, value: i64)
        ensures
            final(self)@ == (ContextView { value, ..old(self)@ }),
    {
        proof {
            use_type_invariant(&*self);
        }
        self.value = value;
    }

    /// Makes the task ready to be polled again, dropping its deadline.
    pub fn wake(&mut self)
        ensures
            final(self)@ == (ContextView { ready: true, deadline_ms: None, ..old(self)@ }),
    {
        self.deadline_ms = None;
        self.ready = true;
    }

    /// Puts the task to sleep until the executor's clock reaches `deadline_ms`.
    pub fn sleep_until(&mut self, deadline_ms: u64)
        ensures
            final(self)@ == (ContextView {
                ready: false,
                deadline_ms: Some(deadline_ms),
                ..old(self)@
            }),
    {
        self.ready = false;
        self.deadline_ms = Some(deadline_ms);
    }

    pub fn sleep_until_instant(&mut self, deadline: Instant)
        ensures
            final(self)@ == (ContextView {
                ready: false,
                deadline_ms: Some(deadline@),
                ..old(self)@
            }),
    {
        self.sleep_until(deadline.as_millis());
    }

    /// Puts the task to sleep for `delay_ms` from now; the deadline wraps
    /// around the end of the `u64` range.
    pub fn sleep_for(&mut self, delay_ms: u64)
        ensures
            final(self)@ == (ContextView {
                ready: false,
                deadline_ms: Some(vstd::wrapping::u64_specs::wrapping_add(old(self)@.now_ms, delay_ms)),
                ..old(self)@
            }),
    {
        self.sleep_until(self.now_ms.wrapping_add(delay_ms));
    }

    pub fn sleep_for_duration(&mut self, delay: Duration)
        ensures
            final(self)@ == (ContextView {
                ready: false,
                deadline_ms: Some(vstd::wrapping::u64_specs::wrapping_add(old(self)@.now_ms, delay@)),
                ..old(self)@
            }),
    {
        self.sleep_for(delay.as_millis());
    }
}

/// The id handed out after `id`: the next one, where `0` is skipped when the
/// counter wraps.
pub open spec fn next_task_id(id: u64) -> u64 {
    if id == u64::MAX {
        1
    } else {
        (id + 1) as u64
    }
}

/// Spawning a task of that name and poll function into the slots `before`
/// whose next id is `before_id` leaves `after`, `after_id` and answers `r`:
/// a fresh task goes into the first free slot under `before_id` and the id
/// moves on; with no free slot the answer is `JobsFull` and nothing changes.
pub open spec fn spawns(
    before: Seq<Option<TaskView>>,
    before_id: u64,
    name: &'static str,
    poll: MiniTaskPoll,
    after: Seq<Option<TaskView>>,
    after_id: u64,
    r: Result<PlatformJob, ReturnCodes>,
) -> bool {
    let job = PlatformJob { id: before_id };
    if has_free(before) {
        &&& r == Ok::<PlatformJob, ReturnCodes>(job)
        &&& exists|i: int|
            is_first_free(before, i) && after == before.update(
                i,
                Some(TaskView::fresh(job, name, poll)),
            )
        &&& after_id == next_task_id(before_id)
    } else {
        &&& r == Err::<PlatformJob, ReturnCodes>(ReturnCodes::JobsFull)
        &&& after == before
        &&& after_id == before_id
    }
}

/// The slots with every finished task removed.
pub open spec fn without_done(slots: Seq<Option<TaskView>>) -> Seq<Option<TaskView>> {
    Seq::new(
        slots.len(),
        |i: int|
            if is_done_slot(slots[i]) {
                None
            } else {
                slots[i]
            },
    )
}

/// The slot was polled once, with some answer.
pub open spec fn was_polled(before: Option<TaskView>, after: Option<TaskView>) -> bool {
    exists|answer: Poll<CommandResult>| poll_step(before, after, answer)
}

/// A fixed number of task slots, the id the next task will get, and the
/// clock in milliseconds.
pub struct MiniExecutor<const CAPACITY: usize> {
    tasks: Vec<Option<MiniTask>>,
    next_id: u64,
    now_ms: u64,
}

impl<const CAPACITY: usize> MiniExecutor<CAPACITY> {
    #[verifier::type_invariant]
    spec fn inv(self) -> bool {
        &&& self.tasks@.len() == CAPACITY
        &&& self.next_id >= 1
    }

    /// The slots, in order; `None` is a free slot.
    pub closed spec fn slots(&self) -> Seq<Option<TaskView>> {
        Seq::new(CAPACITY as nat, |i: int| opt_view(self.tasks@[i]))
    }

    /// The job id the next spawned task will get.
    pub closed spec fn upcoming_id(&self) -> u64 {
        self.next_id
    }

    /// The executor's clock, in milliseconds.
    pub closed spec fn clock_ms(&self) -> u64 {
        self.now_ms
    }

    /// There are `CAPACITY` slots.
    pub proof fn lemma_slot_count(&self)
        ensures
            self.slots().len() == CAPACITY,
    {
    }

    pub fn new() -> (e: Self)
        ensures
            e.slots() == Seq::new(CAPACITY as nat, |i: int| None::<TaskView>),
            e.upcoming_id() == 1,
            e.clock_ms() == 0,
            all_consistent(e.slots()),
    {
        let mut tasks: Vec<Option<MiniTask>> = Vec::new();
        while tasks.len() < CAPACITY
            invariant
                tasks@.len() <= CAPACITY,
                forall|k: int| 0 <= k < tasks@.len() ==> (#[trigger] tasks@[k]) is None,
            decreases CAPACITY - tasks@.len(),
        {
            tasks.push(None);
        }
        let e = MiniExecutor { tasks, next_id: 1, now_ms: 0 };
        assert(e.slots() =~= Seq::new(CAPACITY as nat, |i: int| None::<TaskView>));
        e
    }

    pub fn now_ms(&self) -> (m: u64)
        ensures
            m == self.clock_ms(),
    {
        self.now_ms
    }

    pub fn now(&self) -> (i: Instant)
        ensures
            i@ == self.clock_ms(),
    {
        Instant::from_millis(self.now_ms)
    }

    /// Sets the clock and wakes every live task whose deadline has come.
    pub fn advance_to(&mut self, now_ms: u64)
        ensures
            final(self).clock_ms() == now_ms,
            final(self).slots() == expire_all(old(self).slots(), now_ms),
            all_consistent(old(self).slots()) ==> all_consistent(final(self).slots()),
            final(self).upcoming_id() == old(self).upcoming_id(),
    {
        proof {
            use_type_invariant(&*self);
        }
        self.now_ms = now_ms;
        self.wake_expired();
        proof {
            lemma_expire_keeps_consistent(old(self).slots(), now_ms);
        }
    }

    pub fn advance_to_instant(&mut self, now: Instant)
        ensures
            final(self).clock_ms() == now@,
            final(self).slots() == expire_all(old(self).slots(), now@),
            all_consistent(old(self).slots()) ==> all_consistent(final(self).slots()),
            final(self).upcoming_id() == old(self).upcoming_id(),
    {
        self.advance_to(now.as_millis());
    }

    /// Reads the clock once and advances to what it showed, which is returned.
    pub fn advance_from_clock<C: Clock>(&mut self, clock: &mut C) -> (now: Instant)
        ensures
            old(clock).reading(final(clock), now),
            final(self).clock_ms() == now@,
            final(self).slots() == expire_all(old(self).slots(), now@),
            all_consistent(old(self).slots()) ==> all_consistent(final(self).slots()),
            final(self).upcoming_id() == old(self).upcoming_id(),
    {
        let now = clock.now();
        self.advance_to_instant(now);
        now
    }

    /// Files a new ready task in the first free slot, under the next job id;
    /// fails with `JobsFull` when no slot is free.
    pub fn spawn(&mut self, name: &'static str, poll: MiniTaskPoll) -> (r: Result<
        PlatformJob,
        ReturnCodes,
    >)
        ensures
            spawns(
                old(self).slots(),
                old(self).upcoming_id(),
                name,
                poll,
                final(self).slots(),
                final(self).upcoming_id(),
                r,
            ),
            r matches Ok(job) ==> job.id != 0,
            all_consistent(old(self).slots()) ==> all_consistent(final(self).slots()),
            final(self).clock_ms() == old(self).clock_ms(),
    {
        proof {
            use_type_invariant(&*self);
        }
        let mut index: usize = 0;
        while index < self.tasks.len()
            invariant
                self.tasks@.len() == CAPACITY,
                self.next_id >= 1,
                *self == *old(self),
                index <= CAPACITY,
                forall|k: int| 0 <= k < index ==> (#[trigger] self.tasks@[k]) is Some,
            decreases CAPACITY - index,
        {
            if self.tasks[index].is_none() {
                let job = PlatformJob::new(self.next_id);
                let bumped = self.next_id.wrapping_add(1);
                self.next_id = if bumped == 0 {
                    1
                } else {
                    bumped
                };
                let task = MiniTask::new(job, name, poll);
                self.tasks[index] = Some(task);
                proof {
                    assert(is_first_free(old(self).slots(), index as int));
                    assert(self.slots() =~= old(self).slots().update(index as int, Some(task@)));
                }
                return Ok(job);
            }
            index += 1;
        }
        proof {
            assert forall|i: int| 0 <= i < old(self).slots().len() implies (#[trigger] old(
                self,
            ).slots()[i]) is Some by {
                assert(self.tasks@[i] is Some);
            }
        }
        Err(ReturnCodes::JobsFull)
    }

    /// Makes the first task of the job ready and drops its deadline, unless
    /// it has finished; `NotFound` if no slot holds the job.
    pub fn wake(&mut self, job: PlatformJob) -> (r: Result<(), ReturnCodes>)
        ensures
            !contains_job(old(self).slots(), job) ==> {
                &&& r == Err::<(), ReturnCodes>(ReturnCodes::NotFound)
                &&& final(self).slots() == old(self).slots()
            },
            contains_job(old(self).slots(), job) ==> {
                &&& r == Ok::<(), ReturnCodes>(())
                &&& exists|i: int|
                    is_first_with(old(self).slots(), job, i) && {
                        let task = old(self).slots()[i].unwrap();
                        final(self).slots() == old(self).slots().update(
                            i,
                            Some(
                                if task.done {
                                    task
                                } else {
                                    task.woken()
                                },
                            ),
                        )
                    }
            },
            all_consistent(old(self).slots()) ==> all_consistent(final(self).slots()),
            final(self).upcoming_id() == old(self).upcoming_id(),
            final(self).clock_ms() == old(self).clock_ms(),
    {
        proof {
            use_type_invariant(&*self);
        }
        let index = match self.task_index(job) {
            Some(index) => index,
            None => {
                return Err(ReturnCodes::NotFound);
            },
        };
        let mut task = self.tasks[index].unwrap();
        if !task.done {
            task.ready = true;
            task.deadline_ms = None;
        }
        self.tasks[index] = Some(task);
        proof {
            assert(self.slots() =~= old(self).slots().update(index as int, Some(task@)));
        }
        Ok(())
    }

    /// Empties the first slot that holds the job; `NotFound` if none does.
    pub fn clean(&mut self, job: PlatformJob) -> (r: Result<(), ReturnCodes>)
        ensures
            !contains_job(old(self).slots(), job) ==> {
                &&& r == Err::<(), ReturnCodes>(ReturnCodes::NotFound)
                &&& final(self).slots() == old(self).slots()
            },
            contains_job(old(self).slots(), job) ==> {
                &&& r == Ok::<(), ReturnCodes>(())
                &&& exists|i: int|
                    is_first_with(old(self).slots(), job, i) && final(self).slots() == old(
                        self,
                    ).slots().update(i, None)
            },
            all_consistent(old(self).slots()) ==> all_consistent(final(self).slots()),
            final(self).upcoming_id() == old(self).upcoming_id(),
            final(self).clock_ms() == old(self).clock_ms(),
    {
        proof {
            use_type_invariant(&*self);
        }
        match self.task_index(job) {
            Some(index) => {
                self.tasks[index] = None;
                proof {
                    assert(self.slots() =~= old(self).slots().update(index as int, None));
                }
                Ok(())
            },
            None => Err(ReturnCodes::NotFound),
        }
    }

    /// Empties every slot whose task has finished.
    pub fn clean_done(&mut self)
        ensures
            final(self).slots() == without_done(old(self).slots()),
            all_consistent(old(self).slots()) ==> all_consistent(final(self).slots()),
            final(self).upcoming_id() == old(self).upcoming_id(),
            final(self).clock_ms() == old(self).clock_ms(),
    {
        proof {
            use_type_invariant(&*self);
        }
        let mut index: usize = 0;
        while index < self.tasks.len()
            invariant
                self.tasks@.len() == CAPACITY,
                self.next_id == old(self).next_id,
                self.next_id >= 1,
                self.now_ms == old(self).now_ms,
                old(self).tasks@.len() == CAPACITY,
                index <= CAPACITY,
                forall|k: int|
                    0 <= k < index ==> #[trigger] opt_view(self.tasks@[k]) == if is_done_slot(
                        opt_view(old(self).tasks@[k]),
                    ) {
                        None
                    } else {
                        opt_view(old(self).tasks@[k])
                    },
                forall|k: int| index <= k < CAPACITY ==> #[trigger] self.tasks@[k] == old(self).tasks@[k],
            decreases CAPACITY - index,
        {
            let done = match &self.tasks[index] {
                Some(task) => task.done,
                None => false,
            };
            if done {
                self.tasks[index] = None;
            }
            index += 1;
        }
        assert(self.slots() =~= without_done(old(self).slots()));
    }

    /// Whether some task has not finished.
    pub fn has_live_tasks(&self) -> (b: bool)
        ensures
            b == exists|i: int| 0 <= i < self.slots().len() && is_live_slot(#[trigger] self.slots()[i]),
    {
        proof {
            use_type_invariant(self);
        }
        let mut index: usize = 0;
        while index < self.tasks.len()
            invariant
                self.tasks@.len() == CAPACITY,
                index <= CAPACITY,
                forall|k: int| 0 <= k < index ==> !is_live_slot(#[trigger] self.slots()[k]),
            decreases CAPACITY - index,
        {
            let live = match &self.tasks[index] {
                Some(task) => !task.done,
                None => false,
            };
            if live {
                assert(is_live_slot(self.slots()[index as int]));
                return true;
            }
            index += 1;
        }
        false
    }

    /// Whether some unfinished task is ready to be polled.
    pub fn has_ready_tasks(&self) -> (b: bool)
        ensures
            b == exists|i: int|
                0 <= i < self.slots().len() && is_runnable_slot(#[trigger] self.slots()[i]),
    {
        proof {
            use_type_invariant(self);
        }
        let mut index: usize = 0;
        while index < self.tasks.len()
            invariant
                self.tasks@.len() == CAPACITY,
                index <= CAPACITY,
                forall|k: int| 0 <= k < index ==> !is_runnable_slot(#[trigger] self.slots()[k]),
            decreases CAPACITY - index,
        {
            let runnable = match &self.tasks[index] {
                Some(task) => !task.done && task.ready,
                None => false,
            };
            if runnable {
                assert(is_runnable_slot(self.slots()[index as int]));
                return true;
            }
            index += 1;
        }
        false
    }

    /// The earliest deadline of an unfinished task.
    pub fn next_deadline_ms(&self) -> (r: Option<u64>)
        ensures
            is_earliest_deadline(self.slots(), r),
    {
        proof {
            use_type_invariant(self);
        }
        let mut best: Option<u64> = None;
        let mut index: usize = 0;
        while index < self.tasks.len()
            invariant
                self.tasks@.len() == CAPACITY,
                index <= CAPACITY,
                is_earliest_deadline(self.slots().take(index as int), best),
            decreases CAPACITY - index,
        {
            let ghost s = self.slots();
            let ghost prev = best;
            let candidate = match &self.tasks[index] {
                Some(task) => if task.done {
                    None
                } else {
                    task.deadline_ms
                },
                None => None,
            };
            if let Some(deadline) = candidate {
                let better = match best {
                    Some(value) => deadline < value,
                    None => true,
                };
                if better {
                    best = Some(deadline);
                }
            }
            proof {
                let before = s.take(index as int);
                let after = s.take(index + 1);
                assert(candidate == live_deadline(s[index as int]));
                assert forall|i: int| 0 <= i < after.len() implies #[trigger] after[i] == if i
                    < index {
                    before[i]
                } else {
                    s[index as int]
                } by {}
                match best {
                    None => {
                        assert forall|i: int| 0 <= i < after.len() implies (#[trigger] live_deadline(
                            after[i],
                        )) is None by {
                            if i < index {
                                assert(before[i] == after[i]);
                            }
                        }
                    },
                    Some(d) => {
                        if best == prev {
                            let w = choose|i: int|
                                0 <= i < before.len() && #[trigger] live_deadline(before[i]) == Some(
                                    d,
                                );
                            assert(after[w] == before[w]);
                        } else {
                            assert(live_deadline(after[index as int]) == Some(d));
                        }
                        assert forall|i: int|
                            0 <= i < after.len() implies (#[trigger] live_deadline(after[i]) matches Some(e)
                            ==> d <= e) by {
                            if i < index {
                                assert(before[i] == after[i]);
                            }
                        }
                    },
                }
            }
            index += 1;
        }
        assert(self.slots().take(CAPACITY as int) =~= self.slots());
        best
    }

    pub fn next_deadline(&self) -> (r: Option<Instant>)
        ensures
            is_earliest_deadline(
                self.slots(),
                match r {
                    Some(i) => Some(i@),
                    None => None,
                },
            ),
    {
        match self.next_deadline_ms() {
            Some(deadline) => Some(Instant::from_millis(deadline)),
            None => None,
        }
    }

    /// The time from the clock to the earliest deadline, zero where it has
    /// passed.
    pub fn ms_until_next_deadline(&self) -> (r: Option<u64>)
        ensures
            exists|d: Option<u64>|
                is_earliest_deadline(self.slots(), d) && r == match d {
                    Some(deadline) => Some(crate::time::sat_sub(deadline, self.clock_ms())),
                    None => None,
                },
    {
        let next = self.next_deadline_ms();
        match next {
            Some(deadline) => Some(deadline.saturating_sub(self.now_ms)),
            None => None,
        }
    }

    pub fn duration_until_next_deadline(&self) -> (r: Option<Duration>)
        ensures
            exists|d: Option<u64>|
                is_earliest_deadline(self.slots(), d) && match d {
                    Some(deadline) => r matches Some(x) && x@ == crate::time::sat_sub(
                        deadline,
                        self.clock_ms(),
                    ),
                    None => r is None,
                },
    {
        match self.ms_until_next_deadline() {
            Some(ms) => Some(Duration::from_millis(ms)),
            None => None,
        }
    }

    /// The first task of the job.
    pub fn task(&self, job: PlatformJob) -> (r: Option<&MiniTask>)
        ensures
            !contains_job(self.slots(), job) ==> r is None,
            contains_job(self.slots(), job) ==> exists|i: int|
                is_first_with(self.slots(), job, i) && (r matches Some(t) && self.slots()[i]
                    == Some(t@)),
    {
        proof {
            use_type_invariant(self);
        }
        match self.task_index(job) {
            Some(index) => self.tasks[index].as_ref(),
            None => None,
        }
    }

    /// The first task of the job, to be changed in place.
    pub fn task_mut(&mut self, job: PlatformJob) -> (r: Option<&mut MiniTask>)
        ensures
            !contains_job(old(self).slots(), job) ==> {
                &&& r is None
                &&& final(self).slots() == old(self).slots()
            },
            contains_job(old(self).slots(), job) ==> exists|i: int|
                {
                    &&& is_first_with(old(self).slots(), job, i)
                    &&& r is Some
                    &&& old(self).slots()[i] == Some((*r.unwrap())@)
                    &&& final(self).slots() == old(self).slots().update(i, Some((*final(r.unwrap()))@))
                },
            final(self).upcoming_id() == old(self).upcoming_id(),
            final(self).clock_ms() == old(self).clock_ms(),
    {
        proof {
            use_type_invariant(&*self);
        }
        match self.task_index(job) {
            Some(index) => self.tasks[index].as_mut(),
            None => None,
        }
    }

    /// One `poll_one` of the job, from the executor `self` to `after`,
    /// answering `answer`: the tasks whose deadline has come are woken; then
    /// `NotFound` with nothing else changed if no slot holds the job, else the
    /// first slot holding it is polled (see `poll_step`). The next id and the
    /// clock stay, and consistent tasks stay consistent.
    pub open spec fn polls_one(&self, after: &Self, job: PlatformJob, answer: Poll<CommandResult>) -> bool {
        let woken = expire_all(self.slots(), self.clock_ms());
        &&& !contains_job(woken, job) ==> {
            &&& answer == Poll::<CommandResult>::Ready(Err(ReturnCodes::NotFound))
            &&& after.slots() == woken
        }
        &&& contains_job(woken, job) ==> exists|i: int|
            is_first_with(woken, job, i) && poll_step(woken[i], after.slots()[i], answer)
                && after.slots() == woken.update(i, after.slots()[i])
        &&& all_consistent(self.slots()) ==> all_consistent(after.slots())
        &&& after.upcoming_id() == self.upcoming_id()
        &&& after.clock_ms() == self.clock_ms()
    }

    /// Polls the first task of the job (see `poll_step`) after waking the
    /// tasks whose deadline has come; `NotFound` if no slot holds the job.
    pub fn poll_one(&mut self, job: PlatformJob) -> (r: Poll<CommandResult>)
        ensures
            old(self).polls_one(final(self), job, r),
    {
        self.wake_expired();
        proof {
            lemma_expire_keeps_consistent(old(self).slots(), old(self).clock_ms());
        }
        let index = match self.task_index(job) {
            Some(index) => index,
            None => {
                return Poll::Ready(Err(ReturnCodes::NotFound));
            },
        };
        let ghost woken = self.slots();
        let r = self.poll_index(index);
        proof {
            lemma_step_keeps_consistent(woken, index as int, self.slots(), r);
        }
        r
    }

    /// Polls each runnable task once, in slot order, after waking the tasks
    /// whose deadline has come; returns how many were polled.
    pub fn poll_ready(&mut self) -> (polled: usize)
        ensures
            ({
                let woken = expire_all(old(self).slots(), old(self).clock_ms());
                &&& polled == count_runnable(woken)
                &&& forall|i: int|
                    0 <= i < CAPACITY ==> if is_runnable_slot(woken[i]) {
                        was_polled(woken[i], #[trigger] final(self).slots()[i])
                    } else {
                        final(self).slots()[i] == woken[i]
                    }
                &&& all_consistent(old(self).slots()) ==> all_consistent(final(self).slots())
            }),
            final(self).slots().len() == CAPACITY,
            final(self).upcoming_id() == old(self).upcoming_id(),
            final(self).clock_ms() == old(self).clock_ms(),
    {
        self.wake_expired();
        proof {
            use_type_invariant(&*self);
            lemma_expire_keeps_consistent(old(self).slots(), old(self).clock_ms());
        }
        let ghost woken = self.slots();
        let mut polled: usize = 0;
        let mut index: usize = 0;
        while index < self.tasks.len()
            invariant
                self.tasks@.len() == CAPACITY,
                self.next_id >= 1,
                self.next_id == old(self).next_id,
                self.now_ms == old(self).now_ms,
                woken.len() == CAPACITY,
                index <= CAPACITY,
                polled == count_runnable(woken.take(index as int)),
                polled <= index,
                forall|k: int|
                    0 <= k < index ==> if is_runnable_slot(woken[k]) {
                        was_polled(woken[k], #[trigger] self.slots()[k])
                    } else {
                        self.slots()[k] == woken[k]
                    },
                forall|k: int| index <= k < CAPACITY ==> #[trigger] self.slots()[k] == woken[k],
                all_consistent(old(self).slots()) ==> all_consistent(woken),
                all_consistent(old(self).slots()) ==> forall|k: int|
                    0 <= k < index ==> is_consistent_slot(#[trigger] self.slots()[k]),
            decreases CAPACITY - index,
        {
            let ghost before = self.slots();
            let runnable = match &self.tasks[index] {
                Some(task) => !task.done && task.ready,
                None => false,
            };
            proof {
                assert(before[index as int] == woken[index as int]);
                assert(runnable == is_runnable_slot(woken[index as int]));
                assert(woken.take(index + 1).drop_last() =~= woken.take(index as int));
            }
            let ghost mut witness = Poll::<CommandResult>::Pending;
            if runnable {
                let answer = self.poll_index(index);
                polled += 1;
                proof {
                    use_type_invariant(&*self);
                    witness = answer;
                    assert(poll_step(woken[index as int], self.slots()[index as int], answer));
                    if all_consistent(old(self).slots()) {
                        lemma_step_keeps_consistent(before, index as int, self.slots(), answer);
                    }
                }
            }
            proof {
                assert forall|k: int| 0 <= k < index + 1 implies if is_runnable_slot(woken[k]) {
                    was_polled(woken[k], #[trigger] self.slots()[k])
                } else {
                    self.slots()[k] == woken[k]
                } by {
                    if k < index {
                        assert(self.slots()[k] == before[k]);
                    } else if runnable {
                        assert(poll_step(woken[k], self.slots()[k], witness));
                        assert(was_polled(woken[k], self.slots()[k]));
                    } else {
                        assert(self.slots()[k] == before[k]);
                    }
                }
            }
            index += 1;
        }
        proof {
            assert(woken.take(CAPACITY as int) =~= woken);
            if all_consistent(old(self).slots()) {
                assert forall|k: int| 0 <= k < self.slots().len() implies is_consistent_slot(
                    #[trigger] self.slots()[k],
                ) by {}
            }
        }
        polled
    }

    /// Wakes every live task whose deadline is at or before the clock.
    fn wake_expired(&mut self)
        ensures
            final(self).slots() == expire_all(old(self).slots(), old(self).now_ms),
            final(self).next_id == old(self).next_id,
            final(self).now_ms == old(self).now_ms,
    {
        proof {
            use_type_invariant(&*self);
        }
        let mut index: usize = 0;
        while index < self.tasks.len()
            invariant
                self.tasks@.len() == CAPACITY,
                old(self).tasks@.len() == CAPACITY,
                self.next_id == old(self).next_id,
                self.next_id >= 1,
                self.now_ms == old(self).now_ms,
                index <= CAPACITY,
                forall|k: int|
                    0 <= k < index ==> #[trigger] opt_view(self.tasks@[k]) == expired_slot(
                        opt_view(old(self).tasks@[k]),
                        self.now_ms,
                    ),
                forall|k: int| index <= k < CAPACITY ==> #[trigger] self.tasks@[k] == old(self).tasks@[k],
            decreases CAPACITY - index,
        {
            if let Some(mut task) = self.tasks[index] {
                let expired = match task.deadline_ms {
                    Some(deadline) => !task.done && deadline <= self.now_ms,
                    None => false,
                };
                if expired {
                    task.ready = true;
                    task.deadline_ms = None;
                    self.tasks[index] = Some(task);
                }
            }
            index += 1;
        }
        assert(self.slots() =~= expire_all(old(self).slots(), old(self).now_ms));
    }

    /// The index of the first slot that holds the job.
    fn task_index(&self, job: PlatformJob) -> (r: Option<usize>)
        ensures
            !contains_job(self.slots(), job) ==> r is None,
            contains_job(self.slots(), job) ==> (r matches Some(i) && is_first_with(
                self.slots(),
                job,
                i as int,
            )),
            r matches Some(i) ==> i < CAPACITY,
    {
        proof {
            use_type_invariant(self);
        }
        let mut index: usize = 0;
        while index < self.tasks.len()
            invariant
                self.tasks@.len() == CAPACITY,
                index <= CAPACITY,
                forall|k: int| 0 <= k < index ==> !holds_job(#[trigger] self.slots()[k], job),
            decreases CAPACITY - index,
        {
            let found = match &self.tasks[index] {
                Some(task) => task.job == job,
                None => false,
            };
            if found {
                assert(is_first_with(self.slots(), job, index as int));
                return Some(index);
            }
            index += 1;
        }
        None
    }

    /// Polls the task in the slot: see `poll_step`.
    fn poll_index(&mut self, index: usize) -> (r: Poll<CommandResult>)
        requires
            index < CAPACITY,
        ensures
            poll_step(old(self).slots()[index as int], final(self).slots()[index as int], r),
            final(self).slots() == old(self).slots().update(
                index as int,
                final(self).slots()[index as int],
            ),
            final(self).next_id == old(self).next_id,
            final(self).now_ms == old(self).now_ms,
    {
        proof {
            use_type_invariant(&*self);
        }
        let mut task = match self.tasks[index] {
            Some(task) => task,
            None => {
                return Poll::Ready(Err(ReturnCodes::NotFound));
            },
        };
        if let Some(result) = task.result {
            return Poll::Ready(result);
        }
        if task.done {
            return Poll::Ready(Err(ReturnCodes::Failed));
        }
        if !task.ready {
            return Poll::Pending;
        }
        task.ready = false;
        let poll = task.poll;
        let mut context = MiniTaskContext::new(&task, self.now_ms);
        let answer = run_task(poll, &mut context);
        proof {
            use_type_invariant(&context);
        }
        let r = task.record_poll(&context, answer);
        self.tasks[index] = Some(task);
        proof {
            assert(self.slots() =~= old(self).slots().update(index as int, Some(task@)));
        }
        r
    }
}

/// Waking expired tasks keeps every task consistent.
pub proof fn lemma_expire_keeps_consistent(slots: Seq<Option<TaskView>>, now_ms: u64)
    ensures
        all_consistent(slots) ==> all_consistent(expire_all(slots, now_ms)),
{
    if all_consistent(slots) {
        assert forall|i: int| 0 <= i < expire_all(slots, now_ms).len() implies is_consistent_slot(
            #[trigger] expire_all(slots, now_ms)[i],
        ) by {
            assert(is_consistent_slot(slots[i]));
        }
    }
}

/// One poll of a slot keeps every task consistent.
pub proof fn lemma_step_keeps_consistent(
    before: Seq<Option<TaskView>>,
    i: int,
    after: Seq<Option<TaskView>>,
    answer: Poll<CommandResult>,
)
    requires
        0 <= i < before.len(),
        poll_step(before[i], after[i], answer),
        after == before.update(i, after[i]),
    ensures
        is_consistent_slot(before[i]) ==> is_consistent_slot(after[i]),
        all_consistent(before) ==> all_consistent(after),
{
    if all_consistent(before) {
        assert(is_consistent_slot(before[i]));
        assert forall|k: int| 0 <= k < after.len() implies is_consistent_slot(#[trigger] after[k]) by {
            if k != i {
                assert(after[k] == before[k]);
                assert(is_consistent_slot(before[k]));
            }
        }
    }
}

/// The job ids an executor hands out are never zero, and count up by one
/// until the counter wraps.
pub proof fn law_task_ids_nonzero(id: u64)
    ensures
        next_task_id(id) != 0,
        id < u64::MAX ==> next_task_id(id) == id + 1,
{
}

/// Slots `0..k` hold tasks and the rest are free.
pub open spec fn filled_up_to(slots: Seq<Option<TaskView>>, k: int) -> bool {
    forall|i: int| 0 <= i < slots.len() ==> ((#[trigger] slots[i]) is Some <==> i < k)
}

/// Spawning onto a fresh executor (all slots free, next id 1) fills it in
/// slot order with jobs 1, 2, ...: the spawn after `k` tasks answers job
/// `k + 1` and fills slot `k`, until every slot is taken; then it answers
/// `JobsFull`.
pub proof fn law_spawns_fill_in_order(
    before: Seq<Option<TaskView>>,
    k: nat,
    name: &'static str,
    poll: MiniTaskPoll,
    after: Seq<Option<TaskView>>,
    after_id: u64,
    r: Result<PlatformJob, ReturnCodes>,
)
    requires
        filled_up_to(before, k as int),
        k <= before.len(),
        k < u64::MAX,
        spawns(before, (k + 1) as u64, name, poll, after, after_id, r),
    ensures
        after.len() == before.len(),
        k < before.len() ==> {
            &&& r == Ok::<PlatformJob, ReturnCodes>(PlatformJob { id: (k + 1) as u64 })
            &&& after[k as int] == Some(TaskView::fresh(PlatformJob { id: (k + 1) as u64 }, name, poll))
            &&& filled_up_to(after, k + 1int)
            &&& k + 1 < u64::MAX ==> after_id == k + 2
        },
        k == before.len() ==> {
            &&& r == Err::<PlatformJob, ReturnCodes>(ReturnCodes::JobsFull)
            &&& after == before
            &&& after_id == k + 1
        },
{
    if k < before.len() {
        assert(before[k as int] is None);
        let job = PlatformJob { id: (k + 1) as u64 };
        let task = TaskView::fresh(job, name, poll);
        let i = choose|i: int| is_first_free(before, i) && after == before.update(i, Some(task));
        if i < k {
            assert(before[i] is Some);
        }
        if i > k {
            assert(before[k as int] is Some);
        }
        assert(i == k);
        assert forall|j: int| 0 <= j < after.len() implies ((#[trigger] after[j]) is Some <==> j < k
            + 1) by {
            if j != k {
                assert(after[j] == before[j]);
            }
        }
    } else {
        assert forall|i: int| 0 <= i < before.len() implies (#[trigger] before[i]) is Some by {}
    }
}

/// The smaller of the two.
spec fn min_nat(a: nat, b: nat) -> nat {
    if a < b {
        a
    } else {
        b
    }
}

proof fn lemma_fresh_executor_step(
    states: Seq<Seq<Option<TaskView>>>,
    ids: Seq<u64>,
    names: Seq<&'static str>,
    polls: Seq<MiniTaskPoll>,
    answers: Seq<Result<PlatformJob, ReturnCodes>>,
    j: nat,
)
    requires
        states.len() == answers.len() + 1,
        ids.len() == states.len(),
        names.len() == answers.len(),
        polls.len() == answers.len(),
        forall|i: int| 0 <= i < states[0].len() ==> (#[trigger] states[0][i]) is None,
        ids[0] == 1,
        states[0].len() < u64::MAX,
        forall|p: int|
            0 <= p < answers.len() ==> #[trigger] spawns(
                states[p],
                ids[p],
                names[p], polls[p],
                states[p + 1],
                ids[p + 1],
                answers[p],
            ),
        j <= answers.len(),
    ensures
        states[j as int].len() == states[0].len(),
        filled_up_to(states[j as int], min_nat(j, states[0].len()) as int),
        ids[j as int] == min_nat(j, states[0].len()) + 1,
    decreases j,
{
    let n = states[0].len();
    if j == 0 {
        assert forall|i: int| 0 <= i < states[0].len() implies ((#[trigger] states[0][i]) is Some
            <==> i < 0) by {}
    } else {
        let p = (j - 1) as int;
        lemma_fresh_executor_step(states, ids, names, polls, answers, (j - 1) as nat);
        let k = min_nat((j - 1) as nat, n);
        assert(spawns(states[p], ids[p], names[p], polls[p], states[p + 1], ids[p + 1], answers[p]));
        law_spawns_fill_in_order(states[p], k, names[p], polls[p], states[p + 1], ids[p + 1], answers[p]);
    }
}

/// From a fresh executor (every slot free, next id 1), a run of spawns answers jobs 1, 2, ... in turn while slots are free, and `JobsFull` once all are taken (at once, with no slots).
pub proof fn law_fresh_executor_fills(
    states: Seq<Seq<Option<TaskView>>>,
    ids: Seq<u64>,
    names: Seq<&'static str>,
    polls: Seq<MiniTaskPoll>,
    answers: Seq<Result<PlatformJob, ReturnCodes>>,
)
    requires
        states.len() == answers.len() + 1,
        ids.len() == states.len(),
        names.len() == answers.len(),
        polls.len() == answers.len(),
        forall|i: int| 0 <= i < states[0].len() ==> (#[trigger] states[0][i]) is None,
        ids[0] == 1,
        states[0].len() < u64::MAX,
        forall|p: int|
            0 <= p < answers.len() ==> #[trigger] spawns(
                states[p],
                ids[p],
                names[p], polls[p],
                states[p + 1],
                ids[p + 1],
                answers[p],
            ),
    ensures
        forall|j: int|
            0 <= j < answers.len() ==> #[trigger] answers[j] == if j < states[0].len() {
                Ok::<PlatformJob, ReturnCodes>(PlatformJob { id: (j + 1) as u64 })
            } else {
                Err::<PlatformJob, ReturnCodes>(ReturnCodes::JobsFull)
            },
{
    let n = states[0].len();
    assert forall|j: int| 0 <= j < answers.len() implies #[trigger] answers[j] == if j
        < states[0].len() {
        Ok::<PlatformJob, ReturnCodes>(PlatformJob { id: (j + 1) as u64 })
    } else {
        Err::<PlatformJob, ReturnCodes>(ReturnCodes::JobsFull)
    } by {
        lemma_fresh_executor_step(states, ids, names, polls, answers, j as nat);
        assert(spawns(states[j], ids[j], names[j], polls[j], states[j + 1], ids[j + 1], answers[j]));
        law_spawns_fill_in_order(states[j], min_nat(j as nat, n), names[j], polls[j], states[j + 1], ids[j + 1], answers[j]);
    }
}

/// In consistent slots, a task that sleeps until a deadline is not ready:
/// only the clock reaching the deadline, or `wake`, makes it ready again.
pub proof fn law_sleeping_task_is_not_ready(slots: Seq<Option<TaskView>>)
    requires
        all_consistent(slots),
    ensures
        forall|i: int|
            0 <= i < slots.len() && #[trigger] slots[i] is Some && slots[i].unwrap().deadline_ms is Some
                ==> !slots[i].unwrap().ready,
{
    assert forall|i: int|
        0 <= i < slots.len() && #[trigger] slots[i] is Some && slots[i].unwrap().deadline_ms is Some implies !slots[i].unwrap().ready by {
        assert(is_consistent_slot(slots[i]));
    }
}

/// A spawned task can be found again under the job it was given, as long
/// as no task held that job before; it is ready and unfinished.
pub proof fn law_spawn_then_find(
    before: Seq<Option<TaskView>>,
    before_id: u64,
    name: &'static str,
    poll: MiniTaskPoll,
    after: Seq<Option<TaskView>>,
    after_id: u64,
    r: Result<PlatformJob, ReturnCodes>,
)
    requires
        spawns(before, before_id, name, poll, after, after_id, r),
        r is Ok,
        !contains_job(before, PlatformJob { id: before_id }),
    ensures
        contains_job(after, PlatformJob { id: before_id }),
        forall|i: int|
            is_first_with(after, PlatformJob { id: before_id }, i) ==> {
                &&& after[i] == Some(TaskView::fresh(PlatformJob { id: before_id }, name, poll))
                &&& is_runnable_slot(after[i])
            },
{
    let job = PlatformJob { id: before_id };
    let task = TaskView::fresh(job, name, poll);
    let i = choose|i: int| is_first_free(before, i) && after == before.update(i, Some(task));
    assert(holds_job(after[i], job));
    assert forall|k: int| is_first_with(after, job, k) implies after[k] == Some(task) by {
        if k != i {
            assert(after[k] == before[k]);
            assert(holds_job(before[k], job));
        }
    }
}

/// After the clock reaches `now_ms`, no unfinished task still has a
/// deadline at or before it; the tasks whose deadline came are ready, and
/// no other task changed.
pub proof fn law_expiry_wakes_due_tasks(slots: Seq<Option<TaskView>>, now_ms: u64)
    ensures
        forall|i: int|
            0 <= i < slots.len() ==> (#[trigger] live_deadline(expire_all(slots, now_ms)[i]) matches Some(
                d,
            ) ==> now_ms < d),
        forall|i: int|
            0 <= i < slots.len() ==> (#[trigger] slots[i] matches Some(t) && t.is_expired(now_ms)
                ==> is_runnable_slot(expire_all(slots, now_ms)[i])),
        forall|i: int|
            0 <= i < slots.len() ==> (!(#[trigger] slots[i] matches Some(t) && t.is_expired(now_ms))
                ==> expire_all(slots, now_ms)[i] == slots[i]),
{
}

/// A sleeping task is woken by the clock exactly when the clock reaches its
/// deadline.
pub proof fn law_sleeper_wakes_at_deadline(task: TaskView, deadline: u64, now_ms: u64)
    requires
        !task.done,
        !task.ready,
        task.deadline_ms == Some(deadline),
    ensures
        is_runnable_slot(expired_slot(Some(task), now_ms)) <==> deadline <= now_ms,
{
}

/// While the clock is before the earliest deadline, advancing it wakes
/// nothing; once it reaches that deadline, the task waiting on it is ready.
pub proof fn law_earliest_deadline_is_next_wake(
    slots: Seq<Option<TaskView>>,
    deadline: u64,
    now_ms: u64,
)
    requires
        is_earliest_deadline(slots, Some(deadline)),
    ensures
        now_ms < deadline ==> expire_all(slots, now_ms) == slots,
        deadline <= now_ms ==> exists|i: int|
            0 <= i < slots.len() && is_runnable_slot(#[trigger] expire_all(slots, now_ms)[i]),
{
    if now_ms < deadline {
        assert forall|i: int| 0 <= i < slots.len() implies #[trigger] expire_all(slots, now_ms)[i]
            == slots[i] by {
            if slots[i] is Some {
                assert(live_deadline(slots[i]) is Some ==> live_deadline(slots[i]).unwrap() >= deadline);
            }
        }
        assert(expire_all(slots, now_ms) =~= slots);
    } else {
        let i = choose|i: int| 0 <= i < slots.len() && #[trigger] live_deadline(slots[i]) == Some(deadline);
        assert(is_runnable_slot(expire_all(slots, now_ms)[i]));
    }
}

/// A task that holds a result answers it again on every later poll and is
/// not changed by it; so once a poll answered `Ready`, every later poll
/// of that slot answers the same and changes nothing.
pub proof fn law_ready_is_final(
    first: Option<TaskView>,
    second: Option<TaskView>,
    x: CommandResult,
    third: Option<TaskView>,
    answer: Poll<CommandResult>,
)
    requires
        poll_step(first, second, Poll::Ready(x)),
        poll_step(second, third, answer),
    ensures
        answer == Poll::<CommandResult>::Ready(x),
        third == second,
{
}

/// Removing the finished tasks leaves none, and keeps every unfinished
/// task in its slot.
pub proof fn law_clean_done_leaves_no_finished(slots: Seq<Option<TaskView>>)
    ensures
        forall|i: int| 0 <= i < slots.len() ==> !is_done_slot(#[trigger] without_done(slots)[i]),
        forall|i: int|
            0 <= i < slots.len() && is_live_slot(#[trigger] slots[i]) ==> without_done(slots)[i]
                == slots[i],
{
}

impl<const CAPACITY: usize> PlatformRuntime for MiniExecutor<CAPACITY> {
    /// A platform job of this executor is one of its tasks: polling it is
    /// `poll_one`.
    open spec fn answers(&self, after: &Self, job: PlatformJob, answer: Poll<CommandResult>) -> bool {
        self.polls_one(after, job, answer)
    }

    fn poll(&mut self, job: PlatformJob, _context: &mut core::task::Context<'_>) -> (r: Poll<
        CommandResult,
    >)
    {
        self.poll_one(job)
    }
}

impl<const CAPACITY: usize> Default for MiniExecutor<CAPACITY> {
    fn default() -> (e: Self)
        ensures
            e.slots() == Seq::new(CAPACITY as nat, |i: int| None::<TaskView>),
            e.upcoming_id() == 1,
            e.clock_ms() == 0,
    {
        Self::new()
    }
}

} // verus!
