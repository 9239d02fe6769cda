//! Jobs: running commands, and the bounded queue that holds them.
use vstd::prelude::*;

use crate::callback::{CommandOutcome, CommandResult};
use crate::{Command, Poll, ReturnCodes};

verus! {

/// Declares std's `core::task::Context` as an opaque type, so that a
/// platform runtime's context can be passed through; nothing is claimed of
/// it and the library never looks inside.
#[verifier::external_type_specification]
#[verifier::external_body]
pub struct ExTaskContext<'a>(core::task::Context<'a>);

/// The id under which a job queue knows a job.
#[derive(Clone, Copy, Debug, PartialEq, Eq, Structural)]
pub struct JobId(pub u64);

/// A time limit that travels with a job, in milliseconds.
#[derive(Clone, Copy, Debug, PartialEq, Eq, Structural)]
pub struct JobTimeout {
    pub value: u64,
}

impl JobTimeout {
    pub fn new(value: u64) -> (t: Self)
        ensures
            t.value == value,
    {
        JobTimeout { value }
    }
}

/// A handle on work that a platform runtime carries out.
#[derive(Clone, Copy, Debug, PartialEq, Eq, Structural)]
pub struct PlatformJob {
    pub id: u64,
}

impl PlatformJob {
    pub fn new(id: u64) -> (j: Self)
        ensures
            j.id == id,
    {
        PlatformJob { id }
    }
}

/// The platform side of a job: it drives the work behind a `PlatformJob`.
/// Implemented by each platform, which says in `answers` what a poll of it
/// can answer and how it can change.
pub trait PlatformRuntime {
    /// Polling the runtime in the state `self` about `job` can answer
    /// `answer` and leave it in the state `after`. A runtime that does not
    /// say leaves every answer and every state possible.
    open spec fn answers(&self, after: &Self, job: PlatformJob, answer: Poll<CommandResult>) -> bool {
        true
    }

    fn poll(&mut self, job: PlatformJob, context: &mut core::task::Context<'_>) -> (r: Poll<
        CommandResult,
    >)
        ensures
            old(self).answers(final(self), job, r),
    ;
}

/// What one poll of a job in the state `job` does to the runtime, which
/// went from `before` to `after` and answered `answer`: a job that waits on
/// a platform job (and holds no result) asks the runtime about it and hands
/// its answer on; any other job leaves the runtime untouched.
pub open spec fn runtime_polled<R: PlatformRuntime>(
    job: JobView,
    before: R,
    after: R,
    answer: Poll<CommandResult>,
) -> bool {
    match (job.result, job.platform) {
        (None, Some(platform)) => before.answers(&after, platform, answer),
        _ => after == before,
    }
}

/// A command that was started: either it still waits on a platform job, or
/// its result is known.
#[derive(Clone, Copy, Debug)]
pub struct CommandJob {
    pub id: JobId,
    pub command: Command,
    pub timeout: Option<JobTimeout>,
    platform: Option<PlatformJob>,
    result: Option<CommandResult>,
}

/// What a job holds, as plain values.
pub struct JobView {
    pub id: JobId,
    pub command: Command,
    pub timeout: Option<JobTimeout>,
    /// The platform job that the command still waits on.
    pub platform: Option<PlatformJob>,
    /// The command's result, once it is known.
    pub result: Option<CommandResult>,
}

impl JobView {
    /// The job after its platform job answered `answer`: a `Ready` answer
    /// becomes the job's result and the platform job is let go; `Pending`
    /// leaves the job as it was.
    pub open spec fn settled(self, answer: Poll<CommandResult>) -> JobView {
        match answer {
            Poll::Ready(r) => JobView { platform: None, result: Some(r), ..self },
            Poll::Pending => self,
        }
    }

    /// What a job may look like after one `poll` that answered `answer`.
    pub open spec fn polled(self, after: JobView, answer: Poll<CommandResult>) -> bool {
        match self.result {
            Some(res) => answer == Poll::Ready(res) && after == self,
            None => match self.platform {
                None => answer == Poll::<CommandResult>::Ready(Err(ReturnCodes::Failed)) && after
                    == self,
                Some(_) => after == self.settled(answer),
            },
        }
    }
}

impl View for CommandJob {
    type V = JobView;

    closed spec fn view(&self) -> JobView {
        JobView {
            id: self.id,
            command: self.command,
            timeout: self.timeout,
            platform: self.platform,
            result: self.result,
        }
    }
}

impl CommandJob {
    pub fn pending(
        id: JobId,
        command: Command,
        timeout: Option<JobTimeout>,
        platform: PlatformJob,
    ) -> (j: Self)
        ensures
            j@ == (JobView { id, command, timeout, platform: Some(platform), result: None }),
    {
        CommandJob { id, command, timeout, platform: Some(platform), result: None }
    }

    pub fn ready(id: JobId, command: Command, timeout: Option<JobTimeout>, result: CommandResult) -> (j:
        Self)
        ensures
            j@ == (JobView { id, command, timeout, platform: None, result: Some(result) }),
    {
        CommandJob { id, command, timeout, platform: None, result: Some(result) }
    }

    pub fn platform(&self) -> (p: Option<PlatformJob>)
        ensures
            p == self@.platform,
    {
        self.platform
    }

    pub fn result(&self) -> (r: Option<CommandResult>)
        ensures
            r == self@.result,
    {
        self.result
    }

    /// Takes in what the platform job answered: see `JobView::settled`.
    pub fn settle(&mut self, answer: Poll<CommandResult>) -> (r: Poll<CommandResult>)
        ensures
            final(self)@ == old(self)@.settled(answer),
            r == answer,
    {
        match answer {
            Poll::Ready(result) => {
                self.platform = None;
                self.result = Some(result);
                Poll::Ready(result)
            },
            Poll::Pending => Poll::Pending,
        }
    }

    /// Polls the job: a known result is answered again without asking the
    /// runtime; a job with neither result nor platform job fails; otherwise the
    /// runtime is asked about the platform job and its answer is settled.
    pub fn poll<R: PlatformRuntime>(
        &mut self,
        runtime: &mut R,
        context: &mut core::task::Context<'_>,
    ) -> (r: Poll<CommandResult>)
        ensures
            old(self)@.polled(final(self)@, r),
            runtime_polled(old(self)@, *old(runtime), *final(runtime), r),
    {
        if let Some(result) = self.result {
            return Poll::Ready(result);
        }
        let platform = match self.platform {
            Some(platform) => platform,
            None => {
                return Poll::Ready(Err(ReturnCodes::Failed));
            },
        };
        let answer = runtime.poll(platform, context);
        self.settle(answer)
    }
}

/// The job that a queue files for an outcome.
pub open spec fn job_for(
    id: JobId,
    command: Command,
    timeout: Option<JobTimeout>,
    outcome: CommandOutcome,
) -> JobView {
    match outcome {
        CommandOutcome::Platform(platform) => JobView {
            id,
            command,
            timeout,
            platform: Some(platform),
            result: None,
        },
        CommandOutcome::Ready(result) => JobView {
            id,
            command,
            timeout,
            platform: None,
            result: Some(result),
        },
    }
}

/// The id handed out after `id`: the next one, where `0` is skipped when the
/// counter wraps.
pub open spec fn next_job_id(id: u64) -> u64 {
    if id == u64::MAX {
        1
    } else {
        (id + 1) as u64
    }
}

pub open spec fn holds_id(slot: Option<JobView>, id: JobId) -> bool {
    slot matches Some(job) && job.id == id
}

/// Slot `i` is the first that holds a job with the id.
pub open spec fn is_first_with(slots: Seq<Option<JobView>>, id: JobId, i: int) -> bool {
    &&& 0 <= i < slots.len()
    &&& holds_id(slots[i], id)
    &&& forall|k: int| 0 <= k < i ==> !holds_id(#[trigger] slots[k], id)
}

pub open spec fn contains_id(slots: Seq<Option<JobView>>, id: JobId) -> bool {
    exists|i: int| 0 <= i < slots.len() && holds_id(#[trigger] slots[i], id)
}

/// Slot `i` is the first empty one.
pub open spec fn is_first_free(slots: Seq<Option<JobView>>, i: int) -> bool {
    &&& 0 <= i < slots.len()
    &&& slots[i] is None
    &&& forall|k: int| 0 <= k < i ==> (#[trigger] slots[k]) is Some
}

pub open spec fn has_free(slots: Seq<Option<JobView>>) -> bool {
    exists|i: int| 0 <= i < slots.len() && (#[trigger] slots[i]) is None
}

pub open spec fn opt_view(slot: Option<CommandJob>) -> Option<JobView> {
    match slot {
        Some(job) => Some(job@),
        None => None,
    }
}

/// Pushing the command's outcome, with the timeout, onto the slots `before`
/// whose next id is `before_id` leaves `after`, `after_id` and answers `r`:
/// the job goes into the first free slot under `before_id` and the id moves
/// on; with no free slot the answer is `JobsFull` and nothing changes.
pub open spec fn pushes(
    before: Seq<Option<JobView>>,
    before_id: u64,
    command: Command,
    timeout: Option<JobTimeout>,
    outcome: CommandOutcome,
    after: Seq<Option<JobView>>,
    after_id: u64,
    r: Result<JobId, ReturnCodes>,
) -> bool {
    if has_free(before) {
        &&& r == Ok::<JobId, ReturnCodes>(JobId(before_id))
        &&& exists|i: int|
            is_first_free(before, i) && after == before.update(
                i,
                Some(job_for(JobId(before_id), command, timeout, outcome)),
            )
        &&& after_id == next_job_id(before_id)
    } else {
        &&& r == Err::<JobId, ReturnCodes>(ReturnCodes::JobsFull)
        &&& after == before
        &&& after_id == before_id
    }
}

/// A fixed number of job slots, and the id the next job will get.
pub struct JobQueue<const CAPACITY: usize> {
    jobs: Vec<Option<CommandJob>>,
    next_id: u64,
}

impl<const CAPACITY: usize> JobQueue<CAPACITY> {
    #[verifier::type_invariant]
    spec fn inv(self) -> bool {
        &&& self.jobs@.len() == CAPACITY
        &&& self.next_id >= 1
    }

    /// The slots, in order; `None` is a free slot.
    pub closed spec fn slots(&self) -> Seq<Option<JobView>> {
        Seq::new(CAPACITY as nat, |i: int| opt_view(self.jobs@[i]))
    }

    /// The id the next pushed job will get.
    pub closed spec fn upcoming_id(&self) -> u64 {
        self.next_id
    }

    /// There are `CAPACITY` slots.
    pub proof fn lemma_slot_count(&self)
        ensures
            self.slots().len() == CAPACITY,
    {
    }

    pub fn new() -> (q: Self)
        ensures
            q.slots() == Seq::new(CAPACITY as nat, |i: int| None::<JobView>),
            q.upcoming_id() == 1,
    {
        let mut jobs: Vec<Option<CommandJob>> = Vec::new();
        while jobs.len() < CAPACITY
            invariant
                jobs@.len() <= CAPACITY,
                forall|k: int| 0 <= k < jobs@.len() ==> (#[trigger] jobs@[k]) is None,
            decreases CAPACITY - jobs@.len(),
        {
            jobs.push(None);
        }
        let q = JobQueue { jobs, next_id: 1 };
        assert(q.slots() =~= Seq::new(CAPACITY as nat, |i: int| None::<JobView>));
        q
    }

    pub fn push(&mut self, command: Command, outcome: CommandOutcome) -> (r: Result<
        JobId,
        ReturnCodes,
    >)
        ensures
            pushes(
                old(self).slots(),
                old(self).upcoming_id(),
                command,
                None,
                outcome,
                final(self).slots(),
                final(self).upcoming_id(),
                r,
            ),
            r matches Ok(id) ==> id.0 != 0,
    {
        self.push_with_timeout(command, None, outcome)
    }

    /// Files the outcome as a new job in the first free slot, under the next
    /// id; fails with `JobsFull` when no slot is free.
    pub fn push_with_timeout(
        &mut self,
        command: Command,
        timeout: Option<JobTimeout>,
        outcome: CommandOutcome,
    ) -> (r: Result<JobId, ReturnCodes>)
        ensures
            pushes(
                old(self).slots(),
                old(self).upcoming_id(),
                command,
                timeout,
                outcome,
                final(self).slots(),
                final(self).upcoming_id(),
                r,
            ),
            r matches Ok(id) ==> id.0 != 0,
    {
        proof {
            use_type_invariant(&*self);
        }
        let mut index: usize = 0;
        while index < self.jobs.len()
            invariant
                self.jobs@.len() == CAPACITY,
                self.next_id >= 1,
                *self == *old(self),
                index <= CAPACITY,
                forall|k: int| 0 <= k < index ==> (#[trigger] self.jobs@[k]) is Some,
            decreases CAPACITY - index,
        {
            if self.jobs[index].is_none() {
                let id = JobId(self.next_id);
                let bumped = self.next_id.wrapping_add(1);
                self.next_id = if bumped == 0 {
                    1
                } else {
                    bumped
                };
                let job = match outcome {
                    CommandOutcome::Platform(platform) => CommandJob::pending(
                        id,
                        command,
                        timeout,
                        platform,
                    ),
                    CommandOutcome::Ready(result) => CommandJob::ready(id, command, timeout, result),
                };
                self.jobs[index] = Some(job);
                proof {
                    assert(is_first_free(old(self).slots(), index as int));
                    assert(self.slots() =~= old(self).slots().update(index as int, Some(job@)));
                }
                return Ok(id);
            }
            index += 1;
        }
        proof {
            assert forall|i: int| 0 <= i < old(self).slots().len() implies (#[trigger] old(
                self,
            ).slots()[i]) is Some by {
                assert(self.jobs@[i] is Some);
            }
        }
        Err(ReturnCodes::JobsFull)
    }

    /// Removes the first job with the id; `NotFound` if there is none.
    pub fn clean(&mut self, id: JobId) -> (r: Result<(), ReturnCodes>)
        ensures
            !contains_id(old(self).slots(), id) ==> {
                &&& r == Err::<(), ReturnCodes>(ReturnCodes::NotFound)
                &&& final(self).slots() == old(self).slots()
            },
            contains_id(old(self).slots(), id) ==> {
                &&& r == Ok::<(), ReturnCodes>(())
                &&& exists|i: int|
                    is_first_with(old(self).slots(), id, i) && final(self).slots() == old(
                        self,
                    ).slots().update(i, None)
            },
            final(self).upcoming_id() == old(self).upcoming_id(),
    {
        match self.take(id) {
            Some(_) => Ok(()),
            None => Err(ReturnCodes::NotFound),
        }
    }

    /// Empties every slot.
    pub fn clean_all(&mut self)
        ensures
            final(self).slots() == Seq::new(CAPACITY as nat, |i: int| None::<JobView>),
            final(self).upcoming_id() == old(self).upcoming_id(),
    {
        proof {
            use_type_invariant(&*self);
        }
        let mut index: usize = 0;
        while index < self.jobs.len()
            invariant
                self.jobs@.len() == CAPACITY,
                self.next_id >= 1,
                self.next_id == old(self).next_id,
                index <= CAPACITY,
                forall|k: int| 0 <= k < index ==> (#[trigger] self.jobs@[k]) is None,
            decreases CAPACITY - index,
        {
            self.jobs[index] = None;
            index += 1;
        }
        assert(self.slots() =~= Seq::new(CAPACITY as nat, |i: int| None::<JobView>));
    }

    /// Polls the first job with the id (see `CommandJob::poll`); `NotFound`
    /// if there is none.
    pub fn poll<R: PlatformRuntime>(
        &mut self,
        id: JobId,
        runtime: &mut R,
        context: &mut core::task::Context<'_>,
    ) -> (r: Result<Poll<CommandResult>, ReturnCodes>)
        ensures
            !contains_id(old(self).slots(), id) ==> {
                &&& r == Err::<Poll<CommandResult>, ReturnCodes>(ReturnCodes::NotFound)
                &&& final(self).slots() == old(self).slots()
                &&& *final(runtime) == *old(runtime)
            },
            contains_id(old(self).slots(), id) ==> exists|i: int, job: JobView|
                #![trigger old(self).slots().update(i, Some(job))]
                {
                    &&& is_first_with(old(self).slots(), id, i)
                    &&& r matches Ok(answer) && old(self).slots()[i].unwrap().polled(job, answer)
                        && runtime_polled(
                        old(self).slots()[i].unwrap(),
                        *old(runtime),
                        *final(runtime),
                        answer,
                    )
                    &&& final(self).slots() == old(self).slots().update(i, Some(job))
                },
            final(self).upcoming_id() == old(self).upcoming_id(),
    {
        proof {
            use_type_invariant(&*self);
        }
        let mut index: usize = 0;
        while index < self.jobs.len()
            invariant
                self.jobs@.len() == CAPACITY,
                self.next_id >= 1,
                *self == *old(self),
                index <= CAPACITY,
                *runtime == *old(runtime),
                forall|k: int| 0 <= k < index ==> !holds_id(#[trigger] opt_view(self.jobs@[k]), id),
            decreases CAPACITY - index,
        {
            if let Some(mut job) = self.jobs[index] {
                if job.id == id {
                    let answer = job.poll(runtime, context);
                    self.jobs[index] = Some(job);
                    proof {
                        assert(is_first_with(old(self).slots(), id, index as int));
                        assert(self.slots() =~= old(self).slots().update(index as int, Some(job@)));
                    }
                    return Ok(answer);
                }
            }
            index += 1;
        }
        proof {
            assert forall|i: int| 0 <= i < old(self).slots().len() implies !holds_id(
                #[trigger] old(self).slots()[i],
                id,
            ) by {
                assert(!holds_id(opt_view(self.jobs@[i]), id));
            }
        }
        Err(ReturnCodes::NotFound)
    }

    /// Removes and returns the first job with the id.
    pub fn take(&mut self, id: JobId) -> (r: Option<CommandJob>)
        ensures
            !contains_id(old(self).slots(), id) ==> {
                &&& r is None
                &&& final(self).slots() == old(self).slots()
            },
            contains_id(old(self).slots(), id) ==> exists|i: int|
                {
                    &&& is_first_with(old(self).slots(), id, i)
                    &&& opt_view(r) == old(self).slots()[i]
                    &&& final(self).slots() == old(self).slots().update(i, None)
                },
            final(self).upcoming_id() == old(self).upcoming_id(),
    {
        proof {
            use_type_invariant(&*self);
        }
        let mut index: usize = 0;
        while index < self.jobs.len()
            invariant
                self.jobs@.len() == CAPACITY,
                self.next_id >= 1,
                *self == *old(self),
                index <= CAPACITY,
                forall|k: int| 0 <= k < index ==> !holds_id(#[trigger] opt_view(self.jobs@[k]), id),
            decreases CAPACITY - index,
        {
            let found = match &self.jobs[index] {
                Some(job) => job.id == id,
                None => false,
            };
            if found {
                let job = self.jobs[index];
                self.jobs[index] = None;
                proof {
                    assert(is_first_with(old(self).slots(), id, index as int));
                    assert(self.slots() =~= old(self).slots().update(index as int, None));
                }
                return job;
            }
            index += 1;
        }
        proof {
            assert forall|i: int| 0 <= i < old(self).slots().len() implies !holds_id(
                #[trigger] old(self).slots()[i],
                id,
            ) by {
                assert(!holds_id(opt_view(self.jobs@[i]), id));
            }
        }
        None
    }
}

/// Every job in the slots has an id below `bound`.
pub open spec fn ids_below(slots: Seq<Option<JobView>>, bound: u64) -> bool {
    forall|i: int| 0 <= i < slots.len() ==> (#[trigger] slots[i] matches Some(job) ==> job.id.0 < bound)
}

/// No two jobs in the slots share an id.
pub open spec fn ids_distinct(slots: Seq<Option<JobView>>) -> bool {
    forall|i: int, j: int|
        0 <= i < slots.len() && 0 <= j < slots.len() && i != j && #[trigger] slots[i] is Some
            && #[trigger] slots[j] is Some ==> slots[i].unwrap().id != slots[j].unwrap().id
}

/// The ids a queue hands out are never zero, and count up by one until
/// the counter wraps.
pub proof fn law_job_ids_nonzero(id: u64)
    ensures
        next_job_id(id) != 0,
        id < u64::MAX ==> next_job_id(id) == id + 1,
{
}

/// Slots `0..k` hold jobs and the rest are free.
pub open spec fn filled_up_to(slots: Seq<Option<JobView>>, k: int) -> bool {
    forall|i: int| 0 <= i < slots.len() ==> ((#[trigger] slots[i]) is Some <==> i < k)
}

/// Pushing onto a fresh queue (all slots free, next id 1) fills it in slot
/// order with ids 1, 2, ...: the push after `k` jobs answers id `k + 1` and
/// fills slot `k`, until every slot is taken; then it answers `JobsFull`.
pub proof fn law_pushes_fill_in_order(
    before: Seq<Option<JobView>>,
    k: nat,
    command: Command,
    timeout: Option<JobTimeout>,
    outcome: CommandOutcome,
    after: Seq<Option<JobView>>,
    after_id: u64,
    r: Result<JobId, ReturnCodes>,
)
    requires
        filled_up_to(before, k as int),
        k <= before.len(),
        k < u64::MAX,
        pushes(before, (k + 1) as u64, command, timeout, outcome, after, after_id, r),
    ensures
        after.len() == before.len(),
        k < before.len() ==> {
            &&& r == Ok::<JobId, ReturnCodes>(JobId((k + 1) as u64))
            &&& after[k as int] == Some(job_for(JobId((k + 1) as u64), command, timeout, outcome))
            &&& filled_up_to(after, k + 1int)
            &&& k + 1 < u64::MAX ==> after_id == k + 2
        },
        k == before.len() ==> {
            &&& r == Err::<JobId, ReturnCodes>(ReturnCodes::JobsFull)
            &&& after == before
            &&& after_id == k + 1
        },
{
    if k < before.len() {
        assert(before[k as int] is None);
        let job = job_for(JobId((k + 1) as u64), command, timeout, outcome);
        let i = choose|i: int| is_first_free(before, i) && after == before.update(i, Some(job));
        if i < k {
            assert(before[i] is Some);
        }
        if i > k {
            assert(before[k as int] is Some);
        }
        assert(i == k);
        assert forall|j: int| 0 <= j < after.len() implies ((#[trigger] after[j]) is Some <==> j < k
            + 1) by {
            if j != k {
                assert(after[j] == before[j]);
            }
        }
    } else {
        assert forall|i: int| 0 <= i < before.len() implies (#[trigger] before[i]) is Some by {}
    }
}

/// The smaller of the two.
spec fn min_nat(a: nat, b: nat) -> nat {
    if a < b {
        a
    } else {
        b
    }
}

proof fn lemma_fresh_queue_step(
    states: Seq<Seq<Option<JobView>>>,
    ids: Seq<u64>,
    commands: Seq<Command>,
    timeouts: Seq<Option<JobTimeout>>,
    outcomes: Seq<CommandOutcome>,
    answers: Seq<Result<JobId, ReturnCodes>>,
    j: nat,
)
    requires
        states.len() == answers.len() + 1,
        ids.len() == states.len(),
        commands.len() == answers.len(),
        timeouts.len() == answers.len(),
        outcomes.len() == answers.len(),
        forall|i: int| 0 <= i < states[0].len() ==> (#[trigger] states[0][i]) is None,
        ids[0] == 1,
        states[0].len() < u64::MAX,
        forall|p: int|
            0 <= p < answers.len() ==> #[trigger] pushes(
                states[p],
                ids[p],
                commands[p], timeouts[p], outcomes[p],
                states[p + 1],
                ids[p + 1],
                answers[p],
            ),
        j <= answers.len(),
    ensures
        states[j as int].len() == states[0].len(),
        filled_up_to(states[j as int], min_nat(j, states[0].len()) as int),
        ids[j as int] == min_nat(j, states[0].len()) + 1,
    decreases j,
{
    let n = states[0].len();
    if j == 0 {
        assert forall|i: int| 0 <= i < states[0].len() implies ((#[trigger] states[0][i]) is Some
            <==> i < 0) by {}
    } else {
        let p = (j - 1) as int;
        lemma_fresh_queue_step(states, ids, commands, timeouts, outcomes, answers, (j - 1) as nat);
        let k = min_nat((j - 1) as nat, n);
        assert(pushes(states[p], ids[p], commands[p], timeouts[p], outcomes[p], states[p + 1], ids[p + 1], answers[p]));
        law_pushes_fill_in_order(states[p], k, commands[p], timeouts[p], outcomes[p], states[p + 1], ids[p + 1], answers[p]);
    }
}

/// From a fresh queue (every slot free, next id 1), a run of pushes answers ids 1, 2, ... in turn while slots are free, and `JobsFull` once all are taken.
pub proof fn law_fresh_queue_fills(
    states: Seq<Seq<Option<JobView>>>,
    ids: Seq<u64>,
    commands: Seq<Command>,
    timeouts: Seq<Option<JobTimeout>>,
    outcomes: Seq<CommandOutcome>,
    answers: Seq<Result<JobId, ReturnCodes>>,
)
    requires
        states.len() == answers.len() + 1,
        ids.len() == states.len(),
        commands.len() == answers.len(),
        timeouts.len() == answers.len(),
        outcomes.len() == answers.len(),
        forall|i: int| 0 <= i < states[0].len() ==> (#[trigger] states[0][i]) is None,
        ids[0] == 1,
        states[0].len() < u64::MAX,
        forall|p: int|
            0 <= p < answers.len() ==> #[trigger] pushes(
                states[p],
                ids[p],
                commands[p], timeouts[p], outcomes[p],
                states[p + 1],
                ids[p + 1],
                answers[p],
            ),
    ensures
        forall|j: int|
            0 <= j < answers.len() ==> #[trigger] answers[j] == if j < states[0].len() {
                Ok::<JobId, ReturnCodes>(JobId((j + 1) as u64))
            } else {
                Err::<JobId, ReturnCodes>(ReturnCodes::JobsFull)
            },
{
    let n = states[0].len();
    assert forall|j: int| 0 <= j < answers.len() implies #[trigger] answers[j] == if j
        < states[0].len() {
        Ok::<JobId, ReturnCodes>(JobId((j + 1) as u64))
    } else {
        Err::<JobId, ReturnCodes>(ReturnCodes::JobsFull)
    } by {
        lemma_fresh_queue_step(states, ids, commands, timeouts, outcomes, answers, j as nat);
        assert(pushes(states[j], ids[j], commands[j], timeouts[j], outcomes[j], states[j + 1], ids[j + 1], answers[j]));
        law_pushes_fill_in_order(states[j], min_nat(j as nat, n), commands[j], timeouts[j], outcomes[j], states[j + 1], ids[j + 1], answers[j]);
    }
}

/// A push files the outcome as it is: the job a successful push puts in
/// the first free slot has the id the push answered, the command and the
/// timeout; for a finished command it holds exactly that result, and every
/// poll of it answers that result; for a platform job it waits on exactly
/// that platform job and holds no result yet.
pub proof fn law_push_files_outcome(
    before: Seq<Option<JobView>>,
    before_id: u64,
    command: Command,
    timeout: Option<JobTimeout>,
    outcome: CommandOutcome,
    after: Seq<Option<JobView>>,
    after_id: u64,
    r: Result<JobId, ReturnCodes>,
)
    requires
        pushes(before, before_id, command, timeout, outcome, after, after_id, r),
        r is Ok,
    ensures
        exists|i: int|
            #[trigger] is_first_free(before, i) && after[i] is Some && {
                let job = after[i].unwrap();
                &&& r == Ok::<JobId, ReturnCodes>(job.id)
                &&& job.id == JobId(before_id)
                &&& job.command == command
                &&& job.timeout == timeout
                &&& (outcome matches CommandOutcome::Ready(x) ==> {
                    &&& job.result == Some(x)
                    &&& job.platform is None
                    &&& forall|later: JobView, answer: Poll<CommandResult>|
                        #[trigger] job.polled(later, answer) ==> answer == Poll::<
                            CommandResult,
                        >::Ready(x) && later == job
                })
                &&& (outcome matches CommandOutcome::Platform(p) ==> {
                    &&& job.platform == Some(p)
                    &&& job.result is None
                })
            },
{
    let job = job_for(JobId(before_id), command, timeout, outcome);
    let i = choose|i: int| is_first_free(before, i) && after == before.update(i, Some(job));
    assert(is_first_free(before, i) && after[i] == Some(job));
}

/// Polling a job that waits on a platform job hands the runtime's reply
/// on: where the runtime, in its state before the poll, can only reply
/// `reply` about that platform job, the job's poll answers `reply`; a
/// `Ready` reply becomes the job's result and lets the platform job go,
/// and a `Pending` reply leaves the job as it was.
pub proof fn law_poll_hands_on_runtime_reply<R: PlatformRuntime>(
    job: JobView,
    later: JobView,
    before_runtime: R,
    after_runtime: R,
    answer: Poll<CommandResult>,
    platform: PlatformJob,
    reply: Poll<CommandResult>,
)
    requires
        job.result is None,
        job.platform == Some(platform),
        forall|a: R, y: Poll<CommandResult>|
            #[trigger] before_runtime.answers(&a, platform, y) ==> y == reply,
        job.polled(later, answer),
        runtime_polled(job, before_runtime, after_runtime, answer),
    ensures
        answer == reply,
        reply matches Poll::Ready(x) ==> later.result == Some(x) && later.platform is None,
        reply is Pending ==> later == job,
        later.id == job.id && later.command == job.command && later.timeout == job.timeout,
{
    assert(before_runtime.answers(&after_runtime, platform, answer));
}

/// A pushed job can be found again under the id the push answered, as
/// long as no job held that id before.
pub proof fn law_push_then_find(
    before: Seq<Option<JobView>>,
    before_id: u64,
    command: Command,
    timeout: Option<JobTimeout>,
    outcome: CommandOutcome,
    after: Seq<Option<JobView>>,
    after_id: u64,
    r: Result<JobId, ReturnCodes>,
)
    requires
        pushes(before, before_id, command, timeout, outcome, after, after_id, r),
        r is Ok,
        !contains_id(before, JobId(before_id)),
    ensures
        contains_id(after, JobId(before_id)),
        forall|i: int|
            is_first_with(after, JobId(before_id), i) ==> after[i] == Some(
                job_for(JobId(before_id), command, timeout, outcome),
            ),
{
    let id = JobId(before_id);
    let job = job_for(id, command, timeout, outcome);
    let i = choose|i: int| is_first_free(before, i) && after == before.update(i, Some(job));
    assert(holds_id(after[i], id));
    assert forall|k: int| is_first_with(after, id, k) implies after[k] == Some(job) by {
        if k != i {
            assert(after[k] == before[k]);
            assert(holds_id(before[k], id));
        }
    }
}

/// While the counter has not wrapped, pushing keeps every held id below
/// the next one and all held ids distinct; so the id a push answers is
/// held by that job alone.
pub proof fn law_push_keeps_ids_fresh(
    before: Seq<Option<JobView>>,
    before_id: u64,
    command: Command,
    timeout: Option<JobTimeout>,
    outcome: CommandOutcome,
    after: Seq<Option<JobView>>,
    after_id: u64,
    r: Result<JobId, ReturnCodes>,
)
    requires
        pushes(before, before_id, command, timeout, outcome, after, after_id, r),
        ids_below(before, before_id),
        ids_distinct(before),
        before_id < u64::MAX,
    ensures
        !contains_id(before, JobId(before_id)),
        ids_below(after, after_id),
        ids_distinct(after),
{
    let id = JobId(before_id);
    assert forall|i: int| 0 <= i < before.len() implies !holds_id(#[trigger] before[i], id) by {
        if before[i] is Some {
            assert(before[i].unwrap().id.0 < before_id);
        }
    }
    if has_free(before) {
        let job = job_for(id, command, timeout, outcome);
        let i = choose|i: int| is_first_free(before, i) && after == before.update(i, Some(job));
        assert forall|k: int| 0 <= k < after.len() implies (#[trigger] after[k] matches Some(j)
            ==> j.id.0 < after_id) by {
            if k != i {
                assert(after[k] == before[k]);
            }
        }
        assert forall|a: int, b: int|
            0 <= a < after.len() && 0 <= b < after.len() && a != b && #[trigger] after[a] is Some
                && #[trigger] after[b] is Some implies after[a].unwrap().id != after[b].unwrap().id by {
            if a != i && b != i {
                assert(after[a] == before[a] && after[b] == before[b]);
            } else if a == i {
                assert(after[b] == before[b]);
                assert(!holds_id(before[b], id));
            } else {
                assert(after[a] == before[a]);
                assert(!holds_id(before[a], id));
            }
        }
    }
}

/// Where ids are distinct, a job that was taken or cleaned away is not
/// found again.
pub proof fn law_taken_job_is_gone(before: Seq<Option<JobView>>, id: JobId, i: int)
    requires
        ids_distinct(before),
        is_first_with(before, id, i),
    ensures
        !contains_id(before.update(i, None), id),
{
    let after = before.update(i, None);
    assert forall|k: int| 0 <= k < after.len() implies !holds_id(#[trigger] after[k], id) by {
        if k != i && holds_id(after[k], id) {
            assert(after[k] == before[k]);
            assert(before[i] is Some && before[k] is Some);
        }
    }
}

/// A job that holds a result answers it again on every later poll and is
/// not changed by it; in particular, once a poll answered `Ready`, every
/// later poll answers the same.
pub proof fn law_ready_is_final(
    first: JobView,
    second: JobView,
    x: CommandResult,
    third: JobView,
    answer: Poll<CommandResult>,
)
    requires
        first.polled(second, Poll::Ready(x)),
        second.polled(third, answer),
    ensures
        second.result == Some(x) || (second.result is None && second.platform is None && x == Err::<
            (),
            ReturnCodes,
        >(ReturnCodes::Failed)),
        answer == Poll::<CommandResult>::Ready(x),
        third == second,
{
}

impl<const CAPACITY: usize> Default for JobQueue<CAPACITY> {
    fn default() -> (q: Self)
        ensures
            q.slots() == Seq::new(CAPACITY as nat, |i: int| None::<JobView>),
            q.upcoming_id() == 1,
    {
        Self::new()
    }
}

} // verus!
