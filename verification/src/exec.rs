//! Executing a command: look it up, run its callback, file a job.
use vstd::prelude::*;

use crate::arg::Argument;
use crate::callback::{may_produce, CommandOutcome};
use crate::job::{contains_id, law_push_then_find, pushes, JobId, JobQueue, JobTimeout};
use crate::reg::{has_named, is_first_named, CommandRegistry};
use crate::ReturnCodes;

verus! {

/// What executing `name` against the registry does to the queue: `NotFound`
/// and no change where no command has that name; otherwise the first such
/// command's callback runs and its outcome is pushed (see `pushes`).
pub open spec fn executes<const COMMANDS: usize, const JOBS: usize>(
    registry: CommandRegistry<COMMANDS>,
    before: JobQueue<JOBS>,
    name: Seq<char>,
    timeout: Option<JobTimeout>,
    after: JobQueue<JOBS>,
    r: Result<JobId, ReturnCodes>,
) -> bool {
    if !has_named(registry.entries(), name) {
        &&& r == Err::<JobId, ReturnCodes>(ReturnCodes::NotFound)
        &&& after.slots() == before.slots()
        &&& after.upcoming_id() == before.upcoming_id()
    } else {
        exists|i: int|
            #[trigger] is_first_named(registry.entries(), name, i) && {
                let entry = registry.entries()[i].unwrap();
                exists|outcome: CommandOutcome|
                    #[trigger] may_produce(entry.callback@, outcome) && pushes(
                        before.slots(),
                        before.upcoming_id(),
                        entry.command,
                        timeout,
                        outcome,
                        after.slots(),
                        after.upcoming_id(),
                        r,
                    )
            }
    }
}

/// A job that executing a command filed is found again under the id that
/// `execute` answered, as long as no job held that id before.
pub proof fn law_executed_job_is_found<const COMMANDS: usize, const JOBS: usize>(
    registry: CommandRegistry<COMMANDS>,
    before: JobQueue<JOBS>,
    name: Seq<char>,
    timeout: Option<JobTimeout>,
    after: JobQueue<JOBS>,
    r: Result<JobId, ReturnCodes>,
)
    requires
        executes(registry, before, name, timeout, after, r),
        r is Ok,
        !contains_id(before.slots(), JobId(before.upcoming_id())),
    ensures
        has_named(registry.entries(), name),
        r == Ok::<JobId, ReturnCodes>(JobId(before.upcoming_id())),
        contains_id(after.slots(), JobId(before.upcoming_id())),
{
    let i = choose|i: int| #[trigger] is_first_named(registry.entries(), name, i) && {
        let entry = registry.entries()[i].unwrap();
        exists|outcome: CommandOutcome|
            #[trigger] may_produce(entry.callback@, outcome) && pushes(
                before.slots(),
                before.upcoming_id(),
                entry.command,
                timeout,
                outcome,
                after.slots(),
                after.upcoming_id(),
                r,
            )
    };
    let entry = registry.entries()[i].unwrap();
    let outcome = choose|outcome: CommandOutcome|
        #[trigger] may_produce(entry.callback@, outcome) && pushes(
            before.slots(),
            before.upcoming_id(),
            entry.command,
            timeout,
            outcome,
            after.slots(),
            after.upcoming_id(),
            r,
        );
    law_push_then_find(
        before.slots(),
        before.upcoming_id(),
        entry.command,
        timeout,
        outcome,
        after.slots(),
        after.upcoming_id(),
        r,
    );
}

pub fn execute<'a, const COMMANDS: usize, const JOBS: usize>(
    registry: &CommandRegistry<COMMANDS>,
    jobs: &mut JobQueue<JOBS>,
    name: &str,
    arguments: &'a [Argument<'a>],
) -> (r: Result<JobId, ReturnCodes>)
    ensures
        executes(*registry, *old(jobs), name@, None, *final(jobs), r),
{
    execute_with_timeout(registry, jobs, name, arguments, None)
}

/// Runs the first command registered under `name` with the arguments and
/// files its outcome as a job with the timeout.
pub fn execute_with_timeout<'a, const COMMANDS: usize, const JOBS: usize>(
    registry: &CommandRegistry<COMMANDS>,
    jobs: &mut JobQueue<JOBS>,
    name: &str,
    arguments: &'a [Argument<'a>],
    timeout: Option<JobTimeout>,
) -> (r: Result<JobId, ReturnCodes>)
    ensures
        executes(*registry, *old(jobs), name@, timeout, *final(jobs), r),
{
    let command = match registry.find(name) {
        Some(command) => command,
        None => {
            return Err(ReturnCodes::NotFound);
        },
    };
    let outcome = command.callback.call(arguments);
    jobs.push_with_timeout(command.command, timeout, outcome)
}

} // verus!
