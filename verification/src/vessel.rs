//! The vessel: a command registry and a job queue behind one front.
use vstd::prelude::*;

use crate::arg::Argument;
use crate::callback::{CommandCallback, CommandResult};
use crate::exec;
use crate::exec::executes;
use crate::job::{contains_id, is_first_with, runtime_polled, JobId, JobQueue, JobTimeout, JobView, PlatformRuntime};
use crate::reg::{registers, CommandRegistry, RegisteredCommand};
use crate::{Command, Poll, ReturnCodes};

verus! {

pub struct Vessel<const COMMANDS: usize, const JOBS: usize> {
    registry: CommandRegistry<COMMANDS>,
    jobs: JobQueue<JOBS>,
}

impl<const COMMANDS: usize, const JOBS: usize> Vessel<COMMANDS, JOBS> {
    pub closed spec fn registry(&self) -> CommandRegistry<COMMANDS> {
        self.registry
    }

    pub closed spec fn jobs(&self) -> JobQueue<JOBS> {
        self.jobs
    }

    pub fn new() -> (v: Self)
        ensures
            v.registry().entries() == Seq::new(COMMANDS as nat, |i: int| None::<RegisteredCommand>),
            v.jobs().slots() == Seq::new(JOBS as nat, |i: int| None::<JobView>),
            v.jobs().upcoming_id() == 1,
    {
        Vessel { registry: CommandRegistry::new(), jobs: JobQueue::new() }
    }

    /// Registers the command with its callback (see `CommandRegistry::register`).
    pub fn register(&mut self, command: Command, callback: CommandCallback) -> (r: CommandResult)
        ensures
            registers(old(self).registry().entries(), command, callback, final(self).registry().entries(), r),
            final(self).jobs() == old(self).jobs(),
    {
        self.registry.register(command, callback)
    }

    /// Executes the command registered under `name` (see `exec::executes`).
    pub fn execute(&mut self, name: &str, arguments: &[Argument<'_>]) -> (r: Result<JobId, ReturnCodes>)
        ensures
            executes(old(self).registry(), old(self).jobs(), name@, None, final(self).jobs(), r),
            final(self).registry() == old(self).registry(),
    {
        exec::execute(&self.registry, &mut self.jobs, name, arguments)
    }

    pub fn execute_with_timeout(
        &mut self,
        name: &str,
        arguments: &[Argument<'_>],
        timeout: Option<JobTimeout>,
    ) -> (r: Result<JobId, ReturnCodes>)
        ensures
            executes(old(self).registry(), old(self).jobs(), name@, timeout, final(self).jobs(), r),
            final(self).registry() == old(self).registry(),
    {
        exec::execute_with_timeout(&self.registry, &mut self.jobs, name, arguments, timeout)
    }

    /// Removes the first job with the id (see `JobQueue::clean`).
    pub fn clean(&mut self, id: JobId) -> (r: Result<(), ReturnCodes>)
        ensures
            !contains_id(old(self).jobs().slots(), id) ==> {
                &&& r == Err::<(), ReturnCodes>(ReturnCodes::NotFound)
                &&& final(self).jobs().slots() == old(self).jobs().slots()
            },
            contains_id(old(self).jobs().slots(), id) ==> {
                &&& r == Ok::<(), ReturnCodes>(())
                &&& exists|i: int|
                    is_first_with(old(self).jobs().slots(), id, i) && final(self).jobs().slots()
                        == old(self).jobs().slots().update(i, None)
            },
            final(self).jobs().upcoming_id() == old(self).jobs().upcoming_id(),
            final(self).registry() == old(self).registry(),
    {
        self.jobs.clean(id)
    }

    pub fn clean_all(&mut self)
        ensures
            final(self).jobs().slots() == Seq::new(JOBS as nat, |i: int| None::<JobView>),
            final(self).jobs().upcoming_id() == old(self).jobs().upcoming_id(),
            final(self).registry() == old(self).registry(),
    {
        self.jobs.clean_all();
    }

    /// Polls the first job with the id (see `JobQueue::poll`).
    pub fn poll_job<R: PlatformRuntime>(
        &mut self,
        id: JobId,
        runtime: &mut R,
        context: &mut core::task::Context<'_>,
    ) -> (r: Result<Poll<CommandResult>, ReturnCodes>)
        ensures
            !contains_id(old(self).jobs().slots(), id) ==> {
                &&& r == Err::<Poll<CommandResult>, ReturnCodes>(ReturnCodes::NotFound)
                &&& final(self).jobs().slots() == old(self).jobs().slots()
                &&& *final(runtime) == *old(runtime)
            },
            contains_id(old(self).jobs().slots(), id) ==> exists|i: int, job: JobView|
                #![trigger old(self).jobs().slots().update(i, Some(job))]
                {
                    &&& is_first_with(old(self).jobs().slots(), id, i)
                    &&& r matches Ok(answer) && old(self).jobs().slots()[i].unwrap().polled(
                        job,
                        answer,
                    ) && runtime_polled(
                        old(self).jobs().slots()[i].unwrap(),
                        *old(runtime),
                        *final(runtime),
                        answer,
                    )
                    &&& final(self).jobs().slots() == old(self).jobs().slots().update(i, Some(job))
                },
            final(self).jobs().upcoming_id() == old(self).jobs().upcoming_id(),
            final(self).registry() == old(self).registry(),
    {
        self.jobs.poll(id, runtime, context)
    }
}

impl<const COMMANDS: usize, const JOBS: usize> Default for Vessel<COMMANDS, JOBS> {
    fn default() -> (v: Self)
        ensures
            v.registry().entries() == Seq::new(COMMANDS as nat, |i: int| None::<RegisteredCommand>),
            v.jobs().slots() == Seq::new(JOBS as nat, |i: int| None::<JobView>),
            v.jobs().upcoming_id() == 1,
    {
        Self::new()
    }
}

} // verus!
