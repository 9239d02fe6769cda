//! A small command shell core: a registry of named commands, a bounded queue
//! of running jobs, and a minimal executor for platform tasks.
use vstd::prelude::*;

pub mod arg;
pub mod callback;
pub mod exec;
pub mod job;
pub mod mini_exec;
pub mod reg;
pub mod time;
pub mod vessel;

verus! {

/// The ways a command, a job or a lookup can fail.
#[derive(Clone, Copy, Debug, PartialEq, Eq, Structural)]
pub enum ReturnCodes {
    /// The operation ran and failed.
    Failed,
    /// No command, job or task carries the given name or id.
    NotFound,
    /// Every job or task slot is taken.
    JobsFull,
    /// Every command slot of the registry is taken.
    RegistryFull,
}

/// The state of an operation that may not have finished yet.
#[derive(Clone, Copy, Debug, PartialEq, Eq)]
pub enum Poll<T> {
    /// It finished with the given value.
    Ready(T),
    /// It has not finished; poll it again later.
    Pending,
}

/// A command that can be registered: its name, a short alias and a one-line
/// description.
#[derive(Clone, Copy, Debug)]
pub struct Command {
    pub name: &'static str,
    pub short: &'static str,
    pub description: &'static str,
}

impl Command {
    pub fn new(name: &'static str, short: &'static str, description: &'static str) -> (c: Self)
        ensures
            c.name == name,
            c.short == short,
            c.description == description,
    {
        Command { name, short, description }
    }
}

} // verus!
