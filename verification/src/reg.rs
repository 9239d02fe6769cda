//! The command registry: a fixed number of slots for named commands and
//! their callbacks.
use vstd::prelude::*;

use crate::callback::{CommandCallback, CommandResult};
use crate::{Command, ReturnCodes};
use vstd::string::StringSliceAdditionalSpecFns;

verus! {

/// A command together with the callback that runs it.
#[derive(Clone, Copy)]
pub struct RegisteredCommand {
    pub command: Command,
    pub callback: CommandCallback,
}

/// The entry holds a command of that name.
pub open spec fn is_named(entry: Option<RegisteredCommand>, name: Seq<char>) -> bool {
    entry matches Some(e) && e.command.name@ == name
}

/// Entry `i` is the first that holds a command of that name.
pub open spec fn is_first_named(entries: Seq<Option<RegisteredCommand>>, name: Seq<char>, i: int) -> bool {
    &&& 0 <= i < entries.len()
    &&& is_named(entries[i], name)
    &&& forall|k: int| 0 <= k < i ==> !is_named(#[trigger] entries[k], name)
}

pub open spec fn has_named(entries: Seq<Option<RegisteredCommand>>, name: Seq<char>) -> bool {
    exists|i: int| 0 <= i < entries.len() && is_named(#[trigger] entries[i], name)
}

/// Entry `i` is the first empty one.
pub open spec fn is_first_free(entries: Seq<Option<RegisteredCommand>>, i: int) -> bool {
    &&& 0 <= i < entries.len()
    &&& entries[i] is None
    &&& forall|k: int| 0 <= k < i ==> (#[trigger] entries[k]) is Some
}

pub open spec fn has_free(entries: Seq<Option<RegisteredCommand>>) -> bool {
    exists|i: int| 0 <= i < entries.len() && (#[trigger] entries[i]) is None
}

/// Registering the command with its callback on the entries `before`
/// leaves `after` and answers `r`: the pair goes into the first free slot;
/// with no free slot the answer is `RegistryFull` and nothing changes.
pub open spec fn registers(
    before: Seq<Option<RegisteredCommand>>,
    command: Command,
    callback: CommandCallback,
    after: Seq<Option<RegisteredCommand>>,
    r: CommandResult,
) -> bool {
    if has_free(before) {
        &&& r == Ok::<(), ReturnCodes>(())
        &&& exists|i: int|
            is_first_free(before, i) && after == before.update(
                i,
                Some(RegisteredCommand { command, callback }),
            )
    } else {
        &&& r == Err::<(), ReturnCodes>(ReturnCodes::RegistryFull)
        &&& after == before
    }
}

/// A registered command is found again by its name, with its callback, as
/// long as no command of that name was registered before.
pub proof fn law_register_then_find(
    before: Seq<Option<RegisteredCommand>>,
    command: Command,
    callback: CommandCallback,
    after: Seq<Option<RegisteredCommand>>,
    r: CommandResult,
)
    requires
        registers(before, command, callback, after, r),
        r is Ok,
        !has_named(before, command.name@),
    ensures
        has_named(after, command.name@),
        forall|i: int|
            is_first_named(after, command.name@, i) ==> after[i] == Some(
                RegisteredCommand { command, callback },
            ),
{
    let entry = RegisteredCommand { command, callback };
    let i = choose|i: int| is_first_free(before, i) && after == before.update(i, Some(entry));
    assert(is_named(after[i], command.name@));
    assert forall|k: int| is_first_named(after, command.name@, k) implies after[k] == Some(entry) by {
        if k != i {
            assert(after[k] == before[k]);
            assert(is_named(before[k], command.name@));
        }
    }
}

/// Whether both strings hold the same characters.
pub fn same_text(a: &str, b: &str) -> (r: bool)
    ensures
        r == (a@ == b@),
{
    let x = a.as_bytes();
    let y = b.as_bytes();
    proof {
        vstd::utf8::encode_utf8_decode_utf8(a@);
        vstd::utf8::encode_utf8_decode_utf8(b@);
    }
    if x.len() != y.len() {
        return false;
    }
    let mut i: usize = 0;
    while i < x.len()
        invariant
            x@ == a.spec_bytes(),
            y@ == b.spec_bytes(),
            x@.len() == y@.len(),
            i <= x@.len(),
            forall|k: int| 0 <= k < i ==> x@[k] == y@[k],
        decreases x@.len() - i,
    {
        if x[i] != y[i] {
            return false;
        }
        i += 1;
    }
    assert(x@ =~= y@);
    true
}

/// A fixed number of command slots.
pub struct CommandRegistry<const CAPACITY: usize> {
    entries: Vec<Option<RegisteredCommand>>,
}

impl<const CAPACITY: usize> CommandRegistry<CAPACITY> {
    #[verifier::type_invariant]
    spec fn inv(self) -> bool {
        self.entries@.len() == CAPACITY
    }

    /// The slots, in order; `None` is a free slot.
    pub closed spec fn entries(&self) -> Seq<Option<RegisteredCommand>> {
        Seq::new(CAPACITY as nat, |i: int| self.entries@[i])
    }

    /// There are `CAPACITY` slots.
    pub proof fn lemma_slot_count(&self)
        ensures
            self.entries().len() == CAPACITY,
    {
    }

    pub fn new() -> (r: Self)
        ensures
            r.entries() == Seq::new(CAPACITY as nat, |i: int| None::<RegisteredCommand>),
    {
        let mut entries: Vec<Option<RegisteredCommand>> = Vec::new();
        while entries.len() < CAPACITY
            invariant
                entries@.len() <= CAPACITY,
                forall|k: int| 0 <= k < entries@.len() ==> (#[trigger] entries@[k]) is None,
            decreases CAPACITY - entries@.len(),
        {
            entries.push(None);
        }
        let r = CommandRegistry { entries };
        assert(r.entries() =~= Seq::new(CAPACITY as nat, |i: int| None::<RegisteredCommand>));
        r
    }

    /// Files the command with its callback in the first free slot; fails
    /// with `RegistryFull` when no slot is free.
    pub fn register(&mut self, command: Command, callback: CommandCallback) -> (r: CommandResult)
        ensures
            registers(old(self).entries(), command, callback, final(self).entries(), r),
    {
        proof {
            use_type_invariant(&*self);
        }
        let mut index: usize = 0;
        while index < self.entries.len()
            invariant
                self.entries@.len() == CAPACITY,
                *self == *old(self),
                index <= CAPACITY,
                forall|k: int| 0 <= k < index ==> (#[trigger] self.entries@[k]) is Some,
            decreases CAPACITY - index,
        {
            if self.entries[index].is_none() {
                let entry = RegisteredCommand { command, callback };
                self.entries[index] = Some(entry);
                proof {
                    assert(is_first_free(old(self).entries(), index as int));
                    assert(self.entries() =~= old(self).entries().update(index as int, Some(entry)));
                }
                return Ok(());
            }
            index += 1;
        }
        proof {
            assert forall|i: int| 0 <= i < old(self).entries().len() implies (#[trigger] old(
                self,
            ).entries()[i]) is Some by {
                assert(self.entries@[i] is Some);
            }
        }
        Err(ReturnCodes::RegistryFull)
    }

    /// The first command registered under the name.
    pub fn find(&self, name: &str) -> (r: Option<RegisteredCommand>)
        ensures
            !has_named(self.entries(), name@) ==> r is None,
            has_named(self.entries(), name@) ==> exists|i: int|
                is_first_named(self.entries(), name@, i) && r == self.entries()[i],
    {
        proof {
            use_type_invariant(self);
        }
        let mut index: usize = 0;
        while index < self.entries.len()
            invariant
                self.entries@.len() == CAPACITY,
                index <= CAPACITY,
                forall|k: int| 0 <= k < index ==> !is_named(#[trigger] self.entries()[k], name@),
            decreases CAPACITY - index,
        {
            if let Some(entry) = self.entries[index] {
                if same_text(entry.command.name, name) {
                    assert(is_first_named(self.entries(), name@, index as int));
                    return Some(entry);
                }
            }
            index += 1;
        }
        None
    }
}

impl<const CAPACITY: usize> Default for CommandRegistry<CAPACITY> {
    fn default() -> (r: Self)
        ensures
            r.entries() == Seq::new(CAPACITY as nat, |i: int| None::<RegisteredCommand>),
    {
        Self::new()
    }
}

} // verus!
