//! Command callbacks: what runs when a command is executed.
use vstd::prelude::*;

use crate::arg::Argument;
use crate::job::PlatformJob;
use crate::ReturnCodes;

verus! {

/// What a finished command reports.
pub type CommandResult = Result<(), ReturnCodes>;

/// What executing a command produced: a job that a platform runtime will
/// finish later, or a result that is known now.
#[derive(Clone, Copy, Debug, PartialEq, Eq)]
pub enum CommandOutcome {
    Platform(PlatformJob),
    Ready(CommandResult),
}

impl CommandOutcome {
    /// The outcome of an asynchronous handler's answer: the platform job it
    /// started, or its error as a finished result.
    pub fn from_async(answer: Result<PlatformJob, ReturnCodes>) -> (o: Self)
        ensures
            o == match answer {
                Ok(job) => CommandOutcome::Platform(job),
                Err(code) => CommandOutcome::Ready(Err(code)),
            },
    {
        match answer {
            Ok(job) => CommandOutcome::Platform(job),
            Err(code) => CommandOutcome::Ready(Err(code)),
        }
    }
}

/// What a handler is called with: the command's arguments and the context
/// that was registered with its callback, as an address (`0` for none).
#[derive(Clone, Copy)]
pub struct CommandCall<'a> {
    pub arguments: &'a [Argument<'a>],
    pub context: usize,
}

impl<'a> CommandCall<'a> {
    pub fn new(arguments: &'a [Argument<'a>], context: usize) -> (c: Self)
        ensures
            c.arguments == arguments,
            c.context == context,
    {
        CommandCall { arguments, context }
    }
}

/// A handler that starts platform work and answers the job it started.
///
/// The handle is opaque to the library's specifications: the library only
/// copies it and hands it to `run_async`, the one place where it is called.
#[verifier::external_body]
pub struct CommandHandler(pub for<'a> fn(CommandCall<'a>) -> Result<PlatformJob, ReturnCodes>);

impl Clone for CommandHandler {
    /// Copies the function pointer that the handle holds.
    #[verifier::external_body]
    fn clone(&self) -> (r: Self)
        ensures
            r == *self,
    {
        CommandHandler(self.0)
    }
}

impl Copy for CommandHandler {}

/// A handler that runs to completion and answers its result.
///
/// Held in an opaque handle, like `CommandHandler`.
#[verifier::external_body]
pub struct CommandSyncHandler(pub for<'a> fn(CommandCall<'a>) -> CommandResult);

impl Clone for CommandSyncHandler {
    /// Copies the function pointer that the handle holds.
    #[verifier::external_body]
    fn clone(&self) -> (r: Self)
        ensures
            r == *self,
    {
        CommandSyncHandler(self.0)
    }
}

impl Copy for CommandSyncHandler {}

/// Calls an asynchronous handler (code of the library's user) on the call.
/// Nothing is promised of what it answers.
#[verifier::external_body]
fn run_async(handler: CommandHandler, call: CommandCall<'_>) -> (r: Result<PlatformJob, ReturnCodes>) {
    (handler.0)(call)
}

/// Calls a synchronous handler (code of the library's user) on the call.
/// Nothing is promised of what it answers.
#[verifier::external_body]
fn run_sync(handler: CommandSyncHandler, call: CommandCall<'_>) -> (r: CommandResult) {
    (handler.0)(call)
}

#[derive(Clone, Copy)]
enum CommandCallbackKind {
    Async(CommandHandler),
    Sync(CommandSyncHandler),
}

/// A callback as plain values: its handler and the context address it
/// passes on.
pub enum CallbackView {
    Async(CommandHandler, usize),
    Sync(CommandSyncHandler, usize),
}

/// `outcome` is something calling the callback can produce: an asynchronous
/// handler gives a platform job or a failed result, a synchronous one a
/// result.
pub open spec fn may_produce(callback: CallbackView, outcome: CommandOutcome) -> bool {
    match callback {
        CallbackView::Async(..) => outcome is Platform || outcome matches CommandOutcome::Ready(
            Err(_),
        ),
        CallbackView::Sync(..) => outcome is Ready,
    }
}

/// A handler, and the context address it is called with.
#[derive(Clone, Copy)]
pub struct CommandCallback {
    kind: CommandCallbackKind,
    context: usize,
}

impl View for CommandCallback {
    type V = CallbackView;

    closed spec fn view(&self) -> CallbackView {
        match self.kind {
            CommandCallbackKind::Async(handler) => CallbackView::Async(handler, self.context),
            CommandCallbackKind::Sync(handler) => CallbackView::Sync(handler, self.context),
        }
    }
}

impl CommandCallback {
    pub fn asyn_call(handler: CommandHandler) -> (c: Self)
        ensures
            c@ == CallbackView::Async(handler, 0),
    {
        CommandCallback { kind: CommandCallbackKind::Async(handler), context: 0 }
    }

    pub fn asyn_call_with_context(handler: CommandHandler, context: usize) -> (c: Self)
        ensures
            c@ == CallbackView::Async(handler, context),
    {
        CommandCallback { kind: CommandCallbackKind::Async(handler), context }
    }

    pub fn syn_call(handler: CommandSyncHandler) -> (c: Self)
        ensures
            c@ == CallbackView::Sync(handler, 0),
    {
        CommandCallback { kind: CommandCallbackKind::Sync(handler), context: 0 }
    }

    pub fn syn_call_with_context(handler: CommandSyncHandler, context: usize) -> (c: Self)
        ensures
            c@ == CallbackView::Sync(handler, context),
    {
        CommandCallback { kind: CommandCallbackKind::Sync(handler), context }
    }

    pub fn new(handler: CommandHandler) -> (c: Self)
        ensures
            c@ == CallbackView::Async(handler, 0),
    {
        Self::asyn_call(handler)
    }

    pub fn with_context(handler: CommandHandler, context: usize) -> (c: Self)
        ensures
            c@ == CallbackView::Async(handler, context),
    {
        Self::asyn_call_with_context(handler, context)
    }

    pub fn sync(handler: CommandSyncHandler) -> (c: Self)
        ensures
            c@ == CallbackView::Sync(handler, 0),
    {
        Self::syn_call(handler)
    }

    pub fn sync_with_context(handler: CommandSyncHandler, context: usize) -> (c: Self)
        ensures
            c@ == CallbackView::Sync(handler, context),
    {
        Self::syn_call_with_context(handler, context)
    }

    /// Calls the handler with the arguments and the callback's context; an
    /// asynchronous handler's answer goes through `CommandOutcome::from_async`,
    /// a synchronous one's result is ready at once.
    pub fn call<'a>(self, arguments: &'a [Argument<'a>]) -> (o: CommandOutcome)
        ensures
            may_produce(self@, o),
    {
        let call = CommandCall::new(arguments, self.context);
        match self.kind {
            CommandCallbackKind::Async(handler) => CommandOutcome::from_async(run_async(handler, call)),
            CommandCallbackKind::Sync(handler) => CommandOutcome::Ready(run_sync(handler, call)),
        }
    }
}

} // verus!
