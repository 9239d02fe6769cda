use shvessel::arg::Argument;
use shvessel::callback::{
    CommandCall, CommandCallback, CommandHandler, CommandOutcome, CommandResult, CommandSyncHandler,
};
use shvessel::exec::{execute, execute_with_timeout};
use shvessel::job::{JobId, JobQueue, JobTimeout, PlatformJob};
use shvessel::reg::{same_text, CommandRegistry};
use shvessel::vessel::Vessel;
use shvessel::{Command, ReturnCodes};

fn ok_sync(_call: CommandCall<'_>) -> CommandResult {
    Ok(())
}

fn failing_sync(_call: CommandCall<'_>) -> CommandResult {
    Err(ReturnCodes::Failed)
}

fn counts_arguments(call: CommandCall<'_>) -> CommandResult {
    if call.arguments.len() == 2 && call.arguments[1].text == "b" {
        Ok(())
    } else {
        Err(ReturnCodes::Failed)
    }
}

fn reports_context(call: CommandCall<'_>) -> Result<PlatformJob, ReturnCodes> {
    Ok(PlatformJob::new(call.context as u64))
}

fn refuses(_call: CommandCall<'_>) -> Result<PlatformJob, ReturnCodes> {
    Err(ReturnCodes::NotFound)
}

#[test]
fn text_comparison_is_by_characters() {
    assert!(same_text("delay", "delay"));
    assert!(!same_text("delay", "dela"));
    assert!(!same_text("delay", "delaz"));
    assert!(same_text("", ""));
    assert!(same_text("grüß", "grüß"));
    assert!(!same_text("grüß", "gruß"));
}

#[test]
fn registry_finds_the_first_command_of_a_name() {
    let mut registry = CommandRegistry::<3>::new();
    let first = Command::new("env", "e", "first");
    let second = Command::new("env", "e", "second");
    assert_eq!(registry.register(first, CommandCallback::sync(CommandSyncHandler(ok_sync))), Ok(()));
    assert_eq!(registry.register(second, CommandCallback::sync(CommandSyncHandler(ok_sync))), Ok(()));
    assert_eq!(registry.find("env").unwrap().command.description, "first");
    assert!(registry.find("e").is_none());
    assert!(registry.find("other").is_none());
}

#[test]
fn full_registry_refuses_more_commands() {
    let mut registry = CommandRegistry::<1>::new();
    let c = Command::new("a", "a", "");
    assert_eq!(registry.register(c, CommandCallback::sync(CommandSyncHandler(ok_sync))), Ok(()));
    assert_eq!(
        registry.register(c, CommandCallback::sync(CommandSyncHandler(ok_sync))),
        Err(ReturnCodes::RegistryFull)
    );
}

#[test]
fn callbacks_map_handler_answers_to_outcomes() {
    let args = [Argument::new("a"), Argument::new("b")];
    assert_eq!(
        CommandCallback::syn_call(CommandSyncHandler(failing_sync)).call(&args),
        CommandOutcome::Ready(Err(ReturnCodes::Failed))
    );
    assert_eq!(
        CommandCallback::sync_with_context(CommandSyncHandler(counts_arguments), 3).call(&args),
        CommandOutcome::Ready(Ok(()))
    );
    assert_eq!(
        CommandCallback::asyn_call_with_context(CommandHandler(reports_context), 42).call(&args),
        CommandOutcome::Platform(PlatformJob::new(42))
    );
    assert_eq!(
        CommandCallback::with_context(CommandHandler(reports_context), 7).call(&[]),
        CommandOutcome::Platform(PlatformJob::new(7))
    );
    assert_eq!(
        CommandCallback::new(CommandHandler(reports_context)).call(&[]),
        CommandOutcome::Platform(PlatformJob::new(0))
    );
    assert_eq!(
        CommandCallback::asyn_call(CommandHandler(refuses)).call(&[]),
        CommandOutcome::Ready(Err(ReturnCodes::NotFound))
    );
    assert_eq!(
        CommandOutcome::from_async(Ok(PlatformJob::new(2))),
        CommandOutcome::Platform(PlatformJob::new(2))
    );
    assert_eq!(
        CommandOutcome::from_async(Err(ReturnCodes::JobsFull)),
        CommandOutcome::Ready(Err(ReturnCodes::JobsFull))
    );
}

#[test]
fn command_call_carries_arguments_and_context() {
    let args = [Argument::new("x")];
    let call = CommandCall::new(&args, 11);
    assert_eq!(call.arguments.len(), 1);
    assert_eq!(call.arguments[0].text, "x");
    assert_eq!(call.context, 11);
}

#[test]
fn execute_files_the_outcome_as_a_job() {
    let mut registry = CommandRegistry::<2>::new();
    let mut jobs = JobQueue::<1>::new();
    registry
        .register(Command::new("fail", "f", ""), CommandCallback::sync(CommandSyncHandler(failing_sync)))
        .unwrap();
    assert_eq!(execute(&registry, &mut jobs, "nothing", &[]), Err(ReturnCodes::NotFound));
    let id = execute_with_timeout(&registry, &mut jobs, "fail", &[], Some(JobTimeout::new(3))).unwrap();
    assert_eq!(id, JobId(1));
    assert_eq!(execute(&registry, &mut jobs, "fail", &[]), Err(ReturnCodes::JobsFull));
    let job = jobs.take(id).unwrap();
    assert_eq!(job.timeout, Some(JobTimeout::new(3)));
    assert_eq!(job.result(), Some(Err(ReturnCodes::Failed)));
    assert_eq!(job.command.name, "fail");
}

#[test]
fn vessel_runs_sync_commands_and_cleans_jobs() {
    let mut vessel = Vessel::<1, 2>::new();
    assert_eq!(vessel.register(Command::new("env", "e", ""), CommandCallback::syn_call(CommandSyncHandler(ok_sync))), Ok(()));
    assert_eq!(
        vessel.register(Command::new("more", "m", ""), CommandCallback::syn_call(CommandSyncHandler(ok_sync))),
        Err(ReturnCodes::RegistryFull)
    );
    assert_eq!(vessel.execute("more", &[]), Err(ReturnCodes::NotFound));
    let a = vessel.execute("env", &[]).unwrap();
    let b = vessel.execute_with_timeout("env", &[], Some(JobTimeout::new(9))).unwrap();
    assert_eq!((a, b), (JobId(1), JobId(2)));
    assert_eq!(vessel.execute("env", &[]), Err(ReturnCodes::JobsFull));
    assert_eq!(vessel.clean(a), Ok(()));
    assert_eq!(vessel.clean(a), Err(ReturnCodes::NotFound));
    vessel.clean_all();
    assert_eq!(vessel.clean(b), Err(ReturnCodes::NotFound));
    assert_eq!(vessel.execute("env", &[]), Ok(JobId(3)));
}
