use core::task::{Context, Waker};
use std::sync::Mutex;

use shvessel::callback::{CommandCall, CommandCallback, CommandHandler, CommandResult};
use shvessel::job::PlatformJob;
use shvessel::mini_exec::{MiniExecutor, MiniTaskContext, MiniTaskPoll};
use shvessel::vessel::Vessel;
use shvessel::{Command, Poll, ReturnCodes};

fn delay_task(task: &mut MiniTaskContext) -> Poll<CommandResult> {
    match task.state() {
        0 => {
            task.set_state(1);
            task.sleep_for(10);
            Poll::Pending
        }
        1 => Poll::Ready(Ok(())),
        _ => Poll::Ready(Err(ReturnCodes::Failed)),
    }
}

fn counting_task(task: &mut MiniTaskContext) -> Poll<CommandResult> {
    let value = task.value() + 1;
    task.set_value(value);

    if value < 3 {
        task.wake();
        Poll::Pending
    } else {
        Poll::Ready(Ok(()))
    }
}

// The executor that `spawn_delay` reaches. Tests hold no raw pointers, so a
// shared slot stands in for the callback's context address.
static DELAY_EXECUTOR: Mutex<Option<MiniExecutor<4>>> = Mutex::new(None);

fn spawn_delay(_call: CommandCall<'_>) -> Result<PlatformJob, ReturnCodes> {
    let mut guard = DELAY_EXECUTOR.lock().map_err(|_| ReturnCodes::Failed)?;
    let exec = guard.as_mut().ok_or(ReturnCodes::Failed)?;
    exec.spawn("delay", MiniTaskPoll(delay_task))
}

#[test]
fn vessel_polls_mini_executor_jobs_to_completion() {
    let delay = Command::new("delay", "dl", "complete after one executor wake");
    let mut vessel = Vessel::<1, 1>::new();
    *DELAY_EXECUTOR.lock().unwrap() = Some(MiniExecutor::<4>::new());
    let callback = CommandCallback::asyn_call_with_context(CommandHandler(spawn_delay), 0);
    let waker = Waker::noop();
    let mut context = Context::from_waker(waker);

    vessel.register(delay, callback).unwrap();
    let vessel_job = vessel.execute("delay", &[]).unwrap();

    let mut guard = DELAY_EXECUTOR.lock().unwrap();
    let exec = guard.as_mut().unwrap();
    assert_eq!(
        vessel.poll_job(vessel_job, exec, &mut context),
        Ok(Poll::Pending)
    );
    assert_eq!(exec.ms_until_next_deadline(), Some(10));

    exec.advance_to(9);
    assert_eq!(
        vessel.poll_job(vessel_job, exec, &mut context),
        Ok(Poll::Pending)
    );

    exec.advance_to(10);
    assert_eq!(
        vessel.poll_job(vessel_job, exec, &mut context),
        Ok(Poll::Ready(Ok(())))
    );
}

#[test]
fn ready_tasks_can_be_polled_without_a_vessel() {
    let mut exec = MiniExecutor::<2>::new();
    let job = exec.spawn("count", MiniTaskPoll(counting_task)).unwrap();

    assert!(exec.has_ready_tasks());
    assert_eq!(exec.poll_ready(), 1);
    assert_eq!(exec.poll_ready(), 1);
    assert_eq!(exec.poll_one(job), Poll::Ready(Ok(())));
    assert!(!exec.has_live_tasks());
}

#[test]
fn capacity_and_missing_jobs_report_return_codes() {
    let mut exec = MiniExecutor::<1>::new();
    let job = exec.spawn("count", MiniTaskPoll(counting_task)).unwrap();

    assert_eq!(
        exec.spawn("extra", MiniTaskPoll(counting_task)),
        Err(ReturnCodes::JobsFull)
    );
    assert_eq!(
        exec.clean(PlatformJob::new(999)),
        Err(ReturnCodes::NotFound)
    );
    assert_eq!(exec.clean(job), Ok(()));
    assert_eq!(exec.poll_one(job), Poll::Ready(Err(ReturnCodes::NotFound)));
}
