use core::task::{Context, Waker};

use shvessel::callback::CommandResult;
use shvessel::job::{PlatformJob, PlatformRuntime};
use shvessel::mini_exec::{MiniExecutor, MiniTask, MiniTaskContext, MiniTaskPoll};
use shvessel::time::{Duration, Instant, ManualClock};
use shvessel::{Poll, ReturnCodes};

fn sleeper(task: &mut MiniTaskContext) -> Poll<CommandResult> {
    if task.state() == 0 {
        task.set_state(1);
        task.sleep_until(task.value() as u64);
        Poll::Pending
    } else {
        Poll::Ready(Ok(()))
    }
}

fn sleeps_for_duration(task: &mut MiniTaskContext) -> Poll<CommandResult> {
    if task.state() == 0 {
        task.set_state(1);
        task.sleep_for_duration(Duration::from_millis(10));
        Poll::Pending
    } else {
        Poll::Ready(Err(ReturnCodes::Failed))
    }
}

fn sleeps_until_instant(task: &mut MiniTaskContext) -> Poll<CommandResult> {
    if task.state() == 0 {
        task.set_state(1);
        task.sleep_until_instant(Instant::from_millis(100));
        Poll::Pending
    } else {
        Poll::Ready(Ok(()))
    }
}

fn parks(task: &mut MiniTaskContext) -> Poll<CommandResult> {
    task.set_value(task.value() + 1);
    task.sleep_until(u64::MAX);
    Poll::Pending
}

fn reports_clock(task: &mut MiniTaskContext) -> Poll<CommandResult> {
    task.set_value(task.now_ms() as i64);
    assert_eq!(task.now().as_millis(), task.now_ms());
    assert_eq!(task.name(), "clock");
    assert_eq!(task.job(), PlatformJob::new(1));
    Poll::Ready(Ok(()))
}

fn wakes_then_finishes(task: &mut MiniTaskContext) -> Poll<CommandResult> {
    task.wake();
    Poll::Ready(Ok(()))
}

#[test]
fn sleeping_task_wakes_exactly_at_its_deadline() {
    let mut exec = MiniExecutor::<2>::new();
    let job = exec.spawn("sleeper", MiniTaskPoll(sleeper)).unwrap();
    exec.task_mut(job).unwrap().value = 30;
    assert_eq!(exec.poll_one(job), Poll::Pending);
    assert!(!exec.has_ready_tasks());
    assert!(exec.has_live_tasks());
    assert_eq!(exec.next_deadline_ms(), Some(30));
    assert_eq!(exec.next_deadline(), Some(Instant::from_millis(30)));
    exec.advance_to(29);
    assert_eq!(exec.ms_until_next_deadline(), Some(1));
    assert_eq!(exec.duration_until_next_deadline(), Some(Duration::from_millis(1)));
    assert_eq!(exec.poll_ready(), 0);
    exec.advance_to(30);
    assert!(exec.has_ready_tasks());
    assert_eq!(exec.next_deadline_ms(), None);
    assert_eq!(exec.poll_ready(), 1);
    assert!(!exec.has_live_tasks());
    assert_eq!(exec.task(job).unwrap().result(), Some(Ok(())));
}

#[test]
fn passed_deadlines_report_zero_time_left() {
    let mut exec = MiniExecutor::<1>::new();
    let job = exec.spawn("sleeper", MiniTaskPoll(sleeper)).unwrap();
    exec.task_mut(job).unwrap().value = 5;
    exec.poll_one(job);
    assert_eq!(exec.ms_until_next_deadline(), Some(5));
    // The deadline passes between advancing and asking; the task is woken
    // on the next advance or poll.
    let mut clock = ManualClock::new(Instant::from_millis(4));
    assert_eq!(exec.advance_from_clock(&mut clock), Instant::from_millis(4));
    assert_eq!(exec.now_ms(), 4);
    assert_eq!(exec.now(), Instant::from_millis(4));
    clock.advance_millis(20);
    exec.advance_to_instant(clock.current());
    assert_eq!(exec.ms_until_next_deadline(), None);
    assert_eq!(exec.poll_one(job), Poll::Ready(Ok(())));
}

#[test]
fn earliest_deadline_of_live_tasks_wins() {
    let mut exec = MiniExecutor::<3>::new();
    let late = exec.spawn("late", MiniTaskPoll(sleeper)).unwrap();
    let early = exec.spawn("early", MiniTaskPoll(sleeper)).unwrap();
    let timed = exec.spawn("timed", MiniTaskPoll(sleeps_for_duration)).unwrap();
    exec.task_mut(late).unwrap().value = 50;
    exec.task_mut(early).unwrap().value = 20;
    assert_eq!(exec.poll_ready(), 3);
    assert_eq!(exec.next_deadline_ms(), Some(10));
    exec.advance_to(10);
    assert_eq!(exec.poll_one(timed), Poll::Ready(Err(ReturnCodes::Failed)));
    // A finished task's deadline no longer counts.
    assert_eq!(exec.next_deadline_ms(), Some(20));
    exec.advance_to(25);
    assert_eq!(exec.poll_ready(), 1);
    assert_eq!(exec.next_deadline_ms(), Some(50));
    exec.clean_done();
    assert!(exec.task(timed).is_none());
    assert!(exec.task(early).is_none());
    assert!(exec.task(late).is_some());
}

#[test]
fn sleep_for_wraps_around_the_clock() {
    let mut exec = MiniExecutor::<1>::new();
    exec.advance_to(u64::MAX - 4);
    let job = exec.spawn("timed", MiniTaskPoll(sleeps_for_duration)).unwrap();
    assert_eq!(exec.poll_one(job), Poll::Pending);
    assert_eq!(exec.task(job).unwrap().deadline_ms(), Some(5));
    // The wrapped deadline lies before the clock: the next poll wakes it.
    assert_eq!(exec.ms_until_next_deadline(), Some(0));
    assert_eq!(exec.poll_one(job), Poll::Ready(Err(ReturnCodes::Failed)));
}

#[test]
fn wake_makes_a_sleeping_task_ready_but_not_a_finished_one() {
    let mut exec = MiniExecutor::<2>::new();
    let job = exec.spawn("instant", MiniTaskPoll(sleeps_until_instant)).unwrap();
    assert_eq!(exec.poll_one(job), Poll::Pending);
    assert_eq!(exec.task(job).unwrap().deadline_ms(), Some(100));
    assert!(!exec.task(job).unwrap().is_ready());
    assert_eq!(exec.wake(job), Ok(()));
    assert!(exec.task(job).unwrap().is_ready());
    assert_eq!(exec.task(job).unwrap().deadline_ms(), None);
    assert_eq!(exec.poll_one(job), Poll::Ready(Ok(())));
    assert_eq!(exec.wake(job), Ok(()));
    assert!(exec.task(job).unwrap().is_done());
    assert_eq!(exec.poll_one(job), Poll::Ready(Ok(())));
    assert_eq!(exec.wake(PlatformJob::new(77)), Err(ReturnCodes::NotFound));
}

#[test]
fn finished_task_answers_its_result_again() {
    let mut exec = MiniExecutor::<1>::new();
    let job = exec.spawn("clock", MiniTaskPoll(reports_clock)).unwrap();
    exec.advance_to(12);
    assert_eq!(exec.poll_one(job), Poll::Ready(Ok(())));
    assert_eq!(exec.task(job).unwrap().value, 12);
    exec.advance_to(40);
    assert_eq!(exec.poll_one(job), Poll::Ready(Ok(())));
    assert_eq!(exec.task(job).unwrap().value, 12);
    assert_eq!(exec.poll_ready(), 0);
}

#[test]
fn a_task_that_wakes_itself_while_finishing_is_not_polled_again() {
    let mut exec = MiniExecutor::<1>::new();
    let job = exec.spawn("waker", MiniTaskPoll(wakes_then_finishes)).unwrap();
    assert_eq!(exec.poll_ready(), 1);
    assert!(exec.task(job).unwrap().is_done());
    assert!(exec.task(job).unwrap().is_ready());
    assert!(!exec.has_ready_tasks());
    assert_eq!(exec.poll_ready(), 0);
}

#[test]
fn parked_task_counts_polls_and_is_cleaned() {
    let mut exec = MiniExecutor::<2>::new();
    let job = exec.spawn("park", MiniTaskPoll(parks)).unwrap();
    assert_eq!(exec.spawn("other", MiniTaskPoll(parks)), Ok(PlatformJob::new(2)));
    assert_eq!(exec.poll_ready(), 2);
    assert_eq!(exec.poll_one(job), Poll::Pending);
    assert_eq!(exec.task(job).unwrap().value, 1);
    assert_eq!(exec.wake(job), Ok(()));
    assert_eq!(exec.poll_one(job), Poll::Pending);
    assert_eq!(exec.task(job).unwrap().value, 2);
    exec.clean_done();
    assert!(exec.task(job).is_some());
    assert_eq!(exec.clean(job), Ok(()));
    assert_eq!(exec.clean(job), Err(ReturnCodes::NotFound));
    assert_eq!(exec.spawn("again", MiniTaskPoll(parks)), Ok(PlatformJob::new(3)));
}

#[test]
fn executor_is_a_platform_runtime() {
    let mut exec: MiniExecutor<1> = Default::default();
    let job = exec.spawn("clock", MiniTaskPoll(reports_clock)).unwrap();
    let mut context = Context::from_waker(Waker::noop());
    assert_eq!(PlatformRuntime::poll(&mut exec, job, &mut context), Poll::Ready(Ok(())));
    assert_eq!(
        PlatformRuntime::poll(&mut exec, PlatformJob::new(5), &mut context),
        Poll::Ready(Err(ReturnCodes::NotFound))
    );
}

fn finishes_after_setting_up(task: &mut MiniTaskContext) -> Poll<CommandResult> {
    task.set_state(4);
    task.set_value(-2);
    task.sleep_until(9);
    Poll::Ready(Ok(()))
}

#[test]
fn fresh_task_and_finished_run() {
    let task = MiniTask::new(PlatformJob::new(3), "t", MiniTaskPoll(parks));
    assert!(task.is_ready());
    assert!(!task.is_done());
    assert_eq!(task.deadline_ms(), None);
    assert_eq!(task.result(), None);
    assert_eq!((task.job, task.name, task.state, task.value), (PlatformJob::new(3), "t", 0, 0));

    let mut exec = MiniExecutor::<1>::new();
    let job = exec.spawn("recorder", MiniTaskPoll(finishes_after_setting_up)).unwrap();
    assert_eq!(exec.poll_one(job), Poll::Ready(Ok(())));
    // The task itself took the context's state and value, and its deadline
    // was cleared when it finished.
    let done = *exec.task(job).unwrap();
    assert_eq!((done.state, done.value), (4, -2));
    assert_eq!(done.deadline_ms(), None);
    assert!(!done.is_ready());
}

fn idles(_task: &mut MiniTaskContext) -> Poll<CommandResult> {
    Poll::Pending
}

#[test]
fn spawns_fill_slots_in_order_until_full() {
    let mut exec = MiniExecutor::<3>::new();
    assert_eq!(exec.spawn("a", MiniTaskPoll(idles)), Ok(PlatformJob::new(1)));
    assert_eq!(exec.spawn("b", MiniTaskPoll(idles)), Ok(PlatformJob::new(2)));
    assert_eq!(exec.spawn("c", MiniTaskPoll(idles)), Ok(PlatformJob::new(3)));
    assert_eq!(exec.spawn("d", MiniTaskPoll(idles)), Err(ReturnCodes::JobsFull));
    assert_eq!(exec.task(PlatformJob::new(2)).unwrap().name, "b");
}

#[test]
fn pending_task_that_neither_wakes_nor_sleeps_stays_idle() {
    let mut exec = MiniExecutor::<1>::new();
    let job = exec.spawn("idle", MiniTaskPoll(idles)).unwrap();
    assert_eq!(exec.poll_one(job), Poll::Pending);
    assert!(!exec.task(job).unwrap().is_ready());
    exec.advance_to(1_000);
    assert_eq!(exec.poll_ready(), 0);
    assert_eq!(exec.wake(job), Ok(()));
    assert_eq!(exec.poll_ready(), 1);
}

#[test]
fn executor_without_slots_refuses_every_spawn() {
    let mut exec = MiniExecutor::<0>::new();
    assert_eq!(exec.spawn("a", MiniTaskPoll(idles)), Err(ReturnCodes::JobsFull));
    assert!(!exec.has_live_tasks());
    assert_eq!(exec.next_deadline_ms(), None);
    assert_eq!(exec.poll_ready(), 0);
}
