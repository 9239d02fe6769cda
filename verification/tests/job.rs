use core::task::{Context, Waker};

use shvessel::callback::{CommandOutcome, CommandResult};
use shvessel::job::{CommandJob, JobId, JobQueue, JobTimeout, PlatformJob, PlatformRuntime};
use shvessel::{Command, Poll, ReturnCodes};

/// A runtime that answers from a script and counts how often it was asked.
struct ScriptedRuntime {
    answers: Vec<Poll<CommandResult>>,
    asked: Vec<PlatformJob>,
}

impl PlatformRuntime for ScriptedRuntime {
    fn poll(&mut self, job: PlatformJob, _context: &mut Context<'_>) -> Poll<CommandResult> {
        self.asked.push(job);
        if self.answers.is_empty() {
            Poll::Pending
        } else {
            self.answers.remove(0)
        }
    }
}

fn command() -> Command {
    Command::new("run", "r", "runs")
}

#[test]
fn queue_hands_out_counting_ids_until_full() {
    let mut queue = JobQueue::<2>::new();
    assert_eq!(queue.push(command(), CommandOutcome::Ready(Ok(()))), Ok(JobId(1)));
    assert_eq!(queue.push(command(), CommandOutcome::Platform(PlatformJob::new(7))), Ok(JobId(2)));
    assert_eq!(
        queue.push(command(), CommandOutcome::Ready(Ok(()))),
        Err(ReturnCodes::JobsFull)
    );
    // A failed push does not use up an id.
    assert!(queue.take(JobId(1)).is_some());
    assert_eq!(queue.push(command(), CommandOutcome::Ready(Ok(()))), Ok(JobId(3)));
}

#[test]
fn pushed_job_is_taken_back_with_its_parts() {
    let mut queue = JobQueue::<3>::new();
    let id = queue
        .push_with_timeout(command(), Some(JobTimeout::new(50)), CommandOutcome::Platform(PlatformJob::new(9)))
        .unwrap();
    let job = queue.take(id).unwrap();
    assert_eq!(job.id, id);
    assert_eq!(job.command.name, "run");
    assert_eq!(job.timeout, Some(JobTimeout::new(50)));
    assert_eq!(job.platform(), Some(PlatformJob::new(9)));
    assert_eq!(job.result(), None);
    // Taken away, it is gone.
    assert!(queue.take(id).is_none());
    assert_eq!(queue.clean(id), Err(ReturnCodes::NotFound));
}

#[test]
fn clean_and_clean_all_free_slots() {
    let mut queue = JobQueue::<2>::new();
    let a = queue.push(command(), CommandOutcome::Ready(Ok(()))).unwrap();
    let b = queue.push(command(), CommandOutcome::Ready(Err(ReturnCodes::Failed))).unwrap();
    assert_eq!(queue.clean(a), Ok(()));
    assert_eq!(queue.clean(a), Err(ReturnCodes::NotFound));
    let c = queue.push(command(), CommandOutcome::Ready(Ok(()))).unwrap();
    assert_eq!(c, JobId(3));
    queue.clean_all();
    assert!(queue.take(b).is_none());
    assert!(queue.take(c).is_none());
    assert_eq!(queue.push(command(), CommandOutcome::Ready(Ok(()))), Ok(JobId(4)));
}

#[test]
fn ready_job_answers_without_asking_the_runtime() {
    let mut queue = JobQueue::<1>::new();
    let id = queue.push(command(), CommandOutcome::Ready(Err(ReturnCodes::Failed))).unwrap();
    let mut runtime = ScriptedRuntime { answers: vec![Poll::Ready(Ok(()))], asked: vec![] };
    let mut context = Context::from_waker(Waker::noop());
    assert_eq!(
        queue.poll(id, &mut runtime, &mut context),
        Ok(Poll::Ready(Err(ReturnCodes::Failed)))
    );
    assert_eq!(
        queue.poll(id, &mut runtime, &mut context),
        Ok(Poll::Ready(Err(ReturnCodes::Failed)))
    );
    assert!(runtime.asked.is_empty());
}

#[test]
fn platform_job_settles_once_and_stays_settled() {
    let mut queue = JobQueue::<1>::new();
    let id = queue.push(command(), CommandOutcome::Platform(PlatformJob::new(5))).unwrap();
    let mut runtime = ScriptedRuntime {
        answers: vec![Poll::Pending, Poll::Ready(Ok(())), Poll::Ready(Err(ReturnCodes::Failed))],
        asked: vec![],
    };
    let mut context = Context::from_waker(Waker::noop());
    assert_eq!(queue.poll(id, &mut runtime, &mut context), Ok(Poll::Pending));
    assert_eq!(queue.poll(id, &mut runtime, &mut context), Ok(Poll::Ready(Ok(()))));
    // Settled: the runtime is not asked again and the answer stays.
    assert_eq!(queue.poll(id, &mut runtime, &mut context), Ok(Poll::Ready(Ok(()))));
    assert_eq!(runtime.asked, vec![PlatformJob::new(5), PlatformJob::new(5)]);
    let job = queue.take(id).unwrap();
    assert_eq!(job.platform(), None);
    assert_eq!(job.result(), Some(Ok(())));
}

#[test]
fn polling_an_unknown_job_is_not_found() {
    let mut queue = JobQueue::<1>::new();
    let mut runtime = ScriptedRuntime { answers: vec![], asked: vec![] };
    let mut context = Context::from_waker(Waker::noop());
    assert_eq!(
        queue.poll(JobId(1), &mut runtime, &mut context),
        Err(ReturnCodes::NotFound)
    );
}

#[test]
fn command_job_constructors_and_settle() {
    let mut job = CommandJob::pending(JobId(3), command(), None, PlatformJob::new(4));
    assert_eq!(job.platform(), Some(PlatformJob::new(4)));
    assert_eq!(job.result(), None);
    assert_eq!(job.settle(Poll::Pending), Poll::Pending);
    assert_eq!(job.platform(), Some(PlatformJob::new(4)));
    assert_eq!(job.settle(Poll::Ready(Err(ReturnCodes::NotFound))), Poll::Ready(Err(ReturnCodes::NotFound)));
    assert_eq!(job.platform(), None);
    assert_eq!(job.result(), Some(Err(ReturnCodes::NotFound)));

    let ready = CommandJob::ready(JobId(8), command(), Some(JobTimeout::new(1)), Ok(()));
    assert_eq!(ready.id, JobId(8));
    assert_eq!(ready.platform(), None);
    assert_eq!(ready.result(), Some(Ok(())));
}

#[test]
fn default_queue_is_empty() {
    let mut queue: JobQueue<1> = Default::default();
    assert_eq!(queue.push(command(), CommandOutcome::Ready(Ok(()))), Ok(JobId(1)));
}
