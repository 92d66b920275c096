//! The worker loop's control decisions: each of the fixed pool of
//! workers cycles between polling and executing for the lifetime of the
//! process; a fault is logged and answered with a delay and a fresh
//! poll, never with a stop, and never touches a sibling worker.

use vstd::prelude::*;

verus! {

/// Number of parallel workers when none is configured.
pub const DEFAULT_WORKER_COUNT: usize = 3;

/// Pause after a job completes cleanly, in milliseconds.
pub const IDLE_PAUSE_MS: u64 = 1;

/// Pause after a poll or a job fails, before the worker restarts from
/// polling, in milliseconds.
pub const FAULT_PAUSE_MS: u64 = 1000;

/// Where one worker stands in its cycle.
#[derive(Clone, Copy, PartialEq, Eq, Structural, Debug)]
pub enum WorkerState {
    /// Asking the job source for the next unit of work.
    Polling,
    /// Running one job; the worker is fully occupied by it.
    Executing,
}

/// What one worker just observed.
#[derive(Clone, Copy, PartialEq, Eq, Structural, Debug)]
pub enum WorkerEvent {
    /// Polling handed back a job to run.
    JobReceived,
    /// Polling failed: transport error or a non-success status.
    PollFailed,
    /// The current job ran to completion.
    JobFinished,
    /// The current job failed; the fault is isolated to this worker.
    JobFailed,
}

/// What the worker does next.
#[derive(Clone, Copy, PartialEq, Eq, Structural, Debug)]
pub enum WorkerAction {
    /// Run the job just received.
    ExecuteJob,
    /// Sleep for the given time, then poll again.
    SleepThenPoll { delay_ms: u64 },
}

/// One transition of a worker: receiving a job moves it to executing; a
/// finished job sends it back to polling after a brief pause; any fault,
/// while polling or executing, sends it back to polling after the fault
/// pause. No event stops the loop. An event that cannot occur in the
/// given state leaves the worker polling after the brief pause.
pub fn worker_transition(state: WorkerState, event: WorkerEvent) -> (r: (
    WorkerState,
    WorkerAction,
))
    ensures
        state == WorkerState::Polling && event == WorkerEvent::JobReceived ==> r == (
        WorkerState::Executing,
        WorkerAction::ExecuteJob,
        ),
        state == WorkerState::Executing && event == WorkerEvent::JobReceived ==> r == (
        WorkerState::Polling,
        (WorkerAction::SleepThenPoll { delay_ms: IDLE_PAUSE_MS }),
        ),
        event == WorkerEvent::PollFailed || event == WorkerEvent::JobFailed ==> r == (
        WorkerState::Polling,
        (WorkerAction::SleepThenPoll { delay_ms: FAULT_PAUSE_MS }),
        ),
        event == WorkerEvent::JobFinished ==> r == (
        WorkerState::Polling,
        (WorkerAction::SleepThenPoll { delay_ms: IDLE_PAUSE_MS }),
        ),
        r.0 == WorkerState::Executing || r.0 == WorkerState::Polling,
{
    match event {
        WorkerEvent::JobReceived => {
            if state == WorkerState::Polling {
                (WorkerState::Executing, WorkerAction::ExecuteJob)
            } else {
                (WorkerState::Polling, WorkerAction::SleepThenPoll { delay_ms: IDLE_PAUSE_MS })
            }
        },
        WorkerEvent::PollFailed => (
            WorkerState::Polling,
            WorkerAction::SleepThenPoll { delay_ms: FAULT_PAUSE_MS },
        ),
        WorkerEvent::JobFinished => (
            WorkerState::Polling,
            WorkerAction::SleepThenPoll { delay_ms: IDLE_PAUSE_MS },
        ),
        WorkerEvent::JobFailed => (
            WorkerState::Polling,
            WorkerAction::SleepThenPoll { delay_ms: FAULT_PAUSE_MS },
        ),
    }
}

/// Worker pool sizing: the configured thread count, or the default
/// when none was given.
pub fn worker_count(configured: Option<usize>) -> (n: usize)
    ensures
        n == match configured {
            Some(c) => c,
            None => DEFAULT_WORKER_COUNT,
        },
{
    match configured {
        Some(c) => c,
        None => DEFAULT_WORKER_COUNT,
    }
}


/// Process configuration given on the command line.
pub struct Args {
    /// Number of workers to parallelize the work, when given.
    pub threads: Option<usize>,
}

impl Args {
    /// The worker pool size these arguments ask for.
    pub fn thread_count(&self) -> (n: usize)
        ensures
            n == match self.threads {
                Some(c) => c,
                None => DEFAULT_WORKER_COUNT,
            },
    {
        match self.threads {
            Some(c) => c,
            None => DEFAULT_WORKER_COUNT,
        }
    }
}

} // verus!
