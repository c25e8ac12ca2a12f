//! The job supervisor: the lifetime of the one job that may run at a time.
//!
//! The supervisor spawns and kills nothing itself. Its caller performs the
//! actions it returns and hands back what it observed of the process.

use vstd::prelude::*;
use crate::event::{ProcessEnd, Signal};

verus! {

/// How a job stands or ended.
#[derive(Clone, Copy, Debug, PartialEq, Eq, Structural)]
pub enum CompletionStatus {
    /// Every step that ran ended with exit code zero.
    Success,
    /// A step ended with a non-zero exit code.
    ExitError(i64),
    /// A step was ended by a signal.
    Signalled(Signal),
    /// The job was stopped by the supervisor.
    Stopped,
    /// A step could not be launched.
    FailedToStart,
    /// The job has not ended.
    StillRunning,
}

/// Whether a job is running.
#[derive(Clone, Copy, Debug, PartialEq, Eq, Structural)]
pub enum JobState {
    Idle,
    Running { handle: u64, started_at: u64 },
}

/// What the caller does after `stop`.
#[derive(Clone, Copy, Debug, PartialEq, Eq, Structural)]
pub enum StopAction {
    /// Ask the job's process group to terminate.
    Terminate,
    /// A stop is already under way; nothing more to send.
    Pending,
    /// No job with that handle is running.
    Gone,
}

/// What the caller does after it reported the end of a step.
#[derive(Clone, Copy, Debug, PartialEq, Eq, Structural)]
pub enum Observed {
    /// Launch the step with this index of the same job.
    Next(usize),
    /// The job is over, with this status.
    Done(CompletionStatus),
    /// No job with that handle is running; nothing changed.
    Stale,
}

/// A job that ended, with its status.
#[derive(Clone, Copy, Debug, PartialEq, Eq, Structural)]
pub struct Ended {
    pub handle: u64,
    pub status: CompletionStatus,
}

/// The supervisor's state.
#[derive(Clone, Copy, Debug, PartialEq, Eq, Structural)]
pub struct Supervisor {
    /// The job, if one is running.
    pub state: JobState,
    /// The time at which an outstanding graceful stop turns into a kill.
    pub deadline: Option<u64>,
    /// The index of the step in flight.
    pub step: usize,
    /// The number of steps of the plan that the job runs.
    pub steps: usize,
    /// Whether later steps run after a step failed.
    pub keep_going: bool,
    /// How long a graceful stop may take.
    pub grace: u64,
    /// The handle that the next job gets.
    pub next_handle: u64,
    /// The last job that ended, with its status.
    pub last: Option<Ended>,
}

/// The status that stands for the end of one process.
pub open spec fn status_of(end: ProcessEnd) -> CompletionStatus {
    match end {
        ProcessEnd::Success => CompletionStatus::Success,
        ProcessEnd::ExitError(code) => CompletionStatus::ExitError(code),
        ProcessEnd::ExitSignal(signal) => CompletionStatus::Signalled(signal),
        ProcessEnd::ExitStop(_) => CompletionStatus::Stopped,
        ProcessEnd::Exception(code) => CompletionStatus::ExitError(code as i64),
        ProcessEnd::Continued => CompletionStatus::StillRunning,
    }
}

/// `now + grace`, or the largest time where that does not fit.
pub open spec fn deadline_at(now: u64, grace: u64) -> u64 {
    if now + grace <= u64::MAX {
        (now + grace) as u64
    } else {
        u64::MAX
    }
}

impl Supervisor {
    /// The invariant: a stop is outstanding only for a running job, the step
    /// in flight belongs to the plan, and handles are never reused.
    pub open spec fn wf(self) -> bool {
        &&& self.deadline is Some ==> self.state is Running
        &&& self.state matches JobState::Running { handle, .. } ==> self.step < self.steps
            && handle < self.next_handle
        &&& self.last matches Some(ended) ==> ended.handle < self.next_handle && ended.status
            != CompletionStatus::StillRunning
    }

    /// Whether the job with this handle is running.
    pub open spec fn runs(self, handle: u64) -> bool {
        self.state matches JobState::Running { handle: h, .. } && h == handle
    }

    /// Whether any job is running.
    pub open spec fn busy(self) -> bool {
        self.state is Running
    }

    /// Whether `start` launches a job.
    pub open spec fn can_start(self, steps: usize) -> bool {
        self.state is Idle && steps > 0 && self.next_handle < u64::MAX
    }

    /// The supervisor after `start`.
    pub open spec fn after_start(self, steps: usize, now: u64) -> Supervisor {
        if self.can_start(steps) {
            Supervisor {
                state: JobState::Running { handle: self.next_handle, started_at: now },
                deadline: None,
                step: 0,
                steps,
                next_handle: (self.next_handle + 1) as u64,
                ..self
            }
        } else {
            self
        }
    }

    /// The supervisor after the job with this handle ended with `status`.
    pub open spec fn ended(self, handle: u64, status: CompletionStatus) -> Supervisor {
        Supervisor { state: JobState::Idle, deadline: None, last: Some(Ended { handle, status }), ..self }
    }

    /// Whether the end of a step with `end` lets the next step run.
    pub open spec fn continues(self, end: ProcessEnd) -> bool {
        &&& self.deadline is None
        &&& self.step + 1 < self.steps
        &&& end == ProcessEnd::Success || self.keep_going
        &&& end != ProcessEnd::Continued
    }

    /// What `observe` returns.
    pub open spec fn observed(self, handle: u64, end: ProcessEnd) -> Observed {
        if !self.runs(handle) || end == ProcessEnd::Continued {
            Observed::Stale
        } else if self.continues(end) {
            Observed::Next((self.step + 1) as usize)
        } else if self.deadline is Some {
            Observed::Done(CompletionStatus::Stopped)
        } else {
            Observed::Done(status_of(end))
        }
    }

    /// The supervisor after `observe`.
    pub open spec fn after_observe(self, handle: u64, end: ProcessEnd) -> Supervisor {
        match self.observed(handle, end) {
            Observed::Stale => self,
            Observed::Next(step) => Supervisor { step, ..self },
            Observed::Done(status) => self.ended(handle, status),
        }
    }

    /// What `stop` returns.
    pub open spec fn stop_action(self, handle: u64) -> StopAction {
        if !self.runs(handle) {
            StopAction::Gone
        } else if self.deadline is Some {
            StopAction::Pending
        } else {
            StopAction::Terminate
        }
    }

    /// The supervisor after `stop`.
    pub open spec fn after_stop(self, handle: u64, now: u64) -> Supervisor {
        if self.stop_action(handle) == StopAction::Terminate {
            Supervisor { deadline: Some(deadline_at(now, self.grace)), ..self }
        } else {
            self
        }
    }

    /// The handle that `expire` asks to kill, if the grace period is over.
    pub open spec fn overdue(self, now: u64) -> Option<u64> {
        match (self.state, self.deadline) {
            (JobState::Running { handle, .. }, Some(deadline)) => if now >= deadline {
                Some(handle)
            } else {
                None
            },
            _ => None,
        }
    }

    /// The supervisor after `expire`.
    pub open spec fn after_expire(self, now: u64) -> Supervisor {
        match self.overdue(now) {
            Some(handle) => self.ended(handle, CompletionStatus::Stopped),
            None => self,
        }
    }

    /// What `poll` returns.
    pub open spec fn polled(self, handle: u64) -> Option<CompletionStatus> {
        if self.runs(handle) {
            Some(CompletionStatus::StillRunning)
        } else {
            match self.last {
                Some(ended) => if ended.handle == handle {
                    Some(ended.status)
                } else {
                    None
                },
                None => None,
            }
        }
    }

    /// An idle supervisor.
    pub fn new(grace: u64, keep_going: bool) -> (supervisor: Supervisor)
        ensures
            supervisor.wf(),
            supervisor == (Supervisor {
                state: JobState::Idle,
                deadline: None,
                step: 0,
                steps: 0,
                keep_going,
                grace,
                next_handle: 0,
                last: None,
            }),
    {
        Supervisor {
            state: JobState::Idle,
            deadline: None,
            step: 0,
            steps: 0,
            keep_going,
            grace,
            next_handle: 0,
            last: None,
        }
    }

    /// Whether a job is running.
    pub fn is_running(&self) -> (yes: bool)
        ensures
            yes == self.busy(),
    {
        match self.state {
            JobState::Running { .. } => true,
            JobState::Idle => false,
        }
    }

    /// Starts a job that runs a plan of `steps` steps. Returns the job's
    /// handle, for which the caller launches step 0, or `None` when a job is
    /// running, the plan is empty or the handles are used up; nothing
    /// changes then.
    pub fn start(&mut self, steps: usize, now: u64) -> (handle: Option<u64>)
        requires
            old(self).wf(),
        ensures
            final(self).wf(),
            *final(self) == old(self).after_start(steps, now),
            handle == if old(self).can_start(steps) {
                Some(old(self).next_handle)
            } else {
                None::<u64>
            },
    {
        match self.state {
            JobState::Running { .. } => None,
            JobState::Idle => {
                if steps == 0 || self.next_handle == u64::MAX {
                    return None;
                }
                let handle = self.next_handle;
                self.state = JobState::Running { handle, started_at: now };
                self.deadline = None;
                self.step = 0;
                self.steps = steps;
                self.next_handle = handle + 1;
                Some(handle)
            },
        }
    }

    /// Takes note that the step in flight of the job `handle` ended with
    /// `end`. The job goes on with its next step where the step succeeded,
    /// or where failures do not stop the plan, unless a stop is under way;
    /// otherwise the job is over and the supervisor is idle.
    pub fn observe(&mut self, handle: u64, end: ProcessEnd) -> (seen: Observed)
        requires
            old(self).wf(),
        ensures
            final(self).wf(),
            seen == old(self).observed(handle, end),
            *final(self) == old(self).after_observe(handle, end),
    {
        match self.state {
            JobState::Idle => Observed::Stale,
            JobState::Running { handle: current, .. } => {
                if current != handle {
                    return Observed::Stale;
                }
                let success = match end {
                    ProcessEnd::Continued => {
                        return Observed::Stale;
                    },
                    ProcessEnd::Success => true,
                    _ => false,
                };
                if self.deadline.is_none() && self.steps - self.step > 1 && (success
                    || self.keep_going) {
                    self.step = self.step + 1;
                    return Observed::Next(self.step);
                }
                let status = if self.deadline.is_some() {
                    CompletionStatus::Stopped
                } else {
                    completion_status(end)
                };
                self.state = JobState::Idle;
                self.deadline = None;
                self.last = Some(Ended { handle, status });
                Observed::Done(status)
            },
        }
    }

    /// Takes note that a step of the job `handle` could not be launched:
    /// the job is over with `FailedToStart`. Returns whether that job was
    /// running.
    pub fn launch_failed(&mut self, handle: u64) -> (was_running: bool)
        requires
            old(self).wf(),
        ensures
            final(self).wf(),
            was_running == old(self).runs(handle),
            *final(self) == if old(self).runs(handle) {
                old(self).ended(handle, CompletionStatus::FailedToStart)
            } else {
                *old(self)
            },
    {
        match self.state {
            JobState::Idle => false,
            JobState::Running { handle: current, .. } => {
                if current != handle {
                    return false;
                }
                self.state = JobState::Idle;
                self.deadline = None;
                self.last = Some(Ended { handle, status: CompletionStatus::FailedToStart });
                true
            },
        }
    }

    /// The status of the job `handle`: still running, how it ended if it
    /// was the last job to end, or `None` if nothing is known of it.
    pub fn poll(&self, handle: u64) -> (status: Option<CompletionStatus>)
        ensures
            status == self.polled(handle),
    {
        match self.state {
            JobState::Running { handle: current, .. } => {
                if current == handle {
                    return Some(CompletionStatus::StillRunning);
                }
            },
            JobState::Idle => {},
        }
        match self.last {
            Some(ended) => if ended.handle == handle {
                Some(ended.status)
            } else {
                None
            },
            None => None,
        }
    }

    /// Asks the job `handle` to stop. The first call for a running job sets
    /// the deadline and returns `Terminate`; later calls change nothing.
    pub fn stop(&mut self, handle: u64, now: u64) -> (action: StopAction)
        requires
            old(self).wf(),
        ensures
            final(self).wf(),
            action == old(self).stop_action(handle),
            *final(self) == old(self).after_stop(handle, now),
    {
        match self.state {
            JobState::Idle => StopAction::Gone,
            JobState::Running { handle: current, .. } => {
                if current != handle {
                    return StopAction::Gone;
                }
                if self.deadline.is_some() {
                    return StopAction::Pending;
                }
                let deadline = if now <= u64::MAX - self.grace {
                    now + self.grace
                } else {
                    u64::MAX
                };
                self.deadline = Some(deadline);
                StopAction::Terminate
            },
        }
    }

    /// Ends a stop whose grace period is over: returns the handle of the job
    /// that the caller kills now, and the supervisor is idle. Returns `None`
    /// and changes nothing where no stop is overdue.
    pub fn expire(&mut self, now: u64) -> (kill: Option<u64>)
        requires
            old(self).wf(),
        ensures
            final(self).wf(),
            kill == old(self).overdue(now),
            *final(self) == old(self).after_expire(now),
    {
        match (self.state, self.deadline) {
            (JobState::Running { handle, .. }, Some(deadline)) => {
                if now >= deadline {
                    self.state = JobState::Idle;
                    self.deadline = None;
                    self.last = Some(Ended { handle, status: CompletionStatus::Stopped });
                    Some(handle)
                } else {
                    None
                }
            },
            _ => None,
        }
    }
}

/// Something that the supervisor is told while a job winds down.
pub enum Notice {
    /// A further request to stop the job `handle`.
    Stop { handle: u64, now: u64 },
    /// The step in flight of the job `handle` ended.
    Ended { handle: u64, end: ProcessEnd },
    /// A step of the job `handle` could not be launched.
    LaunchFailed { handle: u64 },
    /// Time has passed.
    Expire { now: u64 },
}

impl Supervisor {
    /// The supervisor after one notice.
    pub open spec fn after_notice(self, notice: Notice) -> Supervisor {
        match notice {
            Notice::Stop { handle, now } => self.after_stop(handle, now),
            Notice::Ended { handle, end } => self.after_observe(handle, end),
            Notice::LaunchFailed { handle } => if self.runs(handle) {
                self.ended(handle, CompletionStatus::FailedToStart)
            } else {
                self
            },
            Notice::Expire { now } => self.after_expire(now),
        }
    }

    /// The supervisor after each of the notices, in order.
    pub open spec fn after_notices(self, notices: Seq<Notice>) -> Supervisor
        decreases notices.len(),
    {
        if notices.len() == 0 {
            self
        } else {
            self.after_notices(notices.drop_last()).after_notice(notices.last())
        }
    }
}

/// Once a stop was asked of the running job, and while no other job is
/// started, the supervisor is either idle or still winding down that job
/// towards the same deadline, whatever it is told in between.
pub proof fn lemma_stop_keeps_deadline(supervisor: Supervisor, handle: u64, notices: Seq<Notice>)
    requires
        supervisor.wf(),
        supervisor.runs(handle),
        supervisor.deadline is Some,
    ensures
        ({
            let later = supervisor.after_notices(notices);
            &&& later.wf()
            &&& later.state is Idle || (later.runs(handle) && later.deadline == supervisor.deadline)
        }),
    decreases notices.len(),
{
    if notices.len() > 0 {
        lemma_stop_keeps_deadline(supervisor, handle, notices.drop_last());
    }
}

/// A job that is started and at once asked to stop is gone when the grace
/// period is over: whether the process ended by itself, could not be
/// launched, or had to be killed, and whatever the supervisor was told in
/// between, after `expire` at a time not before the deadline the supervisor
/// is idle.
pub proof fn lemma_stop_reaches_idle(
    supervisor: Supervisor,
    steps: usize,
    started: u64,
    notices: Seq<Notice>,
    now: u64,
)
    requires
        supervisor.wf(),
        supervisor.can_start(steps),
        now >= started + supervisor.grace,
    ensures
        ({
            let handle = supervisor.next_handle;
            let running = supervisor.after_start(steps, started);
            let stopping = running.after_stop(handle, started);
            &&& running.state == JobState::Running { handle, started_at: started }
            &&& running.stop_action(handle) == StopAction::Terminate
            &&& stopping.after_notices(notices).after_expire(now).state is Idle
        }),
{
    let handle = supervisor.next_handle;
    let stopping = supervisor.after_start(steps, started).after_stop(handle, started);
    lemma_stop_keeps_deadline(stopping, handle, notices);
}

/// The status that stands for the end of one process.
pub fn completion_status(end: ProcessEnd) -> (status: CompletionStatus)
    ensures
        status == status_of(end),
{
    match end {
        ProcessEnd::Success => CompletionStatus::Success,
        ProcessEnd::ExitError(code) => CompletionStatus::ExitError(code),
        ProcessEnd::ExitSignal(signal) => CompletionStatus::Signalled(signal),
        ProcessEnd::ExitStop(_) => CompletionStatus::Stopped,
        ProcessEnd::Exception(code) => CompletionStatus::ExitError(code as i64),
        ProcessEnd::Continued => CompletionStatus::StillRunning,
    }
}

} // verus!
