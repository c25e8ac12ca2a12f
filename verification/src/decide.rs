//! The per-batch policy: from the events of one batch, the busy policy and
//! the settings fixed at startup to an outcome.

use vstd::prelude::*;
use crate::event::{
    batch_completion, batch_has_paths, batch_has_terminal, batch_signals, completion_of,
    has_paths, has_terminal, signals_of, ProcessEnd, RawEvent, Signal,
};
use crate::outcome::{Outcome, Step};

verus! {

/// What to do with a trigger that arrives while a job is running.
#[derive(Clone, Copy, Debug, PartialEq, Eq, Structural)]
pub enum BusyPolicy {
    /// Leave the running job alone and drop the trigger.
    DoNothing,
    /// Stop the running job, then start anew.
    Restart,
    /// Start anew once the running job has ended by itself.
    Queue,
}

/// What became of a job.
#[derive(Clone, Copy, Debug, PartialEq, Eq, Structural)]
pub enum Ending {
    /// Its process ended; `None` when the status is unknown.
    Ended(Option<ProcessEnd>),
    /// It could not be launched.
    FailedToStart,
}

/// What the user is told about a job that is over.
#[derive(Clone, Copy, Debug, PartialEq, Eq, Structural)]
pub struct Report {
    /// What became of the job.
    pub ending: Ending,
    /// Whether the status line is printed.
    pub print: bool,
    /// Whether a desktop notification is sent.
    pub notify: bool,
}

/// The decision for one batch.
#[derive(Debug, PartialEq, Eq)]
pub struct Decision {
    pub outcome: Outcome,
    pub report: Option<Report>,
}

/// The decider: settings fixed at startup, and the few counters that change
/// from batch to batch.
#[derive(Clone, Copy, Debug, PartialEq, Eq, Structural)]
pub struct Decider {
    /// Clear the screen before each run.
    pub clear: bool,
    /// Suppress the watcher's own output.
    pub quiet: bool,
    /// Send desktop notifications.
    pub notify: bool,
    /// Run the job for the first real trigger, wait for it, then exit.
    pub once: bool,
    /// Do not run the job for the startup trigger.
    pub postpone: bool,
    /// The policy for triggers that find a job running.
    pub policy: BusyPolicy,
    /// Seconds to sleep before each run.
    pub delay_run: Option<u64>,
    /// Triggers that may still be acted upon; `None` for no limit.
    pub remaining: Option<u8>,
    /// Whether a trigger has been seen since startup.
    pub triggered: bool,
    /// Whether the single run of the once mode has been started.
    pub once_started: bool,
}

/// The outcome that forwards each signal to the job, in order.
pub open spec fn forwarded(signals: Seq<Signal>) -> Outcome
    decreases signals.len(),
{
    if signals.len() == 0 {
        Outcome::DoNothing
    } else {
        Outcome::Both(
            Box::new(forwarded(signals.drop_last())),
            Box::new(Outcome::Signal(signals.last())),
        )
    }
}

/// The outcome that starts a run: clear the screen if asked, sleep if a
/// delay is set, then start.
pub open spec fn start_outcome(clear: bool, delay_run: Option<u64>) -> Outcome {
    let slept = match delay_run {
        Some(secs) => Outcome::Both(Box::new(Outcome::Sleep(secs)), Box::new(Outcome::Start)),
        None => Outcome::Start,
    };
    if clear {
        Outcome::Both(Box::new(Outcome::Clear), Box::new(slept))
    } else {
        slept
    }
}

/// The outcome for a trigger that finds a job running.
pub open spec fn busy_outcome(policy: BusyPolicy, start: Outcome) -> Outcome {
    match policy {
        BusyPolicy::DoNothing => Outcome::DoNothing,
        BusyPolicy::Restart => Outcome::Both(Box::new(Outcome::Stop), Box::new(start)),
        BusyPolicy::Queue => Outcome::Both(Box::new(Outcome::Wait), Box::new(start)),
    }
}

/// The report on a job that ended: failures are always printed, a success
/// unless quiet, an unknown status never.
pub open spec fn report_for(end: Option<ProcessEnd>, quiet: bool, notify: bool) -> Report {
    Report {
        ending: Ending::Ended(end),
        print: match end {
            Some(ProcessEnd::Success) => !quiet,
            Some(_) => true,
            None => false,
        },
        notify,
    }
}

/// The kinds of batch that the decider tells apart.
pub enum BatchKind {
    /// Holds an interrupt, a terminate or an end of keyboard input.
    Shutdown,
    /// No path, at least one signal: the signals go to the job.
    Signals,
    /// No path, no signal, a completion notice.
    Completion,
    /// No event at all to act on: the trigger made up at startup.
    Startup,
    /// At least one path changed.
    Change,
}

/// The kind of a batch.
pub open spec fn batch_kind(batch: Seq<RawEvent>) -> BatchKind {
    if has_terminal(batch) {
        BatchKind::Shutdown
    } else if has_paths(batch) {
        BatchKind::Change
    } else if signals_of(batch).len() > 0 {
        BatchKind::Signals
    } else if completion_of(batch) is Some {
        BatchKind::Completion
    } else {
        BatchKind::Startup
    }
}

impl Decider {
    /// Whether the trigger quota is used up.
    pub open spec fn exhausted(self) -> bool {
        self.remaining == Some(0u8)
    }

    /// Whether the startup trigger is passed over: it is the first trigger,
    /// and the first run is postponed or waits for the one change of the
    /// once mode.
    pub open spec fn suppresses_startup(self) -> bool {
        !self.triggered && (self.postpone || self.once)
    }

    /// The outcome and the report for a batch.
    pub open spec fn decision(self, batch: Seq<RawEvent>) -> Decision {
        match batch_kind(batch) {
            BatchKind::Shutdown => Decision {
                outcome: Outcome::Both(Box::new(Outcome::Stop), Box::new(Outcome::Exit)),
                report: None,
            },
            BatchKind::Signals => Decision {
                outcome: forwarded(signals_of(batch)),
                report: None,
            },
            BatchKind::Completion => Decision {
                outcome: if self.exhausted() {
                    Outcome::Exit
                } else {
                    Outcome::DoNothing
                },
                report: Some(report_for(completion_of(batch)->0, self.quiet, self.notify)),
            },
            BatchKind::Startup => Decision {
                outcome: if self.suppresses_startup() {
                    Outcome::DoNothing
                } else {
                    self.trigger_outcome()
                },
                report: None,
            },
            BatchKind::Change => Decision { outcome: self.trigger_outcome(), report: None },
        }
    }

    /// The outcome for a trigger that is not suppressed.
    pub open spec fn trigger_outcome(self) -> Outcome {
        if self.once_started {
            Outcome::DoNothing
        } else if self.exhausted() {
            Outcome::Exit
        } else if self.once {
            Outcome::Both(
                Box::new(Outcome::Start),
                Box::new(Outcome::Both(Box::new(Outcome::Wait), Box::new(Outcome::Exit))),
            )
        } else {
            let start = start_outcome(self.clear, self.delay_run);
            Outcome::IfRunning(Box::new(busy_outcome(self.policy, start)), Box::new(start))
        }
    }

    /// The decider after a batch.
    pub open spec fn after(self, batch: Seq<RawEvent>) -> Decider {
        match batch_kind(batch) {
            BatchKind::Startup => if self.suppresses_startup() {
                Decider { triggered: true, ..self }
            } else {
                self.after_trigger()
            },
            BatchKind::Change => self.after_trigger(),
            _ => self,
        }
    }

    /// The decider after a trigger that is not suppressed.
    pub open spec fn after_trigger(self) -> Decider {
        if self.once_started || self.exhausted() {
            Decider { triggered: true, ..self }
        } else {
            Decider {
                triggered: true,
                once_started: self.once,
                remaining: match self.remaining {
                    Some(n) => Some((n - 1) as u8),
                    None => None,
                },
                ..self
            }
        }
    }

    /// A decider at startup.
    pub fn new(
        clear: bool,
        quiet: bool,
        notify: bool,
        once: bool,
        postpone: bool,
        policy: BusyPolicy,
        delay_run: Option<u64>,
        quit_after: Option<u8>,
    ) -> (decider: Decider)
        ensures
            decider == (Decider {
                clear,
                quiet,
                notify,
                once,
                postpone,
                policy,
                delay_run,
                remaining: quit_after,
                triggered: false,
                once_started: false,
            }),
    {
        Decider {
            clear,
            quiet,
            notify,
            once,
            postpone,
            policy,
            delay_run,
            remaining: quit_after,
            triggered: false,
            once_started: false,
        }
    }

    /// Decides what to do for one batch, and counts the trigger.
    pub fn decide(&mut self, batch: &Vec<RawEvent>) -> (decision: Decision)
        ensures
            decision == old(self).decision(batch@),
            *final(self) == old(self).after(batch@),
    {
        if batch_has_terminal(batch) {
            return Decision { outcome: Outcome::both(Outcome::Stop, Outcome::Exit), report: None };
        }
        if !batch_has_paths(batch) {
            let signals = batch_signals(batch);
            if signals.len() > 0 {
                return Decision { outcome: forward_signals(&signals), report: None };
            }
            match batch_completion(batch) {
                Some(end) => {
                    let outcome = if self.is_exhausted() {
                        Outcome::Exit
                    } else {
                        Outcome::DoNothing
                    };
                    return Decision {
                        outcome,
                        report: Some(completion_report(end, self.quiet, self.notify)),
                    };
                },
                None => {},
            }
            if !self.triggered && (self.postpone || self.once) {
                self.triggered = true;
                return Decision { outcome: Outcome::DoNothing, report: None };
            }
        }
        let outcome = self.trigger();
        Decision { outcome, report: None }
    }

    /// Whether the trigger quota is used up.
    pub fn is_exhausted(&self) -> (yes: bool)
        ensures
            yes == self.exhausted(),
    {
        match self.remaining {
            Some(n) => n == 0,
            None => false,
        }
    }

    /// Decides what to do for a trigger that is not suppressed, and counts
    /// it.
    pub fn trigger(&mut self) -> (outcome: Outcome)
        ensures
            outcome == old(self).trigger_outcome(),
            *final(self) == old(self).after_trigger(),
    {
        self.triggered = true;
        if self.once_started {
            return Outcome::DoNothing;
        }
        if self.is_exhausted() {
            return Outcome::Exit;
        }
        match self.remaining {
            Some(n) => {
                self.remaining = Some(n - 1);
            },
            None => {},
        }
        if self.once {
            self.once_started = true;
            return Outcome::both(Outcome::Start, Outcome::wait(Outcome::Exit));
        }
        let when_idle = start_run(self.clear, self.delay_run);
        let when_running = match self.policy {
            BusyPolicy::DoNothing => Outcome::DoNothing,
            BusyPolicy::Restart => Outcome::both(
                Outcome::Stop,
                start_run(self.clear, self.delay_run),
            ),
            BusyPolicy::Queue => Outcome::wait(start_run(self.clear, self.delay_run)),
        };
        Outcome::if_running(when_running, when_idle)
    }
}

/// Builds the outcome that forwards each signal to the job, in order.
pub fn forward_signals(signals: &Vec<Signal>) -> (outcome: Outcome)
    ensures
        outcome == forwarded(signals@),
{
    let mut outcome = Outcome::DoNothing;
    let mut i: usize = 0;
    while i < signals.len()
        invariant
            i <= signals.len(),
            outcome == forwarded(signals@.take(i as int)),
        decreases signals.len() - i,
    {
        proof {
            assert(signals@.take(i + 1).drop_last() == signals@.take(i as int));
        }
        outcome = Outcome::both(outcome, Outcome::Signal(signals[i]));
        i += 1;
    }
    proof {
        assert(signals@.take(signals.len() as int) == signals@);
    }
    outcome
}

/// Builds the outcome that starts a run.
pub fn start_run(clear: bool, delay_run: Option<u64>) -> (outcome: Outcome)
    ensures
        outcome == start_outcome(clear, delay_run),
{
    let slept = match delay_run {
        Some(secs) => Outcome::both(Outcome::Sleep(secs), Outcome::Start),
        None => Outcome::Start,
    };
    if clear {
        Outcome::both(Outcome::Clear, slept)
    } else {
        slept
    }
}

/// Builds the report on a job that ended.
pub fn completion_report(end: Option<ProcessEnd>, quiet: bool, notify: bool) -> (report: Report)
    ensures
        report == report_for(end, quiet, notify),
{
    let print = match end {
        Some(ProcessEnd::Success) => !quiet,
        Some(_) => true,
        None => false,
    };
    Report { ending: Ending::Ended(end), print, notify }
}

/// Builds the report on a job that could not be launched. It is always
/// printed.
pub fn launch_report(notify: bool) -> (report: Report)
    ensures
        report == (Report { ending: Ending::FailedToStart, print: true, notify }),
{
    Report { ending: Ending::FailedToStart, print: true, notify }
}


impl Decider {
    /// The decider after each of the batches, in order.
    pub open spec fn after_batches(self, batches: Seq<Seq<RawEvent>>) -> Decider
        decreases batches.len(),
    {
        if batches.len() == 0 {
            self
        } else {
            self.after_batches(batches.drop_last()).after(batches.last())
        }
    }

    /// The outcome that acts on a trigger: start a run, or treat the running
    /// job as the busy policy says.
    pub open spec fn acting_outcome(self) -> Outcome {
        let start = start_outcome(self.clear, self.delay_run);
        Outcome::IfRunning(Box::new(busy_outcome(self.policy, start)), Box::new(start))
    }
}

/// The primitive actions that start a run.
pub open spec fn start_steps(clear: bool, delay_run: Option<u64>) -> Seq<Step> {
    let sleep = match delay_run {
        Some(secs) => seq![Step::Sleep(secs)],
        None => Seq::empty(),
    };
    let clearing = if clear {
        seq![Step::Clear]
    } else {
        Seq::empty()
    };
    clearing + sleep + seq![Step::Start]
}

/// The steps that start a run are the same whether a job runs or not: they
/// hold one start, as their last step, and no stop.
pub proof fn lemma_start_steps(clear: bool, delay_run: Option<u64>, running: bool)
    ensures
        start_outcome(clear, delay_run).steps(running) == start_steps(clear, delay_run),
        ({
            let steps = start_steps(clear, delay_run);
            &&& steps.len() >= 1
            &&& steps.last() == Step::Start
            &&& forall|i: int| 0 <= i < steps.len() - 1 ==> steps[i] != Step::Start
            &&& forall|i: int| 0 <= i < steps.len() ==> steps[i] != Step::Stop
        }),
{
    let slept = match delay_run {
        Some(secs) => Outcome::Both(Box::new(Outcome::Sleep(secs)), Box::new(Outcome::Start)),
        None => Outcome::Start,
    };
    let sleep = match delay_run {
        Some(secs) => seq![Step::Sleep(secs)],
        None => Seq::empty(),
    };
    assert(Outcome::Start.steps(running) == seq![Step::Start]);
    match delay_run {
        Some(secs) => {
            assert(Outcome::Sleep(secs).steps(running) == seq![Step::Sleep(secs)]);
        },
        None => {},
    }
    assert(slept.steps(running) == sleep + seq![Step::Start]);
    assert(Outcome::Clear.steps(running) == seq![Step::Clear]);
    assert(start_outcome(clear, delay_run).steps(running) == start_steps(clear, delay_run));
}

/// With a quota of `n` triggers and outside the once mode, the first `n`
/// changes are acted upon and every later one makes the watcher exit
/// without a start.
pub proof fn lemma_quota_limits_triggers(
    decider: Decider,
    n: u8,
    batches: Seq<Seq<RawEvent>>,
    i: int,
    running: bool,
)
    requires
        decider.remaining == Some(n),
        !decider.once,
        !decider.once_started,
        forall|j: int| 0 <= j < batches.len() ==> batch_kind(#[trigger] batches[j]) is Change,
        0 <= i < batches.len(),
    ensures
        ({
            let before = decider.after_batches(batches.take(i));
            let outcome = before.decision(batches[i]).outcome;
            &&& i < n ==> outcome == decider.acting_outcome()
            &&& i < n && !running ==> outcome.steps(running).contains(Step::Start)
            &&& i >= n ==> outcome == Outcome::Exit
            &&& i >= n ==> !outcome.steps(running).contains(Step::Start)
        }),
{
    lemma_quota_counts_down(decider, n, batches.take(i));
    let before = decider.after_batches(batches.take(i));
    let outcome = before.decision(batches[i]).outcome;
    if i < n {
        lemma_start_steps(decider.clear, decider.delay_run, running);
        if !running {
            let steps = outcome.steps(running);
            assert(steps[steps.len() - 1] == Step::Start);
        }
    } else {
        assert(Outcome::Exit.steps(running) == seq![Step::Exit]);
    }
}

/// Each change that is acted upon takes one from the quota, down to zero.
pub proof fn lemma_quota_counts_down(decider: Decider, n: u8, batches: Seq<Seq<RawEvent>>)
    requires
        decider.remaining == Some(n),
        !decider.once,
        !decider.once_started,
        forall|j: int| 0 <= j < batches.len() ==> batch_kind(#[trigger] batches[j]) is Change,
    ensures
        ({
            let after = decider.after_batches(batches);
            &&& after.remaining == Some(if batches.len() < n {
                (n - batches.len()) as u8
            } else {
                0u8
            })
            &&& after == Decider {
                remaining: after.remaining,
                triggered: after.triggered,
                ..decider
            }
        }),
    decreases batches.len(),
{
    if batches.len() > 0 {
        assert forall|j: int| 0 <= j < batches.drop_last().len() implies batch_kind(
            #[trigger] batches.drop_last()[j],
        ) is Change by {
            assert(batches.drop_last()[j] == batches[j]);
        }
        lemma_quota_counts_down(decider, n, batches.drop_last());
        assert(batch_kind(batches.last()) is Change);
    }
}

} // verus!
