//! Outcomes: what the scheduler is asked to do for one batch of events.

use vstd::prelude::*;
use crate::event::Signal;

verus! {

/// A primitive action on the job or the terminal.
#[derive(Clone, Copy, Debug, PartialEq, Eq, Structural)]
pub enum Step {
    /// Stop the running job; nothing to do when idle.
    Stop,
    /// Start the job; nothing to do when one is running.
    Start,
    /// Wait until the running job has ended.
    Wait,
    /// Do nothing for the given number of seconds.
    Sleep(u64),
    /// Send a signal to the running job.
    Signal(Signal),
    /// Clear the screen.
    Clear,
    /// Leave the watch loop.
    Exit,
}

/// A composite of primitive actions, sequenced with `Both` and made
/// conditional on the busy state with `IfRunning`.
#[derive(Debug, PartialEq, Eq)]
pub enum Outcome {
    DoNothing,
    Stop,
    Start,
    Wait,
    Sleep(u64),
    Signal(Signal),
    Clear,
    Exit,
    /// When a job is running do the first, otherwise the second.
    IfRunning(Box<Outcome>, Box<Outcome>),
    /// Do both, in order.
    Both(Box<Outcome>, Box<Outcome>),
}

impl Outcome {
    /// The outcome with every condition decided for the busy state `running`.
    pub open spec fn resolved(self, running: bool) -> Outcome
        decreases self,
    {
        match self {
            Outcome::IfRunning(then, otherwise) => if running {
                then.resolved(running)
            } else {
                otherwise.resolved(running)
            },
            Outcome::Both(one, two) => Outcome::Both(
                Box::new(one.resolved(running)),
                Box::new(two.resolved(running)),
            ),
            other => other,
        }
    }

    /// The primitive actions of the outcome, in order, for the busy state
    /// `running`.
    pub open spec fn steps(self, running: bool) -> Seq<Step>
        decreases self,
    {
        match self {
            Outcome::DoNothing => Seq::empty(),
            Outcome::Stop => seq![Step::Stop],
            Outcome::Start => seq![Step::Start],
            Outcome::Wait => seq![Step::Wait],
            Outcome::Sleep(secs) => seq![Step::Sleep(secs)],
            Outcome::Signal(signal) => seq![Step::Signal(signal)],
            Outcome::Clear => seq![Step::Clear],
            Outcome::Exit => seq![Step::Exit],
            Outcome::IfRunning(then, otherwise) => if running {
                then.steps(running)
            } else {
                otherwise.steps(running)
            },
            Outcome::Both(one, two) => one.steps(running) + two.steps(running),
        }
    }

    /// Whether no condition is left in the outcome.
    pub open spec fn unconditional(self) -> bool
        decreases self,
    {
        match self {
            Outcome::IfRunning(_, _) => false,
            Outcome::Both(one, two) => one.unconditional() && two.unconditional(),
            _ => true,
        }
    }

    /// An outcome conditional on the busy state.
    pub fn if_running(then: Outcome, otherwise: Outcome) -> (out: Outcome)
        ensures
            out == Outcome::IfRunning(Box::new(then), Box::new(otherwise)),
    {
        Outcome::IfRunning(Box::new(then), Box::new(otherwise))
    }

    /// A sequence of two outcomes.
    pub fn both(one: Outcome, two: Outcome) -> (out: Outcome)
        ensures
            out == Outcome::Both(Box::new(one), Box::new(two)),
    {
        Outcome::Both(Box::new(one), Box::new(two))
    }

    /// Waits for the job to end before doing `and_then`.
    pub fn wait(and_then: Outcome) -> (out: Outcome)
        ensures
            out == Outcome::Both(Box::new(Outcome::Wait), Box::new(and_then)),
    {
        Outcome::both(Outcome::Wait, and_then)
    }

    /// A copy of the outcome.
    pub fn duplicate(&self) -> (out: Outcome)
        ensures
            out == *self,
        decreases *self,
    {
        match self {
            Outcome::DoNothing => Outcome::DoNothing,
            Outcome::Stop => Outcome::Stop,
            Outcome::Start => Outcome::Start,
            Outcome::Wait => Outcome::Wait,
            Outcome::Sleep(secs) => Outcome::Sleep(*secs),
            Outcome::Signal(signal) => Outcome::Signal(*signal),
            Outcome::Clear => Outcome::Clear,
            Outcome::Exit => Outcome::Exit,
            Outcome::IfRunning(then, otherwise) => Outcome::IfRunning(
                Box::new(then.duplicate()),
                Box::new(otherwise.duplicate()),
            ),
            Outcome::Both(one, two) => Outcome::Both(
                Box::new(one.duplicate()),
                Box::new(two.duplicate()),
            ),
        }
    }

    /// Decides every condition of the outcome for the busy state `running`.
    pub fn resolve(&self, running: bool) -> (out: Outcome)
        ensures
            out == self.resolved(running),
        decreases *self,
    {
        match self {
            Outcome::IfRunning(then, otherwise) => if running {
                then.resolve(running)
            } else {
                otherwise.resolve(running)
            },
            Outcome::Both(one, two) => Outcome::Both(
                Box::new(one.resolve(running)),
                Box::new(two.resolve(running)),
            ),
            other => other.duplicate(),
        }
    }

    /// Lists the primitive actions of the outcome, in order, for the busy
    /// state `running`.
    pub fn flatten(&self, running: bool) -> (list: Vec<Step>)
        ensures
            list@ == self.steps(running),
        decreases *self,
    {
        let mut list: Vec<Step> = Vec::new();
        match self {
            Outcome::DoNothing => {},
            Outcome::Stop => list.push(Step::Stop),
            Outcome::Start => list.push(Step::Start),
            Outcome::Wait => list.push(Step::Wait),
            Outcome::Sleep(secs) => list.push(Step::Sleep(*secs)),
            Outcome::Signal(signal) => list.push(Step::Signal(*signal)),
            Outcome::Clear => list.push(Step::Clear),
            Outcome::Exit => list.push(Step::Exit),
            Outcome::IfRunning(then, otherwise) => {
                if running {
                    list = then.flatten(running);
                } else {
                    list = otherwise.flatten(running);
                }
            },
            Outcome::Both(one, two) => {
                list = one.flatten(running);
                let mut rest = two.flatten(running);
                list.append(&mut rest);
            },
        }
        list
    }
}

impl Clone for Outcome {
    fn clone(&self) -> (out: Self)
        ensures
            out == *self,
    {
        self.duplicate()
    }
}

/// Resolving decides every condition, and keeps the primitive actions.
pub proof fn lemma_resolved_keeps_steps(outcome: Outcome, running: bool, later: bool)
    ensures
        outcome.resolved(running).unconditional(),
        outcome.resolved(running).steps(later) == outcome.steps(running),
    decreases outcome,
{
    match outcome {
        Outcome::IfRunning(then, otherwise) => {
            lemma_resolved_keeps_steps(*then, running, later);
            lemma_resolved_keeps_steps(*otherwise, running, later);
        },
        Outcome::Both(one, two) => {
            lemma_resolved_keeps_steps(*one, running, later);
            lemma_resolved_keeps_steps(*two, running, later);
        },
        _ => {},
    }
}

} // verus!
