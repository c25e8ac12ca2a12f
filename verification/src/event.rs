//! Messages that reach the scheduler: filesystem changes, signals, and
//! notices that a supervised process has ended.

use vstd::prelude::*;

verus! {

/// A signal delivered to the watcher itself or forwarded to the job.
#[derive(Clone, Copy, Debug, PartialEq, Eq, Structural)]
pub enum Signal {
    Hangup,
    ForceStop,
    Interrupt,
    Quit,
    Terminate,
    User1,
    User2,
    Custom(i32),
}

/// How a supervised process ended.
#[derive(Clone, Copy, Debug, PartialEq, Eq, Structural)]
pub enum ProcessEnd {
    Success,
    ExitError(i64),
    ExitSignal(Signal),
    ExitStop(i32),
    Exception(i32),
    Continued,
}

/// What happened to a watched path.
#[derive(Clone, Copy, Debug, PartialEq, Eq, Structural)]
pub enum ChangeKind {
    Create,
    Modify,
    Remove,
    Rename,
}

/// One message on the scheduler's input channel.
#[derive(Clone, Debug, PartialEq, Eq)]
pub enum RawEvent {
    /// A change below a watched root.
    Path { kind: ChangeKind, path: String },
    /// A signal received by the watcher.
    Signal(Signal),
    /// End of input on the keyboard.
    KeyboardEof,
    /// The supervised process ended; `None` when its status is unknown.
    Completion(Option<ProcessEnd>),
}

impl RawEvent {
    /// Whether the event asks the watcher to shut down.
    pub open spec fn is_terminal(self) -> bool {
        self == RawEvent::Signal(Signal::Interrupt) || self == RawEvent::Signal(Signal::Terminate)
            || self is KeyboardEof
    }

    /// Whether the event carries a path.
    pub open spec fn is_path(self) -> bool {
        self is Path
    }
}

/// Whether some event of the batch asks the watcher to shut down.
pub open spec fn has_terminal(batch: Seq<RawEvent>) -> bool {
    exists|i: int| 0 <= i < batch.len() && (#[trigger] batch[i]).is_terminal()
}

/// Whether some event of the batch carries a path.
pub open spec fn has_paths(batch: Seq<RawEvent>) -> bool {
    exists|i: int| 0 <= i < batch.len() && (#[trigger] batch[i]).is_path()
}

/// The signals of the batch, in arrival order.
pub open spec fn signals_of(batch: Seq<RawEvent>) -> Seq<Signal>
    decreases batch.len(),
{
    if batch.len() == 0 {
        Seq::empty()
    } else {
        let rest = signals_of(batch.drop_last());
        match batch.last() {
            RawEvent::Signal(s) => rest.push(s),
            _ => rest,
        }
    }
}

/// The first completion notice at or after position `from`, if any.
pub open spec fn completion_from(batch: Seq<RawEvent>, from: int) -> Option<Option<ProcessEnd>>
    decreases batch.len() - from,
{
    if from < 0 || from >= batch.len() {
        None
    } else {
        match batch[from] {
            RawEvent::Completion(end) => Some(end),
            _ => completion_from(batch, from + 1),
        }
    }
}

/// The first completion notice of the batch, if any.
pub open spec fn completion_of(batch: Seq<RawEvent>) -> Option<Option<ProcessEnd>> {
    completion_from(batch, 0)
}

/// Decides whether the batch holds an interrupt, a terminate or an end of
/// keyboard input.
pub fn batch_has_terminal(batch: &Vec<RawEvent>) -> (found: bool)
    ensures
        found == has_terminal(batch@),
{
    let mut i: usize = 0;
    while i < batch.len()
        invariant
            i <= batch.len(),
            forall|j: int| 0 <= j < i ==> !(#[trigger] batch@[j]).is_terminal(),
        decreases batch.len() - i,
    {
        match &batch[i] {
            RawEvent::Signal(Signal::Interrupt) => {
                return true;
            },
            RawEvent::Signal(Signal::Terminate) => {
                return true;
            },
            RawEvent::KeyboardEof => {
                return true;
            },
            _ => {},
        }
        i += 1;
    }
    false
}

/// Decides whether the batch holds at least one path event.
pub fn batch_has_paths(batch: &Vec<RawEvent>) -> (found: bool)
    ensures
        found == has_paths(batch@),
{
    let mut i: usize = 0;
    while i < batch.len()
        invariant
            i <= batch.len(),
            forall|j: int| 0 <= j < i ==> !(#[trigger] batch@[j]).is_path(),
        decreases batch.len() - i,
    {
        match &batch[i] {
            RawEvent::Path { .. } => {
                return true;
            },
            _ => {},
        }
        i += 1;
    }
    false
}

/// Collects the signals of the batch in arrival order.
pub fn batch_signals(batch: &Vec<RawEvent>) -> (signals: Vec<Signal>)
    ensures
        signals@ == signals_of(batch@),
{
    let mut signals: Vec<Signal> = Vec::new();
    let mut i: usize = 0;
    while i < batch.len()
        invariant
            i <= batch.len(),
            signals@ == signals_of(batch@.take(i as int)),
        decreases batch.len() - i,
    {
        proof {
            assert(batch@.take(i + 1).drop_last() == batch@.take(i as int));
        }
        match &batch[i] {
            RawEvent::Signal(s) => {
                signals.push(*s);
            },
            _ => {},
        }
        i += 1;
    }
    proof {
        assert(batch@.take(batch.len() as int) == batch@);
    }
    signals
}

/// Finds the first completion notice of the batch.
pub fn batch_completion(batch: &Vec<RawEvent>) -> (found: Option<Option<ProcessEnd>>)
    ensures
        found == completion_of(batch@),
{
    let mut i: usize = 0;
    while i < batch.len()
        invariant
            i <= batch.len(),
            completion_of(batch@) == completion_from(batch@, i as int),
        decreases batch.len() - i,
    {
        match &batch[i] {
            RawEvent::Completion(end) => {
                return Some(*end);
            },
            _ => {},
        }
        i += 1;
    }
    None
}

} // verus!
