//! The debouncer: bursts of raw events in, triggers out.
//!
//! The debouncer waits for nothing itself. Its caller hands it each event
//! with the time of its arrival, and asks with `poll` whether the window
//! has closed. Times are in milliseconds.

use vstd::prelude::*;
use crate::event::RawEvent;

verus! {

/// The debouncer's state.
pub struct Debouncer {
    /// The length of the window.
    pub interval: u64,
    /// The events of the next batch, in arrival order.
    pub pending: Vec<RawEvent>,
    /// The time at which the window closes, while one is open.
    pub deadline: Option<u64>,
}

/// The debouncer's state as a mathematical value.
pub struct DebouncerView {
    pub interval: u64,
    pub pending: Seq<RawEvent>,
    pub deadline: Option<u64>,
}

impl View for Debouncer {
    type V = DebouncerView;

    open spec fn view(&self) -> DebouncerView {
        DebouncerView { interval: self.interval, pending: self.pending@, deadline: self.deadline }
    }
}

/// Something that the debouncer is told.
pub enum Input {
    /// An event arrived at this time.
    Arrive { event: RawEvent, now: u64 },
    /// The caller asks at this time whether a batch is due.
    Poll { now: u64 },
}

/// What an entry point of the debouncer returns and leaves behind.
pub struct Debounced {
    pub debouncer: DebouncerView,
    pub batch: Option<Seq<RawEvent>>,
}

/// `now + interval`, or the largest time where that does not fit.
pub open spec fn window_end(now: u64, interval: u64) -> u64 {
    if now + interval <= u64::MAX {
        (now + interval) as u64
    } else {
        u64::MAX
    }
}

impl DebouncerView {
    /// The invariant: a window is open exactly while a path event waits.
    pub open spec fn wf(self) -> bool {
        self.deadline is Some <==> self.pending.len() > 0
    }

    /// The debouncer with nothing pending.
    pub open spec fn emptied(self) -> DebouncerView {
        DebouncerView { pending: Seq::empty(), deadline: None, ..self }
    }

    /// After an event arrived. A path event joins the next batch and opens
    /// the window anew. Any other event is passed on at once when no window
    /// is open, and joins the next batch otherwise.
    pub open spec fn arrived(self, event: RawEvent, now: u64) -> Debounced {
        if event.is_path() {
            Debounced {
                debouncer: DebouncerView {
                    pending: self.pending.push(event),
                    deadline: Some(window_end(now, self.interval)),
                    ..self
                },
                batch: None,
            }
        } else if self.deadline is None {
            Debounced { debouncer: self.emptied(), batch: Some(self.pending.push(event)) }
        } else {
            Debounced {
                debouncer: DebouncerView { pending: self.pending.push(event), ..self },
                batch: None,
            }
        }
    }

    /// After the caller asked whether a batch is due: it is, with all that
    /// is pending, when the window has closed.
    pub open spec fn polled(self, now: u64) -> Debounced {
        match self.deadline {
            Some(deadline) => if now >= deadline {
                Debounced { debouncer: self.emptied(), batch: Some(self.pending) }
            } else {
                Debounced { debouncer: self, batch: None }
            },
            None => Debounced { debouncer: self, batch: None },
        }
    }

    /// After one input.
    pub open spec fn fed(self, input: Input) -> Debounced {
        match input {
            Input::Arrive { event, now } => self.arrived(event, now),
            Input::Poll { now } => self.polled(now),
        }
    }

    /// The debouncer after each of the inputs, in order.
    pub open spec fn after_inputs(self, inputs: Seq<Input>) -> DebouncerView
        decreases inputs.len(),
    {
        if inputs.len() == 0 {
            self
        } else {
            self.after_inputs(inputs.drop_last()).fed(inputs.last()).debouncer
        }
    }
}

/// The events that arrive among the inputs, in order.
pub open spec fn arrivals(inputs: Seq<Input>) -> Seq<RawEvent>
    decreases inputs.len(),
{
    if inputs.len() == 0 {
        Seq::empty()
    } else {
        let before = arrivals(inputs.drop_last());
        match inputs.last() {
            Input::Arrive { event, .. } => before.push(event),
            Input::Poll { .. } => before,
        }
    }
}

/// The time of an input.
pub open spec fn input_time(input: Input) -> u64 {
    match input {
        Input::Arrive { now, .. } => now,
        Input::Poll { now } => now,
    }
}

/// Whether the inputs are a burst of path events that begins at `start`:
/// the first input is an arrival, every arrival is a path event, and every
/// input comes at or after `start` and before `start + interval`.
pub open spec fn is_burst(inputs: Seq<Input>, start: u64, interval: u64) -> bool {
    &&& inputs.len() > 0
    &&& inputs[0] is Arrive
    &&& forall|i: int|
        0 <= i < inputs.len() ==> start <= input_time(#[trigger] inputs[i]) < start + interval
    &&& forall|i: int|
        0 <= i < inputs.len() ==> ((#[trigger] inputs[i]) matches Input::Arrive { event, .. }
            ==> event.is_path())
}

impl Debouncer {
    /// A debouncer with nothing pending.
    pub fn new(interval: u64) -> (debouncer: Debouncer)
        ensures
            debouncer@.wf(),
            debouncer@ == (DebouncerView { interval, pending: Seq::empty(), deadline: None }),
    {
        Debouncer { interval, pending: Vec::new(), deadline: None }
    }

    /// Takes an event that arrived at `now`, and returns the batch that it
    /// completes, if any.
    pub fn arrive(&mut self, event: RawEvent, now: u64) -> (batch: Option<Vec<RawEvent>>)
        requires
            old(self)@.wf(),
        ensures
            final(self)@.wf(),
            final(self)@ == old(self)@.arrived(event, now).debouncer,
            match batch {
                Some(events) => Some(events@),
                None => None,
            } == old(self)@.arrived(event, now).batch,
    {
        let is_path = match &event {
            RawEvent::Path { .. } => true,
            _ => false,
        };
        self.pending.push(event);
        if is_path {
            self.deadline = Some(
                if now <= u64::MAX - self.interval {
                    now + self.interval
                } else {
                    u64::MAX
                },
            );
            None
        } else if self.deadline.is_none() {
            let events = self.pending.split_off(0);
            proof {
                assert(events@ == old(self)@.pending.push(event));
                assert(self.pending@ == Seq::<RawEvent>::empty());
            }
            Some(events)
        } else {
            None
        }
    }

    /// Returns the batch that is due at `now`, if any: all that is pending,
    /// once the window has closed.
    pub fn poll(&mut self, now: u64) -> (batch: Option<Vec<RawEvent>>)
        requires
            old(self)@.wf(),
        ensures
            final(self)@.wf(),
            final(self)@ == old(self)@.polled(now).debouncer,
            match batch {
                Some(events) => Some(events@),
                None => None,
            } == old(self)@.polled(now).batch,
    {
        match self.deadline {
            Some(deadline) => {
                if now >= deadline {
                    let events = self.pending.split_off(0);
                    self.deadline = None;
                    proof {
                        assert(events@ == old(self)@.pending);
                        assert(self.pending@ == Seq::<RawEvent>::empty());
                    }
                    Some(events)
                } else {
                    None
                }
            },
            None => None,
        }
    }
}

/// The events of all batches that come out for the inputs, in order.
pub open spec fn emitted(debouncer: DebouncerView, inputs: Seq<Input>) -> Seq<RawEvent>
    decreases inputs.len(),
{
    if inputs.len() == 0 {
        Seq::empty()
    } else {
        let before = emitted(debouncer, inputs.drop_last());
        match debouncer.after_inputs(inputs.drop_last()).fed(inputs.last()).batch {
            Some(batch) => before + batch,
            None => before,
        }
    }
}

/// No event is lost, doubled or reordered: at any time the events that
/// came out in batches, followed by those that are pending, are the events
/// that arrived.
pub proof fn lemma_every_event_once(debouncer: DebouncerView, inputs: Seq<Input>)
    requires
        debouncer.pending.len() == 0,
    ensures
        emitted(debouncer, inputs) + debouncer.after_inputs(inputs).pending == arrivals(inputs),
    decreases inputs.len(),
{
    if inputs.len() > 0 {
        lemma_every_event_once(debouncer, inputs.drop_last());
        let mid = debouncer.after_inputs(inputs.drop_last());
        let out = emitted(debouncer, inputs.drop_last());
        match inputs.last() {
            Input::Arrive { event, now } => {
                assert((out + mid.pending).push(event) == out + mid.pending.push(event));
                assert(out + mid.pending.push(event) + Seq::<RawEvent>::empty() == out
                    + mid.pending.push(event));
            },
            Input::Poll { now } => {
                assert(out + mid.pending + Seq::<RawEvent>::empty() == out + mid.pending);
            },
        }
    } else {
        assert(Seq::<RawEvent>::empty() + debouncer.pending == Seq::<RawEvent>::empty());
    }
}

/// The time of the last arrival among the inputs, if there is one.
pub open spec fn last_arrival(inputs: Seq<Input>) -> Option<u64>
    decreases inputs.len(),
{
    if inputs.len() == 0 {
        None
    } else {
        match inputs.last() {
            Input::Arrive { now, .. } => Some(now),
            Input::Poll { .. } => last_arrival(inputs.drop_last()),
        }
    }
}

/// Whether path events keep coming faster than the interval: the first
/// input is an arrival, every arrival is a path event, and every later
/// input comes before the window has closed that the arrival before it
/// opened.
pub open spec fn keeps_coming(inputs: Seq<Input>, interval: u64) -> bool {
    &&& inputs.len() > 0
    &&& inputs[0] is Arrive
    &&& forall|i: int|
        0 <= i < inputs.len() ==> ((#[trigger] inputs[i]) matches Input::Arrive { event, .. }
            ==> event.is_path())
    &&& forall|i: int|
        0 < i < inputs.len() ==> (last_arrival(inputs.take(i)) matches Some(at) ==> input_time(
            #[trigger] inputs[i],
        ) < window_end(at, interval))
}

/// While path events keep coming faster than the interval, no batch comes
/// out: each arrival opens the window anew.
pub proof fn lemma_quiet_while_events_keep_coming(debouncer: DebouncerView, inputs: Seq<Input>)
    requires
        debouncer.pending.len() == 0,
        debouncer.deadline is None,
        keeps_coming(inputs, debouncer.interval),
    ensures
        ({
            let after = debouncer.after_inputs(inputs);
            &&& after.interval == debouncer.interval
            &&& last_arrival(inputs) matches Some(at) && after.deadline == Some(
                window_end(at, debouncer.interval),
            )
            &&& forall|i: int|
                0 <= i < inputs.len() ==> debouncer.after_inputs(inputs.take(i)).fed(
                    #[trigger] inputs[i],
                ).batch is None
        }),
    decreases inputs.len(),
{
    let interval = debouncer.interval;
    let before = inputs.drop_last();
    let last = inputs.last();
    if before.len() == 0 {
        assert(inputs[0] == last);
        assert forall|i: int| 0 <= i < inputs.len() implies debouncer.after_inputs(
            inputs.take(i),
        ).fed(#[trigger] inputs[i]).batch is None by {
            assert(inputs.take(0) == before);
        }
    } else {
        assert(before[0] == inputs[0]);
        assert forall|i: int| 0 <= i < before.len() implies ((#[trigger] before[i]) matches Input::Arrive {
            event,
            ..
        } ==> event.is_path()) by {
            assert(before[i] == inputs[i]);
        }
        assert forall|i: int| 0 < i < before.len() implies (last_arrival(
            before.take(i),
        ) matches Some(at) ==> input_time(#[trigger] before[i]) < window_end(at, interval)) by {
            assert(before[i] == inputs[i]);
            assert(before.take(i) == inputs.take(i));
        }
        lemma_quiet_while_events_keep_coming(debouncer, before);
        assert(inputs.take(inputs.len() - 1) == before);
        assert(inputs[inputs.len() - 1] == last);
        assert forall|i: int| 0 <= i < inputs.len() implies debouncer.after_inputs(
            inputs.take(i),
        ).fed(#[trigger] inputs[i]).batch is None by {
            if i < before.len() {
                assert(inputs.take(i) == before.take(i));
                assert(inputs[i] == before[i]);
            } else {
                assert(inputs.take(i) == before);
            }
        }
    }
}

/// During a burst no batch comes out, and all that arrived is pending.
pub proof fn lemma_burst_accumulates(debouncer: DebouncerView, inputs: Seq<Input>, start: u64)
    requires
        debouncer.pending.len() == 0,
        debouncer.deadline is None,
        is_burst(inputs, start, debouncer.interval),
        start + debouncer.interval <= u64::MAX,
    ensures
        ({
            let after = debouncer.after_inputs(inputs);
            &&& after.pending == arrivals(inputs)
            &&& after.pending.len() >= 1
            &&& after.interval == debouncer.interval
            &&& after.deadline matches Some(deadline) && deadline >= start + debouncer.interval
            &&& forall|i: int|
                0 <= i < inputs.len() ==> debouncer.after_inputs(inputs.take(i)).fed(
                    #[trigger] inputs[i],
                ).batch is None
        }),
    decreases inputs.len(),
{
    let interval = debouncer.interval;
    let before = inputs.drop_last();
    let last = inputs.last();
    if before.len() == 0 {
        assert(inputs[0] == last);
        assert(arrivals(before) == Seq::<RawEvent>::empty());
        assert forall|i: int| 0 <= i < inputs.len() implies debouncer.after_inputs(
            inputs.take(i),
        ).fed(#[trigger] inputs[i]).batch is None by {
            assert(inputs.take(0) == before);
        }
    } else {
        assert(before[0] == inputs[0]);
        assert forall|i: int| 0 <= i < before.len() implies start <= input_time(
            #[trigger] before[i],
        ) < start + interval by {
            assert(before[i] == inputs[i]);
        }
        assert forall|i: int| 0 <= i < before.len() implies ((#[trigger] before[i]) matches Input::Arrive {
            event,
            ..
        } ==> event.is_path()) by {
            assert(before[i] == inputs[i]);
        }
        lemma_burst_accumulates(debouncer, before, start);
        let mid = debouncer.after_inputs(before);
        assert(input_time(last) < start + interval);
        assert forall|i: int| 0 <= i < inputs.len() implies debouncer.after_inputs(
            inputs.take(i),
        ).fed(#[trigger] inputs[i]).batch is None by {
            if i < before.len() {
                assert(inputs.take(i) == before.take(i));
                assert(inputs[i] == before[i]);
            } else {
                assert(inputs.take(i) == before);
            }
        }
    }
}

/// A burst of events that all arrive within one interval comes out as one
/// batch: none while the burst lasts, then at the first poll after the
/// window has closed a batch with every event of the burst, in order, and
/// nothing after that until more arrives.
pub proof fn lemma_burst_is_one_batch(
    debouncer: DebouncerView,
    inputs: Seq<Input>,
    start: u64,
    now: u64,
    later: u64,
)
    requires
        debouncer.pending.len() == 0,
        debouncer.deadline is None,
        is_burst(inputs, start, debouncer.interval),
        start + debouncer.interval <= u64::MAX,
        debouncer.after_inputs(inputs).deadline matches Some(deadline) && now >= deadline,
    ensures
        forall|i: int|
            0 <= i < inputs.len() ==> debouncer.after_inputs(inputs.take(i)).fed(
                #[trigger] inputs[i],
            ).batch is None,
        debouncer.after_inputs(inputs).polled(now).batch == Some(arrivals(inputs)),
        debouncer.after_inputs(inputs).polled(now).debouncer.polled(later).batch is None,
        arrivals(inputs).len() >= 1,
{
    lemma_burst_accumulates(debouncer, inputs, start);
}

} // verus!
