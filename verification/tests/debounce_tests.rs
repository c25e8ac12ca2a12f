use cargo_watch::debounce::Debouncer;
use cargo_watch::event::{ChangeKind, ProcessEnd, RawEvent, Signal};

fn change(path: &str) -> RawEvent {
    RawEvent::Path { kind: ChangeKind::Modify, path: path.to_string() }
}

#[test]
fn a_burst_is_one_batch() {
    let mut d = Debouncer::new(100);
    assert_eq!(d.arrive(change("a"), 1000), None);
    assert_eq!(d.poll(1010), None);
    assert_eq!(d.arrive(change("b"), 1040), None);
    assert_eq!(d.arrive(change("c"), 1099), None);
    assert_eq!(d.poll(1100), None);
    assert_eq!(d.poll(1198), None);
    assert_eq!(d.poll(1199), Some(vec![change("a"), change("b"), change("c")]));
    assert_eq!(d.poll(1200), None);
    assert_eq!(d.poll(5000), None);
    assert!(d.pending.is_empty());
    assert_eq!(d.deadline, None);
}

#[test]
fn the_window_slides_with_each_change() {
    let mut d = Debouncer::new(100);
    let mut now = 0;
    for i in 0..20 {
        assert_eq!(d.arrive(change(&format!("f{}", i)), now), None);
        now += 90;
        assert_eq!(d.poll(now), None);
    }
    let batch = d.poll(now + 10).unwrap();
    assert_eq!(batch.len(), 20);
    assert_eq!(batch[0], change("f0"));
    assert_eq!(batch[19], change("f19"));
}

#[test]
fn signals_are_not_debounced() {
    let mut d = Debouncer::new(100);
    assert_eq!(
        d.arrive(RawEvent::Signal(Signal::Interrupt), 5),
        Some(vec![RawEvent::Signal(Signal::Interrupt)])
    );
    assert_eq!(d.arrive(RawEvent::KeyboardEof, 6), Some(vec![RawEvent::KeyboardEof]));
    assert_eq!(
        d.arrive(RawEvent::Completion(Some(ProcessEnd::Success)), 7),
        Some(vec![RawEvent::Completion(Some(ProcessEnd::Success))])
    );
    assert_eq!(d.poll(1000), None);
}

#[test]
fn signals_join_an_open_window() {
    let mut d = Debouncer::new(100);
    assert_eq!(d.arrive(change("a"), 0), None);
    assert_eq!(d.arrive(RawEvent::Signal(Signal::Hangup), 10), None);
    assert_eq!(d.deadline, Some(100));
    assert_eq!(d.poll(100), Some(vec![change("a"), RawEvent::Signal(Signal::Hangup)]));
}

#[test]
fn every_event_is_reported_once() {
    let mut d = Debouncer::new(50);
    let mut seen = Vec::new();
    let inputs = [(0, "a"), (10, "b"), (200, "c"), (201, "d"), (400, "e")];
    for (now, name) in inputs {
        if let Some(batch) = d.poll(now) {
            seen.push(batch);
        }
        assert_eq!(d.arrive(change(name), now), None);
    }
    if let Some(batch) = d.poll(1000) {
        seen.push(batch);
    }
    assert_eq!(
        seen,
        vec![vec![change("a"), change("b")], vec![change("c"), change("d")], vec![change("e")]]
    );
}

#[test]
fn window_end_saturates() {
    let mut d = Debouncer::new(u64::MAX);
    assert_eq!(d.arrive(change("a"), 7), None);
    assert_eq!(d.deadline, Some(u64::MAX));
    assert_eq!(d.poll(u64::MAX - 1), None);
    assert_eq!(d.poll(u64::MAX), Some(vec![change("a")]));
}

#[test]
fn zero_interval_emits_at_the_next_poll() {
    let mut d = Debouncer::new(0);
    assert_eq!(d.arrive(change("a"), 7), None);
    assert_eq!(d.poll(7), Some(vec![change("a")]));
}
