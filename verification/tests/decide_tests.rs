use cargo_watch::decide::{
    completion_report, forward_signals, launch_report, start_run, BusyPolicy, Decider, Decision,
    Ending, Report,
};
use cargo_watch::event::{
    batch_completion, batch_has_paths, batch_has_terminal, batch_signals, ChangeKind, ProcessEnd,
    RawEvent, Signal,
};
use cargo_watch::outcome::{Outcome, Step};

fn change(path: &str) -> RawEvent {
    RawEvent::Path { kind: ChangeKind::Modify, path: path.to_string() }
}

fn decider(policy: BusyPolicy) -> Decider {
    Decider::new(false, false, false, false, false, policy, None, None)
}

fn both(a: Outcome, b: Outcome) -> Outcome {
    Outcome::Both(Box::new(a), Box::new(b))
}

fn if_running(a: Outcome, b: Outcome) -> Outcome {
    Outcome::IfRunning(Box::new(a), Box::new(b))
}

#[test]
fn batch_queries() {
    let batch = vec![
        RawEvent::Signal(Signal::Hangup),
        change("a"),
        RawEvent::Completion(Some(ProcessEnd::Success)),
        RawEvent::Signal(Signal::User1),
        RawEvent::Completion(None),
    ];
    assert!(batch_has_paths(&batch));
    assert!(!batch_has_terminal(&batch));
    assert_eq!(batch_signals(&batch), vec![Signal::Hangup, Signal::User1]);
    assert_eq!(batch_completion(&batch), Some(Some(ProcessEnd::Success)));
    assert!(!batch_has_paths(&vec![]));
    assert_eq!(batch_completion(&vec![change("a")]), None);
    assert!(batch_has_terminal(&vec![change("a"), RawEvent::KeyboardEof]));
    assert!(batch_has_terminal(&vec![RawEvent::Signal(Signal::Interrupt)]));
    assert!(batch_has_terminal(&vec![RawEvent::Signal(Signal::Terminate)]));
    assert!(!batch_has_terminal(&vec![RawEvent::Signal(Signal::Quit)]));
}

#[test]
fn terminal_signals_stop_and_exit() {
    for event in [
        RawEvent::Signal(Signal::Interrupt),
        RawEvent::Signal(Signal::Terminate),
        RawEvent::KeyboardEof,
    ] {
        let mut d = decider(BusyPolicy::DoNothing);
        let before = d;
        let decision = d.decide(&vec![change("src/main.rs"), event]);
        assert_eq!(decision, Decision { outcome: both(Outcome::Stop, Outcome::Exit), report: None });
        assert_eq!(d, before);
    }
}

#[test]
fn other_signals_are_forwarded() {
    let mut d = decider(BusyPolicy::Restart);
    let decision =
        d.decide(&vec![RawEvent::Signal(Signal::Hangup), RawEvent::Signal(Signal::User2)]);
    assert_eq!(
        decision.outcome,
        both(
            both(Outcome::DoNothing, Outcome::Signal(Signal::Hangup)),
            Outcome::Signal(Signal::User2)
        )
    );
    assert_eq!(decision.report, None);
    assert_eq!(
        decision.outcome.flatten(true),
        vec![Step::Signal(Signal::Hangup), Step::Signal(Signal::User2)]
    );
    assert_eq!(forward_signals(&vec![]), Outcome::DoNothing);
}

#[test]
fn completion_is_reported() {
    let mut d = decider(BusyPolicy::Restart);
    let decision = d.decide(&vec![RawEvent::Completion(Some(ProcessEnd::ExitError(2)))]);
    assert_eq!(decision.outcome, Outcome::DoNothing);
    assert_eq!(
        decision.report,
        Some(Report { ending: Ending::Ended(Some(ProcessEnd::ExitError(2))), print: true, notify: false })
    );
}

#[test]
fn report_printing_rules() {
    assert!(completion_report(Some(ProcessEnd::Success), false, false).print);
    assert!(!completion_report(Some(ProcessEnd::Success), true, false).print);
    assert!(completion_report(Some(ProcessEnd::ExitError(1)), true, false).print);
    assert!(completion_report(Some(ProcessEnd::ExitSignal(Signal::Quit)), true, false).print);
    assert!(completion_report(Some(ProcessEnd::ExitStop(19)), true, false).print);
    assert!(completion_report(Some(ProcessEnd::Exception(5)), true, false).print);
    assert!(completion_report(Some(ProcessEnd::Continued), true, false).print);
    assert!(!completion_report(None, false, false).print);
    assert!(completion_report(None, false, true).notify);
    assert_eq!(
        launch_report(true),
        Report { ending: Ending::FailedToStart, print: true, notify: true }
    );
    assert_eq!(completion_report(None, false, true).ending, Ending::Ended(None));
}

#[test]
fn completion_exits_when_quota_is_used_up() {
    let mut d = Decider::new(false, false, true, false, false, BusyPolicy::Restart, None, Some(0));
    let decision = d.decide(&vec![RawEvent::Completion(Some(ProcessEnd::Success))]);
    assert_eq!(decision.outcome, Outcome::Exit);
    assert_eq!(
        decision.report,
        Some(Report { ending: Ending::Ended(Some(ProcessEnd::Success)), print: true, notify: true })
    );
}

#[test]
fn start_outcome_shapes() {
    assert_eq!(start_run(false, None), Outcome::Start);
    assert_eq!(start_run(true, None), both(Outcome::Clear, Outcome::Start));
    assert_eq!(start_run(false, Some(3)), both(Outcome::Sleep(3), Outcome::Start));
    assert_eq!(
        start_run(true, Some(3)),
        both(Outcome::Clear, both(Outcome::Sleep(3), Outcome::Start))
    );
    assert_eq!(
        start_run(true, Some(3)).flatten(false),
        vec![Step::Clear, Step::Sleep(3), Step::Start]
    );
}

#[test]
fn do_nothing_policy_drops_trigger_while_running() {
    let mut d = decider(BusyPolicy::DoNothing);
    let decision = d.decide(&vec![change("src/lib.rs")]);
    assert_eq!(decision.outcome, if_running(Outcome::DoNothing, Outcome::Start));
    assert_eq!(decision.outcome.flatten(true), vec![]);
    assert_eq!(decision.outcome.flatten(false), vec![Step::Start]);
}

#[test]
fn restart_policy_stops_then_starts() {
    let mut d = Decider::new(true, false, false, false, false, BusyPolicy::Restart, Some(2), None);
    let decision = d.decide(&vec![change("src/lib.rs")]);
    let steps = decision.outcome.flatten(true);
    assert_eq!(steps, vec![Step::Stop, Step::Clear, Step::Sleep(2), Step::Start]);
    assert_eq!(steps.iter().filter(|s| **s == Step::Stop).count(), 1);
    assert_eq!(steps.iter().filter(|s| **s == Step::Start).count(), 1);
    assert_eq!(decision.outcome.flatten(false), vec![Step::Clear, Step::Sleep(2), Step::Start]);
}

#[test]
fn queue_policy_waits_then_starts() {
    let mut d = decider(BusyPolicy::Queue);
    let decision = d.decide(&vec![change("src/lib.rs")]);
    assert_eq!(decision.outcome.flatten(true), vec![Step::Wait, Step::Start]);
    assert_eq!(decision.outcome.flatten(false), vec![Step::Start]);
}

#[test]
fn quit_after_two_triggers() {
    let mut d = Decider::new(false, false, false, false, false, BusyPolicy::Restart, None, Some(2));
    let first = d.decide(&vec![change("a")]);
    assert!(first.outcome.flatten(false).contains(&Step::Start));
    assert_eq!(d.remaining, Some(1));
    let second = d.decide(&vec![change("b")]);
    assert!(second.outcome.flatten(false).contains(&Step::Start));
    assert_eq!(d.remaining, Some(0));
    let third = d.decide(&vec![change("c")]);
    assert_eq!(third.outcome, Outcome::Exit);
    assert!(!third.outcome.flatten(false).contains(&Step::Start));
    assert!(!third.outcome.flatten(true).contains(&Step::Start));
    assert_eq!(d.remaining, Some(0));
    let fourth = d.decide(&vec![change("d")]);
    assert_eq!(fourth.outcome, Outcome::Exit);
}

#[test]
fn startup_trigger_starts_unless_postponed() {
    let mut d = decider(BusyPolicy::Restart);
    let decision = d.decide(&vec![]);
    assert_eq!(decision.outcome.flatten(false), vec![Step::Start]);
    assert!(d.triggered);

    let mut d = Decider::new(false, false, false, false, true, BusyPolicy::Restart, None, Some(1));
    let decision = d.decide(&vec![]);
    assert_eq!(decision.outcome, Outcome::DoNothing);
    assert_eq!(d.remaining, Some(1));
    let decision = d.decide(&vec![]);
    assert_eq!(decision.outcome.flatten(false), vec![Step::Start]);
    assert_eq!(d.remaining, Some(0));
}

#[test]
fn postpone_does_not_suppress_a_real_change() {
    let mut d = Decider::new(false, false, false, false, true, BusyPolicy::Restart, None, None);
    let decision = d.decide(&vec![change("a")]);
    assert_eq!(decision.outcome.flatten(false), vec![Step::Start]);
}

#[test]
fn once_mode_runs_one_job_then_exits() {
    let mut d = Decider::new(true, false, false, true, false, BusyPolicy::DoNothing, Some(9), None);
    let startup = d.decide(&vec![]);
    assert_eq!(startup.outcome, Outcome::DoNothing);
    let first = d.decide(&vec![change("a")]);
    assert_eq!(first.outcome, both(Outcome::Start, both(Outcome::Wait, Outcome::Exit)));
    assert_eq!(first.outcome.flatten(true), vec![Step::Start, Step::Wait, Step::Exit]);
    let second = d.decide(&vec![change("b")]);
    assert_eq!(second.outcome, Outcome::DoNothing);
}

#[test]
fn resolve_keeps_the_steps() {
    let outcome = both(
        if_running(Outcome::Stop, Outcome::Start),
        if_running(Outcome::Wait, Outcome::Exit),
    );
    assert_eq!(outcome.resolve(true), both(Outcome::Stop, Outcome::Wait));
    assert_eq!(outcome.resolve(false), both(Outcome::Start, Outcome::Exit));
    assert_eq!(outcome.resolve(true).flatten(false), outcome.flatten(true));
    assert_eq!(outcome.clone(), outcome);
    assert_eq!(outcome.duplicate(), outcome);
    assert_eq!(Outcome::wait(Outcome::Exit), both(Outcome::Wait, Outcome::Exit));
    assert_eq!(Outcome::both(Outcome::Stop, Outcome::Exit), both(Outcome::Stop, Outcome::Exit));
    assert_eq!(
        Outcome::if_running(Outcome::Stop, Outcome::Exit),
        if_running(Outcome::Stop, Outcome::Exit)
    );
    assert_eq!(Outcome::Clear.resolve(false), Outcome::Clear);
}
