use cargo_watch::decide::{BusyPolicy, Decider, Ending, Report};
use cargo_watch::event::{ChangeKind, ProcessEnd, RawEvent, Signal};
use cargo_watch::job::{JobState, Supervisor};
use cargo_watch::outcome::Step;
use cargo_watch::schedule::{
    decider_for, do_step, handle, has_setting, linearise, Command, Effect, Linearised, Scheduler,
    Setting,
};

fn change(path: &str) -> RawEvent {
    RawEvent::Path { kind: ChangeKind::Create, path: path.to_string() }
}

fn scheduler(policy: BusyPolicy) -> Scheduler {
    let decider = Decider::new(false, false, false, false, false, policy, None, None);
    Scheduler::new(decider, Supervisor::new(1000, false), 2)
}

#[test]
fn first_trigger_launches_the_plan() {
    let mut s = scheduler(BusyPolicy::Restart);
    let effects = handle(&mut s, &vec![], 0);
    assert_eq!(effects, vec![Effect::Launch { handle: 0, step: 0 }]);
    assert_eq!(s.supervisor.state, JobState::Running { handle: 0, started_at: 0 });
    assert_eq!(s.job_ended(0, ProcessEnd::Success, 5), vec![Effect::Launch { handle: 0, step: 1 }]);
    assert_eq!(s.job_ended(0, ProcessEnd::Success, 9), vec![]);
    assert_eq!(s.supervisor.state, JobState::Idle);
}

#[test]
fn do_nothing_leaves_the_running_job() {
    let mut s = scheduler(BusyPolicy::DoNothing);
    handle(&mut s, &vec![change("a")], 0);
    let before = s.supervisor;
    let effects = handle(&mut s, &vec![change("b")], 10);
    assert_eq!(effects, vec![]);
    assert_eq!(s.supervisor, before);
    assert!(s.pending.is_empty());
}

#[test]
fn restart_stops_once_then_starts_once() {
    let decider = Decider::new(true, false, false, false, false, BusyPolicy::Restart, Some(1), None);
    let mut s = Scheduler::new(decider, Supervisor::new(1000, false), 1);
    assert_eq!(
        handle(&mut s, &vec![change("a")], 0),
        vec![Effect::Clear, Effect::Sleep(1), Effect::Launch { handle: 0, step: 0 }]
    );
    let effects = handle(&mut s, &vec![change("b")], 10);
    assert_eq!(effects, vec![Effect::Terminate { handle: 0 }]);
    assert_eq!(s.supervisor.state, JobState::Running { handle: 0, started_at: 0 });
    assert_eq!(s.tick(500), vec![]);
    let effects = s.job_ended(0, ProcessEnd::ExitSignal(Signal::Terminate), 600);
    assert_eq!(
        effects,
        vec![Effect::Clear, Effect::Sleep(1), Effect::Launch { handle: 1, step: 0 }]
    );
    assert_eq!(s.supervisor.state, JobState::Running { handle: 1, started_at: 600 });
    assert!(s.pending.is_empty());
}

#[test]
fn restart_kills_after_the_grace_period() {
    let mut s = scheduler(BusyPolicy::Restart);
    handle(&mut s, &vec![change("a")], 0);
    assert_eq!(handle(&mut s, &vec![change("b")], 10), vec![Effect::Terminate { handle: 0 }]);
    assert_eq!(s.tick(1009), vec![]);
    assert_eq!(
        s.tick(1010),
        vec![Effect::Kill { handle: 0 }, Effect::Launch { handle: 1, step: 0 }]
    );
    assert_eq!(s.job_ended(0, ProcessEnd::ExitSignal(Signal::ForceStop), 1011), vec![]);
    assert_eq!(s.supervisor.state, JobState::Running { handle: 1, started_at: 1010 });
}

#[test]
fn queue_starts_after_the_job_ended() {
    let mut s = scheduler(BusyPolicy::Queue);
    handle(&mut s, &vec![change("a")], 0);
    assert_eq!(handle(&mut s, &vec![change("b")], 1), vec![]);
    assert_eq!(s.pending, vec![Step::Wait, Step::Start]);
    assert_eq!(s.job_ended(0, ProcessEnd::Success, 2), vec![Effect::Launch { handle: 0, step: 1 }]);
    assert_eq!(s.job_ended(0, ProcessEnd::Success, 3), vec![Effect::Launch { handle: 1, step: 0 }]);
    assert!(s.pending.is_empty());
}

#[test]
fn shutdown_stops_the_job_before_exit() {
    let mut s = scheduler(BusyPolicy::Restart);
    handle(&mut s, &vec![change("a")], 0);
    let effects = handle(&mut s, &vec![RawEvent::Signal(Signal::Interrupt)], 5);
    assert_eq!(effects, vec![Effect::Terminate { handle: 0 }]);
    assert_eq!(s.job_ended(0, ProcessEnd::ExitSignal(Signal::Interrupt), 6), vec![Effect::Exit]);
    assert!(s.pending.is_empty());
}

#[test]
fn shutdown_when_idle_exits_at_once() {
    let mut s = scheduler(BusyPolicy::Restart);
    assert_eq!(handle(&mut s, &vec![RawEvent::KeyboardEof], 5), vec![Effect::Exit]);
}

#[test]
fn quota_exit_stops_a_running_job_first() {
    let decider = Decider::new(false, false, false, false, false, BusyPolicy::DoNothing, None, Some(1));
    let mut s = Scheduler::new(decider, Supervisor::new(100, false), 1);
    assert_eq!(handle(&mut s, &vec![change("a")], 0), vec![Effect::Launch { handle: 0, step: 0 }]);
    assert_eq!(handle(&mut s, &vec![change("b")], 1), vec![Effect::Terminate { handle: 0 }]);
    assert_eq!(s.tick(101), vec![Effect::Kill { handle: 0 }, Effect::Exit]);
}

#[test]
fn completion_is_reported_to_the_user() {
    let mut s = scheduler(BusyPolicy::Restart);
    let effects = handle(&mut s, &vec![RawEvent::Completion(Some(ProcessEnd::ExitError(101)))], 7);
    assert_eq!(
        effects,
        vec![Effect::Report(Report {
            ending: Ending::Ended(Some(ProcessEnd::ExitError(101))),
            print: true,
            notify: false
        })]
    );
}

#[test]
fn signals_reach_the_running_job_only() {
    let mut s = scheduler(BusyPolicy::Restart);
    assert_eq!(handle(&mut s, &vec![RawEvent::Signal(Signal::User1)], 0), vec![]);
    handle(&mut s, &vec![change("a")], 1);
    assert_eq!(
        handle(&mut s, &vec![RawEvent::Signal(Signal::User1)], 2),
        vec![Effect::Forward { handle: 0, signal: Signal::User1 }]
    );
}

#[test]
fn failed_launch_is_not_fatal() {
    let mut s = scheduler(BusyPolicy::Restart);
    handle(&mut s, &vec![change("a")], 0);
    assert_eq!(
        s.launch_failed(0, 1),
        vec![Effect::Report(Report { ending: Ending::FailedToStart, print: true, notify: false })]
    );
    assert_eq!(s.launch_failed(0, 1), vec![]);
    assert_eq!(s.supervisor.state, JobState::Idle);
    assert_eq!(handle(&mut s, &vec![change("b")], 2), vec![Effect::Launch { handle: 1, step: 0 }]);
}

#[test]
fn single_steps() {
    let mut sup = Supervisor::new(10, false);
    let done = do_step(&mut sup, Step::Stop, 1, 0);
    assert!(!done.blocked && done.effect.is_none());
    let done = do_step(&mut sup, Step::Start, 1, 0);
    assert_eq!(done.effect, Some(Effect::Launch { handle: 0, step: 0 }));
    let done = do_step(&mut sup, Step::Start, 1, 0);
    assert_eq!(done.effect, None);
    let done = do_step(&mut sup, Step::Wait, 1, 0);
    assert!(done.blocked);
    let done = do_step(&mut sup, Step::Exit, 1, 0);
    assert!(done.blocked && !done.exit);
    assert_eq!(done.effect, Some(Effect::Terminate { handle: 0 }));
}

#[test]
fn settings_make_the_decider() {
    let settings = vec![Setting::Clear, Setting::Quiet];
    assert!(has_setting(&settings, Setting::Clear));
    assert!(!has_setting(&settings, Setting::Postpone));
    let d = decider_for(&settings, BusyPolicy::Queue);
    assert_eq!(
        d,
        Decider::new(true, true, false, false, false, BusyPolicy::Queue, None, None)
    );
    let d = decider_for(&vec![Setting::Postpone], BusyPolicy::Restart);
    assert!(d.postpone && !d.clear && !d.quiet);
}

#[test]
fn linearise_announces_unless_quiet() {
    let commands =
        || vec![Command::Cargo("build".to_string()), Command::Shell("echo 'done'".to_string())];
    assert_eq!(
        linearise(&commands(), true),
        Linearised { lines: vec!["cargo build".to_string(), "echo 'done'".to_string()], finish: None }
    );
    assert_eq!(
        linearise(&commands(), false),
        Linearised {
            lines: vec![
                "echo [Running 'cargo build && echo \"done\"']".to_string(),
                "cargo build".to_string(),
                "echo 'done'".to_string()
            ],
            finish: Some("echo [Finished running]".to_string()),
        }
    );
}
