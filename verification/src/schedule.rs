//! The scheduler: one batch of events in, the actions on the job out.
//!
//! The scheduler joins the decider and the supervisor. It keeps the steps
//! of outcomes that wait for the running job to end, and goes on with them
//! when the caller reports the end.

use vstd::prelude::*;
use vstd::string::StringExecFns;
use crate::decide::{
    batch_kind, busy_outcome, launch_report, lemma_start_steps, start_outcome, start_steps,
    BusyPolicy, Decider, Ending, Report,
};
use crate::event::{ProcessEnd, RawEvent, Signal};
use crate::job::{CompletionStatus, JobState, Observed, StopAction, Supervisor};
use crate::outcome::{Outcome, Step};
use crate::text::{join, joined, replace_char, replaced};

verus! {

/// A command as it is declared: a subcommand of the build tool, or a line
/// for the shell.
#[derive(Debug, PartialEq, Eq)]
pub enum Command {
    Cargo(String),
    Shell(String),
}

/// A switch fixed at startup.
#[derive(Clone, Copy, Debug, PartialEq, Eq, Structural)]
pub enum Setting {
    Clear,
    Postpone,
    Quiet,
}

/// The switches that are on.
pub type Settings = Vec<Setting>;

/// An action that the caller performs for the scheduler, in the order given.
#[derive(Clone, Copy, Debug, PartialEq, Eq, Structural)]
pub enum Effect {
    /// Launch this step of the plan for the job `handle`.
    Launch { handle: u64, step: usize },
    /// Ask the job to terminate.
    Terminate { handle: u64 },
    /// Kill the job.
    Kill { handle: u64 },
    /// Send the signal to the job.
    Forward { handle: u64, signal: Signal },
    /// Clear the screen.
    Clear,
    /// Sleep for this many seconds.
    Sleep(u64),
    /// Tell the user how the job ended.
    Report(Report),
    /// Leave the watch loop.
    Exit,
}

/// What one step does to the supervisor.
pub struct Stepped {
    pub supervisor: Supervisor,
    /// The action for the caller, if any.
    pub effect: Option<Effect>,
    /// Whether the step has to wait for the running job to end.
    pub blocked: bool,
    /// Whether the step ends the watch loop.
    pub exit: bool,
}

/// What a run of steps does to the supervisor.
pub struct Progress {
    pub supervisor: Supervisor,
    /// The steps that wait for the running job to end.
    pub pending: Seq<Step>,
    /// The actions for the caller, in order.
    pub effects: Seq<Effect>,
}

/// The handle of the running job.
pub open spec fn running_handle(supervisor: Supervisor) -> u64
    recommends
        supervisor.busy(),
{
    supervisor.state->handle
}

/// What `step` does on `supervisor` for a plan of `plan_len` steps.
pub open spec fn stepped(supervisor: Supervisor, step: Step, plan_len: usize, now: u64) -> Stepped {
    let handle = running_handle(supervisor);
    let pass = Stepped { supervisor, effect: None, blocked: false, exit: false };
    let stopping = Stepped {
        supervisor: supervisor.after_stop(handle, now),
        effect: if supervisor.deadline is None {
            Some(Effect::Terminate { handle })
        } else {
            None
        },
        blocked: true,
        exit: false,
    };
    match step {
        Step::Stop => if supervisor.busy() {
            stopping
        } else {
            pass
        },
        Step::Start => if supervisor.can_start(plan_len) {
            Stepped {
                supervisor: supervisor.after_start(plan_len, now),
                effect: Some(Effect::Launch { handle: supervisor.next_handle, step: 0 }),
                blocked: false,
                exit: false,
            }
        } else {
            pass
        },
        Step::Wait => Stepped { blocked: supervisor.busy(), ..pass },
        Step::Sleep(secs) => Stepped { effect: Some(Effect::Sleep(secs)), ..pass },
        Step::Signal(signal) => if supervisor.busy() {
            Stepped { effect: Some(Effect::Forward { handle, signal }), ..pass }
        } else {
            pass
        },
        Step::Clear => Stepped { effect: Some(Effect::Clear), ..pass },
        Step::Exit => if supervisor.busy() {
            stopping
        } else {
            Stepped { effect: Some(Effect::Exit), exit: true, ..pass }
        },
    }
}

/// Whether `step` cannot be done before the running job has ended.
pub open spec fn waits(step: Step, supervisor: Supervisor) -> bool {
    &&& supervisor.busy()
    &&& step == Step::Wait || ((step == Step::Stop || step == Step::Exit) && supervisor.deadline
        is Some)
}

/// The sequence of the action, if there is one.
pub open spec fn effect_seq(effect: Option<Effect>) -> Seq<Effect> {
    match effect {
        Some(e) => seq![e],
        None => Seq::empty(),
    }
}

/// What the steps do, taken in order until one has to wait or ends the
/// watch loop. A step that waits stays first among the pending steps; an
/// exit discards the steps after it.
pub open spec fn progress(supervisor: Supervisor, steps: Seq<Step>, plan_len: usize, now: u64) -> Progress
    decreases steps.len(),
{
    if steps.len() == 0 {
        Progress { supervisor, pending: steps, effects: Seq::empty() }
    } else {
        let first = stepped(supervisor, steps[0], plan_len, now);
        if first.blocked {
            Progress {
                supervisor: first.supervisor,
                pending: steps,
                effects: effect_seq(first.effect),
            }
        } else if first.exit {
            Progress {
                supervisor: first.supervisor,
                pending: Seq::empty(),
                effects: effect_seq(first.effect),
            }
        } else {
            let rest = progress(first.supervisor, steps.drop_first(), plan_len, now);
            Progress {
                supervisor: rest.supervisor,
                pending: rest.pending,
                effects: effect_seq(first.effect) + rest.effects,
            }
        }
    }
}

/// The scheduler's state.
pub struct Scheduler {
    pub decider: Decider,
    pub supervisor: Supervisor,
    /// The steps that wait for the running job to end.
    pub pending: Vec<Step>,
    /// The number of steps of the plan.
    pub plan_len: usize,
}

/// The scheduler's state as a mathematical value.
pub struct SchedulerView {
    pub decider: Decider,
    pub supervisor: Supervisor,
    pub pending: Seq<Step>,
    pub plan_len: usize,
}

impl View for Scheduler {
    type V = SchedulerView;

    open spec fn view(&self) -> SchedulerView {
        SchedulerView {
            decider: self.decider,
            supervisor: self.supervisor,
            pending: self.pending@,
            plan_len: self.plan_len,
        }
    }
}

/// What an entry point of the scheduler returns and leaves behind.
pub struct Handled {
    pub scheduler: SchedulerView,
    pub effects: Seq<Effect>,
}

impl SchedulerView {
    /// The invariant: the supervisor's own, and steps are pending only
    /// while the first of them waits for the running job.
    pub open spec fn wf(self) -> bool {
        &&& self.supervisor.wf()
        &&& self.pending.len() > 0 ==> waits(self.pending[0], self.supervisor)
    }

    /// The scheduler after going on with its pending steps, and the actions.
    pub open spec fn advanced(self, now: u64) -> Handled {
        let p = progress(self.supervisor, self.pending, self.plan_len, now);
        Handled {
            scheduler: SchedulerView { supervisor: p.supervisor, pending: p.pending, ..self },
            effects: p.effects,
        }
    }

    /// The scheduler after a batch, and the actions: the report, if the
    /// batch told of a job's end, then what the batch's outcome does after
    /// the steps that were pending.
    pub open spec fn handled(self, batch: Seq<RawEvent>, now: u64) -> Handled {
        let decision = self.decider.decision(batch);
        let queued = SchedulerView {
            decider: self.decider.after(batch),
            pending: self.pending + decision.outcome.steps(self.supervisor.busy()),
            ..self
        };
        let after = queued.advanced(now);
        Handled {
            scheduler: after.scheduler,
            effects: match decision.report {
                Some(report) => seq![Effect::Report(report)],
                None => Seq::empty(),
            } + after.effects,
        }
    }

    /// The scheduler after the end of a step was reported, and the actions.
    pub open spec fn ended(self, handle: u64, end: ProcessEnd, now: u64) -> Handled {
        let seen = self.supervisor.observed(handle, end);
        let noted = SchedulerView { supervisor: self.supervisor.after_observe(handle, end), ..self };
        match seen {
            Observed::Stale => Handled { scheduler: self, effects: Seq::empty() },
            Observed::Next(step) => Handled {
                scheduler: noted,
                effects: seq![Effect::Launch { handle, step }],
            },
            Observed::Done(_) => noted.advanced(now),
        }
    }

    /// The scheduler after a launch was reported to have failed, and the
    /// actions.
    pub open spec fn unlaunched(self, handle: u64, now: u64) -> Handled {
        if self.supervisor.runs(handle) {
            let after = (SchedulerView {
                supervisor: self.supervisor.ended(handle, CompletionStatus::FailedToStart),
                ..self
            }).advanced(now);
            Handled {
                scheduler: after.scheduler,
                effects: seq![
                    Effect::Report(
                        Report {
                            ending: Ending::FailedToStart,
                            print: true,
                            notify: self.decider.notify,
                        },
                    ),
                ] + after.effects,
            }
        } else {
            Handled { scheduler: self, effects: Seq::empty() }
        }
    }

    /// The scheduler after time has passed, and the actions.
    pub open spec fn ticked(self, now: u64) -> Handled {
        match self.supervisor.overdue(now) {
            Some(handle) => {
                let after = (SchedulerView {
                    supervisor: self.supervisor.after_expire(now),
                    ..self
                }).advanced(now);
                Handled {
                    scheduler: after.scheduler,
                    effects: seq![Effect::Kill { handle }] + after.effects,
                }
            },
            None => Handled { scheduler: self, effects: Seq::empty() },
        }
    }
}

/// Steps stay pending only behind one that waits for the running job, and
/// the supervisor's invariant holds after them.
pub proof fn lemma_progress_waits(supervisor: Supervisor, steps: Seq<Step>, plan_len: usize, now: u64)
    requires
        supervisor.wf(),
    ensures
        ({
            let p = progress(supervisor, steps, plan_len, now);
            &&& p.supervisor.wf()
            &&& p.pending.len() > 0 ==> waits(p.pending[0], p.supervisor)
        }),
    decreases steps.len(),
{
    if steps.len() > 0 {
        let first = stepped(supervisor, steps[0], plan_len, now);
        if !first.blocked && !first.exit {
            lemma_progress_waits(first.supervisor, steps.drop_first(), plan_len, now);
        }
    }
}

/// The actions that start a run of the job `handle`.
pub open spec fn start_effects(clear: bool, delay_run: Option<u64>, handle: u64) -> Seq<Effect> {
    let sleep = match delay_run {
        Some(secs) => seq![Effect::Sleep(secs)],
        None => Seq::empty(),
    };
    let clearing = if clear {
        seq![Effect::Clear]
    } else {
        Seq::empty()
    };
    clearing + sleep + seq![Effect::Launch { handle, step: 0 }]
}

/// From an idle supervisor that can start, the steps that start a run
/// launch exactly one job, and none of them stays pending.
pub proof fn lemma_progress_starts(
    supervisor: Supervisor,
    clear: bool,
    delay_run: Option<u64>,
    plan_len: usize,
    now: u64,
)
    requires
        supervisor.can_start(plan_len),
    ensures
        progress(supervisor, start_steps(clear, delay_run), plan_len, now) == (Progress {
            supervisor: supervisor.after_start(plan_len, now),
            pending: Seq::empty(),
            effects: start_effects(clear, delay_run, supervisor.next_handle),
        }),
{
    reveal_with_fuel(progress, 4);
    let steps = start_steps(clear, delay_run);
    let last = progress(supervisor, seq![Step::Start], plan_len, now);
    assert(seq![Step::Start].drop_first() == Seq::<Step>::empty());
    assert(last.effects == seq![Effect::Launch { handle: supervisor.next_handle, step: 0 }]);
    assert(last.pending == Seq::<Step>::empty());
    match delay_run {
        Some(secs) => {
            let slept = seq![Step::Sleep(secs), Step::Start];
            assert(slept.drop_first() == seq![Step::Start]);
            let mid = progress(supervisor, slept, plan_len, now);
            assert(mid.effects == seq![Effect::Sleep(secs)] + last.effects);
            if clear {
                assert(steps == seq![Step::Clear, Step::Sleep(secs), Step::Start]);
                assert(steps.drop_first() == slept);
                let all = progress(supervisor, steps, plan_len, now);
                assert(all.effects == seq![Effect::Clear] + mid.effects);
                assert(all.effects == start_effects(clear, delay_run, supervisor.next_handle));
            } else {
                assert(steps == slept);
                assert(mid.effects == start_effects(clear, delay_run, supervisor.next_handle));
            }
        },
        None => {
            if clear {
                assert(steps == seq![Step::Clear, Step::Start]);
                assert(steps.drop_first() == seq![Step::Start]);
                let all = progress(supervisor, steps, plan_len, now);
                assert(all.effects == seq![Effect::Clear] + last.effects);
                assert(all.effects == start_effects(clear, delay_run, supervisor.next_handle));
            } else {
                assert(steps == seq![Step::Start]);
                assert(last.effects == start_effects(clear, delay_run, supervisor.next_handle));
            }
        },
    }
}

/// A job is launched, and the watch loop is left, only while no job runs:
/// two jobs never run at once, and no job is left behind at the exit.
pub proof fn lemma_launch_and_exit_need_idle(
    supervisor: Supervisor,
    step: Step,
    plan_len: usize,
    now: u64,
)
    ensures
        stepped(supervisor, step, plan_len, now).effect matches Some(Effect::Launch { handle, .. })
            ==> !supervisor.busy() && stepped(supervisor, step, plan_len, now).supervisor.runs(
            handle,
        ),
        stepped(supervisor, step, plan_len, now).effect == Some(Effect::Exit)
            ==> !supervisor.busy(),
        stepped(supervisor, step, plan_len, now).exit ==> !supervisor.busy(),
{
}

/// Under the policy to do nothing, a change that arrives while a job runs
/// and the quota is not used up leaves the supervisor as it is and asks
/// the caller for nothing: no launch, no stop.
pub proof fn lemma_busy_do_nothing(scheduler: SchedulerView, batch: Seq<RawEvent>, now: u64)
    requires
        scheduler.wf(),
        scheduler.supervisor.busy(),
        scheduler.decider.policy == BusyPolicy::DoNothing,
        !scheduler.decider.exhausted(),
        batch_kind(batch) is Change,
    ensures
        scheduler.handled(batch, now).effects == Seq::<Effect>::empty(),
        scheduler.handled(batch, now).scheduler.supervisor == scheduler.supervisor,
{
    reveal_with_fuel(progress, 3);
    reveal_with_fuel(Outcome::steps, 4);
    let decider = scheduler.decider;
    let added = decider.decision(batch).outcome.steps(true);
    assert(decider.decision(batch).outcome == decider.trigger_outcome());
    let steps = scheduler.pending + added;
    if scheduler.pending.len() > 0 {
        assert(steps[0] == scheduler.pending[0]);
    } else {
        assert(steps == added);
        if decider.once_started {
        } else if decider.once {
            assert(added == seq![Step::Start, Step::Wait, Step::Exit]);
            assert(added.drop_first()[0] == Step::Wait);
        } else {
        }
    }
}

/// Under the policy to restart, a change that arrives while a job runs
/// undisturbed asks for exactly one stop; once the job is gone, whether it
/// ended or was killed, exactly one job is launched, under a new handle.
/// The launch comes only after the supervisor was idle.
pub proof fn lemma_busy_restart(
    scheduler: SchedulerView,
    batch: Seq<RawEvent>,
    now: u64,
    end: ProcessEnd,
    later: u64,
)
    requires
        scheduler.wf(),
        scheduler.supervisor.busy(),
        scheduler.supervisor.deadline is None,
        scheduler.pending.len() == 0,
        scheduler.plan_len > 0,
        scheduler.supervisor.next_handle < u64::MAX,
        scheduler.decider.policy == BusyPolicy::Restart,
        !scheduler.decider.once,
        !scheduler.decider.once_started,
        !scheduler.decider.exhausted(),
        batch_kind(batch) is Change,
        end != ProcessEnd::Continued,
        later >= now + scheduler.supervisor.grace,
    ensures
        ({
            let old_job = running_handle(scheduler.supervisor);
            let new_job = scheduler.supervisor.next_handle;
            let stopping = scheduler.handled(batch, now);
            let starts = start_effects(scheduler.decider.clear, scheduler.decider.delay_run, new_job);
            let ended = stopping.scheduler.ended(old_job, end, later);
            let killed = stopping.scheduler.ticked(later);
            &&& stopping.effects == seq![Effect::Terminate { handle: old_job }]
            &&& stopping.scheduler.supervisor.runs(old_job)
            &&& ended.effects == starts
            &&& ended.scheduler.supervisor.runs(new_job)
            &&& ended.scheduler.pending.len() == 0
            &&& killed.effects == seq![Effect::Kill { handle: old_job }] + starts
            &&& killed.scheduler.supervisor.runs(new_job)
            &&& killed.scheduler.pending.len() == 0
        }),
{
    reveal_with_fuel(progress, 2);
    let decider = scheduler.decider;
    let supervisor = scheduler.supervisor;
    let old_job = running_handle(supervisor);
    let begin = start_steps(decider.clear, decider.delay_run);
    lemma_start_steps(decider.clear, decider.delay_run, true);
    let added = decider.decision(batch).outcome.steps(true);
    assert(added == busy_outcome(BusyPolicy::Restart, start_outcome(decider.clear, decider.delay_run)).steps(true)) by {
        reveal_with_fuel(Outcome::steps, 2);
    }
    assert(Outcome::Stop.steps(true) == seq![Step::Stop]);
    assert(added == seq![Step::Stop] + begin);
    let steps = scheduler.pending + added;
    assert(steps == added);
    assert(steps[0] == Step::Stop);
    let stopping = scheduler.handled(batch, now);
    assert(stopping.scheduler.pending == steps);
    assert(stopping.effects == Seq::<Effect>::empty() + seq![Effect::Terminate { handle: old_job }]);
    assert(steps.drop_first() == begin);
    let gone = supervisor.after_stop(old_job, now).ended(old_job, CompletionStatus::Stopped);
    lemma_progress_starts(gone, decider.clear, decider.delay_run, scheduler.plan_len, later);
}

/// Whether the switch is on.
pub fn has_setting(settings: &Settings, setting: Setting) -> (on: bool)
    ensures
        on == settings@.contains(setting),
{
    let mut i: usize = 0;
    while i < settings.len()
        invariant
            i <= settings.len(),
            forall|j: int| 0 <= j < i ==> settings@[j] != setting,
        decreases settings.len() - i,
    {
        if settings[i] == setting {
            return true;
        }
        i += 1;
    }
    false
}

/// A declared command as a mathematical value.
pub enum CommandModel {
    Cargo(Seq<char>),
    Shell(Seq<char>),
}

impl DeepView for Command {
    type V = CommandModel;

    open spec fn deep_view(&self) -> CommandModel {
        match self {
            Command::Cargo(s) => CommandModel::Cargo(s@),
            Command::Shell(s) => CommandModel::Shell(s@),
        }
    }
}

/// The commands as lines for the shell, and the line that runs at the end.
#[derive(Debug, PartialEq, Eq)]
pub struct Linearised {
    /// The lines, which run in order until one fails.
    pub lines: Vec<String>,
    /// The line that runs after them, whether one failed or not.
    pub finish: Option<String>,
}

/// The line for the shell that runs the command.
pub open spec fn shell_line(command: CommandModel) -> Seq<char> {
    match command {
        CommandModel::Shell(line) => line,
        CommandModel::Cargo(rest) => "cargo "@ + rest,
    }
}

/// The lines for the shell that run the commands, in order.
pub open spec fn shell_lines(commands: Seq<CommandModel>) -> Seq<Seq<char>> {
    Seq::new(commands.len(), |i: int| shell_line(commands[i]))
}

/// The line that tells the user what runs.
pub open spec fn announcement(lines: Seq<Seq<char>>) -> Seq<char> {
    "echo [Running '"@ + replaced(joined(lines, " && "@), '\'', '"') + "']"@
}

/// The lines that run for the commands: unless quiet, the announcement
/// first; then one line for each command.
pub open spec fn linearised_lines(commands: Seq<CommandModel>, quiet: bool) -> Seq<Seq<char>> {
    if quiet {
        shell_lines(commands)
    } else {
        seq![announcement(shell_lines(commands))] + shell_lines(commands)
    }
}

/// Turns the commands into lines for the shell.
pub fn linearise(commands: &Vec<Command>, quiet: bool) -> (plan: Linearised)
    ensures
        plan.lines.deep_view() == linearised_lines(commands.deep_view(), quiet),
        match plan.finish {
            Some(line) => !quiet && line@ == "echo [Finished running]"@,
            None => quiet,
        },
{
    let mut lines: Vec<String> = Vec::new();
    let mut i: usize = 0;
    while i < commands.len()
        invariant
            i <= commands.len(),
            lines.len() == i,
            forall|k: int|
                0 <= k < i ==> (#[trigger] lines@[k])@ == shell_line(commands@[k].deep_view()),
        decreases commands.len() - i,
    {
        let line = match &commands[i] {
            Command::Shell(cmd) => cmd.clone(),
            Command::Cargo(rest) => {
                let mut cmd = String::from_str("cargo ");
                cmd.append(rest.as_str());
                cmd
            },
        };
        lines.push(line);
        i += 1;
    }
    proof {
        assert(lines.deep_view() =~= shell_lines(commands.deep_view()));
    }
    if quiet {
        return Linearised { lines, finish: None };
    }
    let all = join(&lines, " && ");
    let mut announce = String::from_str("echo [Running '");
    announce.append(replace_char(all.as_str(), '\'', '"').as_str());
    announce.append("']");
    let ghost plain = lines.deep_view();
    lines.insert(0, announce);
    proof {
        assert(lines.deep_view() =~= seq![announcement(plain)] + plain);
    }
    Linearised { lines, finish: Some(String::from_str("echo [Finished running]")) }
}

/// The decider for the switches that are on, with the given policy for
/// triggers that find the job running; no other option is set.
pub fn decider_for(settings: &Settings, policy: BusyPolicy) -> (decider: Decider)
    ensures
        decider == (Decider {
            clear: settings@.contains(Setting::Clear),
            quiet: settings@.contains(Setting::Quiet),
            notify: false,
            once: false,
            postpone: settings@.contains(Setting::Postpone),
            policy,
            delay_run: None,
            remaining: None,
            triggered: false,
            once_started: false,
        }),
{
    Decider::new(
        has_setting(settings, Setting::Clear),
        has_setting(settings, Setting::Quiet),
        false,
        false,
        has_setting(settings, Setting::Postpone),
        policy,
        None,
        None,
    )
}

/// Does one step on the supervisor.
pub fn do_step(supervisor: &mut Supervisor, step: Step, plan_len: usize, now: u64) -> (done: Stepped)
    requires
        old(supervisor).wf(),
    ensures
        final(supervisor).wf(),
        done == stepped(*old(supervisor), step, plan_len, now),
        *final(supervisor) == done.supervisor,
{
    let mut effect: Option<Effect> = None;
    let mut blocked = false;
    let mut exit = false;
    match step {
        Step::Stop => {
            if let JobState::Running { handle, .. } = supervisor.state {
                if let StopAction::Terminate = supervisor.stop(handle, now) {
                    effect = Some(Effect::Terminate { handle });
                }
                blocked = true;
            }
        },
        Step::Start => {
            if let Some(handle) = supervisor.start(plan_len, now) {
                effect = Some(Effect::Launch { handle, step: 0 });
            }
        },
        Step::Wait => {
            blocked = supervisor.is_running();
        },
        Step::Sleep(secs) => {
            effect = Some(Effect::Sleep(secs));
        },
        Step::Signal(signal) => {
            if let JobState::Running { handle, .. } = supervisor.state {
                effect = Some(Effect::Forward { handle, signal });
            }
        },
        Step::Clear => {
            effect = Some(Effect::Clear);
        },
        Step::Exit => {
            if let JobState::Running { handle, .. } = supervisor.state {
                if let StopAction::Terminate = supervisor.stop(handle, now) {
                    effect = Some(Effect::Terminate { handle });
                }
                blocked = true;
            } else {
                effect = Some(Effect::Exit);
                exit = true;
            }
        },
    }
    Stepped { supervisor: *supervisor, effect, blocked, exit }
}

impl Scheduler {
    /// An idle scheduler for a plan of `plan_len` steps.
    pub fn new(decider: Decider, supervisor: Supervisor, plan_len: usize) -> (scheduler: Scheduler)
        requires
            supervisor.wf(),
        ensures
            scheduler@.wf(),
            scheduler@ == (SchedulerView { decider, supervisor, pending: Seq::empty(), plan_len }),
    {
        Scheduler { decider, supervisor, pending: Vec::new(), plan_len }
    }

    /// Goes on with the pending steps until one has to wait for the running
    /// job, and returns the actions for the caller.
    pub fn advance(&mut self, now: u64) -> (effects: Vec<Effect>)
        requires
            old(self).supervisor.wf(),
        ensures
            final(self)@.wf(),
            final(self)@ == old(self)@.advanced(now).scheduler,
            effects@ == old(self)@.advanced(now).effects,
    {
        let mut effects: Vec<Effect> = Vec::new();
        let mut i: usize = 0;
        let mut exit = false;
        let ghost start = self.supervisor;
        let ghost goal = progress(start, self.pending@, self.plan_len, now);
        proof {
            lemma_progress_waits(start, self.pending@, self.plan_len, now);
            assert(self.pending@.skip(0) == self.pending@);
            assert(Seq::<Effect>::empty() + goal.effects == goal.effects);
        }
        while i < self.pending.len() && !exit
            invariant
                i <= self.pending.len(),
                self.supervisor.wf(),
                self.pending@ == old(self).pending@,
                self.plan_len == old(self).plan_len,
                self.decider == old(self).decider,
                goal == progress(old(self).supervisor, old(self).pending@, old(self).plan_len, now),
                !exit ==> ({
                    let rest = progress(self.supervisor, self.pending@.skip(i as int), self.plan_len, now);
                    &&& goal.supervisor == rest.supervisor
                    &&& goal.pending == rest.pending
                    &&& goal.effects == effects@ + rest.effects
                }),
                exit ==> ({
                    &&& goal.supervisor == self.supervisor
                    &&& goal.pending == Seq::<Step>::empty()
                    &&& goal.effects == effects@
                }),
            decreases self.pending.len() - i + if exit { 0int } else { 1int },
        {
            let ghost before = effects@;
            let ghost rest = self.pending@.skip(i as int);
            proof {
                assert(rest[0] == self.pending@[i as int]);
                assert(rest.drop_first() == self.pending@.skip(i + 1));
            }
            let done = do_step(&mut self.supervisor, self.pending[i], self.plan_len, now);
            match done.effect {
                Some(effect) => {
                    effects.push(effect);
                },
                None => {},
            }
            proof {
                assert(effects@ == before + effect_seq(done.effect));
            }
            if done.blocked {
                proof {
                    assert(goal.pending == rest);
                    assert(goal.effects == effects@);
                }
                let kept = self.pending.split_off(i);
                self.pending = kept;
                proof {
                    assert(self.pending@ == rest);
                }
                return effects;
            }
            if done.exit {
                exit = true;
            } else {
                i += 1;
                proof {
                    let tail = progress(self.supervisor, self.pending@.skip(i as int), self.plan_len, now);
                    assert(goal.effects == before + (effect_seq(done.effect) + tail.effects));
                    assert(before + (effect_seq(done.effect) + tail.effects) == effects@
                        + tail.effects);
                }
            }
        }
        self.pending = Vec::new();
        proof {
            if !exit {
                assert(self.pending@.skip(0) == self.pending@);
                assert(old(self).pending@.skip(i as int).len() == 0);
                assert(goal.effects == effects@ + Seq::<Effect>::empty());
                assert(goal.pending == Seq::<Step>::empty());
            }
        }
        effects
    }

    /// Takes note that the step in flight of the job `handle` ended, and
    /// returns the actions for the caller: the launch of the job's next
    /// step, or what the pending steps do now that the job is over.
    pub fn job_ended(&mut self, handle: u64, end: ProcessEnd, now: u64) -> (effects: Vec<Effect>)
        requires
            old(self)@.wf(),
        ensures
            final(self)@.wf(),
            final(self)@ == old(self)@.ended(handle, end, now).scheduler,
            effects@ == old(self)@.ended(handle, end, now).effects,
    {
        match self.supervisor.observe(handle, end) {
            Observed::Stale => Vec::new(),
            Observed::Next(step) => {
                let mut effects: Vec<Effect> = Vec::new();
                effects.push(Effect::Launch { handle, step });
                effects
            },
            Observed::Done(_) => self.advance(now),
        }
    }

    /// Takes note that a step of the job `handle` could not be launched: the
    /// job is over, which is reported like any other end, and the pending
    /// steps go on.
    pub fn launch_failed(&mut self, handle: u64, now: u64) -> (effects: Vec<Effect>)
        requires
            old(self)@.wf(),
        ensures
            final(self)@.wf(),
            final(self)@ == old(self)@.unlaunched(handle, now).scheduler,
            effects@ == old(self)@.unlaunched(handle, now).effects,
    {
        if self.supervisor.launch_failed(handle) {
            let mut effects: Vec<Effect> = Vec::new();
            effects.push(Effect::Report(launch_report(self.decider.notify)));
            let mut more = self.advance(now);
            effects.append(&mut more);
            effects
        } else {
            Vec::new()
        }
    }

    /// Takes note of the time. Where a stop is overdue, the job is killed
    /// and the pending steps go on.
    pub fn tick(&mut self, now: u64) -> (effects: Vec<Effect>)
        requires
            old(self)@.wf(),
        ensures
            final(self)@.wf(),
            final(self)@ == old(self)@.ticked(now).scheduler,
            effects@ == old(self)@.ticked(now).effects,
    {
        match self.supervisor.expire(now) {
            Some(handle) => {
                let mut effects: Vec<Effect> = Vec::new();
                effects.push(Effect::Kill { handle });
                let mut more = self.advance(now);
                effects.append(&mut more);
                effects
            },
            None => Vec::new(),
        }
    }
}

/// Handles one batch of events: decides the outcome, queues its steps
/// behind those that still wait, and goes on as far as the job allows.
/// Returns the actions for the caller, in order.
pub fn handle(scheduler: &mut Scheduler, batch: &Vec<RawEvent>, now: u64) -> (effects: Vec<Effect>)
    requires
        old(scheduler)@.wf(),
    ensures
        final(scheduler)@.wf(),
        final(scheduler)@ == old(scheduler)@.handled(batch@, now).scheduler,
        effects@ == old(scheduler)@.handled(batch@, now).effects,
{
    let decision = scheduler.decider.decide(batch);
    let mut steps = decision.outcome.flatten(scheduler.supervisor.is_running());
    scheduler.pending.append(&mut steps);
    let mut effects: Vec<Effect> = Vec::new();
    match decision.report {
        Some(report) => {
            effects.push(Effect::Report(report));
        },
        None => {},
    }
    let mut more = scheduler.advance(now);
    effects.append(&mut more);
    effects
}

} // verus!
