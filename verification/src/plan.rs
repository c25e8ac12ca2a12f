//! The command planner: from the commands as they were declared to the
//! ordered steps that a job runs.

use vstd::prelude::*;
use vstd::string::StringExecFns;
use crate::text::{has_prefix, join, joined, same_ignoring_case, same_text_ignoring_case};

verus! {

/// The shell that interprets a command line.
#[derive(Clone, Debug, PartialEq, Eq)]
pub enum Shell {
    /// A shell that takes the line after `-c`, named by its program.
    Unix(String),
    /// The Windows command prompt.
    Cmd,
    /// PowerShell.
    Powershell,
}

/// One executable unit of a plan.
#[derive(Clone, Debug, PartialEq, Eq)]
pub enum CommandStep {
    /// A program run directly with its arguments.
    Exec { prog: String, args: Vec<String> },
    /// A line interpreted by a shell that is started with `args`.
    Shell { shell: Shell, args: Vec<String>, command: String },
}

/// The ordered steps of a job.
#[derive(Clone, Debug, PartialEq, Eq)]
pub struct CommandPlan {
    pub steps: Vec<CommandStep>,
}

/// One occurrence of a command option on the command line.
#[derive(Clone, Copy, Debug, PartialEq, Eq, Structural)]
pub enum OrderToken {
    /// A build-tool command.
    Cargo,
    /// A shell command.
    Shell,
    /// A shell selector.
    UseShell,
}

/// Why no plan could be made.
#[derive(Clone, Copy, Debug, PartialEq, Eq, Structural)]
pub enum PlanError {
    /// A command cannot be split into words.
    InvalidCommand,
    /// A command that is run without a shell holds no word.
    EmptyCommand,
    /// A shell selector cannot be split into words.
    InvalidShell,
    /// A shell selector holds no word.
    EmptyShell,
    /// The declaration order names more options than were given.
    OrderMismatch,
}

/// What the planner knows of the machine.
#[derive(Clone, Debug, PartialEq, Eq)]
pub struct Platform {
    /// Whether the commands run on Windows.
    pub windows: bool,
    /// The user's configured shell, if there is one.
    pub shell: Option<String>,
}

/// A shell as a mathematical value.
pub enum ShellModel {
    Unix(Seq<char>),
    Cmd,
    Powershell,
}

/// A step as a mathematical value.
pub enum StepModel {
    Exec { prog: Seq<char>, args: Seq<Seq<char>> },
    Shell { shell: ShellModel, args: Seq<Seq<char>>, command: Seq<char> },
}

/// A platform as a mathematical value.
pub struct PlatformModel {
    pub windows: bool,
    pub shell: Option<Seq<char>>,
}

impl DeepView for Shell {
    type V = ShellModel;

    open spec fn deep_view(&self) -> ShellModel {
        match self {
            Shell::Unix(prog) => ShellModel::Unix(prog@),
            Shell::Cmd => ShellModel::Cmd,
            Shell::Powershell => ShellModel::Powershell,
        }
    }
}

impl DeepView for CommandStep {
    type V = StepModel;

    open spec fn deep_view(&self) -> StepModel {
        match self {
            CommandStep::Exec { prog, args } => StepModel::Exec {
                prog: prog@,
                args: args.deep_view(),
            },
            CommandStep::Shell { shell, args, command } => StepModel::Shell {
                shell: shell.deep_view(),
                args: args.deep_view(),
                command: command@,
            },
        }
    }
}

impl DeepView for CommandPlan {
    type V = Seq<StepModel>;

    open spec fn deep_view(&self) -> Seq<StepModel> {
        self.steps.deep_view()
    }
}

impl DeepView for Platform {
    type V = PlatformModel;

    open spec fn deep_view(&self) -> PlatformModel {
        PlatformModel {
            windows: self.windows,
            shell: match self.shell {
                Some(s) => Some(s@),
                None => None,
            },
        }
    }
}

/// The words of a command line as a POSIX shell would split it, or `None`
/// where the line cannot be split.
pub uninterp spec fn shlex_split(line: Seq<char>) -> Option<Seq<Seq<char>>>;

/// Splits a command line into words.
///
/// Trusted: `shlex::split`. The contract only gives its result a name: the
/// words, or `None` for an erroneous line, as a function of the line alone.
#[verifier::external_body]
fn split_words(line: &str) -> (words: Option<Vec<String>>)
    ensures
        words.deep_view() == shlex_split(line@),
{
    shlex::split(line)
}

/// Whether the build tool takes a feature list after this subcommand.
pub open spec fn takes_features(word: Seq<char>) -> bool {
    ||| "b"@.is_prefix_of(word)
    ||| "check"@.is_prefix_of(word)
    ||| "doc"@.is_prefix_of(word)
    ||| "r"@.is_prefix_of(word)
    ||| "test"@.is_prefix_of(word)
    ||| "install"@.is_prefix_of(word)
}

/// The feature list as one word, or `None` when there is none.
pub open spec fn feature_word(features: Seq<Seq<char>>) -> Option<Seq<char>> {
    if features.len() == 0 {
        None
    } else {
        Some(joined(features, ","@))
    }
}

/// The words of a build-tool command with the feature list put in.
pub open spec fn with_features(words: Seq<Seq<char>>, features: Option<Seq<char>>) -> Seq<Seq<char>>
    recommends
        words.len() > 0,
{
    match features {
        Some(list) => if takes_features(words[0]) {
            words.insert(1, "--features"@).insert(2, list)
        } else {
            words
        },
        None => words,
    }
}

/// The step for a build-tool command.
pub open spec fn cargo_step(words: Option<Seq<Seq<char>>>, features: Option<Seq<char>>) -> Result<
    StepModel,
    PlanError,
> {
    match words {
        None => Err(PlanError::InvalidCommand),
        Some(words) => if words.len() == 0 {
            Err(PlanError::EmptyCommand)
        } else {
            Ok(StepModel::Exec { prog: "cargo"@, args: with_features(words, features) })
        },
    }
}

/// The shell that is used where none was selected.
pub open spec fn default_shell_model(platform: PlatformModel) -> ShellModel {
    if platform.windows {
        ShellModel::Powershell
    } else {
        match platform.shell {
            Some(shell) => ShellModel::Unix(shell),
            None => ShellModel::Unix("sh"@),
        }
    }
}

/// The shell that a selector's program name stands for. `none` does not
/// come here.
pub open spec fn selected_shell(prog: Seq<char>, windows: bool) -> ShellModel {
    if same_ignoring_case(prog, "powershell"@) {
        ShellModel::Powershell
    } else if same_ignoring_case(prog, "cmd"@) && windows {
        ShellModel::Cmd
    } else {
        ShellModel::Unix(prog)
    }
}

/// The step for a shell command. `selector_words` are the words of the
/// selector in force, if one is; `command_words` those of the command.
pub open spec fn shell_step(
    command: Seq<char>,
    command_words: Option<Seq<Seq<char>>>,
    selector_words: Option<Option<Seq<Seq<char>>>>,
    platform: PlatformModel,
) -> Result<StepModel, PlanError> {
    match selector_words {
        None => Ok(
            StepModel::Shell {
                shell: default_shell_model(platform),
                args: Seq::empty(),
                command,
            },
        ),
        Some(None) => Err(PlanError::InvalidShell),
        Some(Some(selector)) => if selector.len() == 0 {
            Err(PlanError::EmptyShell)
        } else if same_ignoring_case(selector[0], "none"@) {
            match command_words {
                None => Err(PlanError::InvalidCommand),
                Some(words) => if words.len() == 0 {
                    Err(PlanError::EmptyCommand)
                } else {
                    Ok(StepModel::Exec { prog: words[0], args: words.drop_first() })
                },
            }
        } else {
            Ok(
                StepModel::Shell {
                    shell: selected_shell(selector[0], platform.windows),
                    args: selector.drop_first(),
                    command,
                },
            )
        },
    }
}

/// The step for a shell command under the selector in force.
pub open spec fn shell_step_for(command: Seq<char>, selector: Option<Seq<char>>, platform: PlatformModel) -> Result<
    StepModel,
    PlanError,
> {
    shell_step(
        command,
        shlex_split(command),
        match selector {
            Some(s) => Some(shlex_split(s)),
            None => None,
        },
        platform,
    )
}

/// The planner's inputs as mathematical values.
pub struct PlanInputs {
    pub cargo_commands: Seq<Seq<char>>,
    pub shell_commands: Seq<Seq<char>>,
    pub trailing_command: Seq<Seq<char>>,
    pub features: Seq<Seq<char>>,
    pub shell_selectors: Seq<Seq<char>>,
    pub declaration_order: Seq<OrderToken>,
    pub platform: PlatformModel,
}

/// How far the planner has come in the declaration order.
pub struct Walk {
    /// The steps so far.
    pub steps: Seq<StepModel>,
    /// How many build-tool commands were taken.
    pub cargos: int,
    /// How many shell commands were taken.
    pub shells: int,
    /// How many selectors were taken.
    pub selectors: int,
    /// The selector in force.
    pub selector: Option<Seq<char>>,
}

/// The planner after one more token of the declaration order.
pub open spec fn walk_step(walk: Walk, token: OrderToken, inputs: PlanInputs) -> Result<Walk, PlanError> {
    match token {
        OrderToken::Cargo => if walk.cargos < inputs.cargo_commands.len() {
            match cargo_step(
                shlex_split(inputs.cargo_commands[walk.cargos]),
                feature_word(inputs.features),
            ) {
                Ok(step) => Ok(Walk { steps: walk.steps.push(step), cargos: walk.cargos + 1, ..walk }),
                Err(e) => Err(e),
            }
        } else {
            Err(PlanError::OrderMismatch)
        },
        OrderToken::Shell => if walk.shells < inputs.shell_commands.len() {
            match shell_step_for(inputs.shell_commands[walk.shells], walk.selector, inputs.platform) {
                Ok(step) => Ok(Walk { steps: walk.steps.push(step), shells: walk.shells + 1, ..walk }),
                Err(e) => Err(e),
            }
        } else {
            Err(PlanError::OrderMismatch)
        },
        OrderToken::UseShell => if walk.selectors < inputs.shell_selectors.len() {
            Ok(
                Walk {
                    selector: Some(inputs.shell_selectors[walk.selectors]),
                    selectors: walk.selectors + 1,
                    ..walk
                },
            )
        } else {
            Err(PlanError::OrderMismatch)
        },
    }
}

/// The planner after the tokens `order`, taken in order: each command
/// token takes the next command of its kind, a shell command under the
/// selector taken last before it.
pub open spec fn walked(order: Seq<OrderToken>, inputs: PlanInputs) -> Result<Walk, PlanError>
    decreases order.len(),
{
    if order.len() == 0 {
        Ok(Walk { steps: Seq::empty(), cargos: 0, shells: 0, selectors: 0, selector: None })
    } else {
        match walked(order.drop_last(), inputs) {
            Ok(walk) => walk_step(walk, order.last(), inputs),
            Err(e) => Err(e),
        }
    }
}

/// The plan for the inputs: the trailing command alone where there is one;
/// the build tool's `check` where no command was given; else the commands
/// in the order in which they were declared.
pub open spec fn planned(inputs: PlanInputs) -> Result<Seq<StepModel>, PlanError> {
    if inputs.trailing_command.len() > 0 {
        Ok(
            seq![
                StepModel::Exec {
                    prog: inputs.trailing_command[0],
                    args: inputs.trailing_command.drop_first(),
                },
            ],
        )
    } else if inputs.cargo_commands.len() == 0 && inputs.shell_commands.len() == 0 {
        match cargo_step(shlex_split("check"@), feature_word(inputs.features)) {
            Ok(step) => Ok(seq![step]),
            Err(e) => Err(e),
        }
    } else {
        match walked(inputs.declaration_order, inputs) {
            Ok(walk) => Ok(walk.steps),
            Err(e) => Err(e),
        }
    }
}

/// The mathematical value of a planner's result.
pub open spec fn step_result(result: Result<CommandStep, PlanError>) -> Result<StepModel, PlanError> {
    match result {
        Ok(step) => Ok(step.deep_view()),
        Err(e) => Err(e),
    }
}

/// The mathematical value of an optional text.
pub open spec fn text_option(text: Option<String>) -> Option<Seq<char>> {
    match text {
        Some(t) => Some(t@),
        None => None,
    }
}

/// A copy of the texts.
pub fn copy_texts(texts: &Vec<String>, from: usize) -> (copy: Vec<String>)
    requires
        from <= texts.len(),
    ensures
        copy.deep_view() == texts.deep_view().skip(from as int),
{
    let mut copy: Vec<String> = Vec::new();
    let mut i: usize = from;
    while i < texts.len()
        invariant
            from <= i <= texts.len(),
            copy.len() == i - from,
            forall|k: int| 0 <= k < copy.len() ==> (#[trigger] copy@[k])@ == texts@[from + k]@,
        decreases texts.len() - i,
    {
        copy.push(texts[i].clone());
        i += 1;
    }
    proof {
        assert(copy.deep_view() =~= texts.deep_view().skip(from as int));
    }
    copy
}

/// Decides whether the build tool takes a feature list after `word`.
pub fn word_takes_features(word: &str) -> (yes: bool)
    ensures
        yes == takes_features(word@),
{
    has_prefix(word, "b") || has_prefix(word, "check") || has_prefix(word, "doc") || has_prefix(
        word,
        "r",
    ) || has_prefix(word, "test") || has_prefix(word, "install")
}

/// The feature list as one word for the build tool.
pub fn feature_list(features: &Vec<String>) -> (list: Option<String>)
    ensures
        text_option(list) == feature_word(features.deep_view()),
{
    if features.len() == 0 {
        None
    } else {
        Some(join(features, ","))
    }
}

/// Builds the step for the words of a build-tool command: the words go to
/// `cargo`, with the feature list after a subcommand that takes one.
pub fn cargo_words(words: Option<Vec<String>>, features: &Option<String>) -> (step: Result<
    CommandStep,
    PlanError,
>)
    ensures
        step_result(step) == cargo_step(words.deep_view(), text_option(*features)),
{
    let mut lexed = match words {
        Some(lexed) => lexed,
        None => {
            return Err(PlanError::InvalidCommand);
        },
    };
    if lexed.len() == 0 {
        return Err(PlanError::EmptyCommand);
    }
    let ghost plain = lexed.deep_view();
    match features {
        Some(list) => {
            if word_takes_features(lexed[0].as_str()) {
                lexed.insert(1, String::from_str("--features"));
                proof {
                    assert(lexed.deep_view() =~= plain.insert(1, "--features"@));
                }
                lexed.insert(2, list.clone());
                proof {
                    assert(lexed.deep_view() =~= plain.insert(1, "--features"@).insert(2, list@));
                }
            }
        },
        None => {},
    }
    Ok(CommandStep::Exec { prog: String::from_str("cargo"), args: lexed })
}

/// Builds the step for a build-tool command.
pub fn cargo_command(arg: &str, features: &Option<String>) -> (step: Result<CommandStep, PlanError>)
    ensures
        step_result(step) == cargo_step(shlex_split(arg@), text_option(*features)),
{
    cargo_words(split_words(arg), features)
}

/// The shell that is used where none was selected: PowerShell on Windows,
/// elsewhere the user's shell, or `sh` without one.
pub fn default_shell(platform: &Platform) -> (shell: Shell)
    ensures
        shell.deep_view() == default_shell_model(platform.deep_view()),
{
    if platform.windows {
        Shell::Powershell
    } else {
        match &platform.shell {
            Some(shell) => Shell::Unix(shell.clone()),
            None => Shell::Unix(String::from_str("sh")),
        }
    }
}

/// The shell for the selector `cmd`: the command prompt on Windows,
/// elsewhere the program of that name.
pub fn cmd_shell(prog: String, windows: bool) -> (shell: Shell)
    ensures
        shell.deep_view() == if windows {
            ShellModel::Cmd
        } else {
            ShellModel::Unix(prog@)
        },
{
    if windows {
        Shell::Cmd
    } else {
        Shell::Unix(prog)
    }
}

/// Builds the step for a shell command from the words of the selector in
/// force and, for the selector `none`, the words of the command.
pub fn shell_words(
    arg: &str,
    command_words: Option<Vec<String>>,
    selector_words: Option<Option<Vec<String>>>,
    platform: &Platform,
) -> (step: Result<CommandStep, PlanError>)
    ensures
        step_result(step) == shell_step(
            arg@,
            command_words.deep_view(),
            selector_words.deep_view(),
            platform.deep_view(),
        ),
{
    let mut selector = match selector_words {
        None => {
            let args: Vec<String> = Vec::new();
            proof {
                assert(args.deep_view() =~= Seq::<Seq<char>>::empty());
            }
            return Ok(
                CommandStep::Shell {
                    shell: default_shell(platform),
                    args,
                    command: String::from_str(arg),
                },
            );
        },
        Some(None) => {
            return Err(PlanError::InvalidShell);
        },
        Some(Some(selector)) => selector,
    };
    if selector.len() == 0 {
        return Err(PlanError::EmptyShell);
    }
    let ghost whole = selector.deep_view();
    let prog = selector.remove(0);
    proof {
        assert(selector.deep_view() =~= whole.drop_first());
        assert(prog@ == whole[0]);
    }
    if same_text_ignoring_case(prog.as_str(), "none") {
        let mut words = match command_words {
            Some(words) => words,
            None => {
                return Err(PlanError::InvalidCommand);
            },
        };
        if words.len() == 0 {
            return Err(PlanError::EmptyCommand);
        }
        let ghost all = words.deep_view();
        let first = words.remove(0);
        proof {
            assert(words.deep_view() =~= all.drop_first());
        }
        return Ok(CommandStep::Exec { prog: first, args: words });
    }
    let shell = if same_text_ignoring_case(prog.as_str(), "powershell") {
        Shell::Powershell
    } else if same_text_ignoring_case(prog.as_str(), "cmd") {
        cmd_shell(prog, platform.windows)
    } else {
        Shell::Unix(prog)
    };
    Ok(CommandStep::Shell { shell, args: selector, command: String::from_str(arg) })
}

/// Builds the step for a shell command under the selector in force.
pub fn shell_command(arg: &str, use_shell: Option<&String>, platform: &Platform) -> (step: Result<
    CommandStep,
    PlanError,
>)
    ensures
        step_result(step) == shell_step_for(
            arg@,
            match use_shell {
                Some(s) => Some(s@),
                None => None,
            },
            platform.deep_view(),
        ),
{
    let selector_words = match use_shell {
        Some(selector) => Some(split_words(selector.as_str())),
        None => None,
    };
    let is_none = match &selector_words {
        Some(Some(words)) => words.len() > 0 && same_text_ignoring_case(words[0].as_str(), "none"),
        _ => false,
    };
    let command_words = if is_none {
        split_words(arg)
    } else {
        None
    };
    shell_words(arg, command_words, selector_words, platform)
}

/// The mathematical value of the planner's result.
pub open spec fn plan_result(result: Result<CommandPlan, PlanError>) -> Result<Seq<StepModel>, PlanError> {
    match result {
        Ok(plan) => Ok(plan.deep_view()),
        Err(e) => Err(e),
    }
}

/// A failure at some token of the declaration order is the failure of the
/// whole order.
pub proof fn lemma_walk_fails(order: Seq<OrderToken>, upto: int, inputs: PlanInputs)
    requires
        0 <= upto <= order.len(),
        walked(order.take(upto), inputs) is Err,
    ensures
        walked(order, inputs) == walked(order.take(upto), inputs),
    decreases order.len() - upto,
{
    if upto < order.len() {
        assert(order.take(upto + 1).drop_last() == order.take(upto));
        lemma_walk_fails(order, upto + 1, inputs);
    } else {
        assert(order.take(upto) == order);
    }
}

/// Plans the steps of a job.
///
/// A trailing command, where there is one, is the whole plan: its first
/// word is the program, the others its arguments. Without any command the
/// plan is the build tool's `check`. Otherwise the build-tool and shell
/// commands come in the order in which `declaration_order` names them; a
/// shell selector applies to the shell commands declared after it, until
/// the next selector. The feature list goes right after each build-tool
/// subcommand that takes one.
pub fn plan(
    cargo_commands: &Vec<String>,
    shell_commands: &Vec<String>,
    trailing_command: &Vec<String>,
    features: &Vec<String>,
    shell_selectors: &Vec<String>,
    declaration_order: &Vec<OrderToken>,
    platform: &Platform,
) -> (result: Result<CommandPlan, PlanError>)
    ensures
        plan_result(result) == planned(
            PlanInputs {
                cargo_commands: cargo_commands.deep_view(),
                shell_commands: shell_commands.deep_view(),
                trailing_command: trailing_command.deep_view(),
                features: features.deep_view(),
                shell_selectors: shell_selectors.deep_view(),
                declaration_order: declaration_order@,
                platform: platform.deep_view(),
            },
        ),
{
    let ghost inputs = PlanInputs {
        cargo_commands: cargo_commands.deep_view(),
        shell_commands: shell_commands.deep_view(),
        trailing_command: trailing_command.deep_view(),
        features: features.deep_view(),
        shell_selectors: shell_selectors.deep_view(),
        declaration_order: declaration_order@,
        platform: platform.deep_view(),
    };
    let mut steps: Vec<CommandStep> = Vec::new();
    if trailing_command.len() > 0 {
        let args = copy_texts(trailing_command, 1);
        steps.push(CommandStep::Exec { prog: trailing_command[0].clone(), args });
        proof {
            assert(trailing_command.deep_view().skip(1) =~= trailing_command.deep_view().drop_first());
            assert(steps.deep_view() =~= planned(inputs)->Ok_0);
        }
        return Ok(CommandPlan { steps });
    }
    let feature_list = feature_list(features);
    if cargo_commands.len() == 0 && shell_commands.len() == 0 {
        let step = cargo_command("check", &feature_list)?;
        steps.push(step);
        proof {
            assert(steps.deep_view() =~= seq![step.deep_view()]);
        }
        return Ok(CommandPlan { steps });
    }
    let mut cargos: usize = 0;
    let mut shells: usize = 0;
    let mut selectors: usize = 0;
    let mut selector: Option<String> = None;
    let mut i: usize = 0;
    proof {
        assert(steps.deep_view() =~= Seq::<StepModel>::empty());
    }
    while i < declaration_order.len()
        invariant
            i <= declaration_order.len(),
            cargos <= cargo_commands.len(),
            shells <= shell_commands.len(),
            selectors <= shell_selectors.len(),
            trailing_command.len() == 0,
            cargo_commands.len() > 0 || shell_commands.len() > 0,
            inputs == (PlanInputs {
                cargo_commands: cargo_commands.deep_view(),
                shell_commands: shell_commands.deep_view(),
                trailing_command: trailing_command.deep_view(),
                features: features.deep_view(),
                shell_selectors: shell_selectors.deep_view(),
                declaration_order: declaration_order@,
                platform: platform.deep_view(),
            }),
            text_option(feature_list) == feature_word(features.deep_view()),
            walked(declaration_order@.take(i as int), inputs) == Ok::<Walk, PlanError>(
                Walk {
                    steps: steps.deep_view(),
                    cargos: cargos as int,
                    shells: shells as int,
                    selectors: selectors as int,
                    selector: text_option(selector),
                },
            ),
        decreases declaration_order.len() - i,
    {
        let ghost before = steps.deep_view();
        proof {
            assert(declaration_order@.take(i + 1).drop_last() == declaration_order@.take(i as int));
        }
        let mut failure: Option<PlanError> = None;
        match declaration_order[i] {
            OrderToken::Cargo => {
                if cargos < cargo_commands.len() {
                    match cargo_command(cargo_commands[cargos].as_str(), &feature_list) {
                        Ok(step) => {
                            steps.push(step);
                            cargos += 1;
                            proof {
                                assert(steps.deep_view() =~= before.push(step.deep_view()));
                            }
                        },
                        Err(e) => {
                            failure = Some(e);
                        },
                    }
                } else {
                    failure = Some(PlanError::OrderMismatch);
                }
            },
            OrderToken::Shell => {
                if shells < shell_commands.len() {
                    let in_force = match &selector {
                        Some(s) => Some(s),
                        None => None,
                    };
                    match shell_command(shell_commands[shells].as_str(), in_force, platform) {
                        Ok(step) => {
                            steps.push(step);
                            shells += 1;
                            proof {
                                assert(steps.deep_view() =~= before.push(step.deep_view()));
                            }
                        },
                        Err(e) => {
                            failure = Some(e);
                        },
                    }
                } else {
                    failure = Some(PlanError::OrderMismatch);
                }
            },
            OrderToken::UseShell => {
                if selectors < shell_selectors.len() {
                    selector = Some(shell_selectors[selectors].clone());
                    selectors += 1;
                } else {
                    failure = Some(PlanError::OrderMismatch);
                }
            },
        }
        match failure {
            Some(e) => {
                proof {
                    assert(walked(declaration_order@.take(i + 1), inputs) == Err::<Walk, PlanError>(e));
                    lemma_walk_fails(declaration_order@, i + 1, inputs);
                }
                return Err(e);
            },
            None => {},
        }
        i += 1;
    }
    proof {
        assert(declaration_order@.take(i as int) == declaration_order@);
    }
    Ok(CommandPlan { steps })
}

/// The plan is a function of the inputs: two results for the same inputs
/// hold the same steps in the same order, or are the same failure.
pub proof fn lemma_plan_is_deterministic(
    inputs: PlanInputs,
    first: Result<CommandPlan, PlanError>,
    second: Result<CommandPlan, PlanError>,
)
    requires
        plan_result(first) == planned(inputs),
        plan_result(second) == planned(inputs),
    ensures
        plan_result(first) == plan_result(second),
        first is Ok ==> second is Ok && first->Ok_0.deep_view() == second->Ok_0.deep_view(),
        first is Err ==> second == first,
{
}

} // verus!
