//! From the parsed command line to the watcher's configuration.

use vstd::prelude::*;
use vstd::string::StringExecFns;
use crate::decide::BusyPolicy;
use crate::plan::{
    cmd_shell, OrderToken, default_shell, default_shell_model, selected_shell, takes_features,
    word_takes_features, Platform, PlatformModel, Shell, ShellModel,
};
use crate::text::{
    chars_of, find_where, first_where, join, joined,
    same_ignoring_case, same_text, same_text_ignoring_case, string_of_range, trimmed_start,
};

verus! {

/// The parsed command line.
#[derive(Clone, Debug, PartialEq, Eq)]
pub struct Args {
    /// Build-tool commands, as given.
    pub cmd_cargo: Vec<String>,
    /// Shell commands, as given.
    pub cmd_shell: Vec<String>,
    /// The words of the trailing command.
    pub cmd_trail: Vec<String>,
    /// The order in which the command options were declared.
    pub order: Vec<OrderToken>,
    /// The feature list for the build tool.
    pub features: Option<String>,
    /// Ignore nothing, not even the built-in patterns.
    pub ignore_nothing: bool,
    /// Do not use the ignore files of version control.
    pub no_gitignore: bool,
    /// Do not use the other ignore files.
    pub no_ignore: bool,
    /// Patterns to ignore, as given.
    pub ignores: Vec<String>,
    /// The debounce delay in milliseconds, if one was given.
    pub delay: Option<u64>,
    /// Paths to watch, as given.
    pub watch: Vec<String>,
    /// Do not look for local dependencies to watch.
    pub skip_local_deps: bool,
    /// Poll for changes.
    pub poll: bool,
    /// Clear the screen before each run.
    pub clear: bool,
    /// Postpone the first run until a file changes.
    pub postpone: bool,
    /// Do not restart the command while it runs.
    pub no_restart: bool,
    /// Ignore events while the command runs.
    pub watch_when_idle: bool,
    /// The shell selector, if one was given.
    pub use_shell: Option<String>,
    /// Run once, then exit.
    pub once: bool,
}

/// The watcher's configuration.
#[derive(Clone, Debug, PartialEq, Eq)]
pub struct Config {
    /// The command lines to run.
    pub cmd: Vec<String>,
    /// The paths to watch.
    pub paths: Vec<String>,
    /// The patterns to ignore.
    pub ignores: Vec<String>,
    /// Ignore nothing at all.
    pub ignore_nothing: bool,
    /// Bypass the ignore files of version control.
    pub no_vcs_ignore: bool,
    /// Bypass the other ignore files.
    pub no_ignore: bool,
    /// Poll for changes.
    pub poll: bool,
    /// The polling interval in milliseconds.
    pub poll_interval: u64,
    /// The debounce interval in milliseconds.
    pub debounce: u64,
    /// Clear the screen before each run.
    pub clear_screen: bool,
    /// Run the command at startup.
    pub run_initially: bool,
    /// Do not tell the command which paths changed.
    pub no_environment: bool,
    /// What to do with a trigger while the command runs.
    pub on_busy_update: BusyPolicy,
    /// The shell that interprets the command lines.
    pub shell: Shell,
    /// Run once, then exit.
    pub once: bool,
}

/// The debounce interval where none is given, in milliseconds.
pub const DEFAULT_DEBOUNCE: u64 = 150;

/// The polling interval where none is given, in milliseconds.
pub const DEFAULT_POLL_INTERVAL: u64 = 1000;

/// The built-in patterns: files of the desktop and of editors, the
/// directories of version control, database files, and the build output.
pub open spec fn default_ignore_patterns() -> Seq<Seq<char>> {
    seq![
        "**/.DS_Store"@,
        "*.sw?"@,
        "*.sw?x"@,
        "\\#*\\#"@,
        ".#*"@,
        ".*.kate-swp"@,
        "**/.hg/**"@,
        "**/.git/**"@,
        "**/.svn/**"@,
        "*.db"@,
        "*.db-*"@,
        "**/*.db-journal/**"@,
        "**/target/**"@,
    ]
}

/// The command line for a build-tool command: `cargo`, then the command
/// without its leading white space, with the feature list after its first
/// word where the subcommand takes one. The rest of the command follows
/// the list as it stands, with the white space that led it.
pub open spec fn cargo_line(command: Seq<char>, features: Option<Seq<char>>) -> Seq<char> {
    let cargo = trimmed_start(command);
    let boundary = first_where(cargo, 0, true);
    "cargo "@ + match features {
        Some(list) => if takes_features(cargo) {
            cargo.take(boundary) + " --features "@ + list + cargo.skip(boundary)
        } else {
            cargo
        },
        None => cargo,
    }
}

/// The command lines for the build-tool commands, in order.
pub open spec fn cargo_lines(commands: Seq<Seq<char>>, features: Option<Seq<char>>) -> Seq<Seq<char>> {
    Seq::new(commands.len(), |i: int| cargo_line(commands[i], features))
}

/// The command line that runs where none was given.
pub open spec fn default_line(features: Option<Seq<char>>) -> Seq<char> {
    match features {
        Some(list) => "cargo check"@ + " --features "@ + list,
        None => "cargo check"@,
    }
}

/// How far the command lines have come in the declaration order.
pub struct LineWalk {
    /// The lines so far.
    pub lines: Seq<Seq<char>>,
    /// How many build-tool commands were taken.
    pub cargos: int,
    /// How many shell commands were taken.
    pub shells: int,
}

/// The lines after one more token of the declaration order: a command
/// token takes the next command of its kind, if one is left; any other
/// token takes nothing.
pub open spec fn line_step(
    walk: LineWalk,
    token: OrderToken,
    cargo: Seq<Seq<char>>,
    shell: Seq<Seq<char>>,
    features: Option<Seq<char>>,
) -> LineWalk {
    match token {
        OrderToken::Cargo => if walk.cargos < cargo.len() {
            LineWalk {
                lines: walk.lines.push(cargo_line(cargo[walk.cargos], features)),
                cargos: walk.cargos + 1,
                ..walk
            }
        } else {
            walk
        },
        OrderToken::Shell => if walk.shells < shell.len() {
            LineWalk { lines: walk.lines.push(shell[walk.shells]), shells: walk.shells + 1, ..walk }
        } else {
            walk
        },
        OrderToken::UseShell => walk,
    }
}

/// The lines after the tokens `order`, taken in order.
pub open spec fn line_walk(
    order: Seq<OrderToken>,
    cargo: Seq<Seq<char>>,
    shell: Seq<Seq<char>>,
    features: Option<Seq<char>>,
) -> LineWalk
    decreases order.len(),
{
    if order.len() == 0 {
        LineWalk { lines: Seq::empty(), cargos: 0, shells: 0 }
    } else {
        line_step(
            line_walk(order.drop_last(), cargo, shell, features),
            order.last(),
            cargo,
            shell,
            features,
        )
    }
}

/// The lines for the commands in the order in which they were declared.
/// Commands that the order does not name come after those that it names,
/// build-tool commands first.
pub open spec fn ordered_lines(
    cargo: Seq<Seq<char>>,
    shell: Seq<Seq<char>>,
    order: Seq<OrderToken>,
    features: Option<Seq<char>>,
) -> Seq<Seq<char>> {
    let walk = line_walk(order, cargo, shell, features);
    walk.lines + cargo_lines(cargo.skip(walk.cargos), features) + shell.skip(walk.shells)
}

/// The command lines of the configuration. `escaped` are the words of the
/// trailing command after escaping for the shell: where there are any,
/// their line, joined by blanks, is the only one. Where no command was
/// given, the build tool's check runs. Else the commands run in the order
/// in which they were declared.
pub open spec fn command_lines(
    cargo: Seq<Seq<char>>,
    shell: Seq<Seq<char>>,
    order: Seq<OrderToken>,
    escaped: Seq<Seq<char>>,
    features: Option<Seq<char>>,
) -> Seq<Seq<char>> {
    if escaped.len() > 0 {
        seq![joined(escaped, " "@)]
    } else if cargo.len() == 0 && shell.len() == 0 {
        seq![default_line(features)]
    } else {
        ordered_lines(cargo, shell, order, features)
    }
}

/// The word as `shell_escape::unix::escape` escapes it.
pub uninterp spec fn escaped_unix(word: Seq<char>) -> Seq<char>;

/// The word as `shell_escape::windows::escape` escapes it.
pub uninterp spec fn escaped_windows(word: Seq<char>) -> Seq<char>;

/// Whether `escaped` holds each of the words after escaping for a shell.
pub open spec fn escapes(words: Seq<Seq<char>>, escaped: Seq<Seq<char>>) -> bool {
    &&& escaped.len() == words.len()
    &&& forall|i: int|
        0 <= i < words.len() ==> (#[trigger] escaped[i]) == escaped_unix(words[i]) || escaped[i]
            == escaped_windows(words[i])
}

/// The mathematical value of an optional text.
pub open spec fn text_of(text: Option<String>) -> Option<Seq<char>> {
    match text {
        Some(t) => Some(t@),
        None => None,
    }
}

/// Escapes a word for the shell.
///
/// Trusted: `shell_escape::escape`. By the platform and the environment it
/// hands the word to `shell_escape::unix::escape` or to
/// `shell_escape::windows::escape`, each a function of the word alone: the
/// result is what one of the two returns.
#[verifier::external_body]
fn escape_word(word: &str) -> (out: String)
    ensures
        out@ == escaped_unix(word@) || out@ == escaped_windows(word@),
{
    shell_escape::escape(std::borrow::Cow::Borrowed(word)).into_owned()
}

/// The built-in patterns.
pub fn default_ignores() -> (list: Vec<String>)
    ensures
        list.deep_view() == default_ignore_patterns(),
{
    let mut list: Vec<String> = Vec::new();
    list.push(String::from_str("**/.DS_Store"));
    list.push(String::from_str("*.sw?"));
    list.push(String::from_str("*.sw?x"));
    list.push(String::from_str("\\#*\\#"));
    list.push(String::from_str(".#*"));
    list.push(String::from_str(".*.kate-swp"));
    list.push(String::from_str("**/.hg/**"));
    list.push(String::from_str("**/.git/**"));
    list.push(String::from_str("**/.svn/**"));
    list.push(String::from_str("*.db"));
    list.push(String::from_str("*.db-*"));
    list.push(String::from_str("**/*.db-journal/**"));
    list.push(String::from_str("**/target/**"));
    proof {
        assert(list.deep_view() =~= default_ignore_patterns());
    }
    list
}

/// Builds the command line for a build-tool command.
pub fn cargo_command_line(command: &str, features: &Option<String>) -> (line: String)
    ensures
        line@ == cargo_line(command@, text_of(*features)),
{
    let all = chars_of(command);
    let start = find_where(&all, 0, false);
    let trimmed = string_of_range(&all, start, all.len());
    proof {
        assert(all@.subrange(start as int, all.len() as int) == trimmed_start(command@));
    }
    let mut line = String::from_str("cargo ");
    match features {
        Some(list) => {
            if word_takes_features(trimmed.as_str()) {
                let cargo = chars_of(trimmed.as_str());
                let boundary = find_where(&cargo, 0, true);
                let subcommand = string_of_range(&cargo, 0, boundary);
                let rest = string_of_range(&cargo, boundary, cargo.len());
                proof {
                    assert(cargo@.subrange(0, boundary as int) == cargo@.take(boundary as int));
                    assert(cargo@.subrange(boundary as int, cargo.len() as int) == cargo@.skip(
                        boundary as int,
                    ));
                }
                line.append(subcommand.as_str());
                line.append(" --features ");
                line.append(list.as_str());
                line.append(rest.as_str());
                proof {
                    let c = cargo@;
                    let b = boundary as int;
                    assert(line@ == "cargo "@ + (c.take(b) + " --features "@ + list@ + c.skip(b)));
                }
                return line;
            }
        },
        None => {},
    }
    line.append(trimmed.as_str());
    line
}

/// Escapes each word for the shell.
pub fn escape_words(words: &Vec<String>) -> (escaped: Vec<String>)
    ensures
        escapes(words.deep_view(), escaped.deep_view()),
{
    let mut escaped: Vec<String> = Vec::new();
    let mut i: usize = 0;
    while i < words.len()
        invariant
            i <= words.len(),
            escaped.len() == i,
            forall|k: int|
                0 <= k < i ==> (#[trigger] escaped@[k])@ == escaped_unix(words@[k]@) || escaped@[k]@
                    == escaped_windows(words@[k]@),
        decreases words.len() - i,
    {
        escaped.push(escape_word(words[i].as_str()));
        i += 1;
    }
    proof {
        assert forall|k: int| 0 <= k < words.len() implies (#[trigger] escaped.deep_view()[k])
            == escaped_unix(words.deep_view()[k]) || escaped.deep_view()[k] == escaped_windows(
            words.deep_view()[k],
        ) by {
            assert(escaped.deep_view()[k] == escaped@[k]@);
            assert(words.deep_view()[k] == words@[k]@);
        }
    }
    escaped
}

/// Builds the command lines. `escaped` holds the words of the trailing
/// command after escaping. Where there are any, their line, joined by
/// blanks, is the only one. Where no command was given, the build tool's
/// check runs. Else the commands run in the order in which `order` names
/// them; those that it does not name come last, build-tool commands first.
pub fn build_commands(
    cmd_cargo: &Vec<String>,
    cmd_shell: &Vec<String>,
    order: &Vec<OrderToken>,
    escaped: &Vec<String>,
    features: &Option<String>,
) -> (commands: Vec<String>)
    ensures
        commands.deep_view() == command_lines(
            cmd_cargo.deep_view(),
            cmd_shell.deep_view(),
            order@,
            escaped.deep_view(),
            text_of(*features),
        ),
{
    let mut commands: Vec<String> = Vec::new();
    if escaped.len() > 0 {
        commands.push(join(escaped, " "));
        proof {
            assert(commands.deep_view() =~= seq![joined(escaped.deep_view(), " "@)]);
        }
        return commands;
    }
    if cmd_cargo.len() == 0 && cmd_shell.len() == 0 {
        let mut line = String::from_str("cargo check");
        match features {
            Some(list) => {
                line.append(" --features ");
                line.append(list.as_str());
            },
            None => {},
        }
        commands.push(line);
        proof {
            assert(commands.deep_view() =~= seq![default_line(text_of(*features))]);
        }
        return commands;
    }
    let ghost cargo = cmd_cargo.deep_view();
    let ghost shell = cmd_shell.deep_view();
    let ghost list = text_of(*features);
    let mut cargos: usize = 0;
    let mut shells: usize = 0;
    let mut i: usize = 0;
    proof {
        assert(commands.deep_view() =~= Seq::<Seq<char>>::empty());
    }
    while i < order.len()
        invariant
            i <= order.len(),
            cargos <= cmd_cargo.len(),
            shells <= cmd_shell.len(),
            cargo == cmd_cargo.deep_view(),
            shell == cmd_shell.deep_view(),
            list == text_of(*features),
            line_walk(order@.take(i as int), cargo, shell, list) == (LineWalk {
                lines: commands.deep_view(),
                cargos: cargos as int,
                shells: shells as int,
            }),
        decreases order.len() - i,
    {
        let ghost before = commands.deep_view();
        proof {
            assert(order@.take(i + 1).drop_last() == order@.take(i as int));
        }
        match order[i] {
            OrderToken::Cargo => {
                if cargos < cmd_cargo.len() {
                    commands.push(cargo_command_line(cmd_cargo[cargos].as_str(), features));
                    proof {
                        assert(cargo[cargos as int] == cmd_cargo@[cargos as int]@);
                        assert(commands.deep_view() =~= before.push(
                            cargo_line(cargo[cargos as int], list),
                        ));
                    }
                    cargos += 1;
                }
            },
            OrderToken::Shell => {
                if shells < cmd_shell.len() {
                    commands.push(cmd_shell[shells].clone());
                    proof {
                        assert(shell[shells as int] == cmd_shell@[shells as int]@);
                        assert(commands.deep_view() =~= before.push(shell[shells as int]));
                    }
                    shells += 1;
                }
            },
            OrderToken::UseShell => {},
        }
        i += 1;
    }
    proof {
        assert(order@.take(order.len() as int) == order@);
    }
    let ghost named = commands.deep_view();
    let ghost rest_cargo = cargo_lines(cargo.skip(cargos as int), list);
    let first_cargo = cargos;
    proof {
        assert(named + rest_cargo.take(0) =~= named);
    }
    while cargos < cmd_cargo.len()
        invariant
            first_cargo <= cargos <= cmd_cargo.len(),
            cargo == cmd_cargo.deep_view(),
            list == text_of(*features),
            rest_cargo == cargo_lines(cargo.skip(first_cargo as int), list),
            commands.deep_view() == named + rest_cargo.take(cargos - first_cargo),
        decreases cmd_cargo.len() - cargos,
    {
        let ghost before = commands.deep_view();
        commands.push(cargo_command_line(cmd_cargo[cargos].as_str(), features));
        proof {
            let k = cargos - first_cargo;
            assert(cargo.skip(first_cargo as int)[k] == cmd_cargo@[cargos as int]@);
            assert(rest_cargo[k] == cargo_line(cmd_cargo@[cargos as int]@, list));
            assert(commands.deep_view() =~= before.push(rest_cargo[k]));
            assert(named + rest_cargo.take(k + 1) =~= (named + rest_cargo.take(k)).push(
                rest_cargo[k],
            ));
        }
        cargos += 1;
    }
    let ghost with_cargo = commands.deep_view();
    let ghost rest_shell = shell.skip(shells as int);
    let first_shell = shells;
    proof {
        assert(rest_cargo.take(cargos - first_cargo) =~= rest_cargo);
        assert(with_cargo + rest_shell.take(0) =~= with_cargo);
    }
    while shells < cmd_shell.len()
        invariant
            first_shell <= shells <= cmd_shell.len(),
            shell == cmd_shell.deep_view(),
            rest_shell == shell.skip(first_shell as int),
            commands.deep_view() == with_cargo + rest_shell.take(shells - first_shell),
        decreases cmd_shell.len() - shells,
    {
        let ghost before = commands.deep_view();
        commands.push(cmd_shell[shells].clone());
        proof {
            let k = shells - first_shell;
            assert(rest_shell[k] == cmd_shell@[shells as int]@);
            assert(commands.deep_view() =~= before.push(rest_shell[k]));
            assert(with_cargo + rest_shell.take(k + 1) =~= (with_cargo + rest_shell.take(k)).push(
                rest_shell[k],
            ));
        }
        shells += 1;
    }
    proof {
        assert(rest_shell.take(shells - first_shell) =~= rest_shell);
    }
    commands
}

/// Whether `after` is `before` with the command lines of `args`, for some
/// escaping of the trailing command's words.
pub open spec fn commands_set(before: Config, args: Args, after: Config) -> bool {
    &&& after == Config { cmd: after.cmd, ..before }
    &&& exists|escaped: Seq<Seq<char>>|
        escapes(args.cmd_trail.deep_view(), escaped) && #[trigger] command_lines(
            args.cmd_cargo.deep_view(),
            args.cmd_shell.deep_view(),
            args.order@,
            escaped,
            text_of(args.features),
        ) == after.cmd.deep_view()
}

/// Sets the command lines of the configuration: the escaped trailing
/// command alone where there is one, else the commands in the order in
/// which they were declared, else the build tool's check.
pub fn set_commands(config: &mut Config, args: &Args)
    ensures
        commands_set(*old(config), *args, *final(config)),
{
    let escaped = escape_words(&args.cmd_trail);
    config.cmd = build_commands(
        &args.cmd_cargo,
        &args.cmd_shell,
        &args.order,
        &escaped,
        &args.features,
    );
    proof {
        assert(command_lines(
            args.cmd_cargo.deep_view(),
            args.cmd_shell.deep_view(),
            args.order@,
            escaped.deep_view(),
            text_of(args.features),
        ) == config.cmd.deep_view());
    }
}

/// Sets what the configuration ignores: nothing at all where that is asked
/// for; else the built-in patterns, then the patterns given, and the ignore
/// files unless they are bypassed.
pub fn set_ignores(config: &mut Config, args: &Args)
    ensures
        args.ignore_nothing ==> *final(config) == (Config {
            ignore_nothing: true,
            no_vcs_ignore: true,
            no_ignore: true,
            ..*old(config)
        }),
        !args.ignore_nothing ==> *final(config) == (Config {
            ignore_nothing: false,
            no_vcs_ignore: args.no_gitignore,
            no_ignore: args.no_ignore,
            ignores: final(config).ignores,
            ..*old(config)
        }),
        !args.ignore_nothing ==> final(config).ignores.deep_view() == default_ignore_patterns()
            + args.ignores.deep_view(),
{
    if args.ignore_nothing {
        config.ignore_nothing = true;
        config.no_vcs_ignore = true;
        config.no_ignore = true;
        return ;
    }
    config.ignore_nothing = false;
    config.no_vcs_ignore = args.no_gitignore;
    config.no_ignore = args.no_ignore;
    let mut list = default_ignores();
    let ghost defaults = list.deep_view();
    let mut i: usize = 0;
    while i < args.ignores.len()
        invariant
            i <= args.ignores.len(),
            defaults == default_ignore_patterns(),
            list.len() == defaults.len() + i,
            forall|k: int| 0 <= k < defaults.len() ==> (#[trigger] list@[k])@ == defaults[k],
            forall|k: int|
                0 <= k < i ==> (#[trigger] list@[defaults.len() + k])@ == args.ignores@[k]@,
        decreases args.ignores.len() - i,
    {
        list.push(args.ignores[i].clone());
        i += 1;
    }
    proof {
        let want = default_ignore_patterns() + args.ignores.deep_view();
        assert(list.deep_view().len() == want.len());
        assert forall|k: int| 0 <= k < want.len() implies list.deep_view()[k] == want[k] by {
            if k < defaults.len() {
                assert(list@[k]@ == defaults[k]);
            } else {
                assert(list@[defaults.len() + (k - defaults.len())]@ == args.ignores@[k
                    - defaults.len()]@);
            }
        }
        assert(list.deep_view() =~= want);
    }
    config.ignores = list;
}

/// Sets the debounce and polling intervals to the delay, where one is
/// given.
pub fn set_debounce(config: &mut Config, args: &Args)
    ensures
        *final(config) == match args.delay {
            Some(millis) => Config { poll_interval: millis, debounce: millis, ..*old(config) },
            None => *old(config),
        },
{
    match args.delay {
        Some(millis) => {
            config.poll_interval = millis;
            config.debounce = millis;
        },
        None => {},
    }
}

/// Whether the caller looks for local dependencies before `set_watches`.
pub fn needs_local_deps(args: &Args) -> (yes: bool)
    ensures
        yes == (args.watch.len() == 0 && !args.skip_local_deps),
{
    args.watch.len() == 0 && !args.skip_local_deps
}

/// The paths to watch: those given; else the directories of the local
/// dependencies, where they are wanted and any were found; else the current
/// directory.
pub open spec fn watch_paths(args: Args, local_deps: Seq<Seq<char>>) -> Seq<Seq<char>> {
    if args.watch.len() > 0 {
        args.watch.deep_view()
    } else if !args.skip_local_deps && local_deps.len() > 0 {
        local_deps
    } else {
        seq!["."@]
    }
}

/// Sets the paths to watch. `local_deps` are the directories of the local
/// dependencies that the caller found, none where it did not look or
/// failed.
pub fn set_watches(config: &mut Config, args: &Args, local_deps: &Vec<String>)
    ensures
        *final(config) == (Config { paths: final(config).paths, ..*old(config) }),
        final(config).paths.deep_view() == watch_paths(*args, local_deps.deep_view()),
{
    let source = if args.watch.len() > 0 {
        &args.watch
    } else if !args.skip_local_deps && local_deps.len() > 0 {
        local_deps
    } else {
        let mut here: Vec<String> = Vec::new();
        here.push(String::from_str("."));
        proof {
            assert(here.deep_view() =~= seq!["."@]);
        }
        config.paths = here;
        return ;
    };
    let mut paths: Vec<String> = Vec::new();
    let mut i: usize = 0;
    while i < source.len()
        invariant
            i <= source.len(),
            paths.len() == i,
            forall|k: int| 0 <= k < i ==> (#[trigger] paths@[k])@ == source@[k]@,
        decreases source.len() - i,
    {
        paths.push(source[i].clone());
        i += 1;
    }
    proof {
        assert(paths.deep_view() =~= source.deep_view());
    }
    config.paths = paths;
}

/// The policy for a trigger while the command runs.
pub open spec fn busy_policy(no_restart: bool, watch_when_idle: bool) -> BusyPolicy {
    if no_restart {
        BusyPolicy::Queue
    } else if watch_when_idle {
        BusyPolicy::DoNothing
    } else {
        BusyPolicy::Restart
    }
}

/// The shell for a selector: the platform's default without one, and for
/// `none`, which makes no sense for command lines.
pub open spec fn shell_for(selector: Option<Seq<char>>, platform: PlatformModel) -> ShellModel {
    match selector {
        Some(s) => if !same_ignoring_case(s, "powershell"@) && same_ignoring_case(s, "none"@) {
            default_shell_model(platform)
        } else {
            selected_shell(s, platform.windows)
        },
        None => default_shell_model(platform),
    }
}

/// Picks the shell for a selector.
pub fn pick_shell(selector: &Option<String>, platform: &Platform) -> (shell: Shell)
    ensures
        shell.deep_view() == shell_for(text_of(*selector), platform.deep_view()),
{
    match selector {
        Some(s) => {
            if same_text_ignoring_case(s.as_str(), "powershell") {
                Shell::Powershell
            } else if same_text_ignoring_case(s.as_str(), "none") {
                default_shell(platform)
            } else if same_text_ignoring_case(s.as_str(), "cmd") {
                cmd_shell(s.clone(), platform.windows)
            } else {
                Shell::Unix(s.clone())
            }
        },
        None => default_shell(platform),
    }
}

/// A configuration before any option is applied: nothing to run or watch,
/// the default intervals, and a restart on each trigger.
pub fn default_config(platform: &Platform) -> (config: Config)
    ensures
        config.cmd@.len() == 0,
        config.paths@.len() == 0,
        config.ignores@.len() == 0,
        !config.ignore_nothing && !config.no_vcs_ignore && !config.no_ignore && !config.poll,
        config.poll_interval == DEFAULT_POLL_INTERVAL,
        config.debounce == DEFAULT_DEBOUNCE,
        !config.clear_screen && config.run_initially && !config.no_environment && !config.once,
        config.on_busy_update == BusyPolicy::Restart,
        config.shell.deep_view() == default_shell_model(platform.deep_view()),
{
    Config {
        cmd: Vec::new(),
        paths: Vec::new(),
        ignores: Vec::new(),
        ignore_nothing: false,
        no_vcs_ignore: false,
        no_ignore: false,
        poll: false,
        poll_interval: DEFAULT_POLL_INTERVAL,
        debounce: DEFAULT_DEBOUNCE,
        clear_screen: false,
        run_initially: true,
        no_environment: false,
        on_busy_update: BusyPolicy::Restart,
        shell: default_shell(platform),
        once: false,
    }
}

/// Whether `config` is the configuration for `args`.
pub open spec fn options_for(args: Args, platform: PlatformModel, local_deps: Seq<Seq<char>>, config: Config) -> bool {
    &&& config.poll == args.poll
    &&& config.clear_screen == args.clear
    &&& config.run_initially == !args.postpone
    &&& config.no_environment
    &&& config.once == args.once
    &&& config.on_busy_update == busy_policy(args.no_restart, args.watch_when_idle)
    &&& config.shell.deep_view() == shell_for(text_of(args.use_shell), platform)
    &&& config.ignore_nothing == args.ignore_nothing
    &&& config.no_vcs_ignore == (args.ignore_nothing || args.no_gitignore)
    &&& config.no_ignore == (args.ignore_nothing || args.no_ignore)
    &&& config.ignores.deep_view() == if args.ignore_nothing {
        Seq::<Seq<char>>::empty()
    } else {
        default_ignore_patterns() + args.ignores.deep_view()
    }
    &&& config.debounce == match args.delay {
        Some(millis) => millis,
        None => DEFAULT_DEBOUNCE,
    }
    &&& config.poll_interval == match args.delay {
        Some(millis) => millis,
        None => DEFAULT_POLL_INTERVAL,
    }
    &&& config.paths.deep_view() == watch_paths(args, local_deps)
    &&& exists|escaped: Seq<Seq<char>>|
        escapes(args.cmd_trail.deep_view(), escaped) && #[trigger] command_lines(
            args.cmd_cargo.deep_view(),
            args.cmd_shell.deep_view(),
            args.order@,
            escaped,
            text_of(args.features),
        ) == config.cmd.deep_view()
}

/// Makes the configuration for the parsed command line.
pub fn get_options(args: &Args, platform: &Platform, local_deps: &Vec<String>) -> (config: Config)
    ensures
        options_for(*args, platform.deep_view(), local_deps.deep_view(), config),
{
    let mut config = default_config(platform);
    config.poll = args.poll;
    config.clear_screen = args.clear;
    config.run_initially = !args.postpone;
    config.no_environment = true;
    config.on_busy_update = if args.no_restart {
        BusyPolicy::Queue
    } else if args.watch_when_idle {
        BusyPolicy::DoNothing
    } else {
        BusyPolicy::Restart
    };
    config.shell = pick_shell(&args.use_shell, platform);
    proof {
        assert(config.ignores.deep_view() =~= Seq::<Seq<char>>::empty());
    }
    set_ignores(&mut config, args);
    set_debounce(&mut config, args);
    set_watches(&mut config, args, local_deps);
    set_commands(&mut config, args);
    config.once = args.once;
    config
}

/// The families of operating systems that the watcher tells apart.
#[derive(Clone, Copy, Debug, PartialEq, Eq, Structural)]
pub enum OsFamily {
    Unix,
    Windows,
    Other,
}

/// The token for a word of the command line, if the word is a command
/// option.
pub open spec fn order_token(word: Seq<char>) -> Option<OrderToken> {
    if word == "-x"@ || word == "--exec"@ {
        Some(OrderToken::Cargo)
    } else if word == "-s"@ || word == "--shell"@ {
        Some(OrderToken::Shell)
    } else if word == "--use-shell"@ {
        Some(OrderToken::UseShell)
    } else {
        None
    }
}

/// The tokens for the command options among the words, in order.
pub open spec fn order_tokens(words: Seq<Seq<char>>) -> Seq<OrderToken>
    decreases words.len(),
{
    if words.len() == 0 {
        Seq::empty()
    } else {
        let before = order_tokens(words.drop_last());
        match order_token(words.last()) {
            Some(token) => before.push(token),
            None => before,
        }
    }
}

/// The words without the subcommand's own name `watch` in the second
/// place, which is there when the build tool calls the watcher.
pub open spec fn without_subcommand(words: Seq<Seq<char>>) -> Seq<Seq<char>> {
    if words.len() > 1 && words[1] == "watch"@ {
        words.remove(1)
    } else {
        words
    }
}

/// What the command is after its line: the report of its exit status.
pub open spec fn finish_suffix(family: OsFamily) -> Seq<char> {
    match family {
        OsFamily::Unix => "; echo \"[Finished running. Exit status: $?]\""@,
        OsFamily::Windows => " & echo \"[Finished running. Exit status: %ERRORLEVEL%]\""@,
        OsFamily::Other => " ; echo \"[Finished running]\""@,
    }
}

/// The name of the variable that tells the command which paths changed
/// in the way `kind`.
pub open spec fn env_name_of(kind: Seq<char>) -> Seq<char> {
    "CARGO_WATCH_"@ + kind + "_PATH"@
}

/// The token for a word of the command line, if the word is a command
/// option.
pub fn token_of(word: &str) -> (token: Option<OrderToken>)
    ensures
        token == order_token(word@),
{
    if same_text(word, "-x") || same_text(word, "--exec") {
        Some(OrderToken::Cargo)
    } else if same_text(word, "-s") || same_text(word, "--shell") {
        Some(OrderToken::Shell)
    } else if same_text(word, "--use-shell") {
        Some(OrderToken::UseShell)
    } else {
        None
    }
}

/// The order in which the command options occur on the command line.
pub fn command_order(words: &Vec<String>) -> (order: Vec<OrderToken>)
    ensures
        order@ == order_tokens(words.deep_view()),
{
    let mut order: Vec<OrderToken> = Vec::new();
    let mut i: usize = 0;
    while i < words.len()
        invariant
            i <= words.len(),
            order@ == order_tokens(words.deep_view().take(i as int)),
        decreases words.len() - i,
    {
        proof {
            let all = words.deep_view();
            assert(all.take(i + 1).drop_last() == all.take(i as int));
            assert(all.take(i + 1).last() == words@[i as int]@);
        }
        match token_of(words[i].as_str()) {
            Some(token) => {
                order.push(token);
            },
            None => {},
        }
        i += 1;
    }
    proof {
        assert(words.deep_view().take(words.len() as int) == words.deep_view());
    }
    order
}

/// Takes the subcommand's own name out of the words of the command line.
pub fn strip_subcommand(words: &mut Vec<String>)
    ensures
        final(words).deep_view() == without_subcommand(old(words).deep_view()),
{
    if words.len() > 1 && same_text(words[1].as_str(), "watch") {
        let _ = words.remove(1);
        proof {
            assert(words.deep_view() =~= old(words).deep_view().remove(1));
        }
    }
}

/// Makes the one command line that the handler runs, and returns the text
/// that is shown for it. For a trailing command both are its line. Else
/// the lines are joined so that each runs only after the one before it
/// succeeded; that is shown, and unless quiet the line that runs goes on
/// to report the exit status.
pub fn handler_command(config: &mut Config, quiet: bool, trailing: bool, family: OsFamily) -> (shown: String)
    ensures
        trailing && old(config).cmd.len() > 0 ==> *final(config) == *old(config) && shown@ == old(
            config,
        ).cmd@[0]@,
        !(trailing && old(config).cmd.len() > 0) ==> {
            &&& shown@ == joined(old(config).cmd.deep_view(), " && "@)
            &&& *final(config) == (Config { cmd: final(config).cmd, ..*old(config) })
            &&& final(config).cmd.deep_view() == seq![
                if quiet {
                    shown@
                } else {
                    shown@ + finish_suffix(family)
                },
            ]
        },
{
    if trailing && config.cmd.len() > 0 {
        return config.cmd[0].clone();
    }
    let shown = join(&config.cmd, " && ");
    let mut line = shown.clone();
    if !quiet {
        match family {
            OsFamily::Unix => line.append("; echo \"[Finished running. Exit status: $?]\""),
            OsFamily::Windows => line.append(
                " & echo \"[Finished running. Exit status: %ERRORLEVEL%]\"",
            ),
            OsFamily::Other => line.append(" ; echo \"[Finished running]\""),
        }
    }
    let mut cmd: Vec<String> = Vec::new();
    cmd.push(line);
    proof {
        assert(cmd.deep_view() =~= seq![line@]);
    }
    config.cmd = cmd;
    shown
}

/// The name of the variable that tells the command which paths changed
/// in the way `kind`, or `None` where the command is told nothing.
pub fn env_name(kind: &str, no_environment: bool) -> (name: Option<String>)
    ensures
        text_of(name) == if no_environment {
            None
        } else {
            Some(env_name_of(kind@))
        },
{
    if no_environment {
        return None;
    }
    let mut name = String::from_str("CARGO_WATCH_");
    name.append(kind);
    name.append("_PATH");
    Some(name)
}

} // verus!
