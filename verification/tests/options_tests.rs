use cargo_watch::cargo::{contains_manifest, root};
use cargo_watch::decide::BusyPolicy;
use cargo_watch::delay::{parse_delay, parse_number, seconds_delay, Delay, DelayError};
use cargo_watch::errors::{init, FaultAction, RuntimeFault};
use cargo_watch::event::{ChangeKind, RawEvent, Signal};
use cargo_watch::filter::{
    filtered, ignore_class, is_relevant, not_in_target, only_gitignore, reads_ignore_file,
    ChangedPath, Filter, IgnoreClass,
};
use cargo_watch::options::{
    build_commands, cargo_command_line, command_order, default_config, default_ignores, env_name,
    escape_words, get_options, handler_command, needs_local_deps, pick_shell, set_commands,
    set_debounce, set_ignores, set_watches, strip_subcommand, token_of, Args, Config, OsFamily,
};
use cargo_watch::plan::{OrderToken, Platform, Shell};
use cargo_watch::text::{
    chars_of, find_where, has_prefix, join, replace_char, same_text, same_text_ignoring_case,
    string_of, string_of_range, to_ascii_lower, char_is_space,
};

fn texts(items: &[&str]) -> Vec<String> {
    items.iter().map(|s| s.to_string()).collect()
}

fn unix() -> Platform {
    Platform { windows: false, shell: None }
}

fn args() -> Args {
    Args {
        cmd_cargo: vec![],
        cmd_shell: vec![],
        cmd_trail: vec![],
        order: vec![],
        features: None,
        ignore_nothing: false,
        no_gitignore: false,
        no_ignore: false,
        ignores: vec![],
        delay: None,
        watch: vec![],
        skip_local_deps: false,
        poll: false,
        clear: false,
        postpone: false,
        no_restart: false,
        watch_when_idle: false,
        use_shell: None,
        once: false,
    }
}

#[test]
fn feature_injection_in_a_command_line() {
    let features = Some("foo,bar".to_string());
    assert_eq!(
        cargo_command_line("build --release", &features),
        "cargo build --features foo,bar --release"
    );
    assert_eq!(cargo_command_line("  test", &features), "cargo test --features foo,bar");
    assert_eq!(cargo_command_line("fmt --all", &features), "cargo fmt --all");
    assert_eq!(cargo_command_line("  build --release", &None), "cargo build --release");
    assert_eq!(cargo_command_line("run\t-q", &features), "cargo run --features foo,bar\t-q");
    assert_eq!(
        cargo_command_line("build  --release", &features),
        "cargo build --features foo,bar  --release"
    );
    assert_eq!(cargo_command_line("", &features), "cargo ");
}

#[test]
fn command_lines_in_declaration_order() {
    let order = vec![OrderToken::Shell, OrderToken::Cargo, OrderToken::UseShell, OrderToken::Cargo];
    let lines =
        build_commands(&texts(&["build", "test"]), &texts(&["echo hi"]), &order, &vec![], &None);
    assert_eq!(lines, vec!["echo hi", "cargo build", "cargo test"]);
    let order = vec![OrderToken::Cargo, OrderToken::Shell, OrderToken::Cargo];
    let lines =
        build_commands(&texts(&["build", "test"]), &texts(&["echo hi"]), &order, &vec![], &None);
    assert_eq!(lines, vec!["cargo build", "echo hi", "cargo test"]);
}

#[test]
fn a_shell_command_declared_first_runs_first() {
    let mut config = default_config(&unix());
    let mut a = args();
    a.cmd_shell = texts(&["echo a"]);
    a.cmd_cargo = texts(&["test"]);
    a.order = vec![OrderToken::Shell, OrderToken::Cargo];
    set_commands(&mut config, &a);
    assert_eq!(config.cmd, vec!["echo a", "cargo test"]);
}

#[test]
fn one_build_command_with_features() {
    let mut config = default_config(&unix());
    let mut a = args();
    a.cmd_cargo = texts(&["build --release"]);
    a.features = Some("foo,bar".to_string());
    a.order = vec![OrderToken::Cargo];
    set_commands(&mut config, &a);
    assert_eq!(config.cmd, vec!["cargo build --features foo,bar --release"]);
}

#[test]
fn commands_that_the_order_does_not_name_come_last() {
    let cargo = texts(&["build", "test", "doc"]);
    let shell = texts(&["echo one", "echo two"]);
    let order = vec![OrderToken::Shell, OrderToken::Cargo];
    let lines = build_commands(&cargo, &shell, &order, &vec![], &None);
    assert_eq!(lines, vec!["echo one", "cargo build", "cargo test", "cargo doc", "echo two"]);
    let lines = build_commands(&cargo, &shell, &vec![], &vec![], &None);
    assert_eq!(lines, vec!["cargo build", "cargo test", "cargo doc", "echo one", "echo two"]);
    let order = vec![OrderToken::Shell, OrderToken::Shell, OrderToken::Shell, OrderToken::Cargo];
    let lines = build_commands(&texts(&["build"]), &texts(&["ls"]), &order, &vec![], &None);
    assert_eq!(lines, vec!["ls", "cargo build"]);
}

#[test]
fn default_command_line() {
    assert_eq!(build_commands(&vec![], &vec![], &vec![], &vec![], &None), vec!["cargo check"]);
    assert_eq!(
        build_commands(&vec![], &vec![], &vec![], &vec![], &Some("a".to_string())),
        vec!["cargo check --features a"]
    );
}

#[test]
fn trailing_words_are_the_only_line() {
    let lines = build_commands(
        &texts(&["build"]),
        &texts(&["ls"]),
        &vec![OrderToken::Cargo, OrderToken::Shell],
        &texts(&["make", "'a b'"]),
        &None,
    );
    assert_eq!(lines, vec!["make 'a b'"]);
}

#[test]
fn trailing_command_is_escaped() {
    let escaped = escape_words(&texts(&["echo", "a b", "plain-word_1=/x,y.z+"]));
    assert_eq!(escaped.len(), 3);
    assert_eq!(escaped[0], "echo");
    assert!(escaped[1] == "'a b'" || escaped[1] == "\"a b\"");
    assert_eq!(escaped[2], "plain-word_1=/x,y.z+");
    let mut config = default_config(&unix());
    let mut a = args();
    a.cmd_cargo = texts(&["build"]);
    a.cmd_trail = texts(&["echo", "it runs"]);
    set_commands(&mut config, &a);
    assert_eq!(config.cmd.len(), 1);
    assert!(config.cmd[0] == "echo 'it runs'" || config.cmd[0] == "echo \"it runs\"");
}

#[test]
fn set_commands_changes_the_lines_only() {
    let mut config = default_config(&unix());
    let before = config.clone();
    let mut a = args();
    a.cmd_shell = texts(&["ls"]);
    set_commands(&mut config, &a);
    assert_eq!(config.cmd, vec!["ls"]);
    assert_eq!(Config { cmd: vec![], ..config }, before);
}

#[test]
fn ignores_are_defaults_then_given() {
    let mut config = default_config(&unix());
    let mut a = args();
    a.ignores = texts(&["*.log"]);
    a.no_gitignore = true;
    set_ignores(&mut config, &a);
    let mut want = default_ignores();
    want.push("*.log".to_string());
    assert_eq!(config.ignores, want);
    assert_eq!(config.ignores.len(), 14);
    assert_eq!(config.ignores[12], "**/target/**");
    assert!(config.no_vcs_ignore && !config.no_ignore && !config.ignore_nothing);
}

#[test]
fn ignore_nothing_sets_no_pattern() {
    let mut config = default_config(&unix());
    let mut a = args();
    a.ignores = texts(&["*.log"]);
    a.ignore_nothing = true;
    set_ignores(&mut config, &a);
    assert!(config.ignores.is_empty());
    assert!(config.no_vcs_ignore && config.no_ignore && config.ignore_nothing);
}

#[test]
fn delay_sets_both_intervals() {
    let mut config = default_config(&unix());
    assert_eq!((config.debounce, config.poll_interval), (150, 1000));
    set_debounce(&mut config, &args());
    assert_eq!((config.debounce, config.poll_interval), (150, 1000));
    let mut a = args();
    a.delay = Some(500);
    set_debounce(&mut config, &a);
    assert_eq!((config.debounce, config.poll_interval), (500, 500));
}

#[test]
fn watches_fall_back_to_here() {
    let mut config = default_config(&unix());
    let mut a = args();
    assert!(needs_local_deps(&a));
    set_watches(&mut config, &a, &vec![]);
    assert_eq!(config.paths, vec!["."]);
    set_watches(&mut config, &a, &texts(&["/p/a", "/p/b"]));
    assert_eq!(config.paths, vec!["/p/a", "/p/b"]);
    a.skip_local_deps = true;
    assert!(!needs_local_deps(&a));
    set_watches(&mut config, &a, &texts(&["/p/a"]));
    assert_eq!(config.paths, vec!["."]);
    a.watch = texts(&["src", "tests"]);
    assert!(!needs_local_deps(&a));
    set_watches(&mut config, &a, &texts(&["/p/a"]));
    assert_eq!(config.paths, vec!["src", "tests"]);
}

#[test]
fn shells_by_selector() {
    let windows = Platform { windows: true, shell: None };
    let zsh = Platform { windows: false, shell: Some("zsh".to_string()) };
    assert_eq!(pick_shell(&None, &unix()), Shell::Unix("sh".to_string()));
    assert_eq!(pick_shell(&None, &zsh), Shell::Unix("zsh".to_string()));
    assert_eq!(pick_shell(&None, &windows), Shell::Powershell);
    assert_eq!(pick_shell(&Some("POWERSHELL".to_string()), &unix()), Shell::Powershell);
    assert_eq!(pick_shell(&Some("None".to_string()), &zsh), Shell::Unix("zsh".to_string()));
    assert_eq!(pick_shell(&Some("cmd".to_string()), &windows), Shell::Cmd);
    assert_eq!(pick_shell(&Some("cmd".to_string()), &unix()), Shell::Unix("cmd".to_string()));
    assert_eq!(pick_shell(&Some("fish".to_string()), &unix()), Shell::Unix("fish".to_string()));
}

#[test]
fn options_for_a_command_line() {
    let mut a = args();
    a.cmd_cargo = texts(&["test"]);
    a.features = Some("x".to_string());
    a.clear = true;
    a.postpone = true;
    a.once = true;
    a.delay = Some(250);
    a.watch_when_idle = true;
    a.use_shell = Some("bash".to_string());
    let config = get_options(&a, &unix(), &vec![]);
    assert_eq!(config.cmd, vec!["cargo test --features x"]);
    assert_eq!(config.paths, vec!["."]);
    assert!(config.clear_screen && !config.run_initially && config.no_environment && config.once);
    assert!(!config.poll);
    assert_eq!(config.debounce, 250);
    assert_eq!(config.on_busy_update, BusyPolicy::DoNothing);
    assert_eq!(config.shell, Shell::Unix("bash".to_string()));
    assert_eq!(config.ignores, default_ignores());
    a.no_restart = true;
    assert_eq!(get_options(&a, &unix(), &vec![]).on_busy_update, BusyPolicy::Queue);
    a.no_restart = false;
    a.watch_when_idle = false;
    assert_eq!(get_options(&a, &unix(), &vec![]).on_busy_update, BusyPolicy::Restart);
}

#[test]
fn command_order_of_the_words() {
    let words = texts(&["cargo-watch", "-x", "build", "--use-shell", "bash", "-s", "ls", "--exec", "test", "--shell", "pwd", "-c"]);
    assert_eq!(
        command_order(&words),
        vec![
            OrderToken::Cargo,
            OrderToken::UseShell,
            OrderToken::Shell,
            OrderToken::Cargo,
            OrderToken::Shell
        ]
    );
    assert_eq!(token_of("-x"), Some(OrderToken::Cargo));
    assert_eq!(token_of("-xbuild"), None);
    assert_eq!(command_order(&vec![]), vec![]);
}

#[test]
fn subcommand_name_is_dropped() {
    let mut words = texts(&["/bin/cargo-watch", "watch", "-x", "watch"]);
    strip_subcommand(&mut words);
    assert_eq!(words, vec!["/bin/cargo-watch", "-x", "watch"]);
    let mut words = texts(&["/bin/cargo-watch", "-x", "watch"]);
    strip_subcommand(&mut words);
    assert_eq!(words, vec!["/bin/cargo-watch", "-x", "watch"]);
    let mut words = texts(&["watch"]);
    strip_subcommand(&mut words);
    assert_eq!(words, vec!["watch"]);
}

#[test]
fn handler_command_joins_and_reports() {
    let mut config = default_config(&unix());
    config.cmd = texts(&["cargo build", "ls"]);
    let shown = handler_command(&mut config, false, false, OsFamily::Unix);
    assert_eq!(shown, "cargo build && ls");
    assert_eq!(
        config.cmd,
        vec!["cargo build && ls; echo \"[Finished running. Exit status: $?]\""]
    );
    config.cmd = texts(&["cargo build", "ls"]);
    handler_command(&mut config, false, false, OsFamily::Windows);
    assert_eq!(
        config.cmd,
        vec!["cargo build && ls & echo \"[Finished running. Exit status: %ERRORLEVEL%]\""]
    );
    config.cmd = texts(&["cargo build", "ls"]);
    handler_command(&mut config, false, false, OsFamily::Other);
    assert_eq!(config.cmd, vec!["cargo build && ls ; echo \"[Finished running]\""]);
    config.cmd = texts(&["cargo build", "ls"]);
    assert_eq!(handler_command(&mut config, true, false, OsFamily::Unix), "cargo build && ls");
    assert_eq!(config.cmd, vec!["cargo build && ls"]);
    config.cmd = texts(&["make all"]);
    assert_eq!(handler_command(&mut config, false, true, OsFamily::Unix), "make all");
    assert_eq!(config.cmd, vec!["make all"]);
}

#[test]
fn environment_names() {
    assert_eq!(env_name("WRITTEN", false), Some("CARGO_WATCH_WRITTEN_PATH".to_string()));
    assert_eq!(env_name("WRITTEN", true), None);
}

#[test]
fn delays() {
    assert_eq!(parse_delay("250ms"), Ok(Delay::Millis(250)));
    assert_eq!(parse_delay("+7ms"), Ok(Delay::Millis(7)));
    assert_eq!(parse_delay("0ms"), Ok(Delay::Millis(0)));
    assert_eq!(parse_delay("5msms"), Ok(Delay::Millis(5)));
    assert_eq!(parse_delay("18446744073709551615ms"), Ok(Delay::Millis(u64::MAX)));
    assert_eq!(parse_delay("18446744073709551616ms"), Err(DelayError::NotANumber));
    assert_eq!(parse_delay("ms"), Err(DelayError::NotANumber));
    assert_eq!(parse_delay("1.5ms"), Err(DelayError::NotANumber));
    assert_eq!(parse_delay("-1ms"), Err(DelayError::NotANumber));
    assert_eq!(parse_delay(" 1ms"), Err(DelayError::NotANumber));
    assert_eq!(parse_delay("0.5"), Ok(Delay::Seconds));
    assert_eq!(parse_delay(""), Ok(Delay::Seconds));
    assert_eq!(parse_delay("2s"), Ok(Delay::Seconds));
    assert_eq!(parse_number(&vec!['+']), None);
    assert_eq!(parse_number(&vec![]), None);
    assert_eq!(parse_number(&vec!['0', '0', '4', '2']), Some(42));
    assert_eq!(seconds_delay(999), Ok(999));
    assert_eq!(seconds_delay(1000), Err(DelayError::TooLong));
}

#[test]
fn project_root_is_the_closest_manifest() {
    let with = texts(&["src", "Cargo.toml"]);
    let without = texts(&["src", "cargo.toml", "Cargo.lock"]);
    assert!(contains_manifest(&with));
    assert!(!contains_manifest(&without));
    assert_eq!(root(&vec![without.clone(), with.clone(), with.clone()]), Some(1));
    assert_eq!(root(&vec![with.clone()]), Some(0));
    assert_eq!(root(&vec![without.clone(), without.clone()]), None);
    assert_eq!(root(&vec![]), None);
    let mut deep = vec![without.clone(); 10];
    deep.push(with.clone());
    assert_eq!(root(&deep), None);
    deep[9] = with;
    assert_eq!(root(&deep), Some(9));
}

#[test]
fn runtime_errors() {
    assert_eq!(init(RuntimeFault::WaitingOnProcessGroup), FaultAction::Log);
    assert_eq!(init(RuntimeFault::WatcherCreate), FaultAction::Elevate);
    assert_eq!(init(RuntimeFault::TooManyWatches), FaultAction::Elevate);
    assert_eq!(init(RuntimeFault::TooManyHandles), FaultAction::Elevate);
    assert_eq!(init(RuntimeFault::Other), FaultAction::Report);
}

#[test]
fn tree_walk_rules() {
    assert!(not_in_target(Some("src/.gitignore")));
    assert!(not_in_target(Some("target")));
    assert!(!not_in_target(Some("target/debug/.gitignore")));
    assert!(!not_in_target(None));
    assert!(only_gitignore(Some(".gitignore")));
    assert!(!only_gitignore(Some(".ignore")));
    assert!(!only_gitignore(None));
    assert_eq!(ignore_class(".gitignore"), Some(IgnoreClass::Vcs));
    assert_eq!(ignore_class(".ignore"), Some(IgnoreClass::Dot));
    assert_eq!(ignore_class("gitignore"), None);
    assert!(reads_ignore_file(".gitignore", false, true));
    assert!(!reads_ignore_file(".gitignore", true, false));
    assert!(reads_ignore_file(".ignore", true, false));
    assert!(!reads_ignore_file(".ignore", false, true));
    assert!(!reads_ignore_file("Cargo.toml", false, false));
}

#[test]
fn events_on_ignored_paths_are_dropped() {
    let filter = Filter::create(".", &vec![], &default_ignores(), false, false);
    let ignored = RawEvent::Path { kind: ChangeKind::Modify, path: "target/x".to_string() };
    let kept = RawEvent::Path { kind: ChangeKind::Remove, path: "src/x.rs".to_string() };
    assert!(filtered(&filter, &ignored, false));
    assert!(!filtered(&filter, &kept, false));
    assert!(!filtered(&filter, &RawEvent::Signal(Signal::Interrupt), false));
    assert!(!filtered(&filter, &RawEvent::Completion(None), false));
}

#[test]
fn an_event_passes_with_one_relevant_path() {
    let filter = Filter::create(".", &vec![], &default_ignores(), false, false);
    let entry = |path: &str| ChangedPath { path: path.to_string(), is_dir: false };
    assert!(is_relevant(&filter, &vec![]));
    assert!(is_relevant(&filter, &vec![entry("target/a"), entry("src/a.rs")]));
    assert!(!is_relevant(&filter, &vec![entry("target/a"), entry(".git/index")]));
    assert!(is_relevant(&filter, &vec![entry("src/a.rs")]));
}

#[test]
fn text_helpers() {
    assert_eq!(chars_of("héllo"), vec!['h', 'é', 'l', 'l', 'o']);
    assert_eq!(string_of(&vec!['a', 'ß']), "aß");
    assert_eq!(string_of_range(&vec!['a', 'b', 'c', 'd'], 1, 3), "bc");
    assert!(same_text("abc", "abc") && !same_text("abc", "abd") && !same_text("ab", "abc"));
    assert!(same_text_ignoring_case("PowerShell", "powershell"));
    assert!(!same_text_ignoring_case("powershel", "powershell"));
    assert!(!same_text_ignoring_case("é", "É"));
    assert_eq!(to_ascii_lower('Q'), 'q');
    assert_eq!(to_ascii_lower('['), '[');
    assert_eq!(to_ascii_lower('@'), '@');
    assert!(has_prefix("check", "check") && has_prefix("checkers", "check"));
    assert!(!has_prefix("chec", "check") && has_prefix("x", ""));
    assert_eq!(join(&texts(&["a", "b", "c"]), ", "), "a, b, c");
    assert_eq!(join(&texts(&["a"]), ", "), "a");
    assert_eq!(join(&vec![], ", "), "");
    assert_eq!(replace_char("it's 'x'", '\'', '"'), "it\"s \"x\"");
    for c in ['\t', '\n', '\u{b}', '\u{c}', '\r', ' ', '\u{85}', '\u{a0}', '\u{1680}', '\u{2000}', '\u{200a}', '\u{2028}', '\u{2029}', '\u{202f}', '\u{205f}', '\u{3000}'] {
        assert!(char_is_space(c) && c.is_whitespace());
    }
    for c in ['a', '\u{8}', '\u{e}', '\u{200b}', '\u{feff}', '\u{1f}'] {
        assert!(!char_is_space(c) && !c.is_whitespace());
    }
    let text = chars_of("  ab c");
    assert_eq!(find_where(&text, 0, false), 2);
    assert_eq!(find_where(&text, 2, true), 4);
    assert_eq!(find_where(&text, 5, true), 6);
}
