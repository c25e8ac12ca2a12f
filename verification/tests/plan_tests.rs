use cargo_watch::plan::{
    cargo_command, plan, shell_command, CommandPlan, CommandStep, OrderToken, PlanError, Platform,
    Shell,
};

fn texts(items: &[&str]) -> Vec<String> {
    items.iter().map(|s| s.to_string()).collect()
}

fn unix() -> Platform {
    Platform { windows: false, shell: Some("/bin/zsh".to_string()) }
}

fn exec(prog: &str, args: &[&str]) -> CommandStep {
    CommandStep::Exec { prog: prog.to_string(), args: texts(args) }
}

fn step_text(step: &CommandStep) -> String {
    match step {
        CommandStep::Exec { args, .. } => args.join(" "),
        CommandStep::Shell { command, .. } => command.clone(),
    }
}

#[test]
fn features_go_after_the_subcommand() {
    let made = plan(
        &texts(&["build --release"]),
        &vec![],
        &vec![],
        &texts(&["foo", "bar"]),
        &vec![],
        &vec![OrderToken::Cargo],
        &unix(),
    )
    .unwrap();
    assert_eq!(made.steps.len(), 1);
    assert_eq!(step_text(&made.steps[0]), "build --features foo,bar --release");
    assert_eq!(made.steps[0], exec("cargo", &["build", "--features", "foo,bar", "--release"]));
}

#[test]
fn features_skip_other_subcommands() {
    let step = cargo_command("fmt --all", &Some("foo".to_string())).unwrap();
    assert_eq!(step, exec("cargo", &["fmt", "--all"]));
    let step = cargo_command("clippy", &Some("foo".to_string())).unwrap();
    assert_eq!(step, exec("cargo", &["clippy"]));
}

#[test]
fn features_for_each_prefix() {
    for sub in ["b", "build", "bench", "check", "doc", "r", "run", "test", "install"] {
        let step = cargo_command(sub, &Some("x".to_string())).unwrap();
        assert_eq!(step, exec("cargo", &[sub, "--features", "x"]));
    }
}

#[test]
fn no_features_leaves_command() {
    let step = cargo_command("test -- --nocapture", &None).unwrap();
    assert_eq!(step, exec("cargo", &["test", "--", "--nocapture"]));
}

#[test]
fn default_plan_is_check() {
    let made = plan(&vec![], &vec![], &vec![], &vec![], &vec![], &vec![], &unix()).unwrap();
    assert_eq!(made, CommandPlan { steps: vec![exec("cargo", &["check"])] });
}

#[test]
fn default_plan_takes_features() {
    let made =
        plan(&vec![], &vec![], &vec![], &texts(&["a"]), &vec![], &vec![], &unix()).unwrap();
    assert_eq!(made, CommandPlan { steps: vec![exec("cargo", &["check", "--features", "a"])] });
}

#[test]
fn trailing_command_is_the_whole_plan() {
    let made = plan(
        &texts(&["build"]),
        &texts(&["echo hi"]),
        &texts(&["make", "-j", "4"]),
        &texts(&["foo"]),
        &texts(&["bash"]),
        &vec![OrderToken::Cargo, OrderToken::UseShell, OrderToken::Shell],
        &unix(),
    )
    .unwrap();
    assert_eq!(made, CommandPlan { steps: vec![exec("make", &["-j", "4"])] });
}

#[test]
fn commands_keep_declaration_order() {
    let made = plan(
        &texts(&["build", "test"]),
        &texts(&["echo one", "echo two"]),
        &vec![],
        &vec![],
        &texts(&["bash -e"]),
        &vec![
            OrderToken::Shell,
            OrderToken::Cargo,
            OrderToken::UseShell,
            OrderToken::Shell,
            OrderToken::Cargo,
        ],
        &unix(),
    )
    .unwrap();
    assert_eq!(
        made.steps,
        vec![
            CommandStep::Shell {
                shell: Shell::Unix("/bin/zsh".to_string()),
                args: vec![],
                command: "echo one".to_string(),
            },
            exec("cargo", &["build"]),
            CommandStep::Shell {
                shell: Shell::Unix("bash".to_string()),
                args: texts(&["-e"]),
                command: "echo two".to_string(),
            },
            exec("cargo", &["test"]),
        ]
    );
}

#[test]
fn selector_is_not_retroactive() {
    let made = plan(
        &vec![],
        &texts(&["echo one"]),
        &vec![],
        &vec![],
        &texts(&["bash"]),
        &vec![OrderToken::Shell, OrderToken::UseShell],
        &unix(),
    )
    .unwrap();
    assert_eq!(
        made.steps,
        vec![CommandStep::Shell {
            shell: Shell::Unix("/bin/zsh".to_string()),
            args: vec![],
            command: "echo one".to_string(),
        }]
    );
}

#[test]
fn default_shell_by_platform() {
    let windows = Platform { windows: true, shell: None };
    let bare = Platform { windows: false, shell: None };
    assert_eq!(
        shell_command("dir", None, &windows).unwrap(),
        CommandStep::Shell { shell: Shell::Powershell, args: vec![], command: "dir".to_string() }
    );
    assert_eq!(
        shell_command("ls", None, &bare).unwrap(),
        CommandStep::Shell {
            shell: Shell::Unix("sh".to_string()),
            args: vec![],
            command: "ls".to_string(),
        }
    );
}

#[test]
fn named_shells() {
    let windows = Platform { windows: true, shell: None };
    let power = "PowerShell".to_string();
    let cmd = "CMD".to_string();
    assert_eq!(
        shell_command("ls", Some(&power), &unix()).unwrap(),
        CommandStep::Shell { shell: Shell::Powershell, args: vec![], command: "ls".to_string() }
    );
    assert_eq!(
        shell_command("dir", Some(&cmd), &windows).unwrap(),
        CommandStep::Shell { shell: Shell::Cmd, args: vec![], command: "dir".to_string() }
    );
    assert_eq!(
        shell_command("dir", Some(&cmd), &unix()).unwrap(),
        CommandStep::Shell {
            shell: Shell::Unix("CMD".to_string()),
            args: vec![],
            command: "dir".to_string(),
        }
    );
}

#[test]
fn shell_none_runs_directly() {
    let none = "none".to_string();
    assert_eq!(
        shell_command("echo 'a b' c", Some(&none), &unix()).unwrap(),
        exec("echo", &["a b", "c"])
    );
    assert_eq!(shell_command("   ", Some(&none), &unix()), Err(PlanError::EmptyCommand));
    assert_eq!(shell_command("echo 'a", Some(&none), &unix()), Err(PlanError::InvalidCommand));
}

#[test]
fn unbalanced_quotes_fail() {
    assert_eq!(cargo_command("build 'oops", &None), Err(PlanError::InvalidCommand));
    assert_eq!(cargo_command("", &None), Err(PlanError::EmptyCommand));
    let bad = "bash \"".to_string();
    assert_eq!(shell_command("ls", Some(&bad), &unix()), Err(PlanError::InvalidShell));
    let empty = "".to_string();
    assert_eq!(shell_command("ls", Some(&empty), &unix()), Err(PlanError::EmptyShell));
    let failed = plan(
        &texts(&["build", "test \"x"]),
        &vec![],
        &vec![],
        &vec![],
        &vec![],
        &vec![OrderToken::Cargo, OrderToken::Cargo],
        &unix(),
    );
    assert_eq!(failed, Err(PlanError::InvalidCommand));
}

#[test]
fn order_mismatch_fails() {
    let failed = plan(
        &texts(&["build"]),
        &vec![],
        &vec![],
        &vec![],
        &vec![],
        &vec![OrderToken::Cargo, OrderToken::Shell],
        &unix(),
    );
    assert_eq!(failed, Err(PlanError::OrderMismatch));
    let failed = plan(
        &texts(&["build"]),
        &vec![],
        &vec![],
        &vec![],
        &vec![],
        &vec![OrderToken::UseShell],
        &unix(),
    );
    assert_eq!(failed, Err(PlanError::OrderMismatch));
}

#[test]
fn planning_twice_gives_the_same_plan() {
    let run = || {
        plan(
            &texts(&["build --release", "test"]),
            &texts(&["echo 'x y'"]),
            &vec![],
            &texts(&["foo", "bar"]),
            &texts(&["bash -l"]),
            &vec![OrderToken::Cargo, OrderToken::UseShell, OrderToken::Shell, OrderToken::Cargo],
            &unix(),
        )
    };
    assert_eq!(run(), run());
    assert_eq!(run().unwrap().steps.len(), 3);
}
