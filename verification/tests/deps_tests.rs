use cargo_watch::deps::{find_local_deps, find_node, find_package, holds_text, Node, Package};

fn package(id: &str, remote: bool, dir: &str) -> Package {
    Package { id: id.to_string(), remote, dir: dir.to_string() }
}

fn node(id: &str, deps: &[&str]) -> Node {
    Node { id: id.to_string(), deps: deps.iter().map(|d| d.to_string()).collect() }
}

fn sorted(mut dirs: Vec<String>) -> Vec<String> {
    dirs.sort();
    dirs
}

#[test]
fn local_dependencies_are_followed() {
    let packages = vec![
        package("app", false, "/w/app"),
        package("util", false, "/w/util"),
        package("serde", true, "/registry/serde"),
        package("deep", false, "/w/deep"),
        package("unused", false, "/w/unused"),
    ];
    let nodes = vec![
        node("app", &["util", "serde"]),
        node("util", &["deep", "serde"]),
        node("serde", &["hidden"]),
        node("deep", &["app"]),
        node("unused", &[]),
    ];
    let dirs = find_local_deps(&packages, &nodes, &vec!["app".to_string()]);
    assert_eq!(sorted(dirs), vec!["/w/app", "/w/deep", "/w/util"]);
}

#[test]
fn remote_packages_end_the_search() {
    let packages = vec![
        package("app", false, "/w/app"),
        package("remote", true, "/registry/remote"),
        package("behind", false, "/w/behind"),
    ];
    let nodes = vec![node("app", &["remote"]), node("remote", &["behind"])];
    let dirs = find_local_deps(&packages, &nodes, &vec!["app".to_string()]);
    assert_eq!(dirs, vec!["/w/app"]);
}

#[test]
fn unknown_identifiers_are_skipped() {
    let packages = vec![package("app", false, "/w/app")];
    let nodes = vec![node("app", &["ghost"])];
    let roots = vec!["nobody".to_string(), "app".to_string()];
    assert_eq!(find_local_deps(&packages, &nodes, &roots), vec!["/w/app"]);
    assert!(find_local_deps(&packages, &nodes, &vec![]).is_empty());
    assert!(find_local_deps(&vec![], &vec![], &roots).is_empty());
}

#[test]
fn workspace_members_are_all_roots() {
    let packages = vec![
        package("a", false, "/w/a"),
        package("b", false, "/w/b"),
        package("c", false, "/w/shared"),
        package("d", false, "/w/shared"),
    ];
    let nodes = vec![node("a", &["c"]), node("b", &["d"])];
    let roots = vec!["a".to_string(), "b".to_string()];
    let dirs = find_local_deps(&packages, &nodes, &roots);
    assert_eq!(sorted(dirs), vec!["/w/a", "/w/b", "/w/shared"]);
}

#[test]
fn a_remote_root_gives_nothing() {
    let packages = vec![package("app", true, "/r/app"), package("x", false, "/w/x")];
    let nodes = vec![node("app", &["x"])];
    assert!(find_local_deps(&packages, &nodes, &vec!["app".to_string()]).is_empty());
}

#[test]
fn the_last_entry_of_an_identifier_counts() {
    let packages = vec![package("app", true, "/old"), package("app", false, "/new")];
    let nodes = vec![node("app", &["app"]), node("app", &[])];
    assert_eq!(find_package(&packages, "app"), Some(1));
    assert_eq!(find_package(&packages, "none"), None);
    assert_eq!(find_node(&nodes, "app"), Some(1));
    assert_eq!(find_node(&nodes, "none"), None);
    assert_eq!(find_local_deps(&packages, &nodes, &vec!["app".to_string()]), vec!["/new"]);
    assert!(holds_text(&vec!["a".to_string(), "b".to_string()], "b"));
    assert!(!holds_text(&vec!["a".to_string()], "b"));
}
