use cargo_watch::filter::{well_formed, Filter, IgnoreFile};
use cargo_watch::options::default_ignores;

fn texts(items: &[&str]) -> Vec<String> {
    items.iter().map(|s| s.to_string()).collect()
}

fn with_defaults() -> Filter {
    Filter::create(".", &vec![], &default_ignores(), false, false)
}

#[test]
fn build_output_is_ignored_by_default() {
    let filter = with_defaults();
    assert!(filter.matched("target/debug/app", false));
    assert!(!filter.matched("src/main.x", false));
}

#[test]
fn default_rules_cover_each_class() {
    let filter = with_defaults();
    assert!(filter.matched(".git/objects/ab/cdef", false));
    assert!(filter.matched("sub/.hg/store", false));
    assert!(filter.matched(".svn/entries", false));
    assert!(filter.matched("sub/.DS_Store", false));
    assert!(filter.matched("src/.main.rs.swp", false));
    assert!(filter.matched("src/main.swpx", false));
    assert!(filter.matched("src/#main.rs#", false));
    assert!(filter.matched("src/.#main.rs", false));
    assert!(filter.matched("src/.main.rs.kate-swp", false));
    assert!(filter.matched("data/store.db", false));
    assert!(filter.matched("data/store.db-wal", false));
    assert!(filter.matched("data/x.db-journal/tmp", false));
    assert!(filter.matched("crates/inner/target/release/lib.rlib", false));
    assert!(!filter.matched("src/lib.rs", false));
    assert!(!filter.matched("Cargo.toml", false));
    assert!(!filter.matched("targets/list.txt", false));
}

#[test]
fn absolute_paths_are_taken_relative_to_the_root() {
    let filter = Filter::create("/work/proj", &vec![], &default_ignores(), false, false);
    assert!(filter.matched("/work/proj/target/debug/app", false));
    assert!(!filter.matched("/work/proj/src/main.rs", false));
}

#[test]
fn ignore_nothing_overrides_every_rule() {
    let filter = Filter::create(".", &vec![], &default_ignores(), false, true);
    assert!(!filter.matched("target/debug/app", false));
    assert!(!filter.matched(".git/config", false));
    let files = vec![IgnoreFile { lines: texts(&["*.log"]) }];
    let filter = Filter::create(".", &files, &texts(&["*.tmp"]), true, true);
    assert!(!filter.matched("a.log", false));
    assert!(!filter.matched("a.tmp", false));
}

#[test]
fn later_negation_takes_precedence() {
    let filter = Filter::create(".", &vec![], &texts(&["*.log", "!keep.log"]), false, false);
    assert!(filter.matched("debug.log", false));
    assert!(!filter.matched("keep.log", false));
}

#[test]
fn later_pattern_overrides_earlier_negation() {
    let filter = Filter::create(".", &vec![], &texts(&["!keep.log", "*.log"]), false, false);
    assert!(filter.matched("keep.log", false));
}

#[test]
fn explicit_pattern_overrides_file_negation() {
    let files = vec![IgnoreFile { lines: texts(&["*.log", "!keep.log"]) }];
    let filter = Filter::create(".", &files, &texts(&["keep.*"]), true, false);
    assert!(filter.matched("keep.log", false));
    assert!(filter.matched("other.log", false));
}

#[test]
fn directory_rules_match_directories_only() {
    let filter = Filter::create(".", &vec![], &texts(&["build/"]), false, false);
    assert!(filter.matched("build", true));
    assert!(!filter.matched("build", false));
}

#[test]
fn bypassed_files_leave_explicit_patterns() {
    let files = vec![IgnoreFile { lines: texts(&["*.log"]) }];
    let filter = Filter::create(".", &files, &texts(&["*.tmp"]), false, false);
    assert!(!filter.matched("a.log", false));
    assert!(filter.matched("a.tmp", false));
    let filter = Filter::create(".", &files, &texts(&["*.tmp"]), true, false);
    assert!(filter.matched("a.log", false));
    assert!(filter.matched("a.tmp", false));
}

#[test]
fn malformed_file_gives_no_rule() {
    let files = vec![
        IgnoreFile { lines: texts(&["*.log", "a{b"]) },
        IgnoreFile { lines: texts(&["*.bak"]) },
    ];
    assert!(!well_formed(".", &files[0].lines));
    assert!(well_formed(".", &files[1].lines));
    let filter = Filter::create(".", &files, &vec![], true, false);
    assert!(!filter.matched("a.log", false));
    assert!(filter.matched("a.bak", false));
}

#[test]
fn malformed_pattern_is_left_out() {
    let filter = Filter::create(".", &vec![], &texts(&["a{b", "*.tmp"]), false, false);
    assert!(filter.matched("x.tmp", false));
    assert!(!filter.matched("a{b", false));
}

#[test]
fn no_rules_ignore_nothing() {
    let filter = Filter::create(".", &vec![], &vec![], true, false);
    assert!(!filter.matched("target/debug/app", false));
    assert!(!filter.matched("anything", true));
}

#[test]
fn comments_and_blank_lines_are_no_rules() {
    let files = vec![IgnoreFile { lines: texts(&["# build output", "", "out/**"]) }];
    assert!(well_formed(".", &files[0].lines));
    let filter = Filter::create(".", &files, &vec![], true, false);
    assert!(filter.matched("out/a.o", false));
    assert!(!filter.matched("# build output", false));
}

#[test]
fn white_space_at_the_end_of_a_rule_is_cut() {
    let filter = Filter::create(".", &vec![], &texts(&["*.log   ", "keep\\ "]), false, false);
    assert!(filter.matched("a.log", false));
    assert!(!filter.matched("a.log   ", false));
    assert!(filter.matched("keep ", false));
    assert!(!filter.matched("keep", false));
}

#[test]
fn a_root_with_a_leading_dot_slash() {
    let filter = Filter::create("./work", &vec![], &texts(&["/out"]), false, false);
    assert!(filter.matched("work/out", false));
    assert!(filter.matched("./work/out", false));
    assert!(!filter.matched("work/src/out", false));
}
