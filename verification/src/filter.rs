//! The path filter: which changed paths never trigger a run.
//!
//! The rules are lines in the syntax of ignore files. Matching a rule
//! against a path is the work of the `ignore` crate; which rules the filter
//! holds, and that no rule applies when nothing is to be ignored, is
//! decided here.
//!
//! The `ignore` crate compares paths in one way where it is built for a
//! Unix system and in another way elsewhere. What a rule says of a path is
//! therefore named for each of the two, and a result of the matcher is
//! stated as one of the two.

use vstd::prelude::*;
use crate::event::RawEvent;
use crate::text::{has_prefix, is_space, same_text};

verus! {

#[verifier::external_type_specification]
#[verifier::external_body]
pub struct ExGitignore(ignore::gitignore::Gitignore);

#[verifier::external_type_specification]
#[verifier::external_body]
pub struct ExGitignoreBuilder(ignore::gitignore::GitignoreBuilder);

#[verifier::external_type_specification]
#[verifier::external_body]
pub struct ExIgnoreError(ignore::Error);

/// What a rule, or a list of rules, says of a path.
#[derive(Clone, Copy, Debug, PartialEq, Eq, Structural)]
pub enum Verdict {
    /// No rule applies.
    NoMatch,
    /// The path is ignored.
    Ignore,
    /// The path is exempt from being ignored.
    Whitelist,
}

/// The texts of the globs that a builder holds, in the order in which they
/// were added.
pub uninterp spec fn builder_rules(builder: ignore::gitignore::GitignoreBuilder) -> Seq<Seq<char>>;

/// The root that a builder holds.
pub uninterp spec fn builder_root(builder: ignore::gitignore::GitignoreBuilder) -> Seq<char>;

/// The texts of the globs that a matcher holds, in order.
pub uninterp spec fn matcher_rules(matcher: ignore::gitignore::Gitignore) -> Seq<Seq<char>>;

/// The root that a matcher holds.
pub uninterp spec fn matcher_root(matcher: ignore::gitignore::Gitignore) -> Seq<char>;

/// The root that a builder keeps of the root that it is made with, where
/// the `ignore` crate is not built for a Unix system.
pub uninterp spec fn root_elsewhere(root: Seq<char>) -> Seq<char>;

/// Whether a builder takes the line.
pub uninterp spec fn rule_accepted(line: Seq<char>) -> bool;

/// Whether a matcher can be built from globs with these texts.
pub uninterp spec fn rules_build(rules: Seq<Seq<char>>) -> bool;

/// What a matcher with this root and the one glob with this text says of
/// the path, where the `ignore` crate is built for a Unix system, if
/// `unix`, or for another.
pub uninterp spec fn rule_verdict(
    unix: bool,
    root: Seq<char>,
    rule: Seq<char>,
    path: Seq<char>,
    is_dir: bool,
) -> Verdict;

/// The text without the white space at its end.
pub open spec fn trimmed_end(text: Seq<char>) -> Seq<char>
    decreases text.len(),
{
    if text.len() > 0 && is_space(text.last()) {
        trimmed_end(text.drop_last())
    } else {
        text
    }
}

/// The text of the glob that a builder keeps for a line: none for a
/// comment, which begins with `#`, and for a line that is empty once the
/// white space at its end is cut; else the line without that white space,
/// which stays where the line ends in a backslash and a blank.
pub open spec fn rule_text(line: Seq<char>) -> Option<Seq<char>> {
    if line.len() > 0 && line[0] == '#' {
        None
    } else {
        let cut = if line.len() >= 2 && line[line.len() - 2] == '\\' && line[line.len() - 1] == ' ' {
            line
        } else {
            trimmed_end(line)
        };
        if cut.len() == 0 {
            None
        } else {
            Some(cut)
        }
    }
}

/// The root that a builder keeps of the root that it is made with: on a
/// Unix system the root without `./` in front, elsewhere what
/// `root_elsewhere` names.
pub open spec fn kept_root(unix: bool, root: Seq<char>) -> Seq<char> {
    if !unix {
        root_elsewhere(root)
    } else if "./"@.is_prefix_of(root) {
        root.skip(2)
    } else {
        root
    }
}

/// What the rules say of the path: the last rule that applies decides.
pub open spec fn rules_verdict(
    unix: bool,
    root: Seq<char>,
    rules: Seq<Seq<char>>,
    path: Seq<char>,
    is_dir: bool,
) -> Verdict
    decreases rules.len(),
{
    if rules.len() == 0 {
        Verdict::NoMatch
    } else {
        match rule_verdict(unix, root, rules.last(), path, is_dir) {
            Verdict::NoMatch => rules_verdict(unix, root, rules.drop_last(), path, is_dir),
            decided => decided,
        }
    }
}

/// A builder without rules.
///
/// Trusted: `GitignoreBuilder::new`, which makes a builder that holds no
/// glob. It keeps the root without a leading `./`, which it takes off by
/// bytes on a Unix system and by path components elsewhere.
#[verifier::external_body]
fn new_builder(root: &str) -> (builder: ignore::gitignore::GitignoreBuilder)
    ensures
        builder_root(builder) == kept_root(true, root@) || builder_root(builder)
            == root_elsewhere(root@),
        builder_rules(builder) == Seq::<Seq<char>>::empty(),
{
    ignore::gitignore::GitignoreBuilder::new(root)
}

/// Adds a line to the builder.
///
/// Trusted: `GitignoreBuilder::add_line`, called without a source path.
/// Whether it takes the line depends on the line alone. It takes a comment
/// and an empty line and keeps nothing of them. For any other line that it
/// takes it keeps a glob with the line's text, cut as `rule_text` says,
/// after those that the builder holds. A line that it refuses leaves the
/// builder as it was.
#[verifier::external_body]
fn add_rule(builder: &mut ignore::gitignore::GitignoreBuilder, line: &str) -> (added: Result<
    (),
    ignore::Error,
>)
    ensures
        added is Ok == rule_accepted(line@),
        builder_root(*final(builder)) == builder_root(*old(builder)),
        builder_rules(*final(builder)) == match rule_text(line@) {
            Some(text) => if added is Ok {
                builder_rules(*old(builder)).push(text)
            } else {
                builder_rules(*old(builder))
            },
            None => builder_rules(*old(builder)),
        },
{
    match builder.add_line(None, line) {
        Ok(_) => Ok(()),
        Err(e) => Err(e),
    }
}

/// Builds the matcher for the globs that the builder holds.
///
/// Trusted: `GitignoreBuilder::build`. Whether it succeeds depends on the
/// globs alone; the matcher has the builder's root and globs.
#[verifier::external_body]
fn build_matcher(builder: &ignore::gitignore::GitignoreBuilder) -> (built: Result<
    ignore::gitignore::Gitignore,
    ignore::Error,
>)
    ensures
        built is Ok == rules_build(builder_rules(*builder)),
        built matches Ok(matcher) ==> matcher_rules(matcher) == builder_rules(*builder)
            && matcher_root(matcher) == builder_root(*builder),
{
    builder.build()
}

/// A matcher without rules.
///
/// Trusted: `Gitignore::empty`, which makes a matcher with no glob and an
/// empty root.
#[verifier::external_body]
fn empty_matcher() -> (matcher: ignore::gitignore::Gitignore)
    ensures
        matcher_rules(matcher) == Seq::<Seq<char>>::empty(),
        matcher_root(matcher) == Seq::<char>::empty(),
{
    ignore::gitignore::Gitignore::empty()
}

/// Asks the matcher about a path.
///
/// Trusted: `Gitignore::matched`. What a matcher of one glob returns has a
/// name, `rule_verdict`, for each of the two ways in which the crate
/// compares paths. For more globs the contract states the order in which
/// the matcher goes through them: among the globs that match the path,
/// relative to the root, and that are not for directories only unless the
/// path is one, the last decides; a negated one exempts the path, any
/// other has it ignored.
#[verifier::external_body]
fn match_path(matcher: &ignore::gitignore::Gitignore, path: &str, is_dir: bool) -> (verdict: Verdict)
    ensures
        matcher_rules(*matcher).len() == 1 ==> verdict == rule_verdict(
            true,
            matcher_root(*matcher),
            matcher_rules(*matcher)[0],
            path@,
            is_dir,
        ) || verdict == rule_verdict(
            false,
            matcher_root(*matcher),
            matcher_rules(*matcher)[0],
            path@,
            is_dir,
        ),
        verdict == rules_verdict(
            true,
            matcher_root(*matcher),
            matcher_rules(*matcher),
            path@,
            is_dir,
        ) || verdict == rules_verdict(
            false,
            matcher_root(*matcher),
            matcher_rules(*matcher),
            path@,
            is_dir,
        ),
{
    match matcher.matched(path, is_dir) {
        ignore::Match::None => Verdict::NoMatch,
        ignore::Match::Ignore(_) => Verdict::Ignore,
        ignore::Match::Whitelist(_) => Verdict::Whitelist,
    }
}

/// The lines of one ignore file that was found below a watched root.
pub struct IgnoreFile {
    pub lines: Vec<String>,
}

impl DeepView for IgnoreFile {
    type V = Seq<Seq<char>>;

    open spec fn deep_view(&self) -> Seq<Seq<char>> {
        self.lines.deep_view()
    }
}

/// Whether a builder takes every line.
pub open spec fn all_accepted(lines: Seq<Seq<char>>) -> bool {
    forall|i: int| 0 <= i < lines.len() ==> rule_accepted(#[trigger] lines[i])
}

/// The rules that a builder keeps of the lines, in order: the text of each
/// line that it takes and that is no comment and not empty.
pub open spec fn kept(lines: Seq<Seq<char>>) -> Seq<Seq<char>>
    decreases lines.len(),
{
    if lines.len() == 0 {
        Seq::empty()
    } else {
        match rule_text(lines.last()) {
            Some(text) => if rule_accepted(lines.last()) {
                kept(lines.drop_last()).push(text)
            } else {
                kept(lines.drop_last())
            },
            None => kept(lines.drop_last()),
        }
    }
}

/// The rules of the ignore files, in order: those of each file that is
/// well formed, none of a file with a line that no builder takes.
pub open spec fn file_rules(files: Seq<Seq<Seq<char>>>) -> Seq<Seq<char>>
    decreases files.len(),
{
    if files.len() == 0 {
        Seq::empty()
    } else if all_accepted(files.last()) {
        file_rules(files.drop_last()) + kept(files.last())
    } else {
        file_rules(files.drop_last())
    }
}

/// The rules that a filter is asked to hold: those of the ignore files,
/// unless they are bypassed, then those of the patterns that can be read.
pub open spec fn wanted_rules(
    files: Seq<Seq<Seq<char>>>,
    patterns: Seq<Seq<char>>,
    walktree: bool,
) -> Seq<Seq<char>> {
    if walktree {
        file_rules(files) + kept(patterns)
    } else {
        kept(patterns)
    }
}

/// The path filter.
pub struct Filter {
    pub matcher: ignore::gitignore::Gitignore,
    /// Whether no path is ignored, whatever the rules say.
    pub ignore_nothing: bool,
}

impl Filter {
    /// The rules of the filter, in order.
    pub open spec fn rules(&self) -> Seq<Seq<char>> {
        matcher_rules(self.matcher)
    }

    /// The root that paths are taken relative to.
    pub open spec fn root(&self) -> Seq<char> {
        matcher_root(self.matcher)
    }

    /// Whether the filter ignores the path where paths are compared as on
    /// a Unix system, if `unix`, or as elsewhere.
    pub open spec fn ignores_on(&self, unix: bool, path: Seq<char>, is_dir: bool) -> bool {
        !self.ignore_nothing && rules_verdict(unix, self.root(), self.rules(), path, is_dir)
            == Verdict::Ignore
    }

    /// Whether the filter ignores the path in some way of comparing paths.
    pub open spec fn may_ignore(&self, path: Seq<char>, is_dir: bool) -> bool {
        self.ignores_on(true, path, is_dir) || self.ignores_on(false, path, is_dir)
    }

    /// Whether the filter ignores the path in either way of comparing
    /// paths.
    pub open spec fn must_ignore(&self, path: Seq<char>, is_dir: bool) -> bool {
        self.ignores_on(true, path, is_dir) && self.ignores_on(false, path, is_dir)
    }

    /// Makes the filter for the root.
    ///
    /// `files` are the ignore files found below the root; they are
    /// bypassed unless `walktree` is set. A file with a line that cannot be
    /// read gives no rule at all. `more_patterns` come after the files'
    /// rules; one that cannot be read is left out. Comments and empty
    /// lines give no rule. Where no matcher can be built from these rules,
    /// the filter holds no rule and ignores nothing.
    pub fn create(
        root: &str,
        files: &Vec<IgnoreFile>,
        more_patterns: &Vec<String>,
        walktree: bool,
        ignore_nothing: bool,
    ) -> (filter: Filter)
        ensures
            filter.ignore_nothing == ignore_nothing,
            filter.rules() == ({
                let wanted = wanted_rules(files.deep_view(), more_patterns.deep_view(), walktree);
                if rules_build(wanted) {
                    wanted
                } else {
                    Seq::empty()
                }
            }),
            rules_build(wanted_rules(files.deep_view(), more_patterns.deep_view(), walktree)) ==> (
            filter.root() == kept_root(true, root@) || filter.root() == kept_root(false, root@)),
            !rules_build(wanted_rules(files.deep_view(), more_patterns.deep_view(), walktree))
                ==> filter.root() == Seq::<char>::empty(),
    {
        let mut builder = new_builder(root);
        let ghost kept_as = builder_root(builder);
        if walktree {
            let mut f: usize = 0;
            while f < files.len()
                invariant
                    f <= files.len(),
                    builder_root(builder) == kept_as,
                    builder_rules(builder) == file_rules(files.deep_view().take(f as int)),
                decreases files.len() - f,
            {
                proof {
                    let all = files.deep_view();
                    assert(all.take(f + 1).drop_last() == all.take(f as int));
                    assert(all.take(f + 1).last() == files@[f as int].lines.deep_view());
                }
                if well_formed(root, &files[f].lines) {
                    add_all(&mut builder, &files[f].lines);
                }
                f += 1;
            }
            proof {
                assert(files.deep_view().take(files.len() as int) == files.deep_view());
            }
        }
        let ghost from_files = builder_rules(builder);
        let mut p: usize = 0;
        proof {
            assert(from_files + Seq::<Seq<char>>::empty() == from_files);
        }
        while p < more_patterns.len()
            invariant
                p <= more_patterns.len(),
                builder_root(builder) == kept_as,
                builder_rules(builder) == from_files + kept(more_patterns.deep_view().take(p as int)),
            decreases more_patterns.len() - p,
        {
            proof {
                let all = more_patterns.deep_view();
                assert(all.take(p + 1).drop_last() == all.take(p as int));
                assert(all.take(p + 1).last() == more_patterns@[p as int]@);
            }
            let added = add_rule(&mut builder, more_patterns[p].as_str());
            proof {
                let sofar = kept(more_patterns.deep_view().take(p as int));
                match rule_text(more_patterns@[p as int]@) {
                    Some(text) => {
                        assert((from_files + sofar).push(text) == from_files + sofar.push(text));
                    },
                    None => {},
                }
            }
            p += 1;
        }
        proof {
            assert(more_patterns.deep_view().take(more_patterns.len() as int)
                == more_patterns.deep_view());
            if !walktree {
                assert(Seq::<Seq<char>>::empty() + kept(more_patterns.deep_view()) == kept(
                    more_patterns.deep_view(),
                ));
            }
        }
        let matcher = match build_matcher(&builder) {
            Ok(matcher) => matcher,
            Err(_) => empty_matcher(),
        };
        Filter { matcher, ignore_nothing }
    }

    /// Whether a change to the path is ignored. `is_dir` says whether the
    /// path is known to be a directory: rules for directories apply to
    /// those only. The answer is that of the rules in the way in which
    /// paths are compared on this system; nothing is ignored where the
    /// filter is told so.
    pub fn matched(&self, path: &str, is_dir: bool) -> (ignored: bool)
        ensures
            ignored == self.ignores_on(true, path@, is_dir) || ignored == self.ignores_on(
                false,
                path@,
                is_dir,
            ),
            self.ignore_nothing ==> !ignored,
    {
        if self.ignore_nothing {
            return false;
        }
        match match_path(&self.matcher, path, is_dir) {
            Verdict::Ignore => true,
            _ => false,
        }
    }
}

/// Whether a builder takes every line of the file.
pub fn well_formed(root: &str, lines: &Vec<String>) -> (ok: bool)
    ensures
        ok == all_accepted(lines.deep_view()),
{
    let mut scratch = new_builder(root);
    let mut i: usize = 0;
    while i < lines.len()
        invariant
            i <= lines.len(),
            forall|j: int| 0 <= j < i ==> rule_accepted(#[trigger] lines.deep_view()[j]),
        decreases lines.len() - i,
    {
        proof {
            assert(lines.deep_view()[i as int] == lines@[i as int]@);
        }
        match add_rule(&mut scratch, lines[i].as_str()) {
            Ok(_) => {},
            Err(_) => {
                return false;
            },
        }
        i += 1;
    }
    true
}

/// Adds the rules of a well-formed file to the builder.
fn add_all(builder: &mut ignore::gitignore::GitignoreBuilder, lines: &Vec<String>)
    requires
        all_accepted(lines.deep_view()),
    ensures
        builder_root(*final(builder)) == builder_root(*old(builder)),
        builder_rules(*final(builder)) == builder_rules(*old(builder)) + kept(lines.deep_view()),
{
    let mut i: usize = 0;
    proof {
        assert(builder_rules(*builder) + kept(lines.deep_view().take(0)) == builder_rules(
            *builder,
        ));
    }
    while i < lines.len()
        invariant
            i <= lines.len(),
            all_accepted(lines.deep_view()),
            builder_root(*builder) == builder_root(*old(builder)),
            builder_rules(*builder) == builder_rules(*old(builder)) + kept(
                lines.deep_view().take(i as int),
            ),
        decreases lines.len() - i,
    {
        proof {
            let all = lines.deep_view();
            let sofar = kept(all.take(i as int));
            assert(all[i as int] == lines@[i as int]@);
            assert(rule_accepted(all[i as int]));
            assert(all.take(i + 1).drop_last() == all.take(i as int));
            assert(all.take(i + 1).last() == all[i as int]);
            match rule_text(all[i as int]) {
                Some(text) => {
                    assert((builder_rules(*old(builder)) + sofar).push(text) == builder_rules(
                        *old(builder),
                    ) + sofar.push(text));
                },
                None => {},
            }
        }
        let _ = add_rule(builder, lines[i].as_str());
        i += 1;
    }
    proof {
        assert(lines.deep_view().take(lines.len() as int) == lines.deep_view());
    }
}

/// The classes of ignore files.
#[derive(Clone, Copy, Debug, PartialEq, Eq, Structural)]
pub enum IgnoreClass {
    /// An ignore file of version control, `.gitignore`.
    Vcs,
    /// An ignore file of no particular tool, `.ignore`.
    Dot,
}

/// The class of the ignore file with this name, if it is one.
pub open spec fn class_of(file_name: Seq<char>) -> Option<IgnoreClass> {
    if file_name == ".gitignore"@ {
        Some(IgnoreClass::Vcs)
    } else if file_name == ".ignore"@ {
        Some(IgnoreClass::Dot)
    } else {
        None
    }
}

/// Whether ignore files of the class are read.
pub open spec fn class_read(class: IgnoreClass, no_vcs_ignore: bool, no_ignore: bool) -> bool {
    match class {
        IgnoreClass::Vcs => !no_vcs_ignore,
        IgnoreClass::Dot => !no_ignore,
    }
}

/// Whether the tree walk goes on to a path: one below the root, by its
/// path from there, that does not lie in the build output.
pub open spec fn outside_target(relative: Option<Seq<char>>) -> bool {
    match relative {
        Some(path) => !"target/"@.is_prefix_of(path),
        None => false,
    }
}

/// The class of the ignore file with this name, if it is one.
pub fn ignore_class(file_name: &str) -> (class: Option<IgnoreClass>)
    ensures
        class == class_of(file_name@),
{
    if same_text(file_name, ".gitignore") {
        Some(IgnoreClass::Vcs)
    } else if same_text(file_name, ".ignore") {
        Some(IgnoreClass::Dot)
    } else {
        None
    }
}

/// Whether the file with this name, if it has one that can be read, is an
/// ignore file of version control.
pub fn only_gitignore(file_name: Option<&str>) -> (yes: bool)
    ensures
        yes == (file_name matches Some(name) && name@ == ".gitignore"@),
{
    match file_name {
        Some(name) => same_text(name, ".gitignore"),
        None => false,
    }
}

/// Whether the tree walk goes on to an entry. `relative` is the entry's
/// path from the root, `None` where the entry does not lie below the root
/// or its path cannot be read.
pub fn not_in_target(relative: Option<&str>) -> (yes: bool)
    ensures
        yes == outside_target(
            match relative {
                Some(path) => Some(path@),
                None => None,
            },
        ),
{
    match relative {
        Some(path) => !has_prefix(path, "target/"),
        None => false,
    }
}

/// Whether the file with this name is an ignore file that is read.
pub fn reads_ignore_file(file_name: &str, no_vcs_ignore: bool, no_ignore: bool) -> (yes: bool)
    ensures
        yes == (class_of(file_name@) matches Some(class) && class_read(
            class,
            no_vcs_ignore,
            no_ignore,
        )),
{
    match ignore_class(file_name) {
        Some(IgnoreClass::Vcs) => !no_vcs_ignore,
        Some(IgnoreClass::Dot) => !no_ignore,
        None => false,
    }
}

/// Whether an event is dropped where paths are compared as on a Unix
/// system, if `unix`, or as elsewhere: a change to a path that the filter
/// ignores.
pub open spec fn drops_on(filter: Filter, unix: bool, event: RawEvent, is_dir: bool) -> bool {
    event matches RawEvent::Path { path, .. } && filter.ignores_on(unix, path@, is_dir)
}

/// Whether the event is dropped before it reaches the debouncer: a change
/// to a path that the filter ignores. `is_dir` says whether the path is
/// known to be a directory.
pub fn filtered(filter: &Filter, event: &RawEvent, is_dir: bool) -> (dropped: bool)
    ensures
        dropped == drops_on(*filter, true, *event, is_dir) || dropped == drops_on(
            *filter,
            false,
            *event,
            is_dir,
        ),
        !(*event is Path) ==> !dropped,
{
    match event {
        RawEvent::Path { path, .. } => filter.matched(path.as_str(), is_dir),
        _ => false,
    }
}

/// A path that an event names, and whether it is known to be a directory.
#[derive(Clone, Debug, PartialEq, Eq)]
pub struct ChangedPath {
    pub path: String,
    pub is_dir: bool,
}

/// Whether an event with these paths is passed on to the debouncer: one
/// that names no path, or a path that the filter does not ignore.
pub fn is_relevant(filter: &Filter, paths: &Vec<ChangedPath>) -> (yes: bool)
    ensures
        yes ==> paths.len() == 0 || exists|i: int|
            0 <= i < paths.len() && !filter.must_ignore(
                (#[trigger] paths@[i]).path@,
                paths@[i].is_dir,
            ),
        !yes ==> paths.len() > 0 && forall|i: int|
            0 <= i < paths.len() ==> filter.may_ignore(
                (#[trigger] paths@[i]).path@,
                paths@[i].is_dir,
            ),
{
    if paths.len() == 0 {
        return true;
    }
    let mut i: usize = 0;
    while i < paths.len()
        invariant
            i <= paths.len(),
            paths.len() > 0,
            forall|j: int|
                0 <= j < i ==> filter.may_ignore((#[trigger] paths@[j]).path@, paths@[j].is_dir),
        decreases paths.len() - i,
    {
        if !filter.matched(paths[i].path.as_str(), paths[i].is_dir) {
            return true;
        }
        i += 1;
    }
    false
}

/// A rule that has a path ignored decides, unless a later rule exempts the
/// path: later rules take precedence over earlier ones.
pub proof fn lemma_ignored_unless_exempt_later(
    unix: bool,
    root: Seq<char>,
    rules: Seq<Seq<char>>,
    path: Seq<char>,
    is_dir: bool,
    i: int,
)
    requires
        0 <= i < rules.len(),
        rule_verdict(unix, root, rules[i], path, is_dir) == Verdict::Ignore,
        forall|j: int|
            i < j < rules.len() ==> rule_verdict(unix, root, #[trigger] rules[j], path, is_dir)
                != Verdict::Whitelist,
    ensures
        rules_verdict(unix, root, rules, path, is_dir) == Verdict::Ignore,
    decreases rules.len(),
{
    if i < rules.len() - 1 {
        assert(rules.last() == rules[rules.len() - 1]);
        let fewer = rules.drop_last();
        assert(fewer[i] == rules[i]);
        assert forall|j: int| i < j < fewer.len() implies rule_verdict(
            unix,
            root,
            #[trigger] fewer[j],
            path,
            is_dir,
        ) != Verdict::Whitelist by {
            assert(fewer[j] == rules[j]);
        }
        lemma_ignored_unless_exempt_later(unix, root, fewer, path, is_dir, i);
    }
}

/// A filter without rules ignores no path.
pub proof fn lemma_no_rules_ignore_nothing(filter: Filter, path: Seq<char>, is_dir: bool)
    requires
        filter.rules().len() == 0,
    ensures
        !filter.may_ignore(path, is_dir),
{
}

/// A path that a rule of the filter has ignored, and that no later rule
/// exempts, is ignored by the filter; and where nothing is to be ignored
/// the filter ignores no path, whatever its rules. This holds in each of
/// the two ways of comparing paths.
pub proof fn lemma_filter_ignores(filter: Filter, unix: bool, path: Seq<char>, is_dir: bool, i: int)
    requires
        0 <= i < filter.rules().len(),
        rule_verdict(unix, filter.root(), filter.rules()[i], path, is_dir) == Verdict::Ignore,
        forall|j: int|
            i < j < filter.rules().len() ==> rule_verdict(
                unix,
                filter.root(),
                #[trigger] filter.rules()[j],
                path,
                is_dir,
            ) != Verdict::Whitelist,
    ensures
        !filter.ignore_nothing ==> filter.ignores_on(unix, path, is_dir),
        filter.ignore_nothing ==> !filter.may_ignore(path, is_dir),
{
    lemma_ignored_unless_exempt_later(unix, filter.root(), filter.rules(), path, is_dir, i);
}

} // verus!
