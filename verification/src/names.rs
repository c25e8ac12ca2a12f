//! The file names whose changes never start a compile.

use vstd::prelude::*;
use vstd::string::StringExecFns;

verus! {

/// Whether the regular expression `pattern` matches somewhere in `text`, or
/// `None` where `pattern` is no regular expression.
pub uninterp spec fn regex_is_match(pattern: Seq<char>, text: Seq<char>) -> Option<bool>;

/// Searches `text` for a match of `pattern`.
///
/// Trusted: `regex::Regex::new`, then `Regex::is_match` on what it made.
/// The contract only gives the result a name: whether there is a match, or
/// `None` where the pattern does not compile, as a function of the pattern
/// and the text alone.
#[verifier::external_body]
fn pattern_matches(pattern: &str, text: &str) -> (found: Option<bool>)
    ensures
        found == regex_is_match(pattern@, text@),
{
    match regex::Regex::new(pattern) {
        Ok(re) => Some(re.is_match(text)),
        Err(_) => None,
    }
}

/// The patterns of ignored names: a hidden file, and a backup file with a
/// tilde at either end.
pub open spec fn ignored_patterns() -> Seq<Seq<char>> {
    seq!["^\\."@, "~$"@, "^~"@]
}

/// Whether a pattern of the list matches in `name`.
pub open spec fn any_matches(patterns: Seq<Seq<char>>, name: Seq<char>) -> bool {
    exists|i: int|
        0 <= i < patterns.len() && regex_is_match(#[trigger] patterns[i], name) == Some(true)
}

/// The patterns of ignored names.
pub fn filenames() -> (patterns: Vec<String>)
    ensures
        patterns.deep_view() == ignored_patterns(),
{
    let mut patterns: Vec<String> = Vec::new();
    patterns.push(String::from_str("^\\."));
    patterns.push(String::from_str("~$"));
    patterns.push(String::from_str("^~"));
    proof {
        assert(patterns.deep_view() =~= ignored_patterns());
    }
    patterns
}

/// Whether a pattern of the list matches in `name`. A pattern that does
/// not compile matches nothing.
pub fn matches_any(patterns: &Vec<String>, name: &str) -> (found: bool)
    ensures
        found == any_matches(patterns.deep_view(), name@),
{
    let mut i: usize = 0;
    while i < patterns.len()
        invariant
            i <= patterns.len(),
            forall|j: int|
                0 <= j < i ==> regex_is_match(#[trigger] patterns.deep_view()[j], name@) != Some(
                    true,
                ),
        decreases patterns.len() - i,
    {
        proof {
            assert(patterns.deep_view()[i as int] == patterns@[i as int]@);
        }
        match pattern_matches(patterns[i].as_str(), name) {
            Some(true) => {
                return true;
            },
            _ => {},
        }
        i += 1;
    }
    false
}

/// Whether a change to the file named `f` is ignored.
pub fn filename(f: &String) -> (ignored: bool)
    ensures
        ignored == any_matches(ignored_patterns(), f@),
{
    let patterns = filenames();
    matches_any(&patterns, f.as_str())
}

} // verus!
