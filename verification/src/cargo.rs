//! Finding the directory of the project.

use vstd::prelude::*;
use crate::text::same_text;

verus! {

/// How many directories are searched for a manifest.
pub const MAX_ANCESTORS: usize = 10;

/// Whether one of the names is the manifest's.
pub open spec fn has_manifest(names: Seq<Seq<char>>) -> bool {
    exists|i: int| 0 <= i < names.len() && #[trigger] names[i] == "Cargo.toml"@
}

/// Whether `at` is the closest directory with a manifest among those that
/// are searched.
pub open spec fn is_root(ancestors: Seq<Seq<Seq<char>>>, at: int) -> bool {
    &&& 0 <= at < ancestors.len()
    &&& at < MAX_ANCESTORS
    &&& has_manifest(ancestors[at])
    &&& forall|j: int| 0 <= j < at ==> !has_manifest(#[trigger] ancestors[j])
}

/// Whether a directory with these entries holds a manifest.
pub fn contains_manifest(names: &Vec<String>) -> (found: bool)
    ensures
        found == has_manifest(names.deep_view()),
{
    let mut i: usize = 0;
    while i < names.len()
        invariant
            i <= names.len(),
            forall|j: int| 0 <= j < i ==> #[trigger] names.deep_view()[j] != "Cargo.toml"@,
        decreases names.len() - i,
    {
        proof {
            assert(names.deep_view()[i as int] == names@[i as int]@);
        }
        if same_text(names[i].as_str(), "Cargo.toml") {
            return true;
        }
        i += 1;
    }
    false
}

/// The closest directory that holds a manifest. `ancestors` holds the
/// entries of the current directory, then those of its parent, and so on
/// upwards. Returns the position of the first among the first ten that
/// holds a manifest, or `None` where none of them does.
pub fn root(ancestors: &Vec<Vec<String>>) -> (found: Option<usize>)
    ensures
        match found {
            Some(at) => is_root(ancestors.deep_view(), at as int),
            None => forall|at: int| !is_root(ancestors.deep_view(), at),
        },
{
    let mut i: usize = 0;
    while i < ancestors.len() && i < MAX_ANCESTORS
        invariant
            i <= ancestors.len(),
            i <= MAX_ANCESTORS,
            forall|j: int| 0 <= j < i ==> !has_manifest(#[trigger] ancestors.deep_view()[j]),
        decreases ancestors.len() - i,
    {
        proof {
            assert(ancestors.deep_view()[i as int] == ancestors@[i as int].deep_view());
        }
        if contains_manifest(&ancestors[i]) {
            return Some(i);
        }
        i += 1;
    }
    None
}

} // verus!
