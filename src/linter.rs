//! A linter ready to run: its name, its compiled file filter and its commands.
use vstd::prelude::*;
use crate::pattern::{glob_matches, matches_any, PathPattern};

verus! {

/// One linter from the configuration, with its patterns compiled.
pub struct Linter {
    pub name: String,
    pub include_patterns: Vec<PathPattern>,
    pub exclude_patterns: Vec<PathPattern>,
    pub commands: Vec<String>,
    pub init_commands: Option<Vec<String>>,
    pub config_path: String,
    pub bypass_matched_file_filter: bool,
}

/// Some pattern of `ps` matches `path`.
pub open spec fn any_matches(ps: Seq<PathPattern>, path: Seq<char>) -> bool {
    exists|i: int| 0 <= i < ps.len() && glob_matches(#[trigger] ps[i]@, path)
}

impl Linter {
    /// The linter's file filter: everything when it bypasses the filter,
    /// otherwise paths that match an include pattern and no exclude pattern.
    pub open spec fn accepts(&self, path: Seq<char>) -> bool {
        self.bypass_matched_file_filter || (any_matches(self.include_patterns@, path)
            && !any_matches(self.exclude_patterns@, path))
    }

    /// Whether this linter is to be run on `path`.
    pub fn should_lint(&self, path: &str) -> (r: bool)
        ensures
            r == self.accepts(path@),
    {
        if self.bypass_matched_file_filter {
            return true;
        }
        matches_any(&self.include_patterns, path) && !matches_any(&self.exclude_patterns, path)
    }
}

/// A linter that bypasses the file filter accepts every path, whatever its
/// patterns say.
pub proof fn lemma_bypass_accepts_all(l: Linter, path: Seq<char>)
    requires
        l.bypass_matched_file_filter,
    ensures
        l.accepts(path),
{
}

/// A path that matches both an include and an exclude pattern is not
/// accepted by a linter that filters files.
pub proof fn lemma_exclude_wins(l: Linter, path: Seq<char>, i: int, j: int)
    requires
        !l.bypass_matched_file_filter,
        0 <= i < l.include_patterns.len(),
        0 <= j < l.exclude_patterns.len(),
        glob_matches(l.include_patterns@[i]@, path),
        glob_matches(l.exclude_patterns@[j]@, path),
    ensures
        !l.accepts(path),
{
}

} // verus!
