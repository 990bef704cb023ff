//! Shell-style path patterns, compiled by the `glob` crate.
use vstd::prelude::*;

verus! {

#[verifier::external_type_specification]
#[verifier::external_body]
pub struct ExGlobPattern(glob::Pattern);

#[verifier::external_type_specification]
#[verifier::external_body]
pub struct ExGlobPatternError(glob::PatternError);

/// Whether `glob` accepts `pattern` as a well-formed pattern.
pub uninterp spec fn glob_valid(pattern: Seq<char>) -> bool;

/// Whether the compiled `pattern` matches `path` under glob's default options
/// (`*` and `?` may cross `/`, case-sensitive).
pub uninterp spec fn glob_matches(pattern: Seq<char>, path: Seq<char>) -> bool;

/// Text with none of glob's metacharacters `*`, `?`, `[`.
pub open spec fn is_literal(p: Seq<char>) -> bool {
    forall|i: int| 0 <= i < p.len() ==> #[trigger] p[i] != '*' && p[i] != '?' && p[i] != '['
}

/// A compiled pattern together with the text it was compiled from.
pub struct PathPattern {
    raw: String,
    compiled: glob::Pattern,
}

impl View for PathPattern {
    type V = Seq<char>;

    /// The text the pattern was compiled from.
    closed spec fn view(&self) -> Seq<char> {
        self.raw@
    }
}

/// A pattern string that failed to compile.
pub struct InvalidPattern {
    pub raw_pattern: String,
    pub cause: String,
}

/// Relies on `glob::Pattern::new`: it fails exactly on malformed wildcards
/// (`***`, a `**` inside a path component) or unterminated `[` ranges, so text
/// without metacharacters always compiles.
#[verifier::external_body]
fn compile_glob(raw: &String) -> (r: Result<PathPattern, glob::PatternError>)
    ensures
        r is Ok <==> glob_valid(raw@),
        r matches Ok(p) ==> p@ == raw@,
        is_literal(raw@) ==> r is Ok,
{
    match glob::Pattern::new(raw) {
        Ok(compiled) => Ok(PathPattern { raw: raw.clone(), compiled }),
        Err(e) => Err(e),
    }
}

/// Relies on `glob::Pattern::matches` (default match options): a pattern made
/// of plain characters only matches its own text.
#[verifier::external_body]
fn glob_match(p: &PathPattern, path: &str) -> (r: bool)
    ensures
        r == glob_matches(p@, path@),
        is_literal(p@) && path@ == p@ ==> r,
{
    p.compiled.matches(path)
}

impl PathPattern {
    /// Compiles one pattern string.
    pub fn compile(raw: &String) -> (r: Result<PathPattern, InvalidPattern>)
        ensures
            r is Ok <==> glob_valid(raw@),
            r matches Ok(p) ==> p@ == raw@,
            r matches Err(e) ==> e.raw_pattern@ == raw@,
            is_literal(raw@) ==> r is Ok,
    {
        match compile_glob(raw) {
            Ok(p) => Ok(p),
            Err(e) => Err(InvalidPattern { raw_pattern: raw.clone(), cause: e.to_string() }),
        }
    }

    /// Whether `path` matches this pattern.
    pub fn matches(&self, path: &str) -> (r: bool)
        ensures
            r == glob_matches(self@, path@),
            is_literal(self@) && path@ == self@ ==> r,
    {
        glob_match(self, path)
    }
}

/// The texts of a sequence of compiled patterns.
pub open spec fn pattern_texts(ps: Seq<PathPattern>) -> Seq<Seq<char>> {
    ps.map_values(|p: PathPattern| p@)
}

/// The views of a sequence of strings.
pub open spec fn string_views(v: Seq<String>) -> Seq<Seq<char>> {
    v.map_values(|s: String| s@)
}

/// `k` is the first string of `strs` that glob rejects.
pub open spec fn first_invalid(strs: Seq<Seq<char>>, k: int) -> bool {
    &&& 0 <= k < strs.len()
    &&& !glob_valid(strs[k])
    &&& forall|j: int| 0 <= j < k ==> glob_valid(#[trigger] strs[j])
}

/// Compiles every pattern string; the first one that fails to compile fails
/// the whole batch.
pub fn patterns_from_strs(pattern_strs: &Vec<String>) -> (r: Result<Vec<PathPattern>, InvalidPattern>)
    ensures
        r is Ok <==> forall|i: int| 0 <= i < pattern_strs.len() ==> glob_valid(#[trigger] pattern_strs@[i]@),
        r matches Ok(ps) ==> pattern_texts(ps@) == string_views(pattern_strs@),
        r matches Err(e) ==> exists|k: int| first_invalid(string_views(pattern_strs@), k)
            && e.raw_pattern@ == pattern_strs@[k]@,
{
    let mut ps: Vec<PathPattern> = Vec::new();
    let mut i: usize = 0;
    while i < pattern_strs.len()
        invariant
            i <= pattern_strs.len(),
            pattern_texts(ps@) == string_views(pattern_strs@).take(i as int),
            forall|j: int| 0 <= j < i ==> glob_valid(#[trigger] pattern_strs@[j]@),
        decreases pattern_strs.len() - i,
    {
        match PathPattern::compile(&pattern_strs[i]) {
            Ok(p) => {
                let ghost prev = ps@;
                ps.push(p);
                assert(ps@ == prev.push(p));
                assert(pattern_texts(prev).len() == i);
                assert forall|j: int| 0 <= j < i + 1 implies pattern_texts(ps@)[j]
                    == string_views(pattern_strs@)[j] by {
                    if j < i {
                        assert(pattern_texts(prev)[j] == string_views(pattern_strs@).take(i as int)[j]);
                    }
                }
                assert(pattern_texts(ps@) =~= string_views(pattern_strs@).take(i + 1));
            },
            Err(e) => {
                assert(first_invalid(string_views(pattern_strs@), i as int));
                return Err(e);
            },
        }
        i = i + 1;
    }
    assert(string_views(pattern_strs@).take(i as int) =~= string_views(pattern_strs@));
    Ok(ps)
}

/// Whether `path` matches at least one of `patterns`.
pub fn matches_any(patterns: &Vec<PathPattern>, path: &str) -> (r: bool)
    ensures
        r == exists|i: int| 0 <= i < patterns.len() && glob_matches(#[trigger] patterns@[i]@, path@),
{
    let mut i: usize = 0;
    while i < patterns.len()
        invariant
            i <= patterns.len(),
            forall|j: int| 0 <= j < i ==> !glob_matches(#[trigger] patterns@[j]@, path@),
        decreases patterns.len() - i,
    {
        if patterns[i].matches(path) {
            return true;
        }
        i = i + 1;
    }
    false
}

} // verus!
