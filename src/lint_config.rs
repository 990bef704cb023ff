//! The linter configuration: validation of its records, and the selection of
//! the linters to run.
use vstd::prelude::*;
use crate::linter::Linter;
use crate::pattern::{
    first_invalid, glob_valid, pattern_texts, patterns_from_strs, string_views, InvalidPattern,
    PathPattern,
};
use crate::text::{chars_of, contains_chars, has_infix};

verus! {

/// One linter record as written in the configuration file.
pub struct LintConfig {
    pub name: String,
    pub include_patterns: Vec<String>,
    pub exclude_patterns: Option<Vec<String>>,
    pub args: Vec<String>,
    pub init_args: Option<Vec<String>>,
    pub bypass_matched_file_filter: bool,
}

/// The whole configuration: its linter records in file order.
pub struct LintRunnerConfig {
    pub linters: Vec<LintConfig>,
}

/// Why a configuration could not be turned into linters.
pub enum ConfigError {
    /// The configuration file is missing or unreadable.
    ConfigNotFound { path: String },
    /// The configuration file is not a valid list of linter records.
    SchemaError { path: String, message: String },
    /// A linter has init args, none of which holds the dry-run placeholder.
    MissingDryRunPlaceholder { linter_name: String },
    /// A pattern string did not compile.
    PatternError(InvalidPattern),
}

/// The placeholder that init args must hold so that they can be dry-run.
pub open spec fn dryrun_marker() -> Seq<char> {
    "{{DRYRUN}}"@
}

/// A record without init args, or whose init args hold the placeholder in
/// at least one token.
pub open spec fn dryrun_ok(c: LintConfig) -> bool {
    c.init_args matches Some(args) ==> exists|i: int|
        0 <= i < args.len() && has_infix(#[trigger] args@[i]@, dryrun_marker())
}

/// `k` is the first record that lacks the placeholder.
pub open spec fn first_without_dryrun(cs: Seq<LintConfig>, k: int) -> bool {
    &&& 0 <= k < cs.len()
    &&& !dryrun_ok(cs[k])
    &&& forall|j: int| 0 <= j < k ==> dryrun_ok(#[trigger] cs[j])
}

/// Whether some token of `args` holds the placeholder.
fn holds_dryrun(args: &Vec<String>) -> (r: bool)
    ensures
        r == exists|i: int| 0 <= i < args.len() && has_infix(#[trigger] args@[i]@, dryrun_marker()),
{
    let marker = chars_of("{{DRYRUN}}");
    let mut i: usize = 0;
    while i < args.len()
        invariant
            i <= args.len(),
            marker@ == dryrun_marker(),
            forall|j: int| 0 <= j < i ==> !has_infix(#[trigger] args@[j]@, dryrun_marker()),
        decreases args.len() - i,
    {
        let arg = chars_of(args[i].as_str());
        if contains_chars(&arg, &marker) {
            return true;
        }
        i = i + 1;
    }
    false
}

impl LintRunnerConfig {
    /// Validates the records: a record with init args must hold the dry-run
    /// placeholder in one of them.
    pub fn new(linters: Vec<LintConfig>) -> (r: Result<LintRunnerConfig, ConfigError>)
        ensures
            r is Ok <==> forall|i: int| 0 <= i < linters.len() ==> dryrun_ok(#[trigger] linters@[i]),
            r matches Ok(c) ==> c.linters@ == linters@,
            r matches Err(e) ==> exists|k: int| first_without_dryrun(linters@, k) && (e matches
                ConfigError::MissingDryRunPlaceholder { linter_name } && linter_name@
                == linters@[k].name@),
    {
        let mut i: usize = 0;
        while i < linters.len()
            invariant
                i <= linters.len(),
                forall|j: int| 0 <= j < i ==> dryrun_ok(#[trigger] linters@[j]),
            decreases linters.len() - i,
        {
            if let Some(init_args) = &linters[i].init_args {
                if !holds_dryrun(init_args) {
                    assert(first_without_dryrun(linters@, i as int));
                    return Err(
                        ConfigError::MissingDryRunPlaceholder { linter_name: linters[i].name.clone() },
                    );
                }
            }
            i = i + 1;
        }
        Ok(LintRunnerConfig { linters })
    }
}

/// The names held by a list of strings.
pub open spec fn name_set(names: Seq<String>) -> Set<Seq<char>> {
    Set::new(|n: Seq<char>| exists|i: int| 0 <= i < names.len() && #[trigger] names[i]@ == n)
}

/// The name set of an optional list of names.
pub open spec fn opt_name_set(names: Option<Vec<String>>) -> Option<Set<Seq<char>>> {
    match names {
        Some(v) => Some(name_set(v@)),
        None => None,
    }
}

/// A linter named `name` survives `take` (when given) and then `skip` (when
/// given); names that no linter has are simply ignored.
pub open spec fn keeps(
    name: Seq<char>,
    skip: Option<Set<Seq<char>>>,
    take: Option<Set<Seq<char>>>,
) -> bool {
    &&& (take matches Some(t) ==> t.contains(name))
    &&& (skip matches Some(s) ==> !s.contains(name))
}

/// The records that survive name selection, in configuration order.
pub open spec fn select(
    cs: Seq<LintConfig>,
    skip: Option<Set<Seq<char>>>,
    take: Option<Set<Seq<char>>>,
) -> Seq<LintConfig> {
    cs.filter(|c: LintConfig| keeps(c.name@, skip, take))
}

/// The exclude patterns of a record, none when absent.
pub open spec fn exclude_texts(c: LintConfig) -> Seq<Seq<char>> {
    match c.exclude_patterns {
        Some(v) => string_views(v@),
        None => Seq::empty(),
    }
}

/// The pattern strings of a record: include patterns, then exclude patterns.
pub open spec fn config_patterns(c: LintConfig) -> Seq<Seq<char>> {
    string_views(c.include_patterns@) + exclude_texts(c)
}

/// Every pattern string of the records, in the order they are compiled.
pub open spec fn all_patterns(cs: Seq<LintConfig>) -> Seq<Seq<char>>
    decreases cs.len(),
{
    if cs.len() == 0 {
        Seq::empty()
    } else {
        all_patterns(cs.drop_last()) + config_patterns(cs.last())
    }
}

/// `l` is the linter built from record `c` read from `path`.
pub open spec fn built_from(l: Linter, c: LintConfig, path: Seq<char>) -> bool {
    &&& l.name@ == c.name@
    &&& pattern_texts(l.include_patterns@) == string_views(c.include_patterns@)
    &&& pattern_texts(l.exclude_patterns@) == exclude_texts(c)
    &&& l.commands == c.args
    &&& l.init_commands == c.init_args
    &&& l.config_path@ == path
    &&& l.bypass_matched_file_filter == c.bypass_matched_file_filter
}

proof fn lemma_all_patterns_prefix(cs: Seq<LintConfig>, m: int)
    requires
        0 <= m <= cs.len(),
    ensures
        all_patterns(cs.take(m)).is_prefix_of(all_patterns(cs)),
    decreases cs.len(),
{
    if m == cs.len() {
        assert(cs.take(m) =~= cs);
    } else {
        assert(cs.take(m) =~= cs.drop_last().take(m));
        lemma_all_patterns_prefix(cs.drop_last(), m);
    }
}

/// Whether `names` holds `name`.
fn name_in(names: &Vec<String>, name: &String) -> (r: bool)
    ensures
        r == name_set(names@).contains(name@),
{
    let mut i: usize = 0;
    while i < names.len()
        invariant
            i <= names.len(),
            forall|j: int| 0 <= j < i ==> names@[j]@ != name@,
        decreases names.len() - i,
    {
        if names[i] == *name {
            assert(names@[i as int]@ == name@);
            return true;
        }
        i = i + 1;
    }
    false
}

/// Whether the linter named `name` is selected.
fn keeps_name(name: &String, skip: &Option<Vec<String>>, take: &Option<Vec<String>>) -> (r: bool)
    ensures
        r == keeps(name@, opt_name_set(*skip), opt_name_set(*take)),
{
    let taken = match take {
        Some(t) => name_in(t, name),
        None => true,
    };
    let skipped = match skip {
        Some(s) => name_in(s, name),
        None => false,
    };
    taken && !skipped
}

/// Given the configuration records read from `config_path` and the user's
/// optional skip and take name lists, returns the linters to run, in
/// configuration order.
pub fn get_linters_from_config(
    config_path: &String,
    linters: Vec<LintConfig>,
    skipped_linters: Option<Vec<String>>,
    taken_linters: Option<Vec<String>>,
) -> (r: Result<Vec<Linter>, ConfigError>)
    ensures
        (exists|i: int| 0 <= i < linters.len() && !dryrun_ok(#[trigger] linters@[i])) ==> (r matches Err(
            ConfigError::MissingDryRunPlaceholder { linter_name },
        ) && exists|k: int| first_without_dryrun(linters@, k) && linter_name@ == linters@[k].name@),
        (forall|i: int| 0 <= i < linters.len() ==> dryrun_ok(#[trigger] linters@[i])) ==> (r is Ok
            <==> forall|k: int| 0 <= k < all_patterns(linters@).len() ==> glob_valid(
            #[trigger] all_patterns(linters@)[k],
        )),
        r matches Err(ConfigError::PatternError(e)) ==> exists|k: int|
            first_invalid(all_patterns(linters@), k) && e.raw_pattern@ == all_patterns(linters@)[k],
        r matches Ok(ls) ==> {
            let sel = select(linters@, opt_name_set(skipped_linters), opt_name_set(taken_linters));
            &&& ls.len() == sel.len()
            &&& forall|i: int| 0 <= i < ls.len() ==> built_from(#[trigger] ls@[i], sel[i], config_path@)
        },
{
    let ghost all = linters@;
    let config = match LintRunnerConfig::new(linters) {
        Ok(c) => c,
        Err(e) => {
            return Err(e);
        },
    };
    let mut rest = config.linters;
    let mut out: Vec<Linter> = Vec::new();
    let ghost skip = opt_name_set(skipped_linters);
    let ghost take = opt_name_set(taken_linters);
    let ghost mut k: int = 0;
    proof {
        lemma_all_patterns_prefix(all, all.len() as int);
        assert(all.take(all.len() as int) =~= all);
    }
    while rest.len() > 0
        invariant
            all == linters@,
            0 <= k <= all.len(),
            rest@ == all.skip(k),
            forall|i: int| 0 <= i < all.len() ==> dryrun_ok(#[trigger] all[i]),
            skip == opt_name_set(skipped_linters),
            take == opt_name_set(taken_linters),
            out.len() == select(all.take(k), skip, take).len(),
            forall|i: int| 0 <= i < out.len() ==> built_from(
                #[trigger] out@[i],
                select(all.take(k), skip, take)[i],
                config_path@,
            ),
            forall|j: int| 0 <= j < all_patterns(all.take(k)).len() ==> glob_valid(
                #[trigger] all_patterns(all.take(k))[j],
            ),
        decreases rest.len(),
    {
        let c = rest.remove(0);
        proof {
            assert(c == all[k]);
            assert(all.take(k + 1).drop_last() =~= all.take(k));
            assert(all.take(k + 1).last() == c);
            lemma_all_patterns_prefix(all, k + 1);
        }
        let ghost done = all_patterns(all.take(k));
        let include_patterns = match patterns_from_strs(&c.include_patterns) {
            Ok(ps) => ps,
            Err(e) => {
                proof {
                    let j = choose|j: int| first_invalid(string_views(c.include_patterns@), j);
                    let at = done.len() + j;
                    assert(all_patterns(all.take(k + 1))[at] == all_patterns(all)[at]);
                    assert(all_patterns(all.take(k + 1))[at] == string_views(c.include_patterns@)[j]);
                    assert forall|i: int| 0 <= i < at implies glob_valid(#[trigger] all_patterns(all)[i]) by {
                        assert(all_patterns(all.take(k + 1))[i] == all_patterns(all)[i]);
                        if i >= done.len() {
                            assert(all_patterns(all.take(k + 1))[i] == string_views(c.include_patterns@)[i - done.len()]);
                        }
                    }
                    assert(first_invalid(all_patterns(all), at));
                }
                return Err(ConfigError::PatternError(e));
            },
        };
        let exclude_patterns: Vec<PathPattern> = match &c.exclude_patterns {
            Some(strs) => match patterns_from_strs(strs) {
                Ok(ps) => ps,
                Err(e) => {
                    proof {
                        let j = choose|j: int| first_invalid(string_views(strs@), j);
                        let inc = string_views(c.include_patterns@).len();
                        let at = done.len() + inc + j;
                        assert(all_patterns(all.take(k + 1))[at] == all_patterns(all)[at]);
                        assert(all_patterns(all.take(k + 1))[at] == string_views(strs@)[j]);
                        assert forall|i: int| 0 <= i < at implies glob_valid(#[trigger] all_patterns(all)[i]) by {
                            assert(all_patterns(all.take(k + 1))[i] == all_patterns(all)[i]);
                            if i >= done.len() + inc {
                                assert(all_patterns(all.take(k + 1))[i] == string_views(strs@)[i - done.len() - inc]);
                            } else if i >= done.len() {
                                assert(all_patterns(all.take(k + 1))[i] == string_views(c.include_patterns@)[i - done.len()]);
                            }
                        }
                        assert(first_invalid(all_patterns(all), at));
                    }
                    return Err(ConfigError::PatternError(e));
                },
            },
            None => Vec::new(),
        };
        proof {
            assert(pattern_texts(exclude_patterns@) =~= exclude_texts(c));
            assert forall|j: int| 0 <= j < all_patterns(all.take(k + 1)).len() implies glob_valid(
                #[trigger] all_patterns(all.take(k + 1))[j],
            ) by {
                if j >= done.len() {
                    let t = j - done.len();
                    if t < string_views(c.include_patterns@).len() {
                        assert(string_views(c.include_patterns@)[t] == pattern_texts(include_patterns@)[t]);
                    } else {
                        let u = t - string_views(c.include_patterns@).len();
                        assert(exclude_texts(c)[u] == pattern_texts(exclude_patterns@)[u]);
                    }
                }
            }
            reveal(Seq::filter);
        }
        if keeps_name(&c.name, &skipped_linters, &taken_linters) {
            let ghost prev = out@;
            out.push(
                Linter {
                    name: c.name,
                    include_patterns,
                    exclude_patterns,
                    commands: c.args,
                    init_commands: c.init_args,
                    config_path: config_path.clone(),
                    bypass_matched_file_filter: c.bypass_matched_file_filter,
                },
            );
            proof {
                assert(select(all.take(k + 1), skip, take) == select(all.take(k), skip, take).push(c));
                assert forall|i: int| 0 <= i < out.len() implies built_from(
                    #[trigger] out@[i],
                    select(all.take(k + 1), skip, take)[i],
                    config_path@,
                ) by {
                    if i < prev.len() {
                        assert(out@[i] == prev[i]);
                    }
                }
            }
        } else {
            proof {
                assert(select(all.take(k + 1), skip, take) == select(all.take(k), skip, take));
            }
        }
        proof {
            assert(rest@ =~= all.skip(k + 1));
            k = k + 1;
        }
    }
    proof {
        assert(all.take(k) =~= all);
    }
    Ok(out)
}

proof fn lemma_filter_none(cs: Seq<LintConfig>, p: spec_fn(LintConfig) -> bool)
    requires
        forall|c: LintConfig| !#[trigger] p(c),
    ensures
        cs.filter(p).len() == 0,
    decreases cs.len(),
{
    reveal(Seq::filter);
    if cs.len() > 0 {
        lemma_filter_none(cs.drop_last(), p);
    }
}

/// Skipping a single name `n` (with no take list) removes exactly the records
/// named `n` and keeps all others in configuration order.
pub proof fn lemma_skip_one(cs: Seq<LintConfig>, n: Seq<char>)
    ensures
        select(cs, Some(set![n]), None) == cs.filter(|c: LintConfig| c.name@ != n),
{
    let f = |c: LintConfig| keeps(c.name@, Some(set![n]), None);
    let g = |c: LintConfig| c.name@ != n;
    assert(f =~= g);
}

/// Taking a single name `n` (with no skip list) keeps exactly the records
/// named `n`, in configuration order; none when no record has that name.
pub proof fn lemma_take_one(cs: Seq<LintConfig>, n: Seq<char>)
    ensures
        select(cs, None, Some(set![n])) == cs.filter(|c: LintConfig| c.name@ == n),
        (forall|i: int| 0 <= i < cs.len() ==> cs[i].name@ != n) ==> select(
            cs,
            None,
            Some(set![n]),
        ).len() == 0,
{
    let f = |c: LintConfig| keeps(c.name@, None, Some(set![n]));
    let g = |c: LintConfig| c.name@ == n;
    assert(f =~= g);
    if select(cs, None, Some(set![n])).len() > 0 {
        cs.lemma_filter_pred(g, 0);
        let x = cs.filter(g)[0];
        assert(cs.filter(g).contains(x));
        cs.lemma_filter_contains_rev(g, x);
    }
}

/// Take is applied before skip: taking and skipping the same name `n` leaves
/// nothing selected.
pub proof fn lemma_take_then_skip(cs: Seq<LintConfig>, n: Seq<char>)
    ensures
        select(cs, Some(set![n]), Some(set![n])).len() == 0,
{
    lemma_filter_none(cs, |c: LintConfig| keeps(c.name@, Some(set![n]), Some(set![n])));
}

} // verus!
