//! The Sapling adapter of the version-control interface: the command lines it
//! runs and the parsing of what they print. Running the commands is left to
//! the caller, which hands back each command's exit status and output.
use vstd::prelude::*;
use vstd::utf8::{decode_utf8, encode_utf8_decode_utf8, valid_utf8};
use crate::pattern::string_views;
use crate::text::{chars_of, is_space, push_chars, string_from, trim, trim_start, trimmed};
use crate::text::char_is_space;
use vstd::string::{StringExecFns, StringSliceAdditionalSpecFns};

verus! {

/// What a finished command handed back.
pub struct CommandOutput {
    pub success: bool,
    pub stdout: Vec<u8>,
    pub stderr: Vec<u8>,
}

/// Why a version-control query failed.
pub enum VcsError {
    /// The root-discovery command failed or printed no absolute path.
    NotARepository,
    /// A command exited with failure, printed invalid UTF-8, or printed no
    /// usable answer.
    VcsCommandFailed { command: Vec<String>, stderr: Vec<u8> },
    /// A changed file could not be confirmed to exist.
    PathResolutionError { raw_line: String },
}

/// Relies on `std::str::from_utf8`: it succeeds exactly on valid UTF-8 and
/// then views the same bytes as a string.
#[verifier::external_body]
fn utf8_text(bytes: &[u8]) -> (r: Option<&str>)
    ensures
        r is Some <==> valid_utf8(bytes@),
        r matches Some(s) ==> s.spec_bytes() == bytes@,
{
    std::str::from_utf8(bytes).ok()
}

/// The characters of `bytes` when they are valid UTF-8.
fn decoded(bytes: &Vec<u8>) -> (r: Option<Vec<char>>)
    ensures
        r is Some <==> valid_utf8(bytes@),
        r matches Some(cs) ==> cs@ == decode_utf8(bytes@),
{
    match utf8_text(bytes.as_slice()) {
        Some(s) => {
            proof {
                encode_utf8_decode_utf8(s@);
            }
            Some(chars_of(s))
        },
        None => None,
    }
}

/// A path that starts at the file-system root.
pub open spec fn is_absolute(p: Seq<char>) -> bool {
    p.len() > 0 && p[0] == '/'
}

/// The trimmed text a successful command printed, if it is valid UTF-8.
pub open spec fn answer(out: CommandOutput) -> Option<Seq<char>> {
    if out.success && valid_utf8(out.stdout@) {
        Some(trim(decode_utf8(out.stdout@)))
    } else {
        None
    }
}

/// A status code: one upper-case letter, or `?` for an untracked file.
pub open spec fn is_status_code(c: char) -> bool {
    ('A' <= c && c <= 'Z') || c == '?'
}

/// A status line without its leading status code and the white space after
/// it; a line without such a prefix is left as it is.
pub open spec fn strip_status(l: Seq<char>) -> Seq<char> {
    if l.len() >= 2 && is_status_code(l[0]) && is_space(l[1]) {
        trim_start(l.drop_first())
    } else {
        l
    }
}

/// A status line that names a file still present: not a deletion, and with
/// a path after the prefix.
pub open spec fn names_present_file(l: Seq<char>) -> bool {
    !(l.len() > 0 && l[0] == 'D') && strip_status(l).len() > 0
}

/// `rel` resolved against `root`; an absolute `rel` stands for itself.
pub open spec fn join(root: Seq<char>, rel: Seq<char>) -> Seq<char> {
    if is_absolute(rel) {
        rel
    } else if root.len() > 0 && root.last() == '/' {
        root + rel
    } else {
        root + seq!['/'] + rel
    }
}

/// The pieces of `s` between newline characters (an empty text is one
/// empty piece).
pub open spec fn split_lines(s: Seq<char>) -> Seq<Seq<char>>
    decreases s.len(),
{
    if s.len() == 0 {
        seq![Seq::empty()]
    } else {
        let prev = split_lines(s.drop_last());
        if s.last() == '\n' {
            prev.push(Seq::empty())
        } else {
            prev.update(prev.len() - 1, prev.last().push(s.last()))
        }
    }
}

/// The absolute paths named by a sequence of status lines.
pub open spec fn line_paths(root: Seq<char>, lines: Seq<Seq<char>>) -> Set<Seq<char>>
    decreases lines.len(),
{
    if lines.len() == 0 {
        Set::empty()
    } else {
        let prev = line_paths(root, lines.drop_last());
        if names_present_file(lines.last()) {
            prev.insert(join(root, strip_status(lines.last())))
        } else {
            prev
        }
    }
}

/// The files that the status text `text` reports as added or modified.
pub open spec fn changed_paths(root: Seq<char>, text: Seq<char>) -> Set<Seq<char>> {
    line_paths(root, split_lines(text))
}

proof fn lemma_split_lines_nonempty(s: Seq<char>)
    ensures
        split_lines(s).len() >= 1,
    decreases s.len(),
{
    if s.len() > 0 {
        lemma_split_lines_nonempty(s.drop_last());
    }
}

/// The `String`s of a list of literals.
fn strings_of(parts: &[&str]) -> (r: Vec<String>)
    ensures
        string_views(r@) == parts@.map_values(|p: &str| p@),
{
    let mut r: Vec<String> = Vec::new();
    let mut i: usize = 0;
    while i < parts.len()
        invariant
            i <= parts.len(),
            string_views(r@) == parts@.map_values(|p: &str| p@).take(i as int),
        decreases parts.len() - i,
    {
        let ghost prev = r@;
        r.push(String::from_str(parts[i]));
        assert(string_views(r@) =~= string_views(prev).push(parts@[i as int]@));
        assert(string_views(r@) =~= parts@.map_values(|p: &str| p@).take(i + 1));
        i = i + 1;
    }
    assert(parts@.map_values(|p: &str| p@).take(i as int) =~= parts@.map_values(|p: &str| p@));
    r
}

/// Index just past the status prefix of `l`, 0 when it has none.
fn status_prefix_len(l: &Vec<char>) -> (k: usize)
    ensures
        k <= l.len(),
        l@.skip(k as int) == strip_status(l@),
{
    let n = l.len();
    if n >= 2 && (('A' <= l[0] && l[0] <= 'Z') || l[0] == '?') && char_is_space(l[1]) {
        let mut k: usize = 1;
        assert(l@.skip(1) == l@.drop_first());
        while k < n && char_is_space(l[k])
            invariant
                1 <= k <= n == l.len(),
                trim_start(l@.drop_first()) == trim_start(l@.skip(k as int)),
            decreases n - k,
        {
            assert(l@.skip(k as int).drop_first() == l@.skip(k + 1));
            k = k + 1;
        }
        k
    } else {
        assert(l@.skip(0) == l@);
        0
    }
}

/// Whether `v` holds a string equal to `s`.
fn holds(v: &Vec<String>, s: &String) -> (r: bool)
    ensures
        r == string_views(v@).contains(s@),
{
    let mut i: usize = 0;
    while i < v.len()
        invariant
            i <= v.len(),
            forall|j: int| 0 <= j < i ==> v@[j]@ != s@,
        decreases v.len() - i,
    {
        if v[i] == *s {
            assert(string_views(v@)[i as int] == s@);
            return true;
        }
        i = i + 1;
    }
    false
}

/// The path that status line `l` names once its first `k` characters are
/// dropped, resolved against the root `root`.
fn resolve(root: &Vec<char>, l: &Vec<char>, k: usize) -> (r: String)
    requires
        k <= l.len(),
    ensures
        r@ == join(root@, l@.skip(k as int)),
{
    let n = l.len();
    if k < n && l[k] == '/' {
        string_from(l, k, n)
    } else {
        let mut s = string_from(root, 0, root.len());
        assert(root@.subrange(0, root.len() as int) == root@);
        if !(root.len() > 0 && root[root.len() - 1] == '/') {
            s.push('/');
        }
        push_chars(&mut s, l, k, n);
        assert(l@.subrange(k as int, n as int) == l@.skip(k as int));
        s
    }
}

/// Adds the path that status line `l` names, if any, to `files`, keeping
/// `files` free of duplicates.
fn add_line(root: &Vec<char>, l: &Vec<char>, files: &mut Vec<String>)
    requires
        string_views(old(files)@).no_duplicates(),
    ensures
        string_views(final(files)@).no_duplicates(),
        string_views(final(files)@).to_set() == if names_present_file(l@) {
            string_views(old(files)@).to_set().insert(join(root@, strip_status(l@)))
        } else {
            string_views(old(files)@).to_set()
        },
{
    if l.len() > 0 && l[0] == 'D' {
        return;
    }
    let k = status_prefix_len(l);
    if k == l.len() {
        return;
    }
    let path = resolve(root, l, k);
    if holds(files, &path) {
        assert(string_views(files@).to_set().insert(path@) =~= string_views(files@).to_set());
        return;
    }
    let ghost prev = string_views(files@);
    files.push(path);
    proof {
        assert(string_views(files@) =~= prev.push(path@));
        prev.lemma_push_to_set_commute(path@);
        assert forall|a: int, b: int| 0 <= a < b < string_views(files@).len() implies string_views(
            files@,
        )[a] != string_views(files@)[b] by {
            if b == prev.len() {
                assert(prev[a] == string_views(files@)[a]);
            }
        }
    }
}

/// A Sapling working copy, known by the absolute path of its root.
pub struct Repo {
    root: String,
}

impl View for Repo {
    type V = Seq<char>;

    /// The absolute path of the repository root.
    closed spec fn view(&self) -> Seq<char> {
        self.root@
    }
}

impl Repo {
    /// The command that prints the repository root.
    pub fn root_command() -> (r: Vec<String>)
        ensures
            string_views(r@) == seq!["sl"@, "root"@],
    {
        let r = strings_of(&["sl", "root"]);
        assert(seq!["sl", "root"].map_values(|p: &str| p@) =~= seq!["sl"@, "root"@]);
        r
    }

    /// The repository whose root the root command printed.
    pub fn new(out: &CommandOutput) -> (r: Result<Repo, VcsError>)
        ensures
            r is Ok <==> (answer(*out) matches Some(a) && is_absolute(a)),
            r matches Ok(repo) ==> answer(*out) == Some(repo@),
            r matches Err(e) ==> e is NotARepository,
    {
        if !out.success {
            return Err(VcsError::NotARepository);
        }
        match decoded(&out.stdout) {
            Some(cs) => {
                let root = trimmed(&cs);
                let rc = chars_of(root.as_str());
                if rc.len() > 0 && rc[0] == '/' {
                    Ok(Repo { root })
                } else {
                    Err(VcsError::NotARepository)
                }
            },
            None => Err(VcsError::NotARepository),
        }
    }

    /// The absolute path of the repository root.
    pub fn root(&self) -> (r: &str)
        ensures
            r@ == self@,
    {
        self.root.as_str()
    }

    /// The command that prints the current position.
    pub fn head_command(&self) -> (r: Vec<String>)
        ensures
            string_views(r@) == seq!["sl"@, "whereami"@],
    {
        let r = strings_of(&["sl", "whereami"]);
        assert(seq!["sl", "whereami"].map_values(|p: &str| p@) =~= seq!["sl"@, "whereami"@]);
        r
    }

    /// The current position, from what the head command printed.
    pub fn get_head(&self, out: &CommandOutput) -> (r: Result<String, VcsError>)
        ensures
            r is Ok <==> answer(*out) is Some,
            r matches Ok(h) ==> answer(*out) == Some(h@),
            r matches Err(e) ==> (e matches VcsError::VcsCommandFailed { command, stderr }
                && string_views(command@) == seq!["sl"@, "whereami"@] && stderr@ == out.stderr@),
    {
        if out.success {
            if let Some(cs) = decoded(&out.stdout) {
                return Ok(trimmed(&cs));
            }
        }
        Err(VcsError::VcsCommandFailed { command: self.head_command(), stderr: out.stderr.clone() })
    }

    /// The command that prints the nearest common ancestor of the current
    /// position and `merge_base_with`.
    pub fn merge_base_command(&self, merge_base_with: &str) -> (r: Vec<String>)
        ensures
            string_views(r@) == seq![
                "sl"@,
                "log"@,
                "--rev=ancestor(., "@ + merge_base_with@ + ")"@,
                "--template={node}"@,
            ],
    {
        let mut rev = String::from_str("--rev=ancestor(., ");
        rev.append(merge_base_with);
        rev.append(")");
        let mut r = Vec::new();
        r.push(String::from_str("sl"));
        r.push(String::from_str("log"));
        r.push(rev);
        r.push(String::from_str("--template={node}"));
        assert(string_views(r@) =~= seq![
            "sl"@,
            "log"@,
            "--rev=ancestor(., "@ + merge_base_with@ + ")"@,
            "--template={node}"@,
        ]);
        r
    }

    /// The merge base with `merge_base_with`, from what the merge-base
    /// command printed; an empty answer is a failure.
    pub fn get_merge_base_with(&self, merge_base_with: &str, out: &CommandOutput) -> (r: Result<
        String,
        VcsError,
    >)
        ensures
            r is Ok <==> (answer(*out) matches Some(a) && a.len() > 0),
            r matches Ok(h) ==> answer(*out) == Some(h@),
            r matches Err(e) ==> (e matches VcsError::VcsCommandFailed { command, stderr }
                && string_views(command@) == seq![
                "sl"@,
                "log"@,
                "--rev=ancestor(., "@ + merge_base_with@ + ")"@,
                "--template={node}"@,
            ] && stderr@ == out.stderr@),
    {
        if out.success {
            if let Some(cs) = decoded(&out.stdout) {
                let base = trimmed(&cs);
                let bc = chars_of(base.as_str());
                if bc.len() > 0 {
                    return Ok(base);
                }
            }
        }
        Err(
            VcsError::VcsCommandFailed {
                command: self.merge_base_command(merge_base_with),
                stderr: out.stderr.clone(),
            },
        )
    }

    /// The status command, scoped to the revision `relative_to` when given.
    pub fn changed_files_command(&self, relative_to: Option<&str>) -> (r: Vec<String>)
        ensures
            string_views(r@) == match relative_to {
                Some(rev) => seq!["sl"@, "status"@, "--rev="@ + rev@],
                None => seq!["sl"@, "status"@],
            },
    {
        let mut r = Vec::new();
        r.push(String::from_str("sl"));
        r.push(String::from_str("status"));
        match relative_to {
            Some(rev) => {
                let mut arg = String::from_str("--rev=");
                arg.append(rev);
                r.push(arg);
                assert(string_views(r@) =~= seq!["sl"@, "status"@, "--rev="@ + rev@]);
            },
            None => {
                assert(string_views(r@) =~= seq!["sl"@, "status"@]);
            },
        }
        r
    }
    /// The files the status command reports as added or modified, as
    /// absolute paths without duplicates. Lines of deleted files are
    /// dropped; other status codes are kept.
    pub fn get_changed_files(&self, relative_to: Option<&str>, out: &CommandOutput) -> (r: Result<
        Vec<String>,
        VcsError,
    >)
        ensures
            r is Ok <==> (out.success && valid_utf8(out.stdout@)),
            r matches Ok(fs) ==> string_views(fs@).no_duplicates() && string_views(fs@).to_set()
                == changed_paths(self@, decode_utf8(out.stdout@)),
            r matches Err(e) ==> (e matches VcsError::VcsCommandFailed { command, stderr }
                && string_views(command@) == match relative_to {
                Some(rev) => seq!["sl"@, "status"@, "--rev="@ + rev@],
                None => seq!["sl"@, "status"@],
            } && stderr@ == out.stderr@),
    {
        let text = if out.success {
            match decoded(&out.stdout) {
                Some(cs) => cs,
                None => {
                    return Err(
                        VcsError::VcsCommandFailed {
                            command: self.changed_files_command(relative_to),
                            stderr: out.stderr.clone(),
                        },
                    );
                },
            }
        } else {
            return Err(
                VcsError::VcsCommandFailed {
                    command: self.changed_files_command(relative_to),
                    stderr: out.stderr.clone(),
                },
            );
        };
        let rc = chars_of(self.root.as_str());
        let mut files: Vec<String> = Vec::new();
        let mut cur: Vec<char> = Vec::new();
        let mut i: usize = 0;
        proof {
            assert(text@.take(0) =~= Seq::<char>::empty());
            assert(string_views(files@).to_set() =~= Set::<Seq<char>>::empty());
            assert(split_lines(text@.take(0)).drop_last() =~= Seq::<Seq<char>>::empty());
        }
        while i < text.len()
            invariant
                i <= text.len(),
                rc@ == self@,
                string_views(files@).no_duplicates(),
                string_views(files@).to_set() == line_paths(
                    self@,
                    split_lines(text@.take(i as int)).drop_last(),
                ),
                cur@ == split_lines(text@.take(i as int)).last(),
            decreases text.len() - i,
        {
            let c = text[i];
            let ghost before = split_lines(text@.take(i as int));
            proof {
                lemma_split_lines_nonempty(text@.take(i as int));
                assert(text@.take(i + 1).drop_last() =~= text@.take(i as int));
                assert(text@.take(i + 1).last() == c);
            }
            if c == '\n' {
                add_line(&rc, &cur, &mut files);
                cur = Vec::new();
                proof {
                    let after = split_lines(text@.take(i + 1));
                    assert(after == before.push(Seq::empty()));
                    assert(after.drop_last() =~= before);
                    assert(before.drop_last().push(before.last()) =~= before);
                    assert(cur@ =~= after.last());
                }
            } else {
                cur.push(c);
                proof {
                    let after = split_lines(text@.take(i + 1));
                    assert(after.drop_last() =~= before.drop_last());
                }
            }
            i = i + 1;
        }
        add_line(&rc, &cur, &mut files);
        proof {
            let all = split_lines(text@.take(i as int));
            lemma_split_lines_nonempty(text@.take(i as int));
            assert(text@.take(i as int) =~= text@);
            assert(all.drop_last().push(all.last()) =~= all);
        }
        Ok(files)
    }
}

} // verus!
