//! The repository configuration file and its validation rules.

use vstd::prelude::*;

use crate::command::{fails_with, only_reads, CommandOutput, CommandRequest, CommandRunner, Recorder, ToolError, ToolResult};
use crate::paths::{
    fs_reads, Files, FsAnswer, FsOp,
    is_abs, join, join_path, lemma_join_path_parts, lemma_parts_of_joined_components, lemma_parts_plain,
    nearest_existing_parent, parts, path_is_absolute, path_parts, plain_component,
    path_starts_with, render, render_prefix, same_path, starts_with_path, strip_path_prefix,
    strip_prefix_path, DirError, EntryKind, FileSystem,
};
use crate::text::{
    decimal, push_decimal, chars_of, concat3, concat4, join_strings, join_with, str_eq, strs_of, trim,
    trim_chars,
};

verus! {

/// The configuration file read from the main worktree.
pub const CONFIG_FILE: &'static str = ".ddev-workspaces.toml";

/// The repository configuration.
#[derive(Debug, Clone, PartialEq, Eq)]
pub struct ProjectConfig {
    pub version: u32,
    pub project_id: String,
    pub workspace_root: String,
    pub ddev: Option<DdevConfig>,
    pub files: Vec<FileRule>,
    pub commands: Vec<CommandRule>,
    pub checks: Vec<CheckRule>,
}

#[derive(Debug, Clone, PartialEq, Eq)]
pub struct DdevConfig {
    pub app_root: String,
    pub source_site: Option<SourceSiteConfig>,
}

#[derive(Debug, Clone, PartialEq, Eq)]
pub struct SourceSiteConfig {
    pub repository_path: String,
    pub clone_database: bool,
}

#[derive(Debug, Clone, PartialEq, Eq)]
pub struct ResolvedSourceSite {
    pub source_root: String,
    pub generated_root: String,
}

/// A file copied into a new workspace from a tracked template or from an
/// absolute local file named by an environment variable.
#[derive(Debug, Clone, PartialEq, Eq)]
pub struct FileRule {
    pub label: String,
    pub destination: String,
    pub template: Option<String>,
    pub source_env: Option<String>,
}

/// A command run, without a shell, in a new workspace.
#[derive(Debug, Clone, PartialEq, Eq)]
pub struct CommandRule {
    pub label: String,
    pub cwd: String,
    pub argv: Vec<String>,
    pub sensitive: bool,
}

/// A readiness check: a path that must exist, or a non-empty key in an
/// environment file.
#[derive(Debug, Clone, PartialEq, Eq)]
pub struct CheckRule {
    pub label: String,
    pub kind: String,
    pub path: String,
    pub key: Option<String>,
}

// ---------------------------------------------------------------------------
// Names
// ---------------------------------------------------------------------------

pub open spec fn name_char(c: char) -> bool {
    ('a' <= c && c <= 'z') || ('0' <= c && c <= '9')
}

/// The name grammar `[a-z0-9](?:[a-z0-9-]*[a-z0-9])?` without `--`.
pub open spec fn valid_name(v: Seq<char>) -> bool {
    &&& v.len() > 0
    &&& name_char(v[0])
    &&& name_char(v.last())
    &&& forall|i: int| 0 <= i < v.len() ==> name_char(#[trigger] v[i]) || v[i] == '-'
    &&& forall|i: int| 0 <= i < v.len() - 1 ==> !(#[trigger] v[i] == '-' && v[i + 1] == '-')
}

pub open spec fn name_error(field: Seq<char>, value: Seq<char>) -> Seq<char> {
    field + " `"@ + value + "` must match [a-z0-9](?:[a-z0-9-]*[a-z0-9])? and may not contain `--`"@
}

fn is_name_char(c: char) -> (b: bool)
    ensures
        b == name_char(c),
{
    ('a' <= c && c <= 'z') || ('0' <= c && c <= '9')
}

/// Accepts exactly the names of the documented grammar.
pub fn validate_name(field: &str, value: &str) -> (r: ToolResult<()>)
    ensures
        r is Ok <==> valid_name(value@),
        !valid_name(value@) ==> fails_with(r, name_error(field@, value@)),
{
    let cs = chars_of(value);
    let n = cs.len();
    let mut ok = n > 0 && is_name_char(cs[0]) && is_name_char(cs[n - 1]);
    let mut i: usize = 0;
    while i < n
        invariant
            n == cs@.len(),
            cs@ == value@,
            i <= n,
            ok == (n > 0 && name_char(cs@[0]) && name_char(cs@[n - 1]) && (forall|k: int|
                0 <= k < i ==> name_char(#[trigger] cs@[k]) || cs@[k] == '-') && (forall|k: int|
                0 <= k < i && k < n - 1 ==> !(#[trigger] cs@[k] == '-' && cs@[k + 1] == '-'))),
        decreases n - i,
    {
        let c = cs[i];
        if !(is_name_char(c) || c == '-') {
            ok = false;
        }
        if i + 1 < n && c == '-' && cs[i + 1] == '-' {
            ok = false;
        }
        i = i + 1;
    }
    if ok {
        Ok(())
    } else {
        let mut m = field.to_owned();
        m.append(" `");
        m.append(value);
        m.append("` must match [a-z0-9](?:[a-z0-9-]*[a-z0-9])? and may not contain `--`");
        Err(ToolError::new(m))
    }
}

// ---------------------------------------------------------------------------
// Relative paths
// ---------------------------------------------------------------------------

/// The depth reached while walking `ps` from the root, or `None` once a `..`
/// would leave the root.
pub open spec fn walk_depth(ps: Seq<Seq<char>>) -> Option<nat>
    decreases ps.len(),
{
    if ps.len() == 0 {
        Some(0)
    } else {
        match walk_depth(ps.drop_last()) {
            None => None,
            Some(d) => if ps.last() == seq!['.', '.'] {
                if d > 0 {
                    Some((d - 1) as nat)
                } else {
                    None
                }
            } else {
                Some(d + 1)
            },
        }
    }
}

/// Once a walk leaves the root it stays refused.
pub proof fn lemma_walk_depth_escaped(ps: Seq<Seq<char>>, j: int, k: int)
    requires
        0 <= j <= k <= ps.len(),
        walk_depth(ps.take(j)) is None,
    ensures
        walk_depth(ps.take(k)) is None,
    decreases k - j,
{
    if k > j {
        lemma_walk_depth_escaped(ps, j, k - 1);
        assert(ps.take(k).drop_last() =~= ps.take(k - 1));
    }
}

/// Why a configured relative path is refused, if it is.
pub open spec fn relative_error(field: Seq<char>, value: Seq<char>) -> Option<Seq<char>> {
    if value.len() == 0 || is_abs(value) {
        Some("configuration field `"@ + field + "` must be a non-empty relative path"@)
    } else {
        match walk_depth(parts(value)) {
            None => Some("configuration field `"@ + field + "` escapes its repository/workspace root"@),
            Some(d) => if d == 0 && value != seq!['.'] {
                Some("configuration field `"@ + field + "` must name a path"@)
            } else {
                None
            },
        }
    }
}

pub open spec fn relative_ok(field: Seq<char>, value: Seq<char>, r: ToolResult<()>) -> bool {
    match relative_error(field, value) {
        None => r is Ok,
        Some(m) => fails_with(r, m),
    }
}

fn is_dot_dot(s: &str) -> (b: bool)
    ensures
        b == (s@ == seq!['.', '.']),
{
    let cs = chars_of(s);
    let r = cs.len() == 2 && cs[0] == '.' && cs[1] == '.';
    assert(r ==> cs@ =~= seq!['.', '.']);
    r
}

fn validate_relative(field: &str, value: &str) -> (r: ToolResult<()>)
    ensures
        relative_ok(field@, value@, r),
{
    let cs = chars_of(value);
    if cs.len() == 0 || path_is_absolute(value) {
        return Err(ToolError::new(
            concat3("configuration field `", field, "` must be a non-empty relative path"),
        ));
    }
    let ps = path_parts(value);
    let mut depth: usize = 0;
    let mut i: usize = 0;
    while i < ps.len()
        invariant
            i <= ps@.len(),
            strs_of(ps@) == parts(value@),
            value@.len() > 0,
            !is_abs(value@),
            walk_depth(strs_of(ps@).take(i as int)) == Some(depth as nat),
            depth <= i,
        decreases ps@.len() - i,
    {
        assert(strs_of(ps@).take(i + 1).drop_last() =~= strs_of(ps@).take(i as int));
        assert(strs_of(ps@).take(i + 1).last() == ps@[i as int]@);
        if is_dot_dot(ps[i].as_str()) {
            if depth > 0 {
                depth = depth - 1;
            } else {
                proof {
                    assert(walk_depth(strs_of(ps@).take(i + 1)) is None);
                    lemma_walk_depth_escaped(strs_of(ps@), i + 1, ps@.len() as int);
                    assert(strs_of(ps@).take(ps@.len() as int) =~= strs_of(ps@));
                }
                return Err(ToolError::new(
                    concat3("configuration field `", field, "` escapes its repository/workspace root"),
                ));
            }
        } else {
            depth = depth + 1;
        }
        i = i + 1;
    }
    assert(strs_of(ps@).take(ps@.len() as int) =~= strs_of(ps@));
    if depth == 0 && !(cs.len() == 1 && cs[0] == '.') {
        return Err(ToolError::new(concat3("configuration field `", field, "` must name a path")));
    }
    assert(cs.len() == 1 && cs[0] == '.' ==> value@ =~= seq!['.']);
    Ok(())
}

/// Accepts a non-empty relative path that never leaves the repository root
/// and names a path (or is `.`).
pub fn validate_repository_relative(field: &str, value: &str) -> (r: ToolResult<()>)
    ensures
        relative_ok(field@, value@, r),
{
    validate_relative(field, value)
}

/// Accepts a non-empty relative path that never leaves the workspace root
/// and names a path (or is `.`).
pub fn validate_workspace_relative(field: &str, value: &str) -> (r: ToolResult<()>)
    ensures
        relative_ok(field@, value@, r),
{
    validate_relative(field, value)
}

/// The components left after resolving `..` against earlier components; a
/// `..` with nothing before it is dropped.
pub open spec fn normalize_parts(ps: Seq<Seq<char>>) -> Seq<Seq<char>>
    decreases ps.len(),
{
    if ps.len() == 0 {
        Seq::empty()
    } else {
        let prev = normalize_parts(ps.drop_last());
        if ps.last() == seq!['.', '.'] {
            if prev.len() > 0 {
                prev.drop_last()
            } else {
                prev
            }
        } else {
            prev.push(ps.last())
        }
    }
}

/// Normalizing never leaves a `..` component.
pub proof fn lemma_normalized_has_no_parent_step(ps: Seq<Seq<char>>)
    ensures
        forall|i: int| 0 <= i < normalize_parts(ps).len() ==> #[trigger] normalize_parts(ps)[i] != seq!['.', '.'],
    decreases ps.len(),
{
    if ps.len() > 0 {
        lemma_normalized_has_no_parent_step(ps.drop_last());
        let prev = normalize_parts(ps.drop_last());
        if ps.last() == seq!['.', '.'] {
            if prev.len() > 0 {
                assert forall|i: int| 0 <= i < prev.drop_last().len() implies #[trigger] prev.drop_last()[i] != seq!['.', '.'] by {
                    assert(prev.drop_last()[i] == prev[i]);
                }
            }
        } else {
            assert forall|i: int| 0 <= i < prev.push(ps.last()).len() implies #[trigger] prev.push(ps.last())[i] != seq![
                '.',
                '.',
            ] by {
                if i < prev.len() {
                    assert(prev.push(ps.last())[i] == prev[i]);
                }
            }
        }
    }
}

/// While a walk stays inside its root, normalizing keeps exactly one
/// component per level reached.
pub proof fn lemma_walk_depth_is_normalized_length(ps: Seq<Seq<char>>)
    requires
        walk_depth(ps) is Some,
    ensures
        normalize_parts(ps).len() == walk_depth(ps)->0,
    decreases ps.len(),
{
    if ps.len() > 0 {
        lemma_walk_depth_is_normalized_length(ps.drop_last());
    }
}

/// The lexical normal form of a relative path.
pub open spec fn normalized(rel: Seq<char>) -> Seq<char> {
    join_with(normalize_parts(parts(rel)), '/')
}

proof fn lemma_normalize_parts_plain(ps: Seq<Seq<char>>)
    requires
        forall|i: int| 0 <= i < ps.len() ==> plain_component(#[trigger] ps[i]),
    ensures
        forall|i: int| 0 <= i < normalize_parts(ps).len() ==> plain_component(#[trigger] normalize_parts(ps)[i]),
    decreases ps.len(),
{
    if ps.len() > 0 {
        let prev = ps.drop_last();
        assert forall|i: int| 0 <= i < prev.len() implies plain_component(#[trigger] prev[i]) by {
            assert(prev[i] == ps[i]);
        }
        lemma_normalize_parts_plain(prev);
        let np = normalize_parts(prev);
        if ps.last() == seq!['.', '.'] {
            if np.len() > 0 {
                assert forall|i: int| 0 <= i < np.drop_last().len() implies plain_component(#[trigger] np.drop_last()[i]) by {
                    assert(np.drop_last()[i] == np[i]);
                }
            }
        } else {
            assert(plain_component(ps[ps.len() - 1]));
            assert forall|i: int| 0 <= i < np.push(ps.last()).len() implies plain_component(
                #[trigger] np.push(ps.last())[i],
            ) by {
                if i < np.len() {
                    assert(np.push(ps.last())[i] == np[i]);
                }
            }
        }
    }
}

/// An accepted relative path, joined below a root as `safe_join` joins it,
/// stays below that root: the result has the root's anchoring, the root's
/// components, and then the path's normalized components, none of which is
/// `..` — one per level the path descends, so at least one unless the path
/// is `.`.
pub proof fn lemma_accepted_path_stays_below_root(root: Seq<char>, field: Seq<char>, value: Seq<char>)
    requires
        relative_error(field, value) is None,
    ensures
        path_starts_with(joined_below(root, value), root),
        parts(joined_below(root, value)) == parts(root) + normalize_parts(parts(value)),
        forall|i: int|
            0 <= i < normalize_parts(parts(value)).len() ==> #[trigger] normalize_parts(parts(value))[i] != seq![
                '.',
                '.',
            ],
        normalize_parts(parts(value)).len() > 0 || value == seq!['.'],
{
    let cs = normalize_parts(parts(value));
    lemma_parts_plain(value);
    lemma_normalize_parts_plain(parts(value));
    lemma_parts_of_joined_components(cs);
    lemma_normalized_has_no_parent_step(parts(value));
    lemma_walk_depth_is_normalized_length(parts(value));
    let rel = normalized(value);
    if cs.len() > 0 {
        assert(plain_component(cs[0]));
        crate::text::lemma_join_with_first(cs, '/');
        assert(rel[0] == cs[0][0]);
        assert(cs[0][0] != '/');
    }
    assert(!is_abs(rel));
    lemma_join_path_parts(root, rel);
    assert(parts(root).is_prefix_of(parts(root) + cs)) by {
        assert((parts(root) + cs).take(parts(root).len() as int) =~= parts(root));
    }
}

/// The normalized components of a relative path.
pub fn normalize_parts_of(relative: &str) -> (acc: Vec<String>)
    ensures
        strs_of(acc@) == normalize_parts(parts(relative@)),
{
    let ps = path_parts(relative);
    let mut acc: Vec<String> = Vec::new();
    let mut i: usize = 0;
    while i < ps.len()
        invariant
            i <= ps@.len(),
            strs_of(ps@) == parts(relative@),
            strs_of(acc@) == normalize_parts(strs_of(ps@).take(i as int)),
        decreases ps@.len() - i,
    {
        assert(strs_of(ps@).take(i + 1).drop_last() =~= strs_of(ps@).take(i as int));
        assert(strs_of(ps@).take(i + 1).last() == ps@[i as int]@);
        let ghost before = strs_of(acc@);
        if is_dot_dot(ps[i].as_str()) {
            if acc.len() > 0 {
                acc.pop();
                assert(strs_of(acc@) =~= before.drop_last());
            }
        } else {
            acc.push(ps[i].clone());
            assert(strs_of(acc@) =~= before.push(ps@[i as int]@));
        }
        i = i + 1;
    }
    assert(strs_of(ps@).take(ps@.len() as int) =~= strs_of(ps@));
    acc
}

/// Resolves `.` and `..` lexically; the root of an absolute path is dropped.
pub fn normalize_relative_path(relative: &str) -> (out: String)
    ensures
        out@ == normalized(relative@),
{
    let acc = normalize_parts_of(relative);
    join_strings(&acc, '/')
}

// ---------------------------------------------------------------------------
// Environment variable names
// ---------------------------------------------------------------------------

pub open spec fn env_first_char(c: char) -> bool {
    c == '_' || ('a' <= c && c <= 'z') || ('A' <= c && c <= 'Z')
}

pub open spec fn env_char(c: char) -> bool {
    env_first_char(c) || ('0' <= c && c <= '9')
}

/// Letters, digits and underscores, not starting with a digit.
pub open spec fn valid_env_name(v: Seq<char>) -> bool {
    v.len() > 0 && env_first_char(v[0]) && forall|i: int| 0 <= i < v.len() ==> env_char(#[trigger] v[i])
}

pub open spec fn env_name_error(value: Seq<char>) -> Seq<char> {
    "environment variable name `"@ + value + "` is invalid; use letters, digits, and underscores"@
}

fn validate_environment_name(value: &str) -> (r: ToolResult<()>)
    ensures
        r is Ok <==> valid_env_name(value@),
        !valid_env_name(value@) ==> fails_with(r, env_name_error(value@)),
{
    let cs = chars_of(value);
    let mut ok = cs.len() > 0;
    let mut i: usize = 0;
    while i < cs.len()
        invariant
            cs@ == value@,
            i <= cs@.len(),
            ok == (cs@.len() > 0 && (i > 0 ==> env_first_char(cs@[0])) && forall|k: int|
                0 <= k < i ==> env_char(#[trigger] cs@[k])),
        decreases cs@.len() - i,
    {
        let c = cs[i];
        let good = if i == 0 {
            c == '_' || ('a' <= c && c <= 'z') || ('A' <= c && c <= 'Z')
        } else {
            c == '_' || ('a' <= c && c <= 'z') || ('A' <= c && c <= 'Z') || ('0' <= c && c <= '9')
        };
        if !good {
            ok = false;
        }
        i = i + 1;
    }
    if ok {
        Ok(())
    } else {
        Err(ToolError::new(
            concat3(
                "environment variable name `",
                value,
                "` is invalid; use letters, digits, and underscores",
            ),
        ))
    }
}

} // verus!

verus! {

// ---------------------------------------------------------------------------
// Paths inside a root
// ---------------------------------------------------------------------------

/// Where `safe_join` puts `relative` below `root`.
pub open spec fn joined_below(root: Seq<char>, relative: Seq<char>) -> Seq<char> {
    join_path(root, normalized(relative))
}

/// Joins a validated relative path below `root`, refusing a path whose
/// nearest existing parent resolves outside the canonical root.
/// Whether the queries recorded in `seen` from position `from` on show a
/// path joined safely below `root`: `root` canonicalized first, and the last
/// query the canonicalization of the joined path's nearest existing
/// ancestor, inside the canonical root.
pub open spec fn joined_safely(seen: Seq<(FsOp, Seq<char>, Seq<char>, FsAnswer)>, from: int, root: Seq<char>) -> bool {
    &&& from + 1 < seen.len()
    &&& seen[from].0 == FsOp::Canonicalize && seen[from].1 == root
    &&& seen.last().0 == FsOp::Canonicalize
    &&& seen[from].3 matches FsAnswer::Text(Ok(rc))
    &&& seen.last().3 matches FsAnswer::Text(Ok(pc))
    &&& path_starts_with(pc@, rc@)
}

pub fn safe_join<F: FileSystem>(fs: &mut Files<F>, root: &str, relative: &str) -> (r: ToolResult<String>)
    ensures
        r is Ok <==> relative_error("path"@, relative@) is None && joined_safely(
            final(fs).seen(),
            old(fs).seen().len() as int,
            root@,
        ),
        fs_reads(old(fs).seen(), final(fs).seen()),
        relative_error("path"@, relative@) matches Some(m) ==> fails_with(r, m),
        r matches Ok(p) ==> relative_error("path"@, relative@) is None && p@ == joined_below(
            root@,
            relative@,
        ),
        r matches Ok(p) ==> path_starts_with(p@, root@),
{
    validate_repository_relative("path", relative)?;
    let normal = normalize_relative_path(relative);
    let candidate = join(root, normal.as_str());
    let root_canonical = match fs.canonicalize(root) {
        Ok(c) => c,
        Err(e) => {
            return Err(ToolError::new(concat4("cannot resolve repository root ", root, ": ", e.as_str())));
        },
    };
    let existing_parent = nearest_existing_parent(fs, candidate.as_str());
    let parent_canonical = match fs.canonicalize(existing_parent.as_str()) {
        Ok(c) => c,
        Err(e) => {
            let mut m = String::new();
            m.append("cannot resolve path parent ");
            m.append(existing_parent.as_str());
            m.append(": ");
            m.append(e.as_str());
            return Err(ToolError::new(m));
        },
    };
    if !starts_with_path(parent_canonical.as_str(), root_canonical.as_str()) {
        return Err(ToolError::new(concat3("path `", relative, "` escapes repository root through a symlink")));
    }
    proof {
        lemma_accepted_path_stays_below_root(root@, "path"@, relative@);
    }
    Ok(candidate)
}

/// Whether `req` asks Git whether `relative`, inside `repo_root`, is
/// ignored.
pub open spec fn is_ignore_probe(req: CommandRequest, repo_root: Seq<char>, relative: Seq<char>) -> bool {
    &&& req.program@ == "git"@
    &&& req.args@.len() == 6
    &&& req.args@[0]@ == "-C"@
    &&& req.args@[1]@ == repo_root
    &&& req.args@[2]@ == "check-ignore"@
    &&& req.args@[3]@ == "--quiet"@
    &&& req.args@[4]@ == "--"@
    &&& req.args@[5]@ == relative
    &&& req.cwd is None
    &&& !req.mutating
}

/// Asks Git whether `path`, inside `repo_root`, is ignored.
pub fn is_ignored<R: CommandRunner>(repo_root: &str, path: &str, runner: &mut Recorder<R>) -> (r: ToolResult<bool>)
    ensures
        strip_path_prefix(path@, repo_root@) is None ==> fails_with(
            r,
            "path "@ + path@ + " is outside repository "@ + repo_root@,
        ),
        strip_path_prefix(path@, repo_root@) is None ==> final(runner).sent() == old(runner).sent(),
        only_reads(old(runner).sent(), final(runner).sent()),
        strip_path_prefix(path@, repo_root@) matches Some(rel) ==> {
            &&& final(runner).sent().len() == old(runner).sent().len() + 1
            &&& is_ignore_probe(final(runner).sent().last().0, repo_root@, rel)
            &&& (final(runner).sent().last().1 matches Ok(o) ==> r == Ok::<bool, ToolError>(o.status == 0))
            &&& (final(runner).sent().last().1 matches Err(e) ==> r == Err::<bool, ToolError>(e))
        },
{
    let relative = match strip_prefix_path(path, repo_root) {
        Some(rel) => rel,
        None => {
            return Err(ToolError::new(concat4("path ", path, " is outside repository ", repo_root)));
        },
    };
    let request = ignore_probe_request(repo_root, relative.as_str());
    let output = runner.run(&request)?;
    Ok(output.success())
}

/// The `git check-ignore` request for `relative` inside `repo_root`.
pub fn ignore_probe_request(repo_root: &str, relative: &str) -> (req: CommandRequest)
    ensures
        req.program@ == "git"@,
        req.args@.len() == 6,
        req.args@[0]@ == "-C"@,
        req.args@[1]@ == repo_root@,
        req.args@[2]@ == "check-ignore"@,
        req.args@[3]@ == "--quiet"@,
        req.args@[4]@ == "--"@,
        req.args@[5]@ == relative@,
        req.cwd is None,
        !req.mutating,
        !req.sensitive,
{
    let mut args: Vec<String> = Vec::new();
    args.push("-C".to_owned());
    args.push(repo_root.to_owned());
    args.push("check-ignore".to_owned());
    args.push("--quiet".to_owned());
    args.push("--".to_owned());
    args.push(relative.to_owned());
    CommandRequest::new("git", args)
}

} // verus!

verus! {

// ---------------------------------------------------------------------------
// File, command and check rules
// ---------------------------------------------------------------------------

/// Empty or whitespace only.
pub open spec fn blank(s: Seq<char>) -> bool {
    trim(s).len() == 0
}

fn is_blank(s: &str) -> (b: bool)
    ensures
        b == blank(s@),
{
    let cs = chars_of(s);
    let t = trim_chars(cs.as_slice());
    t.len() == 0
}

/// Two destinations conflict when one is the other or lies below it.
pub open spec fn conflicts(a: Seq<Seq<char>>, b: Seq<Seq<char>>) -> bool {
    a == b || b.is_prefix_of(a) || a.is_prefix_of(b)
}

pub open spec fn dest_parts(f: FileRule) -> Seq<Seq<char>> {
    normalize_parts(parts(f.destination@))
}

pub open spec fn dest_views(d: Seq<Vec<String>>) -> Seq<Seq<Seq<char>>> {
    Seq::new(d.len(), |i: int| strs_of(d[i]@))
}

/// Why a file rule is refused, given the destinations of the rules before it.
pub open spec fn file_rule_error(dests: Seq<Seq<Seq<char>>>, f: FileRule) -> Option<Seq<char>> {
    if blank(f.label@) {
        Some("configuration field `files[].label` must not be empty"@)
    } else if relative_error("files[].destination"@, f.destination@) is Some {
        relative_error("files[].destination"@, f.destination@)
    } else if dest_parts(f).len() == 0 || exists|i: int|
        0 <= i < dests.len() && conflicts(#[trigger] dests[i], dest_parts(f)) {
        Some(
            "file rule `"@ + f.label@ + "` conflicts with destination `"@ + f.destination@
                + "`; file destinations must be distinct files"@,
        )
    } else if f.template.is_some() == f.source_env.is_some() {
        Some("file rule `"@ + f.label@ + "` must set exactly one of `template` or `source_env`"@)
    } else if f.template is Some && relative_error("files[].template"@, f.template->0@) is Some {
        relative_error("files[].template"@, f.template->0@)
    } else if f.source_env is Some && !valid_env_name(f.source_env->0@) {
        Some(env_name_error(f.source_env->0@))
    } else {
        None
    }
}

/// The first refused file rule's message.
pub open spec fn files_error(files: Seq<FileRule>) -> Option<Seq<char>>
    decreases files.len(),
{
    if files.len() == 0 {
        None
    } else {
        match files_error(files.drop_last()) {
            Some(m) => Some(m),
            None => file_rule_error(
                Seq::new((files.len() - 1) as nat, |j: int| dest_parts(files[j])),
                files.last(),
            ),
        }
    }
}

pub open spec fn argv_ok(argv: Seq<String>) -> bool {
    argv.len() > 0 && forall|i: int| 0 <= i < argv.len() ==> (#[trigger] argv[i])@.len() > 0
}

/// Why a command rule is refused.
pub open spec fn command_rule_error(c: CommandRule) -> Option<Seq<char>> {
    if blank(c.label@) {
        Some("configuration field `commands[].label` must not be empty"@)
    } else if relative_error("commands[].cwd"@, c.cwd@) is Some {
        relative_error("commands[].cwd"@, c.cwd@)
    } else if !argv_ok(c.argv@) {
        Some("command `"@ + c.label@ + "` must have a non-empty argv array"@)
    } else {
        None
    }
}

pub open spec fn commands_error(cs: Seq<CommandRule>) -> Option<Seq<char>>
    decreases cs.len(),
{
    if cs.len() == 0 {
        None
    } else {
        match commands_error(cs.drop_last()) {
            Some(m) => Some(m),
            None => command_rule_error(cs.last()),
        }
    }
}

/// Why a check rule is refused.
pub open spec fn check_rule_error(c: CheckRule) -> Option<Seq<char>> {
    if blank(c.label@) {
        Some("configuration field `checks[].label` must not be empty"@)
    } else if relative_error("checks[].path"@, c.path@) is Some {
        relative_error("checks[].path"@, c.path@)
    } else if c.kind@ == "path-exists"@ && c.key is None {
        None
    } else if c.kind@ == "env-key"@ && c.key is Some && c.key->0@.len() > 0 {
        if valid_env_name(c.key->0@) {
            None
        } else {
            Some(env_name_error(c.key->0@))
        }
    } else if c.kind@ == "path-exists"@ {
        Some("check `"@ + c.label@ + "` of kind `path-exists` cannot define `key`"@)
    } else if c.kind@ == "env-key"@ {
        Some("check `"@ + c.label@ + "` of kind `env-key` requires a non-empty `key`"@)
    } else {
        Some(
            "check `"@ + c.label@ + "` has unsupported kind `"@ + c.kind@
                + "`; use `path-exists` or `env-key`"@,
        )
    }
}

pub open spec fn checks_error(cs: Seq<CheckRule>) -> Option<Seq<char>>
    decreases cs.len(),
{
    if cs.len() == 0 {
        None
    } else {
        match checks_error(cs.drop_last()) {
            Some(m) => Some(m),
            None => check_rule_error(cs.last()),
        }
    }
}

/// The first refused rule of a configuration: files, then commands, then
/// checks, each in order.
pub open spec fn rules_error(c: ProjectConfig) -> Option<Seq<char>> {
    if files_error(c.files@) is Some {
        files_error(c.files@)
    } else if commands_error(c.commands@) is Some {
        commands_error(c.commands@)
    } else {
        checks_error(c.checks@)
    }
}

pub open spec fn error_ok(e: Option<Seq<char>>, r: ToolResult<()>) -> bool {
    match e {
        None => r is Ok,
        Some(m) => fails_with(r, m),
    }
}

proof fn lemma_files_error_persists(fs: Seq<FileRule>, j: int, k: int)
    requires
        0 <= j <= k <= fs.len(),
        files_error(fs.take(j)) is Some,
    ensures
        files_error(fs.take(k)) == files_error(fs.take(j)),
    decreases k - j,
{
    if k > j {
        lemma_files_error_persists(fs, j, k - 1);
        assert(fs.take(k).drop_last() =~= fs.take(k - 1));
    }
}

proof fn lemma_commands_error_persists(cs: Seq<CommandRule>, j: int, k: int)
    requires
        0 <= j <= k <= cs.len(),
        commands_error(cs.take(j)) is Some,
    ensures
        commands_error(cs.take(k)) == commands_error(cs.take(j)),
    decreases k - j,
{
    if k > j {
        lemma_commands_error_persists(cs, j, k - 1);
        assert(cs.take(k).drop_last() =~= cs.take(k - 1));
    }
}

proof fn lemma_checks_error_persists(cs: Seq<CheckRule>, j: int, k: int)
    requires
        0 <= j <= k <= cs.len(),
        checks_error(cs.take(j)) is Some,
    ensures
        checks_error(cs.take(k)) == checks_error(cs.take(j)),
    decreases k - j,
{
    if k > j {
        lemma_checks_error_persists(cs, j, k - 1);
        assert(cs.take(k).drop_last() =~= cs.take(k - 1));
    }
}

fn conflicts_exec(a: &Vec<String>, b: &Vec<String>) -> (r: bool)
    ensures
        r == conflicts(strs_of(a@), strs_of(b@)),
{
    crate::paths::strings_eq(a, b) || crate::paths::strings_prefix(b, a)
        || crate::paths::strings_prefix(a, b)
}

fn check_file_rule(dests: &Vec<Vec<String>>, f: &FileRule) -> (r: ToolResult<Vec<String>>)
    ensures
        match file_rule_error(dest_views(dests@), *f) {
            None => r matches Ok(d) && strs_of(d@) == dest_parts(*f),
            Some(m) => fails_with(r, m),
        },
{
    if is_blank(f.label.as_str()) {
        return Err(ToolError::new("configuration field `files[].label` must not be empty".to_owned()));
    }
    validate_workspace_relative("files[].destination", f.destination.as_str())?;
    let d = normalize_parts_of(f.destination.as_str());
    let mut conflict = d.len() == 0;
    let mut i: usize = 0;
    while i < dests.len()
        invariant
            i <= dests@.len(),
            strs_of(d@) == dest_parts(*f),
            conflict == (strs_of(d@).len() == 0 || exists|k: int|
                0 <= k < i && conflicts(#[trigger] dest_views(dests@)[k], strs_of(d@))),
        decreases dests@.len() - i,
    {
        if conflicts_exec(&dests[i], &d) {
            assert(conflicts(dest_views(dests@)[i as int], strs_of(d@)));
            conflict = true;
        }
        i = i + 1;
    }
    if conflict {
        let mut m = "file rule `".to_owned();
        m.append(f.label.as_str());
        m.append("` conflicts with destination `");
        m.append(f.destination.as_str());
        m.append("`; file destinations must be distinct files");
        return Err(ToolError::new(m));
    }
    if f.template.is_some() == f.source_env.is_some() {
        return Err(ToolError::new(
            concat3("file rule `", f.label.as_str(), "` must set exactly one of `template` or `source_env`"),
        ));
    }
    if let Some(t) = &f.template {
        validate_repository_relative("files[].template", t.as_str())?;
    }
    if let Some(e) = &f.source_env {
        validate_environment_name(e.as_str())?;
    }
    Ok(d)
}

fn check_command_rule(c: &CommandRule) -> (r: ToolResult<()>)
    ensures
        error_ok(command_rule_error(*c), r),
{
    if is_blank(c.label.as_str()) {
        return Err(ToolError::new("configuration field `commands[].label` must not be empty".to_owned()));
    }
    validate_repository_relative("commands[].cwd", c.cwd.as_str())?;
    let mut ok = c.argv.len() > 0;
    let mut i: usize = 0;
    while i < c.argv.len()
        invariant
            i <= c.argv@.len(),
            ok == (c.argv@.len() > 0 && forall|k: int| 0 <= k < i ==> (#[trigger] c.argv@[k])@.len() > 0),
        decreases c.argv@.len() - i,
    {
        if c.argv[i].as_str().is_empty() {
            ok = false;
        }
        i = i + 1;
    }
    if !ok {
        return Err(ToolError::new(concat3("command `", c.label.as_str(), "` must have a non-empty argv array")));
    }
    Ok(())
}

fn check_check_rule(c: &CheckRule) -> (r: ToolResult<()>)
    ensures
        error_ok(check_rule_error(*c), r),
{
    if is_blank(c.label.as_str()) {
        return Err(ToolError::new("configuration field `checks[].label` must not be empty".to_owned()));
    }
    validate_workspace_relative("checks[].path", c.path.as_str())?;
    let is_path_exists = str_eq(c.kind.as_str(), "path-exists");
    let is_env_key = str_eq(c.kind.as_str(), "env-key");
    if is_path_exists && c.key.is_none() {
        return Ok(());
    }
    if is_env_key {
        if let Some(k) = &c.key {
            if !k.as_str().is_empty() {
                return validate_environment_name(k.as_str());
            }
        }
    }
    if is_path_exists {
        return Err(ToolError::new(
            concat3("check `", c.label.as_str(), "` of kind `path-exists` cannot define `key`"),
        ));
    }
    if is_env_key {
        return Err(ToolError::new(
            concat3("check `", c.label.as_str(), "` of kind `env-key` requires a non-empty `key`"),
        ));
    }
    let mut m = "check `".to_owned();
    m.append(c.label.as_str());
    m.append("` has unsupported kind `");
    m.append(c.kind.as_str());
    m.append("`; use `path-exists` or `env-key`");
    Err(ToolError::new(m))
}

impl ProjectConfig {
    /// Checks the file, command and check rules, reporting the first refused
    /// rule.
    pub fn validate_rules(&self) -> (r: ToolResult<()>)
        ensures
            error_ok(rules_error(*self), r),
    {
        let mut dests: Vec<Vec<String>> = Vec::new();
        let mut i: usize = 0;
        while i < self.files.len()
            invariant
                i <= self.files@.len(),
                files_error(self.files@.take(i as int)) is None,
                dest_views(dests@) =~= Seq::new(i as nat, |j: int| dest_parts(self.files@[j])),
            decreases self.files@.len() - i,
        {
            let ghost t = self.files@.take(i + 1);
            assert(t.drop_last() =~= self.files@.take(i as int));
            assert(Seq::new(i as nat, |j: int| dest_parts(t[j])) =~= dest_views(dests@));
            match check_file_rule(&dests, &self.files[i]) {
                Err(e) => {
                    proof {
                        lemma_files_error_persists(self.files@, i + 1, self.files@.len() as int);
                        assert(self.files@.take(self.files@.len() as int) =~= self.files@);
                    }
                    return Err(e);
                },
                Ok(d) => {
                    let ghost before = dest_views(dests@);
                    dests.push(d);
                    assert(dest_views(dests@) =~= before.push(dest_parts(self.files@[i as int])));
                },
            }
            i = i + 1;
        }
        assert(self.files@.take(self.files@.len() as int) =~= self.files@);
        let mut i: usize = 0;
        while i < self.commands.len()
            invariant
                i <= self.commands@.len(),
                files_error(self.files@) is None,
                commands_error(self.commands@.take(i as int)) is None,
            decreases self.commands@.len() - i,
        {
            assert(self.commands@.take(i + 1).drop_last() =~= self.commands@.take(i as int));
            match check_command_rule(&self.commands[i]) {
                Err(e) => {
                    proof {
                        lemma_commands_error_persists(self.commands@, i + 1, self.commands@.len() as int);
                        assert(self.commands@.take(self.commands@.len() as int) =~= self.commands@);
                    }
                    return Err(e);
                },
                Ok(()) => {},
            }
            i = i + 1;
        }
        assert(self.commands@.take(self.commands@.len() as int) =~= self.commands@);
        let mut i: usize = 0;
        while i < self.checks.len()
            invariant
                i <= self.checks@.len(),
                files_error(self.files@) is None,
                commands_error(self.commands@) is None,
                checks_error(self.checks@.take(i as int)) is None,
            decreases self.checks@.len() - i,
        {
            assert(self.checks@.take(i + 1).drop_last() =~= self.checks@.take(i as int));
            match check_check_rule(&self.checks[i]) {
                Err(e) => {
                    proof {
                        lemma_checks_error_persists(self.checks@, i + 1, self.checks@.len() as int);
                        assert(self.checks@.take(self.checks@.len() as int) =~= self.checks@);
                    }
                    return Err(e);
                },
                Ok(()) => {},
            }
            i = i + 1;
        }
        assert(self.checks@.take(self.checks@.len() as int) =~= self.checks@);
        Ok(())
    }
}

} // verus!

verus! {

// ---------------------------------------------------------------------------
// Whole configuration
// ---------------------------------------------------------------------------

/// The failure a propagated I/O error becomes.
pub fn io_error(detail: &str) -> (e: ToolError)
    ensures
        e.msg() == "I/O error: "@ + detail@,
        e.code() == 1,
{
    let mut m = "I/O error: ".to_owned();
    m.append(detail);
    ToolError::new(m)
}

/// Why the version, project ID or workspace root is refused, checked before
/// anything outside the configuration is consulted.
pub open spec fn head_error(c: ProjectConfig) -> Option<Seq<char>> {
    if c.version != 1 {
        Some(
            "configuration field `version` must be integer 1, found "@ + decimal(c.version as nat)
                + "; update .ddev-workspaces.toml"@,
        )
    } else if !valid_name(c.project_id@) {
        Some(name_error("project_id"@, c.project_id@))
    } else {
        relative_error("workspace_root"@, c.workspace_root@)
    }
}

/// The DDEV paths are well-formed repository-relative paths.
pub open spec fn ddev_fields_ok(c: ProjectConfig) -> bool {
    match c.ddev {
        None => true,
        Some(d) => relative_error("ddev.app_root"@, d.app_root@) is None && match d.source_site {
            None => true,
            Some(site) => relative_error(
                "ddev.source_site.repository_path"@,
                site.repository_path@,
            ) is None,
        },
    }
}

/// Everything about a configuration that can be judged from the file alone.
pub open spec fn fields_valid(c: ProjectConfig) -> bool {
    head_error(c) is None && ddev_fields_ok(c) && rules_error(c) is None
}

/// The path, relative to `repo_root`, whose ignore status shows whether the
/// workspace root `workspace_root` is ignored.
pub open spec fn probe_relative(repo_root: Seq<char>, workspace_root: Seq<char>) -> Option<Seq<char>> {
    strip_path_prefix(join_path(joined_below(repo_root, workspace_root), ".ddev-workspaces-ignore-probe"@), repo_root)
}

/// Whether exactly the ignore probe of the workspace root was asked for
/// between `before` and `after`.
pub open spec fn probed_workspace_root(
    before: Seq<(CommandRequest, ToolResult<CommandOutput>)>,
    after: Seq<(CommandRequest, ToolResult<CommandOutput>)>,
    repo_root: Seq<char>,
    workspace_root: Seq<char>,
) -> bool {
    after.len() == before.len() + 1 ==> (probe_relative(repo_root, workspace_root) matches Some(rel) && is_ignore_probe(
        after.last().0,
        repo_root,
        rel,
    ))
}

/// The refusal of a workspace root `w` that Git does not ignore.
pub open spec fn not_ignored_message(w: Seq<char>) -> Seq<char> {
    "configuration field `workspace_root` must already be ignored by Git: "@ + w + "; add a local ignore rule manually"@
}

/// Whether exactly one request was made between `before` and `after`: the
/// ignore probe of a path inside `repo_root`, which Git answered with
/// "ignored".
pub open spec fn probe_said_ignored(
    before: Seq<(CommandRequest, ToolResult<CommandOutput>)>,
    after: Seq<(CommandRequest, ToolResult<CommandOutput>)>,
    repo_root: Seq<char>,
) -> bool {
    &&& after.len() == before.len() + 1
    &&& exists|rel: Seq<char>| #[trigger] is_ignore_probe(after.last().0, repo_root, rel)
    &&& after.last().1 matches Ok(o) && o.status == 0
}

/// Whether the recorded request `x` was an ignore probe that Git answered
/// with "ignored".
pub open spec fn probe_ignored(x: (CommandRequest, ToolResult<CommandOutput>)) -> bool {
    &&& exists|root: Seq<char>, rel: Seq<char>| #[trigger] is_ignore_probe(x.0, root, rel)
    &&& x.1 matches Ok(o) && o.status == 0
}

/// Whether exactly one request was made between `before` and `after`, and
/// Git answered it with "not ignored".
pub open spec fn probe_refused(
    before: Seq<(CommandRequest, ToolResult<CommandOutput>)>,
    after: Seq<(CommandRequest, ToolResult<CommandOutput>)>,
) -> bool {
    &&& after.len() == before.len() + 1
    &&& after.last().1 matches Ok(o) && o.status != 0
}

/// What Git's answer on the workspace-root probe means: the root must
/// already be ignored.
pub fn workspace_root_ignored(workspace_root: &str, ignored: bool) -> (r: ToolResult<()>)
    ensures
        ignored ==> r is Ok,
        !ignored ==> fails_with(r, not_ignored_message(workspace_root@)),
{
    if ignored {
        Ok(())
    } else {
        Err(ToolError::new(
            concat3(
                "configuration field `workspace_root` must already be ignored by Git: ",
                workspace_root,
                "; add a local ignore rule manually",
            ),
        ))
    }
}

impl ProjectConfig {
    /// Reads the configuration file at the repository root; `parse` reads
    /// its text.
    pub fn load<F: FileSystem, P: Fn(&str) -> Result<ProjectConfig, String>>(
        fs: &mut Files<F>,
        repo_root: &str,
        parse: &P,
    ) -> (r: ToolResult<ProjectConfig>)
        requires
            forall|s: &str| parse.requires((s,)),
        ensures
            fs_reads(old(fs).seen(), final(fs).seen()),
            r matches Ok(c) ==> exists|s: &str| parse.ensures((s,), Ok::<ProjectConfig, String>(c)),
            r is Ok || (exists|d: Seq<char>|
                fails_with(
                    r,
                    "configuration is required at "@ + join_path(repo_root@, CONFIG_FILE@) + ": "@ + d
                        + "; add version, project_id, and workspace_root"@,
                )) || (exists|d: Seq<char>|
                fails_with(
                    r,
                    "invalid configuration at "@ + join_path(repo_root@, CONFIG_FILE@) + ": "@ + d
                        + "; correct the named field and rerun doctor"@,
                )),
            fs_reads(old(fs).seen(), final(fs).seen()),
            final(fs).seen().len() == old(fs).seen().len() + 1,
            final(fs).seen().last().0 == FsOp::ReadToString,
            final(fs).seen().last().1 == join_path(repo_root@, CONFIG_FILE@),
            final(fs).seen().last().3 matches FsAnswer::Text(Err(d)) ==> fails_with(
                r,
                "configuration is required at "@ + join_path(repo_root@, CONFIG_FILE@) + ": "@ + d@
                    + "; add version, project_id, and workspace_root"@,
            ),
            final(fs).seen().last().3 matches FsAnswer::Text(Ok(t)) ==> (r matches Ok(c) ==> exists|s: &str|
                s@ == t@ && parse.ensures((s,), Ok::<ProjectConfig, String>(c))),
            final(fs).seen().last().3 matches FsAnswer::Text(Ok(t)) ==> (r is Err ==> exists|s: &str, d: String|
                s@ == t@ && parse.ensures((s,), Err::<ProjectConfig, String>(d)) && fails_with(
                    r,
                    "invalid configuration at "@ + join_path(repo_root@, CONFIG_FILE@) + ": "@ + d@
                        + "; correct the named field and rerun doctor"@,
                )),
    {
        let path = join(repo_root, CONFIG_FILE);
        let contents = match fs.read_to_string(path.as_str()) {
            Ok(c) => c,
            Err(e) => {
                let mut m = concat4("configuration is required at ", path.as_str(), ": ", e.as_str());
                m.append("; add version, project_id, and workspace_root");
                let r = Err(ToolError::new(m));
                assert(fails_with(
                    r,
                    "configuration is required at "@ + join_path(repo_root@, CONFIG_FILE@) + ": "@ + e@
                        + "; add version, project_id, and workspace_root"@,
                ));
                return r;
            },
        };
        match parse(contents.as_str()) {
            Ok(c) => Ok(c),
            Err(e) => {
                let mut m = concat4("invalid configuration at ", path.as_str(), ": ", e.as_str());
                m.append("; correct the named field and rerun doctor");
                let r = Err(ToolError::new(m));
                assert(fails_with(
                    r,
                    "invalid configuration at "@ + join_path(repo_root@, CONFIG_FILE@) + ": "@ + e@
                        + "; correct the named field and rerun doctor"@,
                ));
                r
            },
        }
    }

    /// Checks the configuration: the fields, that the workspace root is
    /// ignored by Git, that DDEV paths stay inside the repository without a
    /// symlinked `.ddev`, and the rules. Fields are judged before anything
    /// outside is consulted.
    pub fn validate_structure<R: CommandRunner, F: FileSystem>(
        &self,
        repo_root: &str,
        runner: &mut Recorder<R>,
        fs: &mut Files<F>,
    ) -> (r: ToolResult<()>)
        ensures
            fs_reads(old(fs).seen(), final(fs).seen()),
            head_error(*self) matches Some(m) ==> fails_with(r, m),
            r is Ok ==> fields_valid(*self),
            head_error(*self) is Some ==> final(runner).sent() == old(runner).sent(),
            only_reads(old(runner).sent(), final(runner).sent()),
            final(runner).sent().len() <= old(runner).sent().len() + 1,
            probed_workspace_root(old(runner).sent(), final(runner).sent(), repo_root@, self.workspace_root@),
            r is Ok ==> probe_said_ignored(old(runner).sent(), final(runner).sent(), repo_root@),
            probe_refused(old(runner).sent(), final(runner).sent()) ==> exists|w: Seq<char>|
                fails_with(r, not_ignored_message(w)),
            self.ddev is None && probe_said_ignored(old(runner).sent(), final(runner).sent(), repo_root@) ==> error_ok(
                rules_error(*self),
                r,
            ),
            final(runner).sent().len() > old(runner).sent().len() ==> exists|n: int|
                n <= final(fs).seen().len() && #[trigger] joined_safely(
                    final(fs).seen().take(n),
                    old(fs).seen().len() as int,
                    repo_root@,
                ),
    {
        if self.version != 1 {
            let mut m = "configuration field `version` must be integer 1, found ".to_owned();
            push_decimal(&mut m, self.version as u64);
            m.append("; update .ddev-workspaces.toml");
            return Err(ToolError::new(m));
        }
        validate_name("project_id", self.project_id.as_str())?;
        validate_repository_relative("workspace_root", self.workspace_root.as_str())?;
        let workspace_root = safe_join(fs, repo_root, self.workspace_root.as_str())?;
        let ghost joined = fs.seen();
        proof {
            assert(joined.take(joined.len() as int) =~= joined);
        }
        let ignore_probe = join(workspace_root.as_str(), ".ddev-workspaces-ignore-probe");
        let ignored = is_ignored(repo_root, ignore_probe.as_str(), runner)?;
        workspace_root_ignored(workspace_root.as_str(), ignored)?;
        let rest = self.validate_ddev_and_rules(repo_root, fs);
        proof {
            assert(fs.seen().take(joined.len() as int) =~= joined);
        }
        rest
    }

    /// The checks of `validate_structure` after the workspace root was
    /// found ignored: the DDEV paths, then the rules.
    fn validate_ddev_and_rules<F: FileSystem>(&self, repo_root: &str, fs: &mut Files<F>) -> (r: ToolResult<()>)
        requires
            head_error(*self) is None,
        ensures
            fs_reads(old(fs).seen(), final(fs).seen()),
            r is Ok ==> fields_valid(*self),
            self.ddev is None ==> error_ok(rules_error(*self), r),
    {
        if let Some(ddev) = &self.ddev {
            validate_repository_relative("ddev.app_root", ddev.app_root.as_str())?;
            let app_root = safe_join(fs, repo_root, ddev.app_root.as_str())?;
            let ddev_dir = join(app_root.as_str(), ".ddev");
            if let Ok(EntryKind::Symlink) = fs.entry_kind(ddev_dir.as_str()) {
                return Err(ToolError::new(
                    "configuration field `ddev.app_root` resolves through a symlinked .ddev directory".to_owned(),
                ));
            }
            if let Some(site) = &ddev.source_site {
                validate_repository_relative(
                    "ddev.source_site.repository_path",
                    site.repository_path.as_str(),
                )?;
            }
        }
        self.validate_rules()
    }

    /// `validate_structure`, then, for a nested-site configuration, that the
    /// containing DDEV site resolves and mounts exactly this repository.
    pub fn validate<R: CommandRunner, F: FileSystem>(
        &self,
        repo_root: &str,
        runner: &mut Recorder<R>,
        fs: &mut Files<F>,
    ) -> (r: ToolResult<()>)
        ensures
            fs_reads(old(fs).seen(), final(fs).seen()),
            head_error(*self) matches Some(m) ==> fails_with(r, m),
            r is Ok ==> fields_valid(*self),
            head_error(*self) is Some ==> final(runner).sent() == old(runner).sent(),
            only_reads(old(runner).sent(), final(runner).sent()),
            r is Ok ==> probe_said_ignored(old(runner).sent(), final(runner).sent(), repo_root@),
            probe_refused(old(runner).sent(), final(runner).sent()) ==> exists|w: Seq<char>|
                fails_with(r, not_ignored_message(w)),
            self.ddev is None && probe_said_ignored(old(runner).sent(), final(runner).sent(), repo_root@) ==> error_ok(
                rules_error(*self),
                r,
            ),
            final(runner).sent().len() <= old(runner).sent().len() + 1,
            probed_workspace_root(old(runner).sent(), final(runner).sent(), repo_root@, self.workspace_root@),
    {
        self.validate_structure(repo_root, runner, fs)?;
        if let Some(ddev) = &self.ddev {
            if let Some(site) = &ddev.source_site {
                resolve_source_site(fs, repo_root, site, false)?;
            }
        }
        Ok(())
    }
}

// ---------------------------------------------------------------------------
// Nested DDEV sites
// ---------------------------------------------------------------------------

/// How the search for the containing DDEV site failed: a path could not be
/// resolved, an ancestor's `.ddev` or its config could not be inspected or
/// is not regular, or no ancestor holds a site.
pub open spec fn site_root_refused<T>(r: ToolResult<T>) -> bool {
    ||| exists|d: Seq<char>| fails_with(r, "I/O error: "@ + d)
    ||| exists|a: Seq<char>, d: Seq<char>|
        fails_with(r, "cannot inspect potential source DDEV site "@ + a + ": "@ + d)
    ||| exists|a: Seq<char>|
        fails_with(r, "source DDEV site "@ + a + " must contain a regular non-symlink .ddev directory"@)
    ||| exists|a: Seq<char>, d: Seq<char>|
        fails_with(r, "source DDEV site root "@ + a + " has no usable .ddev/config.yaml: "@ + d)
    ||| exists|a: Seq<char>|
        fails_with(r, "source DDEV site root "@ + a + " must contain a regular non-symlink .ddev/config.yaml"@)
    ||| exists|c: Seq<char>|
        fails_with(
            r,
            "repository "@ + c
                + " is not contained in a DDEV site; add a regular .ddev/config.yaml to a parent directory or remove ddev.source_site"@,
        )
}

/// The nearest proper ancestor of the canonical repository root that holds a
/// regular `.ddev/config.yaml`; an ancestor whose `.ddev` entry is not a
/// regular directory, or whose config is not a regular file, is refused.
pub fn source_site_root<F: FileSystem>(fs: &mut Files<F>, repo_root: &str) -> (r: ToolResult<String>)
    ensures
        fs_reads(old(fs).seen(), final(fs).seen()),
        r matches Ok(site) ==> exists|c: Seq<char>, k: int|
            #![trigger render(is_abs(c), parts(c).take(k))]
            0 <= k < parts(c).len() && site@ == render(is_abs(c), parts(c).take(k)),
        r is Ok || site_root_refused(r),
{
    let canonical = match fs.canonicalize(repo_root) {
        Ok(c) => c,
        Err(e) => {
            let r = Err(io_error(e.as_str()));
            assert(fails_with(r, "I/O error: "@ + e@));
            return r;
        },
    };
    let abs = path_is_absolute(canonical.as_str());
    let ps = path_parts(canonical.as_str());
    let mut k = ps.len();
    while k > 0
        invariant
            k <= ps@.len(),
            strs_of(ps@) == parts(canonical@),
            abs == is_abs(canonical@),
            fs_reads(old(fs).seen(), fs.seen()),
        decreases k,
    {
        k = k - 1;
        let ancestor = render_prefix(abs, &ps, k);
        let ddev_dir = join(ancestor.as_str(), ".ddev");
        match fs.entry_kind(ddev_dir.as_str()) {
            Err(e) => {
                if e.not_found {
                    continue;
                }
                let r = Err(ToolError::new(
                    concat4("cannot inspect potential source DDEV site ", ancestor.as_str(), ": ", e.message.as_str()),
                ));
                assert(fails_with(r, "cannot inspect potential source DDEV site "@ + ancestor@ + ": "@ + e.message@));
                return r;
            },
            Ok(EntryKind::Directory) => {},
            Ok(_) => {
                let r = Err(ToolError::new(
                    concat3(
                        "source DDEV site ",
                        ancestor.as_str(),
                        " must contain a regular non-symlink .ddev directory",
                    ),
                ));
                assert(fails_with(r, "source DDEV site "@ + ancestor@ + " must contain a regular non-symlink .ddev directory"@));
                return r;
            },
        }
        let config_path = join(ddev_dir.as_str(), "config.yaml");
        match fs.entry_kind(config_path.as_str()) {
            Err(e) => {
                let r = Err(ToolError::new(
                    concat4(
                        "source DDEV site root ",
                        ancestor.as_str(),
                        " has no usable .ddev/config.yaml: ",
                        e.message.as_str(),
                    ),
                ));
                assert(fails_with(r, "source DDEV site root "@ + ancestor@ + " has no usable .ddev/config.yaml: "@ + e.message@));
                return r;
            },
            Ok(EntryKind::File) => {},
            Ok(_) => {
                let r = Err(ToolError::new(
                    concat3(
                        "source DDEV site root ",
                        ancestor.as_str(),
                        " must contain a regular non-symlink .ddev/config.yaml",
                    ),
                ));
                assert(fails_with(
                    r,
                    "source DDEV site root "@ + ancestor@ + " must contain a regular non-symlink .ddev/config.yaml"@,
                ));
                return r;
            },
        }
        proof {
            let c = canonical@;
            let kk = k as int;
            assert(0 <= kk < parts(c).len() && ancestor@ == render(is_abs(c), parts(c).take(kk)));
            assert(exists|c: Seq<char>, k: int|
                #![trigger render(is_abs(c), parts(c).take(k))]
                0 <= k < parts(c).len() && ancestor@ == render(is_abs(c), parts(c).take(k)));
        }
        return Ok(ancestor);
    }
    let r = Err(ToolError::new(
        concat3(
            "repository ",
            canonical.as_str(),
            " is not contained in a DDEV site; add a regular .ddev/config.yaml to a parent directory or remove ddev.source_site",
        ),
    ));
    assert(fails_with(
        r,
        "repository "@ + canonical@
            + " is not contained in a DDEV site; add a regular .ddev/config.yaml to a parent directory or remove ddev.source_site"@,
    ));
    r
}

} // verus!

verus! {

/// `$HOME/.ddev-workspaces/sites`, resolved through its nearest existing
/// ancestor.
pub fn source_generated_root<F: FileSystem>(fs: &mut Files<F>) -> (r: ToolResult<String>)
    ensures
        fs_reads(old(fs).seen(), final(fs).seen()),
        r is Ok || fails_with(r, "home directory is unavailable; HOME must be absolute"@)
            || fails_with(r, "cannot resolve the default generated DDEV root"@)
            || exists|d: Seq<char>| fails_with(r, "I/O error: "@ + d),
{
    let home = match fs.env_var("HOME") {
        Some(h) => {
            if path_is_absolute(h.as_str()) {
                h
            } else {
                return Err(ToolError::new("home directory is unavailable; HOME must be absolute".to_owned()));
            }
        },
        None => {
            return Err(ToolError::new("home directory is unavailable; HOME must be absolute".to_owned()));
        },
    };
    let path = join(home.as_str(), ".ddev-workspaces/sites");
    let existing = nearest_existing_parent(fs, path.as_str());
    let canonical_existing = match fs.canonicalize(existing.as_str()) {
        Ok(c) => c,
        Err(e) => {
            let r = Err(io_error(e.as_str()));
            assert(fails_with(r, "I/O error: "@ + e@));
            return r;
        },
    };
    let remainder = match strip_prefix_path(path.as_str(), existing.as_str()) {
        Some(r) => r,
        None => {
            return Err(ToolError::new("cannot resolve the default generated DDEV root".to_owned()));
        },
    };
    Ok(join(canonical_existing.as_str(), remainder.as_str()))
}

/// Creates the missing directories of `path` below its nearest existing
/// ancestor; an existing component must be a regular directory.
pub(crate) fn create_directory_tree<F: FileSystem>(fs: &mut Files<F>, path: &str) -> (r: ToolResult<()>)
    ensures
        r is Ok || fails_with(r, "cannot prepare generated DDEV root "@ + path@)
            || fails_with(r, "generated DDEV root "@ + path@ + " contains an unsupported path component"@)
            || (exists|c: Seq<char>|
            fails_with(r, "generated DDEV root component "@ + c + " is not a regular directory"@))
            || (exists|d: Seq<char>| fails_with(r, "I/O error: "@ + d)),
{
    let existing = nearest_existing_parent(fs, path);
    let mut current = match fs.canonicalize(existing.as_str()) {
        Ok(c) => c,
        Err(e) => {
            let r = Err(io_error(e.as_str()));
            assert(fails_with(r, "I/O error: "@ + e@));
            return r;
        },
    };
    if !starts_with_path(path, existing.as_str()) {
        let mut m = "cannot prepare generated DDEV root ".to_owned();
        m.append(path);
        return Err(ToolError::new(m));
    }
    let pp = path_parts(path);
    let pe = path_parts(existing.as_str());
    let mut i = pe.len();
    while i < pp.len()
        decreases pp@.len() - i,
    {
        if is_dot_dot(pp[i].as_str()) {
            return Err(ToolError::new(
                concat3("generated DDEV root ", path, " contains an unsupported path component"),
            ));
        }
        current = join(current.as_str(), pp[i].as_str());
        match fs.create_dir(current.as_str()) {
            Ok(()) => {},
            Err(DirError::AlreadyExists(_)) => {
                match fs.entry_kind(current.as_str()) {
                    Ok(EntryKind::Directory) => {},
                    Ok(_) => {
                        let r = Err(ToolError::new(
                            concat3("generated DDEV root component ", current.as_str(), " is not a regular directory"),
                        ));
                        assert(fails_with(r, "generated DDEV root component "@ + current@ + " is not a regular directory"@));
                        return r;
                    },
                    Err(e) => {
                        let r = Err(io_error(e.message.as_str()));
                        assert(fails_with(r, "I/O error: "@ + e.message@));
                        return r;
                    },
                }
            },
            Err(DirError::Failed(e)) => {
                let r = Err(io_error(e.as_str()));
                assert(fails_with(r, "I/O error: "@ + e@));
                return r;
            },
        }
        i = i + 1;
    }
    Ok(())
}

/// Resolves the containing DDEV site of a nested repository and the root
/// under which isolated copies are generated. The two must not contain each
/// other, and the configured repository path inside the site must resolve to
/// this repository.
pub fn resolve_source_site<F: FileSystem>(
    fs: &mut Files<F>,
    repo_root: &str,
    config: &SourceSiteConfig,
    create_generated_root: bool,
) -> (r: ToolResult<ResolvedSourceSite>)
    ensures
        !create_generated_root ==> fs_reads(old(fs).seen(), final(fs).seen()),
        r matches Ok(site) ==> !path_starts_with(site.generated_root@, site.source_root@)
            && !path_starts_with(site.source_root@, site.generated_root@),
{
    let source_root = source_site_root(fs, repo_root)?;
    let mut generated_root = source_generated_root(fs)?;
    if create_generated_root {
        create_directory_tree(fs, generated_root.as_str())?;
        generated_root = match fs.canonicalize(generated_root.as_str()) {
            Ok(c) => c,
            Err(e) => return Err(io_error(e.as_str())),
        };
    }
    if starts_with_path(generated_root.as_str(), source_root.as_str()) || starts_with_path(
        source_root.as_str(),
        generated_root.as_str(),
    ) {
        return Err(ToolError::new(
            concat4(
                "generated DDEV root ",
                generated_root.as_str(),
                " must be outside source DDEV site ",
                source_root.as_str(),
            ),
        ));
    }
    let declared = safe_join(fs, source_root.as_str(), config.repository_path.as_str())?;
    let canonical_repository = match fs.canonicalize(declared.as_str()) {
        Ok(c) => c,
        Err(e) => {
            return Err(ToolError::new(
                concat4(
                    "source DDEV site repository path ",
                    declared.as_str(),
                    " is unavailable: ",
                    e.as_str(),
                ),
            ));
        },
    };
    let canonical_repo_root = match fs.canonicalize(repo_root) {
        Ok(c) => c,
        Err(e) => return Err(io_error(e.as_str())),
    };
    if !same_path(canonical_repository.as_str(), canonical_repo_root.as_str()) {
        let mut m = "ddev.source_site.repository_path resolves to ".to_owned();
        m.append(canonical_repository.as_str());
        m.append(", not this repository ");
        m.append(canonical_repo_root.as_str());
        m.append("; refusing an unproven mount");
        return Err(ToolError::new(m));
    }
    Ok(ResolvedSourceSite { source_root, generated_root })
}

/// The absolute regular file named by the environment variable `name`.
pub fn source_from_environment<F: FileSystem>(fs: &mut Files<F>, name: &str) -> (r: ToolResult<String>)
    ensures
        fs_reads(old(fs).seen(), final(fs).seen()),
        r matches Ok(p) ==> is_abs(p@),
        r is Ok || fails_with(
            r,
            "environment variable `"@ + name@ + "` is not set for the named file source; set it manually"@,
        ) || fails_with(r, "environment variable `"@ + name@ + "` must contain an absolute local file path"@)
            || fails_with(r, "named local file source `"@ + name@ + "` must be a regular non-symlink file"@)
            || exists|d: Seq<char>| fails_with(r, "named local file source `"@ + name@ + "` cannot be read: "@ + d),
{
    let value = match fs.env_var(name) {
        Some(v) => v,
        None => {
            return Err(ToolError::new(
                concat3(
                    "environment variable `",
                    name,
                    "` is not set for the named file source; set it manually",
                ),
            ));
        },
    };
    if !path_is_absolute(value.as_str()) {
        return Err(ToolError::new(
            concat3("environment variable `", name, "` must contain an absolute local file path"),
        ));
    }
    match fs.entry_kind(value.as_str()) {
        Ok(EntryKind::File) => Ok(value),
        Ok(_) => Err(ToolError::new(
            concat3("named local file source `", name, "` must be a regular non-symlink file"),
        )),
        Err(e) => {
            let r = Err(ToolError::new(
                concat4("named local file source `", name, "` cannot be read: ", e.message.as_str()),
            ));
            assert(fails_with(r, "named local file source `"@ + name@ + "` cannot be read: "@ + e.message@));
            r
        },
    }
}

} // verus!
