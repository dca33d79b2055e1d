//! The checks and steps behind `doctor`, `list`, `create` and `remove`:
//! readiness of a workspace, ownership of what is about to be removed, and
//! the messages that report them.

use vstd::prelude::*;

use crate::command::{
    extends, fails_with, only_reads, push_status, CommandOutput, CommandRequest, CommandRunner, Recorder,
    ToolError, ToolResult,
};
use crate::config::{
    argv_ok, command_rule_error, commands_error, fields_valid, relative_error, safe_join, source_from_environment,
    CheckRule, CommandRule, DdevConfig, FileRule, ProjectConfig,
};
use crate::state::{OwnershipRecord, RecordEntry};
use crate::ddev::{
    canonical_or_raw, copy_project, ddev_name, expected_name, found_identity, lemma_identity_kept, lists_name,
    mutagen_ready, reg_extends,
    DdevInspection, DdevProject, DdevRegistry, Registry,
};
use crate::git::{
    full_commit_id, is_full_commit_id, source_failure_message, BaseRevision, GitRepository,
    SourceDiagnostics, WorktreeRecord,
};
use crate::paths::{
    fs_event, fs_extends, fs_keeps, fs_reads, kind_query, removes, Files, FsAnswer, FsOp, is_abs, join, join_path, parent_of, parts, path_eq,
    same_path, strip_path_prefix, EntryKind, FileSystem};
use crate::text::{
    chars_of, concat3, concat4, copy_range, find_char, index_of, lines_chars, lines_of,
    seqs_of, str_eq, string_of, strs_of, trim, trim_chars,
};

verus! {

// ---------------------------------------------------------------------------
// Readiness checks
// ---------------------------------------------------------------------------

/// A value without one pair of matching surrounding quotes (double or
/// single).
pub open spec fn unquote_spec(v: Seq<char>) -> Seq<char> {
    if v.len() >= 2 && ((v[0] == '"' && v.last() == '"') || (v[0] == '\'' && v.last() == '\'')) {
        v.subrange(1, v.len() - 1)
    } else {
        v
    }
}

pub fn unquote(value: &str) -> (r: String)
    ensures
        r@ == unquote_spec(value@),
{
    let cs = chars_of(value);
    let n = cs.len();
    if n >= 2 && ((cs[0] == '"' && cs[n - 1] == '"') || (cs[0] == '\'' && cs[n - 1] == '\'')) {
        let inner = copy_range(cs.as_slice(), 1, n - 1);
        return string_of(inner.as_slice());
    }
    value.to_owned()
}

/// Whether an environment-file line assigns `key` a non-empty value: the
/// name before the first `=` and the value after it are trimmed, and the
/// value may be quoted.
pub open spec fn line_sets_key(line: Seq<char>, key: Seq<char>) -> bool {
    let k = index_of(line, '=');
    k >= 0 && trim(line.take(k)) == key && unquote_spec(trim(line.skip(k + 1))).len() > 0
}

/// Whether some line of an environment file assigns `key` a non-empty value.
pub open spec fn env_key_set(contents: Seq<char>, key: Seq<char>) -> bool {
    exists|i: int| 0 <= i < lines_of(contents).len() && line_sets_key(#[trigger] lines_of(contents)[i], key)
}

/// The line `name=value` is found as one of the lines of a file made of
/// `pre` (whole lines), that line, and anything after it.
proof fn lemma_line_in_file(pre: Seq<char>, line: Seq<char>, post: Seq<char>) -> (i: int)
    requires
        pre.len() == 0 || pre.last() == '\n',
        line.len() > 0 && line.last() != '\r',
        forall|k: int| 0 <= k < line.len() ==> line[k] != '\n',
    ensures
        0 <= i < lines_of(pre + line + "\n"@ + post).len(),
        lines_of(pre + line + "\n"@ + post)[i] == line,
{
    reveal_strlit("\n");
    let contents = pre + line + "\n"@ + post;
    let tail = line + seq!['\n'] + post;
    crate::text::lemma_split_on_without_sep(line, '\n');
    crate::text::lemma_split_on_joined(line, post, '\n');
    crate::text::lemma_split_on_nonempty(post, '\n');
    let i: int = if pre.len() == 0 {
        assert(contents =~= tail);
        0
    } else {
        let p = pre.drop_last();
        assert(contents =~= p + seq!['\n'] + tail);
        crate::text::lemma_split_on_joined(p, tail, '\n');
        crate::text::lemma_split_on_nonempty(p, '\n');
        crate::text::split_on(p, '\n').len() as int
    };
    let parts = crate::text::split_on(contents, '\n');
    assert(parts[i] == line);
    assert(i < parts.len() - 1);
    assert(crate::text::strip_cr(line) == line);
    i
}

/// A line that assigns `key` a non-empty value sets the key, wherever the
/// line stands in the file and whatever lines come before or after it: the
/// name before the first `=` must trim to the key, and the value after it,
/// trimmed and unquoted, must not be empty.
pub proof fn law_env_key_on_any_line(
    pre: Seq<char>,
    name: Seq<char>,
    value: Seq<char>,
    post: Seq<char>,
    key: Seq<char>,
)
    requires
        pre.len() == 0 || pre.last() == '\n',
        forall|k: int| 0 <= k < name.len() ==> name[k] != '=' && name[k] != '\n' && name[k] != '\r',
        forall|k: int| 0 <= k < value.len() ==> value[k] != '\n' && value[k] != '\r',
        trim(name) == key,
        unquote_spec(trim(value)).len() > 0,
    ensures
        env_key_set(pre + name + "="@ + value + "\n"@ + post, key),
{
    reveal_strlit("=");
    let line = name + "="@ + value;
    assert(line[name.len() as int] == '=');
    crate::text::lemma_index_of_found(line, '=', name.len() as int);
    assert(line.take(name.len() as int) =~= name);
    assert(line.skip(name.len() as int + 1) =~= value);
    assert(line_sets_key(line, key));
    assert(pre + name + "="@ + value + "\n"@ + post =~= pre + line + "\n"@ + post);
    let i = lemma_line_in_file(pre, line, post);
    assert(line_sets_key(lines_of(pre + line + "\n"@ + post)[i], key));
}

fn line_sets(line: &[char], key: &str) -> (b: bool)
    ensures
        b == line_sets_key(line@, key@),
{
    let k = match find_char(line, '=') {
        Some(k) => k,
        None => {
            return false;
        },
    };
    let len = line.len();
    assert(k < len);
    let name = copy_range(line, 0, k);
    let value = copy_range(line, k + 1, len);
    assert(name@ =~= line@.take(k as int));
    assert(value@ =~= line@.skip(k + 1));
    let name = trim_chars(name.as_slice());
    let name = string_of(name.as_slice());
    if !str_eq(name.as_str(), key) {
        return false;
    }
    let value = trim_chars(value.as_slice());
    let value = string_of(value.as_slice());
    let value = unquote(value.as_str());
    chars_of(value.as_str()).len() > 0
}

/// Whether an environment file's text assigns `key` a non-empty value.
pub fn env_key_is_set(contents: &str, key: &str) -> (b: bool)
    ensures
        b == env_key_set(contents@, key@),
{
    let cs = chars_of(contents);
    let lines = lines_chars(cs.as_slice());
    let mut i: usize = 0;
    while i < lines.len()
        invariant
            i <= lines@.len(),
            seqs_of(lines@) == lines_of(contents@),
            forall|k: int| 0 <= k < i ==> !line_sets_key(#[trigger] lines_of(contents@)[k], key@),
        decreases lines@.len() - i,
    {
        assert(seqs_of(lines@)[i as int] == lines@[i as int]@);
        if line_sets(lines[i].as_slice(), key) {
            return true;
        }
        i = i + 1;
    }
    false
}

/// Runs one readiness check in a workspace: a path that must exist, or an
/// environment file that must assign its key a non-empty value. The value
/// itself is never returned or reported.
pub fn run_one_check<F: FileSystem>(fs: &mut Files<F>, check: &CheckRule, workspace: &str) -> (r: ToolResult<()>)
    ensures
        fs_reads(old(fs).seen(), final(fs).seen()),
        relative_error("path"@, check.path@) matches Some(m) ==> fails_with(r, m),
        r is Ok ==> check.kind@ == "path-exists"@ || (check.kind@ == "env-key"@ && check.key is Some),
{
    let path = safe_join(fs, workspace, check.path.as_str())?;
    if str_eq(check.kind.as_str(), "path-exists") {
        if fs.entry_kind(path.as_str()).is_err() {
            return Err(ToolError::new(
                concat4("readiness check `", check.label.as_str(), "` requires path ", path.as_str()),
            ));
        }
        Ok(())
    } else if str_eq(check.kind.as_str(), "env-key") {
        let key = match &check.key {
            Some(k) => k,
            None => {
                return Err(ToolError::new(concat3("readiness check `", check.label.as_str(), "` has no key")));
            },
        };
        let contents = match fs.read_to_string(path.as_str()) {
            Ok(c) => c,
            Err(e) => {
                return Err(ToolError::new(
                    concat4(
                        "readiness check `",
                        check.label.as_str(),
                        "` could not read its named file: ",
                        e.as_str(),
                    ),
                ));
            },
        };
        if !env_key_is_set(contents.as_str(), key.as_str()) {
            return Err(ToolError::new(
                concat3(
                    "readiness check `",
                    check.label.as_str(),
                    "` requires a non-empty named environment key",
                ),
            ));
        }
        Ok(())
    } else {
        Err(ToolError::new(
            concat4(
                "readiness check `",
                check.label.as_str(),
                "` has unsupported kind `",
                concat3(check.kind.as_str(), "`", "").as_str(),
            ),
        ))
    }
}

/// Whether a regular file (not a symlink) is at `path`.
pub(crate) fn is_regular_file<F: FileSystem>(fs: &mut Files<F>, path: &str) -> (b: bool)
    ensures
        fs_reads(old(fs).seen(), final(fs).seen()),
{
    match fs.entry_kind(path) {
        Ok(EntryKind::File) => true,
        _ => false,
    }
}

/// The first reason a workspace is not ready to run: a file rule whose
/// destination is not a regular file, or a failing readiness check.
pub fn runtime_precondition_failure<F: FileSystem>(fs: &mut Files<F>, config: &ProjectConfig, workspace: &str) -> (r: Option<String>)
    ensures
        fs_reads(old(fs).seen(), final(fs).seen()),
        config.files@.len() == 0 && config.checks@.len() == 0 ==> r is None,
        config.files@.len() > 0 ==> (relative_error("path"@, config.files@[0].destination@) matches Some(m) ==> (r matches Some(
            s,
        ) && s@ == m)),
        r is None ==> forall|k: int|
            0 <= k < config.files@.len() ==> relative_error("path"@, (#[trigger] config.files@[k]).destination@) is None,
        r is None ==> forall|k: int|
            0 <= k < config.checks@.len() ==> relative_error("path"@, (#[trigger] config.checks@[k]).path@) is None,
{
    let mut i: usize = 0;
    while i < config.files.len()
        invariant
            i <= config.files@.len(),
            forall|k: int| 0 <= k < i ==> relative_error("path"@, (#[trigger] config.files@[k]).destination@) is None,
            fs_reads(old(fs).seen(), fs.seen()),
        decreases config.files@.len() - i,
    {
        let file = &config.files[i];
        let destination = match safe_join(fs, workspace, file.destination.as_str()) {
            Ok(d) => d,
            Err(e) => {
                return Some(e.message());
            },
        };
        if !is_regular_file(fs, destination.as_str()) {
            return Some(
                concat4(
                    "file rule `",
                    file.label.as_str(),
                    "` has not materialized regular destination ",
                    destination.as_str(),
                ),
            );
        }
        i = i + 1;
    }
    let mut i: usize = 0;
    while i < config.checks.len()
        invariant
            i <= config.checks@.len(),
            forall|k: int|
                0 <= k < config.files@.len() ==> relative_error("path"@, (#[trigger] config.files@[k]).destination@) is None,
            forall|k: int| 0 <= k < i ==> relative_error("path"@, (#[trigger] config.checks@[k]).path@) is None,
            fs_reads(old(fs).seen(), fs.seen()),
        decreases config.checks@.len() - i,
    {
        if let Err(e) = run_one_check(fs, &config.checks[i], workspace) {
            return Some(e.message());
        }
        i = i + 1;
    }
    None
}

// ---------------------------------------------------------------------------
// The owned DDEV identity
// ---------------------------------------------------------------------------

/// The project registered under the workspace's deterministic name, if any.
/// A registration of that name elsewhere, another name at the app root, or
/// duplicate registrations are refused: cleanup never touches an identity it
/// cannot prove is the workspace's own.
pub fn find_owned_ddev<F: FileSystem>(
    fs: &mut Files<F>,
    entries: &Vec<DdevProject>,
    expected_name: &str,
    app_root: &str,
) -> (r: ToolResult<Option<DdevProject>>)
    ensures
        fs_reads(old(fs).seen(), final(fs).seen()),
        r matches Ok(None) ==> forall|i: int|
            0 <= i < entries@.len() ==> (#[trigger] entries@[i]).name@ != expected_name@,
        entries@.len() == 0 ==> r matches Ok(None),
        r matches Ok(Some(p)) ==> {
            &&& p.name@ == expected_name@
            &&& entries@.contains(p)
            &&& forall|i: int, j: int|
                0 <= i < j < entries@.len() ==> !((#[trigger] entries@[i]).name@ == expected_name@
                    && (#[trigger] entries@[j]).name@ == expected_name@)
        },
{
    let expected_path = canonical_or_raw(fs, app_root);
    let mut exact: Vec<usize> = Vec::new();
    let n = entries.len();
    let mut i: usize = 0;
    while i < n
        invariant
            i <= n == entries@.len(),
            exact@.len() <= i,
            forall|k: int| 0 <= k < exact@.len() ==> #[trigger] exact@[k] < i,
            forall|k: int, l: int| 0 <= k < l < exact@.len() ==> #[trigger] exact@[k] < #[trigger] exact@[l],
            forall|k: int| 0 <= k < exact@.len() ==> (#[trigger] entries@[exact@[k] as int]).name@ == expected_name@,
            forall|k: int|
                0 <= k < i && (#[trigger] entries@[k]).name@ == expected_name@ ==> exact@.contains(k as usize),
            fs_reads(old(fs).seen(), fs.seen()),
        decreases n - i,
    {
        let entry = &entries[i];
        let entry_path = canonical_or_raw(fs, entry.approot.as_str());
        if str_eq(entry.name.as_str(), expected_name) {
            if !same_path(entry_path.as_str(), expected_path.as_str()) {
                let mut m = concat3("DDEV project `", expected_name, "` is registered to ");
                m.append(entry.approot.as_str());
                m.append("; refusing cross-project cleanup");
                return Err(ToolError::new(m));
            }
            let ghost before = exact@;
            exact.push(i);
            assert forall|x: usize| before.contains(x) implies exact@.contains(x) by {
                let j = choose|j: int| 0 <= j < before.len() && before[j] == x;
                assert(exact@[j] == x);
            }
            assert(exact@[before.len() as int] == i);
        } else if same_path(entry_path.as_str(), expected_path.as_str()) {
            let mut m = concat3("DDEV app root ", app_root, " is registered under unexpected name `");
            m.append(entry.name.as_str());
            m.append("`; refusing cleanup");
            return Err(ToolError::new(m));
        }
        i = i + 1;
    }
    if exact.len() == 0 {
        assert forall|k: int| 0 <= k < entries@.len() implies (#[trigger] entries@[k]).name@ != expected_name@ by {
            if entries@[k].name@ == expected_name@ {
                assert(exact@.contains(k as usize));
            }
        }
        return Ok(None);
    }
    if exact.len() > 1 {
        return Err(ToolError::new(
            concat3("DDEV project `", expected_name, "` has duplicate registrations; refusing cleanup"),
        ));
    }
    let idx = exact[0];
    proof {
        assert forall|a: int, b: int|
            0 <= a < b < entries@.len() implies !((#[trigger] entries@[a]).name@ == expected_name@
                && (#[trigger] entries@[b]).name@ == expected_name@) by {
            if entries@[a].name@ == expected_name@ && entries@[b].name@ == expected_name@ {
                assert(exact@.contains(a as usize));
                assert(exact@.contains(b as usize));
            }
        }
        assert(entries@[idx as int].name@ == expected_name@);
    }
    let project = copy_project(&entries[idx]);
    assert(entries@[idx as int] == project);
    Ok(Some(project))
}

/// Mutagen is healthy when disabled or reporting `ok`.
pub fn ddev_mutagen_ready(project: &DdevProject) -> (b: bool)
    ensures
        b == mutagen_ready(*project),
{
    !project.mutagen_enabled || crate::ddev::eq_ignore_ascii_case(project.mutagen_status.as_str(), "ok")
}

// ---------------------------------------------------------------------------
// Messages
// ---------------------------------------------------------------------------

/// Why source verification failed: every issue, in order.
pub fn format_source_failure(diagnostics: &SourceDiagnostics) -> (m: String)
    ensures
        m@ == source_failure_message(strs_of(diagnostics.issues@)),
{
    let mut m = "source verification failed".to_owned();
    let mut i: usize = 0;
    while i < diagnostics.issues.len()
        invariant
            i <= diagnostics.issues@.len(),
            m@ == source_failure_message(strs_of(diagnostics.issues@).take(i as int)),
        decreases diagnostics.issues@.len() - i,
    {
        let ghost before = m@;
        m.append("; ");
        m.append(diagnostics.issues[i].as_str());
        assert(strs_of(diagnostics.issues@).take(i + 1).drop_last() =~= strs_of(diagnostics.issues@).take(
            i as int,
        ));
        i = i + 1;
    }
    assert(strs_of(diagnostics.issues@).take(diagnostics.issues@.len() as int) =~= strs_of(
        diagnostics.issues@,
    ));
    m
}

/// The failure of a creation after its reservation: nothing is rolled back,
/// and the record and path are named.
pub fn preserved_failure(error: &ToolError, workspace: &str, record_path: &str) -> (e: ToolError)
    ensures
        e.code() == 1,
        e.msg() == "NOT READY — "@ + error.msg() + "\nOwnership record preserved at "@ + record_path@
            + "; workspace path "@ + workspace@
            + " was not rolled back. Run doctor, then remove only after its safety checks pass."@,
{
    let mut m = "NOT READY — ".to_owned();
    let inner = error.message();
    m.append(inner.as_str());
    m.append("\nOwnership record preserved at ");
    m.append(record_path);
    m.append("; workspace path ");
    m.append(workspace);
    m.append(" was not rolled back. Run doctor, then remove only after its safety checks pass.");
    ToolError::new(m)
}

/// Why a confirmation did not match.
pub open spec fn mismatch_message(name: Seq<char>, purpose: Seq<char>) -> Seq<char> {
    purpose + " confirmation did not exactly match workspace name `"@ + name
        + "`; no mutation was attempted"@
}

/// What a confirmation given on the command line decides: `Ok(true)` when
/// it matches the workspace name exactly, `Ok(false)` when none was given
/// and the user can be asked, and a refusal otherwise.
pub fn confirmation_given(name: &str, provided: Option<&str>, purpose: &str, interactive: bool) -> (r: ToolResult<bool>)
    ensures
        match provided {
            Some(p) => if p@ == name@ {
                r == Ok::<bool, ToolError>(true)
            } else {
                fails_with(r, mismatch_message(name@, purpose@))
            },
            None => if interactive {
                r == Ok::<bool, ToolError>(false)
            } else {
                fails_with(
                    r,
                    "non-interactive "@ + purpose@ + " requires `--confirm "@ + name@
                        + "`; no mutation was attempted"@,
                )
            },
        },
{
    match provided {
        Some(p) => {
            if str_eq(p, name) {
                Ok(true)
            } else {
                Err(mismatch_error(name, purpose))
            }
        },
        None => {
            if interactive {
                Ok(false)
            } else {
                let mut m = concat3("non-interactive ", purpose, " requires `--confirm ");
                m.append(name);
                m.append("`; no mutation was attempted");
                Err(ToolError::new(m))
            }
        },
    }
}

fn mismatch_error(name: &str, purpose: &str) -> (e: ToolError)
    ensures
        e.code() == 1,
        e.msg() == mismatch_message(name@, purpose@),
{
    let mut m = concat3(purpose, " confirmation did not exactly match workspace name `", name);
    m.append("`; no mutation was attempted");
    ToolError::new(m)
}

/// The question asked when confirming interactively.
pub fn confirmation_prompt(name: &str, purpose: &str) -> (p: String)
    ensures
        p@ == "Type "@ + name@ + " to confirm "@ + purpose@ + ": "@,
{
    let mut p = concat4("Type ", name, " to confirm ", purpose);
    p.append(": ");
    p
}

/// What a typed confirmation decides: it must be the workspace name once
/// surrounding whitespace is removed.
pub fn typed_confirmation(name: &str, input: &str, purpose: &str) -> (r: ToolResult<()>)
    ensures
        r is Ok <==> trim(input@) == name@,
        r is Err ==> fails_with(r, mismatch_message(name@, purpose@)),
{
    let cs = chars_of(input);
    let typed = trim_chars(cs.as_slice());
    let typed = string_of(typed.as_slice());
    if str_eq(typed.as_str(), name) {
        Ok(())
    } else {
        Err(mismatch_error(name, purpose))
    }
}

// ---------------------------------------------------------------------------
// Preparing a new workspace
// ---------------------------------------------------------------------------

/// A file-rule source must be a regular file, never a symlink.
pub(crate) fn ensure_regular_file<F: FileSystem>(fs: &mut Files<F>, path: &str, label: &str) -> (r: ToolResult<()>)
    ensures
        fs_reads(old(fs).seen(), final(fs).seen()),
        r is Ok || fails_with(
            r,
            "file rule `"@ + label@ + "` source "@ + path@ + " must be a regular non-symlink file"@,
        ) || exists|d: Seq<char>|
            fails_with(r, "file rule `"@ + label@ + "` source "@ + path@ + " is unavailable: "@ + d),
{
    match fs.entry_kind(path) {
        Ok(EntryKind::File) => Ok(()),
        Ok(_) => {
            let mut m = concat4("file rule `", label, "` source ", path);
            m.append(" must be a regular non-symlink file");
            Err(ToolError::new(m))
        },
        Err(e) => {
            let mut m = concat4("file rule `", label, "` source ", path);
            m.append(" is unavailable: ");
            m.append(e.message.as_str());
            let r = Err(ToolError::new(m));
            assert(fails_with(r, "file rule `"@ + label@ + "` source "@ + path@ + " is unavailable: "@ + e.message@));
            r
        },
    }
}

/// Every file rule that reads a local file through an environment variable
/// must name an absolute regular file.
pub fn validate_local_file_sources<F: FileSystem>(fs: &mut Files<F>, config: &ProjectConfig) -> (r: ToolResult<()>)
    ensures
        fs_reads(old(fs).seen(), final(fs).seen()),
        (forall|i: int| 0 <= i < config.files@.len() ==> (#[trigger] config.files@[i]).source_env is None) ==> r is Ok,
{
    let mut i: usize = 0;
    while i < config.files.len()
        invariant
            i <= config.files@.len(),
            fs_reads(old(fs).seen(), fs.seen()),
        decreases config.files@.len() - i,
    {
        if let Some(name) = &config.files[i].source_env {
            assert(config.files@[i as int].source_env is Some);
            let _ = source_from_environment(fs, name.as_str())?;
        }
        i = i + 1;
    }
    Ok(())
}

/// A new workspace path must not exist yet, and neither the workspace root
/// nor the path may resolve through a symlink or leave the root.
pub(crate) fn ensure_workspace_path<F: FileSystem>(fs: &mut Files<F>, workspace_root: &str, workspace: &str) -> (r: ToolResult<()>)
    ensures
        fs_reads(old(fs).seen(), final(fs).seen()),
        r is Ok || fails_with(r, "workspace path "@ + workspace@ + " already exists; refusing to overwrite it"@)
            || (exists|d: Seq<char>| fails_with(r, "workspace path "@ + workspace@ + " cannot be inspected: "@ + d))
            || (exists|d: Seq<char>| fails_with(r, "I/O error: "@ + d)) || fails_with(
            r,
            "configured workspace root resolves through a symlink; refusing to create a non-canonical worktree"@,
        ) || fails_with(r, "workspace path resolves through a symlink; refusing to create a non-canonical worktree"@)
            || fails_with(r, "workspace path escapes the configured ignored workspace root through a symlink"@),
{
    match fs.entry_kind(workspace) {
        Ok(_) => {
            return Err(ToolError::new(
                concat3("workspace path ", workspace, " already exists; refusing to overwrite it"),
            ));
        },
        Err(e) => {
            if !e.not_found {
                let r = Err(ToolError::new(
                    concat4("workspace path ", workspace, " cannot be inspected: ", e.message.as_str()),
                ));
                assert(fails_with(r, "workspace path "@ + workspace@ + " cannot be inspected: "@ + e.message@));
                return r;
            }
        },
    }
    let root_parent = crate::paths::nearest_existing_parent(fs, workspace_root);
    let root = match fs.canonicalize(root_parent.as_str()) {
        Ok(c) => c,
        Err(e) => {
            let r = Err(crate::config::io_error(e.as_str()));
            assert(fails_with(r, "I/O error: "@ + e@));
            return r;
        },
    };
    if !same_path(root_parent.as_str(), root.as_str()) {
        return Err(ToolError::new(
            "configured workspace root resolves through a symlink; refusing to create a non-canonical worktree".to_owned(),
        ));
    }
    let parent = crate::paths::nearest_existing_parent(fs, workspace);
    let canonical_parent = match fs.canonicalize(parent.as_str()) {
        Ok(c) => c,
        Err(e) => {
            let r = Err(crate::config::io_error(e.as_str()));
            assert(fails_with(r, "I/O error: "@ + e@));
            return r;
        },
    };
    if !same_path(parent.as_str(), canonical_parent.as_str()) {
        return Err(ToolError::new(
            "workspace path resolves through a symlink; refusing to create a non-canonical worktree".to_owned(),
        ));
    }
    if !crate::paths::starts_with_path(canonical_parent.as_str(), root.as_str()) {
        return Err(ToolError::new(
            "workspace path escapes the configured ignored workspace root through a symlink".to_owned(),
        ));
    }
    Ok(())
}

/// A file to copy into a new workspace: its rule's label, the source, the
/// destination, and whether the copy is private to its owner (local files
/// named by an environment variable).
#[derive(Debug, Clone, PartialEq, Eq)]
pub struct PlannedFile {
    pub label: String,
    pub source: String,
    pub destination: String,
    pub private: bool,
}

/// Whether a query recorded in `seen` from position `from` on found nothing
/// at `path`.
pub open spec fn found_absent(seen: Seq<(FsOp, Seq<char>, Seq<char>, FsAnswer)>, from: int, path: Seq<char>) -> bool {
    exists|j: int| from <= j < seen.len() && #[trigger] kind_query(seen[j], path) && seen[j].3->Kind_0 is Err
}

/// Whether a request recorded in `sent` from position `from` on asked Git
/// whether `path`, inside `repo_root`, is ignored, and Git answered yes.
pub open spec fn found_ignored(
    sent: Seq<(CommandRequest, ToolResult<CommandOutput>)>,
    from: int,
    repo_root: Seq<char>,
    path: Seq<char>,
) -> bool {
    exists|k: int, rel: Seq<char>|
        from <= k < sent.len() && strip_path_prefix(path, repo_root) == Some(rel) && #[trigger] crate::config::is_ignore_probe(
            sent[k].0,
            repo_root,
            rel,
        ) && (sent[k].1 matches Ok(o) && o.status == 0)
}

proof fn lemma_found_kept(
    seen1: Seq<(FsOp, Seq<char>, Seq<char>, FsAnswer)>,
    seen2: Seq<(FsOp, Seq<char>, Seq<char>, FsAnswer)>,
    sent1: Seq<(CommandRequest, ToolResult<CommandOutput>)>,
    sent2: Seq<(CommandRequest, ToolResult<CommandOutput>)>,
    from_fs: int,
    from_run: int,
    repo_root: Seq<char>,
    path: Seq<char>,
)
    requires
        fs_extends(seen1, seen2),
        extends(sent1, sent2),
        0 <= from_fs,
        0 <= from_run,
    ensures
        found_absent(seen1, from_fs, path) ==> found_absent(seen2, from_fs, path),
        found_ignored(sent1, from_run, repo_root, path) ==> found_ignored(sent2, from_run, repo_root, path),
{
    if found_absent(seen1, from_fs, path) {
        let j = choose|j: int| from_fs <= j < seen1.len() && #[trigger] kind_query(seen1[j], path) && seen1[j].3->Kind_0 is Err;
        assert(seen2[j] == seen1[j]);
    }
    if found_ignored(sent1, from_run, repo_root, path) {
        let (k, rel) = choose|k: int, rel: Seq<char>|
            from_run <= k < sent1.len() && strip_path_prefix(path, repo_root) == Some(rel)
                && #[trigger] crate::config::is_ignore_probe(sent1[k].0, repo_root, rel) && (sent1[k].1 matches Ok(o)
                && o.status == 0);
        assert(sent2[k] == sent1[k]);
    }
}

/// Plans the file rules of a new workspace before anything is written:
/// each destination must be absent and ignored by Git, and each rule must
/// have exactly one source: a stage-zero tracked regular template, or a
/// local file named by an environment variable.
#[verifier::spinoff_prover]
pub fn plan_files<R: CommandRunner, F: FileSystem>(
    fs: &mut Files<F>,
    runner: &mut Recorder<R>,
    config: &ProjectConfig,
    workspace: &str,
    repository: &crate::git::GitRepository,
) -> (r: ToolResult<Vec<PlannedFile>>)
    ensures
        r matches Ok(plan) ==> {
            &&& plan@.len() == config.files@.len()
            &&& forall|i: int|
                0 <= i < plan@.len() ==> {
                    &&& (#[trigger] plan@[i]).label@ == config.files@[i].label@
                    &&& plan@[i].destination@ == crate::config::joined_below(workspace@, config.files@[i].destination@)
                    &&& plan@[i].private == config.files@[i].source_env is Some
                    &&& config.files@[i].template is Some != config.files@[i].source_env is Some
                }
        },
        config.files@.len() == 0 ==> (r matches Ok(plan) && plan@.len() == 0),
        config.files@.len() > 0 ==> (relative_error("path"@, config.files@[0].destination@) matches Some(m) ==> fails_with(
            r,
            m,
        )),
        extends(old(runner).sent(), final(runner).sent()),
        fs_reads(old(fs).seen(), final(fs).seen()),
        r matches Ok(plan) ==> forall|i: int|
            0 <= i < plan@.len() ==> found_absent(
                final(fs).seen(),
                old(fs).seen().len() as int,
                (#[trigger] plan@[i]).destination@,
            ) && found_ignored(
                final(runner).sent(),
                old(runner).sent().len() as int,
                repository.root@,
                plan@[i].destination@,
            ),
{
    let mut plan: Vec<PlannedFile> = Vec::new();
    let ghost start = old(runner).sent();
    let ghost s0 = fs.seen().len() as int;
    let mut i: usize = 0;
    while i < config.files.len()
        invariant
            start == old(runner).sent(),
            s0 == old(fs).seen().len(),
            extends(start, runner.sent()),
            fs_reads(old(fs).seen(), fs.seen()),
            forall|k: int|
                0 <= k < i ==> found_absent(fs.seen(), s0, (#[trigger] plan@[k]).destination@) && found_ignored(
                    runner.sent(),
                    start.len() as int,
                    repository.root@,
                    plan@[k].destination@,
                ),
            i <= config.files@.len(),
            plan@.len() == i,
            i > 0 ==> relative_error("path"@, config.files@[0].destination@) is None,
            forall|k: int|
                0 <= k < i ==> {
                    &&& (#[trigger] plan@[k]).label@ == config.files@[k].label@
                    &&& plan@[k].destination@ == crate::config::joined_below(workspace@, config.files@[k].destination@)
                    &&& plan@[k].private == config.files@[k].source_env is Some
                    &&& config.files@[k].template is Some != config.files@[k].source_env is Some
                },
        decreases config.files@.len() - i,
    {
        let file = &config.files[i];
        let ghost seen_a = fs.seen();
        let ghost sent_a = runner.sent();
        let destination = safe_join(fs, workspace, file.destination.as_str())?;
        let found = fs.entry_kind(destination.as_str());
        let ghost seen_b = fs.seen();
        if found.is_ok() {
            return Err(ToolError::new(
                concat4(
                    "file rule `",
                    file.label.as_str(),
                    "` refuses to overwrite existing destination ",
                    destination.as_str(),
                ),
            ));
        }
        proof {
            assert(kind_query(seen_b[seen_b.len() - 1], destination@));
            assert(found_absent(seen_b, s0, destination@));
        }
        if !crate::config::is_ignored(repository.root.as_str(), destination.as_str(), runner)? {
            let mut m = concat4("file rule `", file.label.as_str(), "` destination ", destination.as_str());
            m.append(" is not ignored by Git; add an ignore rule manually");
            return Err(ToolError::new(m));
        }
        let ghost sent_b = runner.sent();
        proof {
            let rel = strip_path_prefix(destination@, repository.root@)->0;
            assert(crate::config::is_ignore_probe(sent_b[sent_b.len() - 1].0, repository.root@, rel));
            assert(found_ignored(sent_b, start.len() as int, repository.root@, destination@));
        }
        let source = match (&file.template, &file.source_env) {
            (Some(template), None) => {
                let path = safe_join(fs, workspace, template.as_str())?;
                repository.require_stage_zero_file(path.as_str(), runner)?;
                ensure_regular_file(fs, path.as_str(), file.label.as_str())?;
                path
            },
            (None, Some(name)) => source_from_environment(fs, name.as_str())?,
            _ => {
                return Err(ToolError::new(
                    concat3("file rule `", file.label.as_str(), "` has no unique source"),
                ));
            },
        };
        let ghost dest = destination@;
        proof {
            assert forall|k: int| 0 <= k < i implies found_absent(fs.seen(), s0, (#[trigger] plan@[k]).destination@)
                && found_ignored(runner.sent(), start.len() as int, repository.root@, plan@[k].destination@) by {
                lemma_found_kept(seen_a, fs.seen(), sent_a, runner.sent(), s0, start.len() as int, repository.root@, plan@[k].destination@);
            }
            lemma_found_kept(seen_b, fs.seen(), sent_b, runner.sent(), s0, start.len() as int, repository.root@, dest);
        }
        let ghost earlier = plan@;
        let planned = PlannedFile {
            label: file.label.clone(),
            source,
            destination,
            private: file.source_env.is_some(),
        };
        assert(planned.destination@ == dest);
        plan.push(planned);
        proof {
            assert forall|k: int| 0 <= k < i implies #[trigger] plan@[k] == earlier[k] by {}
        }
        i = i + 1;
    }
    Ok(plan)
}

/// The request that runs a declared command in `cwd`: its argv without a
/// shell, marked as changing state, and hidden when sensitive.
pub fn declared_command_request(command: &CommandRule, cwd: &str) -> (r: CommandRequest)
    requires
        command.argv@.len() > 0,
    ensures
        r.program@ == command.argv@[0]@,
        strs_of(r.args@) == strs_of(command.argv@).skip(1),
        r.cwd matches Some(c) && c@ == cwd@,
        r.env@.len() == 0,
        r.mutating,
        r.sensitive == command.sensitive,
{
    let mut args: Vec<String> = Vec::new();
    let mut i: usize = 1;
    while i < command.argv.len()
        invariant
            1 <= i <= command.argv@.len(),
            strs_of(args@) =~= strs_of(command.argv@).subrange(1, i as int),
        decreases command.argv@.len() - i,
    {
        let ghost before = strs_of(args@);
        args.push(command.argv[i].clone());
        assert(strs_of(args@) =~= before.push(command.argv@[i as int]@));
        i = i + 1;
    }
    let request = CommandRequest::new(command.argv[0].as_str(), args).cwd(cwd).mutating();
    if command.sensitive {
        request.sensitive()
    } else {
        request
    }
}

/// What a declared command reported.
pub fn command_outcome(label: &str, cwd: &str, output: &CommandOutput) -> (r: ToolResult<()>)
    ensures
        r is Ok <==> output.status == 0,
        output.status != 0 ==> fails_with(
            r,
            "declared command `"@ + label@ + "` failed in "@ + cwd@ + " with status "@
                + crate::text::signed_decimal(output.status as int)
                + "; remediate it manually and rerun doctor"@,
        ),
{
    if output.success() {
        return Ok(());
    }
    let mut m = concat4("declared command `", label, "` failed in ", cwd);
    m.append(" with status ");
    push_status(&mut m, output.status);
    m.append("; remediate it manually and rerun doctor");
    Err(ToolError::new(m))
}

/// Runs one declared command in its working directory inside the
/// workspace, which must be a directory.
pub fn run_one_command<R: CommandRunner, F: FileSystem>(
    fs: &mut Files<F>,
    runner: &mut Recorder<R>,
    command: &CommandRule,
    workspace: &str,
) -> (r: ToolResult<()>)
    requires
        command.argv@.len() > 0,
    ensures
        fs_reads(old(fs).seen(), final(fs).seen()),
        relative_error("path"@, command.cwd@) matches Some(m) ==> fails_with(r, m),
        extends(old(runner).sent(), final(runner).sent()),
{
    let cwd = safe_join(fs, workspace, command.cwd.as_str())?;
    if !fs.is_dir(cwd.as_str()) {
        let mut m = concat4("declared command `", command.label.as_str(), "` cwd ", cwd.as_str());
        m.append(" is not a directory");
        return Err(ToolError::new(m));
    }
    let request = declared_command_request(command, cwd.as_str());
    let output = runner.run(&request)?;
    command_outcome(command.label.as_str(), cwd.as_str(), &output)
}

/// A validated configuration's commands all have an argv.
pub proof fn lemma_valid_commands_have_argv(cs: Seq<CommandRule>)
    requires
        commands_error(cs) is None,
    ensures
        forall|i: int| 0 <= i < cs.len() ==> (#[trigger] cs[i]).argv@.len() > 0,
    decreases cs.len(),
{
    if cs.len() > 0 {
        lemma_valid_commands_have_argv(cs.drop_last());
        assert forall|i: int| 0 <= i < cs.len() implies (#[trigger] cs[i]).argv@.len() > 0 by {
            if i < cs.len() - 1 {
                assert(cs.drop_last()[i] == cs[i]);
            } else {
                assert(command_rule_error(cs.last()) is None);
                assert(argv_ok(cs.last().argv@));
            }
        }
    }
}

/// Runs the declared commands in order, stopping at the first failure.
pub fn run_declared_commands<R: CommandRunner, F: FileSystem>(
    fs: &mut Files<F>,
    runner: &mut Recorder<R>,
    config: &ProjectConfig,
    workspace: &str,
) -> (r: ToolResult<()>)
    requires
        forall|i: int| 0 <= i < config.commands@.len() ==> (#[trigger] config.commands@[i]).argv@.len() > 0,
    ensures
        fs_reads(old(fs).seen(), final(fs).seen()),
        config.commands@.len() == 0 ==> r is Ok,
        config.commands@.len() > 0 ==> (relative_error("path"@, config.commands@[0].cwd@) matches Some(m) ==> fails_with(
            r,
            m,
        )),
        r is Ok ==> forall|k: int|
            0 <= k < config.commands@.len() ==> relative_error("path"@, (#[trigger] config.commands@[k]).cwd@) is None,
        extends(old(runner).sent(), final(runner).sent()),
{
    let ghost start = old(runner).sent();
    let mut i: usize = 0;
    while i < config.commands.len()
        invariant
            start == old(runner).sent(),
            extends(start, runner.sent()),
            i <= config.commands@.len(),
            forall|k: int| 0 <= k < i ==> relative_error("path"@, (#[trigger] config.commands@[k]).cwd@) is None,
            forall|k: int| 0 <= k < config.commands@.len() ==> (#[trigger] config.commands@[k]).argv@.len() > 0,
            fs_reads(old(fs).seen(), fs.seen()),
        decreases config.commands@.len() - i,
    {
        run_one_command(fs, runner, &config.commands[i], workspace)?;
        i = i + 1;
    }
    Ok(())
}

// ---------------------------------------------------------------------------
// Comparing configurations and records
// ---------------------------------------------------------------------------

pub open spec fn opt_text_eq(a: Option<String>, b: Option<String>) -> bool {
    match (a, b) {
        (Some(x), Some(y)) => x@ == y@,
        (None, None) => true,
        _ => false,
    }
}

fn same_opt_text(a: &Option<String>, b: &Option<String>) -> (r: bool)
    ensures
        r == opt_text_eq(*a, *b),
{
    match (a, b) {
        (Some(x), Some(y)) => str_eq(x.as_str(), y.as_str()),
        (None, None) => true,
        _ => false,
    }
}

/// Two ownership records say the same.
pub open spec fn record_eq(a: OwnershipRecord, b: OwnershipRecord) -> bool {
    &&& a.version == b.version
    &&& a.project_id@ == b.project_id@
    &&& a.common_directory@ == b.common_directory@
    &&& a.worktree_path@ == b.worktree_path@
    &&& a.base_sha@ == b.base_sha@
    &&& a.branch@ == b.branch@
    &&& a.ddev_name@ == b.ddev_name@
    &&& a.source_only == b.source_only
    &&& opt_text_eq(a.ddev_app_root, b.ddev_app_root)
}

pub fn same_record(a: &OwnershipRecord, b: &OwnershipRecord) -> (r: bool)
    ensures
        r == record_eq(*a, *b),
{
    a.version == b.version && str_eq(a.project_id.as_str(), b.project_id.as_str()) && str_eq(
        a.common_directory.as_str(),
        b.common_directory.as_str(),
    ) && str_eq(a.worktree_path.as_str(), b.worktree_path.as_str()) && str_eq(
        a.base_sha.as_str(),
        b.base_sha.as_str(),
    ) && str_eq(a.branch.as_str(), b.branch.as_str()) && str_eq(a.ddev_name.as_str(), b.ddev_name.as_str())
        && a.source_only == b.source_only && same_opt_text(&a.ddev_app_root, &b.ddev_app_root)
}

pub open spec fn file_rule_eq(a: FileRule, b: FileRule) -> bool {
    &&& a.label@ == b.label@
    &&& a.destination@ == b.destination@
    &&& opt_text_eq(a.template, b.template)
    &&& opt_text_eq(a.source_env, b.source_env)
}

pub open spec fn command_rule_eq(a: CommandRule, b: CommandRule) -> bool {
    &&& a.label@ == b.label@
    &&& a.cwd@ == b.cwd@
    &&& strs_of(a.argv@) == strs_of(b.argv@)
    &&& a.sensitive == b.sensitive
}

pub open spec fn check_rule_eq(a: CheckRule, b: CheckRule) -> bool {
    &&& a.label@ == b.label@
    &&& a.kind@ == b.kind@
    &&& a.path@ == b.path@
    &&& opt_text_eq(a.key, b.key)
}

pub open spec fn ddev_config_eq(a: Option<DdevConfig>, b: Option<DdevConfig>) -> bool {
    match (a, b) {
        (Some(x), Some(y)) => x.app_root@ == y.app_root@ && match (x.source_site, y.source_site) {
            (Some(s), Some(t)) => s.repository_path@ == t.repository_path@ && s.clone_database
                == t.clone_database,
            (None, None) => true,
            _ => false,
        },
        (None, None) => true,
        _ => false,
    }
}

/// Two configurations say the same.
pub open spec fn config_eq(a: ProjectConfig, b: ProjectConfig) -> bool {
    &&& a.version == b.version
    &&& a.project_id@ == b.project_id@
    &&& a.workspace_root@ == b.workspace_root@
    &&& ddev_config_eq(a.ddev, b.ddev)
    &&& a.files@.len() == b.files@.len()
    &&& (forall|i: int| 0 <= i < a.files@.len() ==> file_rule_eq(#[trigger] a.files@[i], b.files@[i]))
    &&& a.commands@.len() == b.commands@.len()
    &&& (forall|i: int| 0 <= i < a.commands@.len() ==> command_rule_eq(#[trigger] a.commands@[i], b.commands@[i]))
    &&& a.checks@.len() == b.checks@.len()
    &&& (forall|i: int| 0 <= i < a.checks@.len() ==> check_rule_eq(#[trigger] a.checks@[i], b.checks@[i]))
}

fn same_ddev_config(a: &Option<DdevConfig>, b: &Option<DdevConfig>) -> (r: bool)
    ensures
        r == ddev_config_eq(*a, *b),
{
    match (a, b) {
        (Some(x), Some(y)) => {
            if !str_eq(x.app_root.as_str(), y.app_root.as_str()) {
                return false;
            }
            match (&x.source_site, &y.source_site) {
                (Some(s), Some(t)) => str_eq(s.repository_path.as_str(), t.repository_path.as_str())
                    && s.clone_database == t.clone_database,
                (None, None) => true,
                _ => false,
            }
        },
        (None, None) => true,
        _ => false,
    }
}

pub fn same_config(a: &ProjectConfig, b: &ProjectConfig) -> (r: bool)
    ensures
        r == config_eq(*a, *b),
{
    if !(a.version == b.version && str_eq(a.project_id.as_str(), b.project_id.as_str()) && str_eq(
        a.workspace_root.as_str(),
        b.workspace_root.as_str(),
    ) && same_ddev_config(&a.ddev, &b.ddev)) {
        return false;
    }
    if a.files.len() != b.files.len() || a.commands.len() != b.commands.len() || a.checks.len()
        != b.checks.len() {
        return false;
    }
    let mut i: usize = 0;
    while i < a.files.len()
        invariant
            i <= a.files@.len() == b.files@.len(),
            forall|k: int| 0 <= k < i ==> file_rule_eq(#[trigger] a.files@[k], b.files@[k]),
        decreases a.files@.len() - i,
    {
        let (x, y) = (&a.files[i], &b.files[i]);
        if !(str_eq(x.label.as_str(), y.label.as_str()) && str_eq(x.destination.as_str(), y.destination.as_str())
            && same_opt_text(&x.template, &y.template) && same_opt_text(&x.source_env, &y.source_env)) {
            return false;
        }
        i = i + 1;
    }
    let mut i: usize = 0;
    while i < a.commands.len()
        invariant
            i <= a.commands@.len() == b.commands@.len(),
            forall|k: int| 0 <= k < i ==> command_rule_eq(#[trigger] a.commands@[k], b.commands@[k]),
        decreases a.commands@.len() - i,
    {
        let (x, y) = (&a.commands[i], &b.commands[i]);
        if !(str_eq(x.label.as_str(), y.label.as_str()) && str_eq(x.cwd.as_str(), y.cwd.as_str())
            && crate::paths::strings_eq(&x.argv, &y.argv) && x.sensitive == y.sensitive) {
            return false;
        }
        i = i + 1;
    }
    let mut i: usize = 0;
    while i < a.checks.len()
        invariant
            i <= a.checks@.len() == b.checks@.len(),
            forall|k: int| 0 <= k < i ==> check_rule_eq(#[trigger] a.checks@[k], b.checks@[k]),
        decreases a.checks@.len() - i,
    {
        let (x, y) = (&a.checks[i], &b.checks[i]);
        if !(str_eq(x.label.as_str(), y.label.as_str()) && str_eq(x.kind.as_str(), y.kind.as_str()) && str_eq(
            x.path.as_str(),
            y.path.as_str(),
        ) && same_opt_text(&x.key, &y.key)) {
            return false;
        }
        i = i + 1;
    }
    true
}

// ---------------------------------------------------------------------------
// Removal authority
// ---------------------------------------------------------------------------

/// What a removal may touch: the managed worktree, and the workspace's own
/// DDEV identity when one is registered.
#[derive(Debug)]
pub struct RemovalTarget {
    pub path: String,
    pub ddev: Option<DdevProject>,
}

/// What a record must say before it authorizes removing workspace `name`:
/// a supported version, the current project and Git common directory, the
/// requested branch, a full base commit, and the deterministic DDEV name.
pub open spec fn record_authorizes(
    record: OwnershipRecord,
    config: ProjectConfig,
    repository: GitRepository,
    name: Seq<char>,
) -> bool {
    &&& record.version == 1
    &&& record.project_id@ == config.project_id@
    &&& path_eq(record.common_directory@, repository.common_dir@)
    &&& record.branch@ == name
    &&& full_commit_id(record.base_sha@)
    &&& record.ddev_name@ == ddev_name(config.project_id@, name)
}

/// The only changes a removal asks for: removing a worktree without force
/// (exactly `git worktree remove` and the path), and stopping and unlisting
/// a DDEV project.
pub open spec fn removal_step(req: CommandRequest) -> bool {
    ||| req.program@ == "git"@ && req.args@.len() == 3 && req.args@[0]@ == "worktree"@ && req.args@[1]@ == "remove"@
    ||| req.program@ == "ddev"@ && req.args@.len() > 0 && req.args@[0]@ == "stop"@
}

/// Whether the recorded request `x` removed, with success, the worktree of
/// `record`, which authorizes the removal of `name` under `config` in
/// `repository`, and which is not the main worktree.
pub open spec fn removed_authorized(
    x: (CommandRequest, ToolResult<CommandOutput>),
    record: OwnershipRecord,
    config: ProjectConfig,
    repository: GitRepository,
    name: Seq<char>,
) -> bool {
    &&& x.0.program@ == "git"@
    &&& strs_of(x.0.args@) == seq!["worktree"@, "remove"@, record.worktree_path@]
    &&& x.1 matches Ok(o) && o.status == 0
    &&& removal_target_ok(record, config, repository, name)
}

/// Whether `after` extends `before` with requests that change nothing or
/// are removal steps.
pub open spec fn changes_only_by_removal(
    before: Seq<(CommandRequest, ToolResult<CommandOutput>)>,
    after: Seq<(CommandRequest, ToolResult<CommandOutput>)>,
) -> bool {
    &&& before.len() <= after.len()
    &&& forall|i: int| 0 <= i < before.len() ==> #[trigger] after[i] == before[i]
    &&& forall|i: int| before.len() <= i < after.len() ==> (#[trigger] after[i]).0.mutating ==> removal_step(after[i].0)
}

/// Whether the record's worktree is one this tool may remove for `name`:
/// the record authorizes it, its path is the configured workspace path
/// `<repository main worktree>/<workspace root>/<name>`, and it is not the
/// main worktree.
pub open spec fn removal_target_ok(
    record: OwnershipRecord,
    config: ProjectConfig,
    repository: GitRepository,
    name: Seq<char>,
) -> bool {
    &&& record_authorizes(record, config, repository, name)
    &&& path_eq(
        record.worktree_path@,
        join_path(crate::config::joined_below(repository.main_worktree@, config.workspace_root@), name),
    )
    &&& !path_eq(record.worktree_path@, repository.main_worktree@)
}

/// Why a removal is refused on the record, the configuration and the
/// repository alone, before anything outside is consulted: the checks in
/// the order they are made, each with its message.
pub open spec fn removal_refusal(
    record: OwnershipRecord,
    config: ProjectConfig,
    repository: GitRepository,
    name: Seq<char>,
) -> Option<Seq<char>> {
    if record.version != 1 {
        Some("ownership record version is unsupported; refusing removal"@)
    } else if record.project_id@ != config.project_id@ {
        Some("ownership record project ID differs from current configuration; refusing removal"@)
    } else if !path_eq(record.common_directory@, repository.common_dir@) {
        Some("ownership record points to a different Git common directory; refusing removal"@)
    } else if record.branch@ != name {
        Some("ownership record branch does not match the requested workspace name; refusing removal"@)
    } else if !full_commit_id(record.base_sha@) {
        Some("ownership record base SHA is not a full commit ID; refusing removal"@)
    } else {
        match crate::ddev::expected_name_spec(config.project_id@, name) {
            Err(m) => Some(m),
            Ok(n) => if record.ddev_name@ != n {
                Some(
                    "ownership record DDEV name does not match the deterministic project identity; refusing removal"@,
                )
            } else {
                None
            },
        }
    }
}

/// Proves that the record's workspace is what this tool created and that it
/// is safe to remove: the record matches the configuration and the
/// repository, the path is the configured, canonical, existing workspace
/// path (never the main worktree), Git lists it unlocked and not prunable on
/// the recorded branch, it is clean, and any DDEV identity at its app root is
/// exactly the recorded one.
pub fn verify_removal_target<R: CommandRunner, F: FileSystem, D: DdevRegistry>(
    fs: &mut Files<F>,
    runner: &mut Recorder<R>,
    registry: &mut Registry<D>,
    repository: &GitRepository,
    config: &ProjectConfig,
    name: &str,
    record: &OwnershipRecord,
) -> (r: ToolResult<RemovalTarget>)
    ensures
        fs_reads(old(fs).seen(), final(fs).seen()),
        record.version != 1 ==> fails_with(r, "ownership record version is unsupported; refusing removal"@),
        removal_refusal(*record, *config, *repository, name@) matches Some(m) ==> fails_with(r, m),
        removal_refusal(*record, *config, *repository, name@) is Some ==> final(runner).sent() == old(runner).sent(),
        r is Ok ==> exists|k: int|
            0 <= k < final(runner).sent().len() && #[trigger] crate::git::lists_removable(
                final(runner).sent()[k],
                record.worktree_path@,
                name@,
            ),
        r is Ok ==> removal_target_ok(*record, *config, *repository, name@),
        r is Ok ==> exists|k: int|
            0 <= k && k + 1 < final(runner).sent().len() && #[trigger] crate::git::clean_status(
                final(runner).sent()[k],
                record.worktree_path@,
            ) && crate::git::clean_submodules(final(runner).sent()[k + 1], record.worktree_path@),
        only_reads(old(runner).sent(), final(runner).sent()),
        !record_authorizes(*record, *config, *repository, name@) ==> r is Err,
        r matches Ok(t) ==> {
            &&& record_authorizes(*record, *config, *repository, name@)
            &&& t.path@ == record.worktree_path@
            &&& !path_eq(t.path@, repository.main_worktree@)
            &&& (t.ddev matches Some(p) ==> p.name@ == record.ddev_name@)
        },
        reg_extends(old(registry).seen(), final(registry).seen()),
        r matches Ok(t) ==> (t.ddev is Some ==> found_identity(
            final(registry).seen(),
            old(registry).seen().len() as int,
            record.ddev_name@,
        )),
{
    if record.version != 1 {
        return Err(ToolError::new("ownership record version is unsupported; refusing removal".to_owned()));
    }
    if !str_eq(record.project_id.as_str(), config.project_id.as_str()) {
        return Err(ToolError::new(
            "ownership record project ID differs from current configuration; refusing removal".to_owned(),
        ));
    }
    if !same_path(record.common_directory.as_str(), repository.common_dir.as_str()) {
        return Err(ToolError::new(
            "ownership record points to a different Git common directory; refusing removal".to_owned(),
        ));
    }
    if !str_eq(record.branch.as_str(), name) {
        return Err(ToolError::new(
            "ownership record branch does not match the requested workspace name; refusing removal".to_owned(),
        ));
    }
    if !is_full_commit_id(record.base_sha.as_str()) {
        return Err(ToolError::new(
            "ownership record base SHA is not a full commit ID; refusing removal".to_owned(),
        ));
    }
    let expected = expected_name(config.project_id.as_str(), name)?;
    if !str_eq(record.ddev_name.as_str(), expected.as_str()) {
        return Err(ToolError::new(
            "ownership record DDEV name does not match the deterministic project identity; refusing removal".to_owned(),
        ));
    }
    let workspace_root = safe_join(fs, repository.main_worktree.as_str(), config.workspace_root.as_str())?;
    let expected_path = join(workspace_root.as_str(), name);
    let path = record.worktree_path.clone();
    if !same_path(path.as_str(), expected_path.as_str()) {
        let mut m = concat4(
            "ownership record path ",
            path.as_str(),
            " does not match configured workspace path ",
            expected_path.as_str(),
        );
        m.append("; refusing removal");
        return Err(ToolError::new(m));
    }
    if same_path(path.as_str(), repository.main_worktree.as_str()) {
        return Err(ToolError::new("the main Git worktree is never removable".to_owned()));
    }
    if !fs.path_exists(path.as_str()) {
        return Err(ToolError::new(
            concat3("managed worktree ", path.as_str(), " is missing; ownership is not re-created automatically"),
        ));
    }
    let canonical = match fs.canonicalize(path.as_str()) {
        Ok(c) => c,
        Err(e) => {
            return Err(crate::config::io_error(e.as_str()));
        },
    };
    if !same_path(canonical.as_str(), path.as_str()) {
        return Err(ToolError::new(
            "managed worktree path is symlinked or otherwise non-canonical; refusing removal".to_owned(),
        ));
    }
    let worktrees = repository.worktrees(runner)?;
    let ghost listing_at = runner.sent().len() - 1;
    let ghost listing = runner.sent();
    let listed = listed_worktree(&worktrees, path.as_str());
    let worktree = match listed {
        Some(k) => &worktrees[k],
        None => {
            return Err(ToolError::new(
                "Git does not currently prove the owned worktree path; refusing removal".to_owned(),
            ));
        },
    };
    if worktree.locked {
        return Err(ToolError::new(
            "managed Git worktree is locked; unlock it manually before removal".to_owned(),
        ));
    }
    if worktree.prunable {
        return Err(ToolError::new(
            "managed Git worktree metadata is prunable; repair it manually before removal".to_owned(),
        ));
    }
    if !on_branch(worktree, name) {
        return Err(ToolError::new(
            "Git worktree branch does not match the ownership record; refusing removal".to_owned(),
        ));
    }
    proof {
        let w = listed->0 as int;
        let ws = crate::git::wt_views(worktrees@);
        assert(ws[w] == worktrees@[w]@);
        assert(crate::git::lists_removable(listing[listing_at], record.worktree_path@, name@));
    }
    repository.worktree_is_clean(path.as_str(), runner)?;
    let ddev = match &config.ddev {
        Some(ddev_config) => {
            let app_root = safe_join(fs, path.as_str(), ddev_config.app_root.as_str())?;
            let inspection = registry.inspect(runner.inner_mut(), app_root.as_str())?;
            let owned = find_owned_ddev(fs, &inspection.entries, record.ddev_name.as_str(), app_root.as_str())?;
            proof {
                if owned is Some {
                    let p = owned->0;
                    let e = choose|e: int| 0 <= e < inspection.entries@.len() && inspection.entries@[e] == p;
                    assert(lists_name(inspection, record.ddev_name@));
                    let k = registry.seen().len() - 1;
                    assert(registry.seen()[k].1 == Ok::<DdevInspection, ToolError>(inspection));
                }
            }
            owned
        },
        None => None,
    };
    assert(runner.sent()[listing_at] == listing[listing_at]);
    Ok(RemovalTarget { path, ddev })
}

/// The position of the worktree Git lists at `path`.
pub fn listed_worktree(worktrees: &Vec<WorktreeRecord>, path: &str) -> (r: Option<usize>)
    ensures
        match r {
            Some(k) => k < worktrees@.len() && path_eq(worktrees@[k as int].path@, path@),
            None => forall|k: int| 0 <= k < worktrees@.len() ==> !path_eq(#[trigger] worktrees@[k].path@, path@),
        },
{
    let mut k: usize = 0;
    while k < worktrees.len()
        invariant
            k <= worktrees@.len(),
            forall|j: int| 0 <= j < k ==> !path_eq(#[trigger] worktrees@[j].path@, path@),
        decreases worktrees@.len() - k,
    {
        if same_path(worktrees[k].path.as_str(), path) {
            return Some(k);
        }
        k = k + 1;
    }
    None
}

/// Whether a worktree has branch `refs/heads/<name>` checked out.
pub fn on_branch(worktree: &WorktreeRecord, name: &str) -> (b: bool)
    ensures
        b == (worktree.branch matches Some(br) && br@ == "refs/heads/"@ + name@),
{
    match &worktree.branch {
        Some(branch) => {
            let mut expected = "refs/heads/".to_owned();
            expected.append(name);
            str_eq(branch.as_str(), expected.as_str())
        },
        None => false,
    }
}

/// The record of the worktree at the repository's root among all records,
/// and the problems found in the records: invalid ones, and ones that point
/// to another Git common directory.
pub fn ownership_state_for_path<F: FileSystem, P: Fn(&str) -> Result<OwnershipRecord, String>>(
    fs: &mut Files<F>,
    repository: &GitRepository,
    parse: &P,
) -> (r: (Option<(String, OwnershipRecord)>, Vec<String>))
    requires
        forall|s: &str| parse.requires((s,)),
    ensures
        fs_reads(old(fs).seen(), final(fs).seen()),
        r.0 matches Some((_, rec)) ==> {
            &&& rec.version == 1
            &&& path_eq(rec.common_directory@, repository.common_dir@)
            &&& path_eq(rec.worktree_path@, repository.root@)
        },
        parent_of(crate::state::records_directory_of(repository.common_dir@)) is None ==> r.0 is None && strs_of(
            r.1@,
        ) == seq!["ownership directory has no parent"@],
{
    let entries = match crate::state::list(fs, repository.common_dir.as_str(), parse) {
        Ok(es) => es,
        Err(e) => {
            let mut issues: Vec<String> = Vec::new();
            issues.push(e.message());
            assert(strs_of(issues@) =~= seq![e.msg()]);
            return (None, issues);
        },
    };
    let mut issues: Vec<String> = Vec::new();
    let mut managed: Option<(String, OwnershipRecord)> = None;
    let mut i: usize = 0;
    while i < entries.len()
        invariant
            i <= entries@.len(),
            forall|k: int| 0 <= k < entries@.len() ==> ((#[trigger] entries@[k]).record matches Ok(rec) ==> rec.version == 1),
            managed matches Some((_, rec)) ==> {
                &&& rec.version == 1
                &&& path_eq(rec.common_directory@, repository.common_dir@)
                &&& path_eq(rec.worktree_path@, repository.root@)
            },
        decreases entries@.len() - i,
    {
        let entry = &entries[i];
        match &entry.record {
            Ok(record) => {
                assert(entries@[i as int].record matches Ok(rec) && rec.version == 1);
                if !same_path(record.common_directory.as_str(), repository.common_dir.as_str()) {
                    issues.push(
                        concat3("record `", entry.name.as_str(), "` points to another Git common directory"),
                    );
                } else if same_path(record.worktree_path.as_str(), repository.root.as_str()) {
                    managed = Some((entry.name.clone(), crate::state::copy_record(record)));
                }
            },
            Err(e) => {
                issues.push(concat4("record `", entry.name.as_str(), "` is invalid: ", e.as_str()));
            },
        }
        i = i + 1;
    }
    (managed, issues)
}

/// Reloads the configuration and the record after confirmation; a removal
/// goes on only when both are exactly what was confirmed.
pub fn reload_removal_state<
    R: CommandRunner,
    F: FileSystem,
    PC: Fn(&str) -> Result<ProjectConfig, String>,
    PR: Fn(&str) -> Result<OwnershipRecord, String>,
>(
    fs: &mut Files<F>,
    runner: &mut Recorder<R>,
    repository: &GitRepository,
    name: &str,
    expected_config: &ProjectConfig,
    expected_record: &OwnershipRecord,
    expected_record_path: &str,
    parse_config: &PC,
    parse_record: &PR,
) -> (r: ToolResult<(String, ProjectConfig, OwnershipRecord)>)
    requires
        forall|s: &str| parse_config.requires((s,)),
        forall|s: &str| parse_record.requires((s,)),
    ensures
        r matches Ok((p, c, rec)) ==> {
            &&& path_eq(p@, expected_record_path@)
            &&& config_eq(c, *expected_config)
            &&& record_eq(rec, *expected_record)
            &&& fields_valid(c)
        },
        only_reads(old(runner).sent(), final(runner).sent()),
{
    let config = ProjectConfig::load(fs, repository.main_worktree.as_str(), parse_config)?;
    config.validate(repository.main_worktree.as_str(), runner, fs)?;
    let (record_path, record) = crate::state::load(fs, repository.common_dir.as_str(), name, parse_record)?;
    if !same_path(record_path.as_str(), expected_record_path) || !same_record(&record, expected_record)
        || !same_config(&config, expected_config) {
        return Err(ToolError::new(
            "ownership record or project configuration changed after confirmation; no further mutation was attempted".to_owned(),
        ));
    }
    Ok((record_path, config, record))
}

// ---------------------------------------------------------------------------
// Listing managed workspaces
// ---------------------------------------------------------------------------

fn verdict(name: &str, text: &str, ready: bool) -> (r: (String, bool))
    ensures
        r.0@ == name@ + text@,
        r.1 == ready,
{
    let mut line = name.to_owned();
    line.append(text);
    (line, ready)
}

fn status(name: &str, verdict: &str, detail: &str, ready: bool) -> (r: (String, bool))
    ensures
        r.0@ == name@ + verdict@ + detail@,
        r.1 == ready,
{
    (concat3(name, verdict, detail), ready)
}

/// The status line of a workspace whose runtime check failed with `reason`:
/// a workspace created source-only is still reported source-only and counts
/// as ready; any other is not ready.
pub fn runtime_failure_status(name: &str, reason: &str, source_only: bool) -> (r: (String, bool))
    ensures
        r.1 == source_only,
        source_only ==> r.0@ == name@ + ": SOURCE-ONLY — "@ + reason@,
        !source_only ==> r.0@ == name@ + ": NOT READY — "@ + reason@,
{
    if source_only {
        status(name, ": SOURCE-ONLY — ", reason, true)
    } else {
        status(name, ": NOT READY — ", reason, false)
    }
}

/// The lines that report a workspace ready although it was not created
/// source-only: a missing configuration, a configuration without DDEV, an
/// unregistered DDEV identity, or a running identity at its path.
pub open spec fn ready_line(name: Seq<char>, path: Seq<char>, line: Seq<char>) -> bool {
    ||| line == name + ": SOURCE-ONLY — configuration is missing from the manager root"@
    ||| line == name + ": READY — source and configured non-DDEV checks pass"@
    ||| line == name + ": SOURCE-ONLY — DDEV identity is not registered"@
    ||| line == name + ": READY — running at "@ + path
}

/// The status line of a listed record that is refused on the record, the
/// repository and the configuration alone, before anything outside is
/// consulted: the checks in the order they are made.
pub open spec fn entry_refusal(
    entry: RecordEntry,
    repository: GitRepository,
    config: Option<&ProjectConfig>,
    config_error: Option<&ToolError>,
) -> Option<Seq<char>> {
    let name = entry.name@;
    match entry.record {
        Err(e) => Some(name + ": INVALID RECORD — "@ + e@),
        Ok(rec) => if !path_eq(rec.common_directory@, repository.common_dir@) {
            Some(name + ": NOT READY — ownership record points to another Git common directory"@)
        } else if rec.branch@ != name {
            Some(name + ": INVALID RECORD — branch does not match the record filename"@)
        } else if !is_abs(rec.worktree_path@) {
            Some(name + ": INVALID RECORD — worktree path must be absolute"@)
        } else if !full_commit_id(rec.base_sha@) {
            Some(name + ": INVALID RECORD — base_sha is not a full commit ID"@)
        } else {
            match config_error {
                Some(e) => Some(name + ": NOT READY — current configuration is invalid: "@ + e.msg()),
                None => match config {
                    Some(c) => if rec.project_id@ != c.project_id@ {
                        Some(name + ": INVALID RECORD — project ID does not match current configuration"@)
                    } else {
                        None
                    },
                    None => None,
                },
            }
        },
    }
}

/// The status line of one managed workspace and whether it counts as
/// ready. Each check of the record, the configuration, the path, Git and
/// DDEV that fails decides the line. A workspace without configuration or
/// without a registered DDEV identity is reported source-only, which counts
/// as ready; a failing runtime check counts as source-only only for a
/// workspace created source-only, and as not ready otherwise.
pub fn list_entry_status<R: CommandRunner, F: FileSystem>(
    fs: &mut Files<F>,
    runner: &mut Recorder<R>,
    repository: &GitRepository,
    config: Option<&ProjectConfig>,
    config_error: Option<&ToolError>,
    ddev_inspection: Option<&ToolResult<DdevInspection>>,
    entry: &RecordEntry,
) -> (r: (String, bool))
    ensures
        fs_reads(old(fs).seen(), final(fs).seen()),
        entry.record matches Err(e) ==> !r.1 && r.0@ == entry.name@ + ": INVALID RECORD — "@ + e@,
        entry_refusal(*entry, *repository, config, config_error) matches Some(m) ==> !r.1 && r.0@ == m,
        entry_refusal(*entry, *repository, config, config_error) is Some ==> final(runner).sent() == old(runner).sent(),
        r.1 ==> exists|k: int|
            #[trigger] crate::git::diagnosed_at(final(runner).sent(), k, None, Seq::<Seq<char>>::empty()),
        r.1 ==> (entry.record matches Ok(rec) && exists|k: int|
            0 <= k < final(runner).sent().len() && #[trigger] crate::git::lists_on_branch(
                final(runner).sent()[k],
                rec.worktree_path@,
                entry.name@,
            )),
        only_reads(old(runner).sent(), final(runner).sent()),
        r.1 ==> (entry.record matches Ok(rec) && {
            &&& path_eq(rec.common_directory@, repository.common_dir@)
            &&& rec.branch@ == entry.name@
            &&& is_abs(rec.worktree_path@)
            &&& full_commit_id(rec.base_sha@)
        }),
        r.1 ==> config_error is None,
        r.1 && config is None ==> r.0@ == entry.name@ + ": SOURCE-ONLY — configuration is missing from the manager root"@,
        r.1 ==> (entry.record matches Ok(rec) && (!rec.source_only ==> ready_line(entry.name@, rec.worktree_path@, r.0@))),
{
    let name = entry.name.as_str();
    let record = match &entry.record {
        Ok(rec) => rec,
        Err(e) => {
            return status(name, ": INVALID RECORD — ", e.as_str(), false);
        },
    };
    if !same_path(record.common_directory.as_str(), repository.common_dir.as_str()) {
        return verdict(name, ": NOT READY — ownership record points to another Git common directory", false);
    }
    if !str_eq(record.branch.as_str(), name) {
        return verdict(name, ": INVALID RECORD — branch does not match the record filename", false);
    }
    if !crate::paths::path_is_absolute(record.worktree_path.as_str()) {
        return verdict(name, ": INVALID RECORD — worktree path must be absolute", false);
    }
    if !is_full_commit_id(record.base_sha.as_str()) {
        return verdict(name, ": INVALID RECORD — base_sha is not a full commit ID", false);
    }
    if let Some(error) = config_error {
        let detail = error.message();
        return status(name, ": NOT READY — current configuration is invalid: ", detail.as_str(), false);
    }
    let path = record.worktree_path.as_str();
    if let Some(config) = config {
        if !str_eq(record.project_id.as_str(), config.project_id.as_str()) {
            return verdict(name, ": INVALID RECORD — project ID does not match current configuration", false);
        }
        let expected_root = match safe_join(fs, repository.main_worktree.as_str(), config.workspace_root.as_str()) {
            Ok(root) => root,
            Err(e) => {
                let detail = e.message();
                return status(name, ": NOT READY — ", detail.as_str(), false);
            },
        };
        let expected_path = join(expected_root.as_str(), name);
        if !same_path(path, expected_path.as_str()) {
            return verdict(
                name,
                ": NOT READY — ownership record path does not match configured workspace path",
                false,
            );
        }
    }
    if !fs.path_exists(path) {
        return status(name, ": MISSING PATH — ", path, false);
    }
    let canonical = match fs.canonicalize(path) {
        Ok(c) => c,
        Err(_) => {
            return verdict(name, ": NOT READY — managed worktree path could not be canonicalized", false);
        },
    };
    if !same_path(canonical.as_str(), path) {
        return verdict(
            name,
            ": NOT READY — managed worktree path is symlinked or otherwise non-canonical",
            false,
        );
    }
    let worktree_repository = match GitRepository::discover(path, runner, fs) {
        Ok(repo) => repo,
        Err(e) => {
            let detail = e.message();
            return status(name, ": NOT READY — ", detail.as_str(), false);
        },
    };
    if !same_path(worktree_repository.common_dir.as_str(), repository.common_dir.as_str()) {
        return verdict(name, ": NOT READY — managed path belongs to another Git common directory", false);
    }
    let ghost k = runner.sent().len() as int;
    let source = match worktree_repository.diagnose(None, runner, fs) {
        Ok(d) => d,
        Err(e) => {
            let detail = e.message();
            return status(name, ": NOT READY — ", detail.as_str(), false);
        },
    };
    let listed = listed_worktree(&source.worktrees, path);
    let worktree = match listed {
        Some(w) => &source.worktrees[w],
        None => {
            return verdict(
                name,
                ": NOT READY — Git does not currently prove the recorded worktree path",
                false,
            );
        },
    };
    if !on_branch(worktree, name) {
        return verdict(name, ": NOT READY — Git worktree branch does not match the ownership record", false);
    }
    if !source.ready() {
        let issues = crate::text::join_strings_sep(&source.issues, "; ");
        return status(name, ": NOT READY — ", issues.as_str(), false);
    }
    let ghost mid = runner.sent();
    if let Err(e) = worktree_repository.worktree_is_clean(path, runner) {
        let detail = e.message();
        return status(name, ": NOT READY — ", detail.as_str(), false);
    }
    proof {
        assert(strs_of(source.issues@) =~= Seq::<Seq<char>>::empty());
        crate::git::lemma_diagnosis_kept(mid, runner.sent(), k, None, Seq::empty());
        let w = listed->0 as int;
        let ws = crate::git::wt_views(source.worktrees@);
        assert(ws[w] == source.worktrees@[w]@);
        assert(crate::git::lists_worktrees(mid[k], ws));
        assert(runner.sent()[k] == mid[k]);
        assert(crate::git::lists_on_branch(runner.sent()[k], record.worktree_path@, entry.name@));
    }
    let config = match config {
        Some(c) => c,
        None => {
            return verdict(name, ": SOURCE-ONLY — configuration is missing from the manager root", true);
        },
    };
    let expected = match expected_name(config.project_id.as_str(), name) {
        Ok(n) => n,
        Err(e) => {
            let detail = e.message();
            return status(name, ": NOT READY — ", detail.as_str(), false);
        },
    };
    if !str_eq(record.ddev_name.as_str(), expected.as_str()) {
        return verdict(
            name,
            ": INVALID RECORD — DDEV name does not match the deterministic project identity",
            false,
        );
    }
    if let Some(reason) = runtime_precondition_failure(fs, config, path) {
        return runtime_failure_status(name, reason.as_str(), record.source_only);
    }
    let ddev_config = match &config.ddev {
        Some(d) => d,
        None => {
            return verdict(name, ": READY — source and configured non-DDEV checks pass", true);
        },
    };
    let app_root = match safe_join(fs, path, ddev_config.app_root.as_str()) {
        Ok(a) => a,
        Err(e) => {
            let detail = e.message();
            return status(name, ": NOT READY — ", detail.as_str(), false);
        },
    };
    let inspection = match ddev_inspection {
        Some(Ok(i)) => i,
        Some(Err(e)) => {
            let detail = e.message();
            return status(name, ": NOT READY — DDEV list failed: ", detail.as_str(), false);
        },
        None => {
            return verdict(name, ": NOT READY — DDEV inspection was not prepared", false);
        },
    };
    let owned = find_owned_ddev(fs, &inspection.entries, record.ddev_name.as_str(), app_root.as_str());
    identity_status(name, path, &owned)
}

/// The status line of a workspace from what the search for its owned DDEV
/// identity found: a running identity with healthy or disabled Mutagen is
/// ready, a missing one leaves the workspace source-only, anything else is
/// not ready.
pub fn identity_status(name: &str, path: &str, owned: &ToolResult<Option<DdevProject>>) -> (r: (String, bool))
    ensures
        match owned {
            Ok(Some(p)) => if crate::ddev::is_running(*p) && mutagen_ready(*p) {
                r.0@ == name@ + ": READY — running at "@ + path@ && r.1
            } else {
                r.0@ == name@ + ": NOT READY — DDEV identity is stopped or Mutagen is unhealthy"@ && !r.1
            },
            Ok(None) => r.0@ == name@ + ": SOURCE-ONLY — DDEV identity is not registered"@ && r.1,
            Err(e) => r.0@ == name@ + ": NOT READY — "@ + e.msg() && !r.1,
        },
{
    match owned {
        Ok(Some(project)) => {
            if crate::ddev::eq_ignore_ascii_case(project.status.as_str(), "running") && ddev_mutagen_ready(project) {
                status(name, ": READY — running at ", path, true)
            } else {
                verdict(name, ": NOT READY — DDEV identity is stopped or Mutagen is unhealthy", false)
            }
        },
        Ok(None) => verdict(name, ": SOURCE-ONLY — DDEV identity is not registered", true),
        Err(e) => {
            let detail = e.message();
            status(name, ": NOT READY — ", detail.as_str(), false)
        },
    }
}

// ---------------------------------------------------------------------------
// Commands
// ---------------------------------------------------------------------------

/// What the commands need from their surroundings besides processes, the
/// file system and DDEV's registry: a console, the text formats of the
/// configuration and of ownership records, and the copying of prepared
/// files.
pub trait Host {
    /// Shows one line of the report.
    fn say(&mut self, line: &str);

    /// Whether a person can answer a question.
    fn interactive(&mut self) -> bool;

    /// Asks a question and returns the line typed in answer.
    fn ask(&mut self, prompt: &str) -> Result<String, String>;

    /// Reads the text of a configuration file.
    fn parse_config(&self, text: &str) -> Result<ProjectConfig, String>;

    /// Reads the text of an ownership record.
    fn parse_record(&self, text: &str) -> Result<OwnershipRecord, String>;

    /// Writes the text of an ownership record.
    fn serialize_record(&self, record: &OwnershipRecord) -> Result<String, String>;

    /// Copies a planned file to its destination, creating missing parent
    /// directories and never replacing an existing file; a private copy is
    /// readable by its owner only.
    fn copy_planned_file(&mut self, file: &PlannedFile) -> ToolResult<()>;
}

fn say2<H: Host>(host: &mut H, a: &str, b: &str) {
    let line = concat3(a, b, "");
    host.say(line.as_str());
}

fn say3<H: Host>(host: &mut H, a: &str, b: &str, c: &str) {
    let line = concat3(a, b, c);
    host.say(line.as_str());
}

fn load_config<F: FileSystem, H: Host>(fs: &mut Files<F>, host: &H, root: &str) -> (r: ToolResult<ProjectConfig>)
    ensures
        fs_reads(old(fs).seen(), final(fs).seen()),
        r is Ok || (exists|d: Seq<char>|
            fails_with(
                r,
                "configuration is required at "@ + join_path(root@, crate::config::CONFIG_FILE@) + ": "@ + d
                    + "; add version, project_id, and workspace_root"@,
            )) || (exists|d: Seq<char>|
            fails_with(
                r,
                "invalid configuration at "@ + join_path(root@, crate::config::CONFIG_FILE@) + ": "@ + d
                    + "; correct the named field and rerun doctor"@,
            )),
{
    ProjectConfig::load(fs, root, &|s: &str| host.parse_config(s))
}

/// The source diagnostics as reported by `doctor`.
fn print_source_diagnostics<H: Host>(host: &mut H, diagnostics: &SourceDiagnostics) {
    if diagnostics.ready() {
        host.say("Source: READY");
    } else {
        host.say("Source: NOT READY");
    }
    let mut i: usize = 0;
    while i < diagnostics.issues.len()
        decreases diagnostics.issues@.len() - i,
    {
        say2(host, "- ", diagnostics.issues[i].as_str());
        i = i + 1;
    }
    print_cleanup_report(host, diagnostics);
}

fn print_cleanup_report<H: Host>(host: &mut H, diagnostics: &SourceDiagnostics) {
    let mut i: usize = 0;
    while i < diagnostics.warnings.len()
        decreases diagnostics.warnings@.len() - i,
    {
        say2(host, "Cleanup report: ", diagnostics.warnings[i].as_str());
        i = i + 1;
    }
}

fn print_ddev_warnings<H: Host>(host: &mut H, inspection: &DdevInspection) {
    let mut i: usize = 0;
    while i < inspection.warnings.len()
        decreases inspection.warnings@.len() - i,
    {
        say2(host, "DDEV: ", inspection.warnings[i].as_str());
        i = i + 1;
    }
}

/// `<name> @ <approot> (running, Mutagen ok|disabled)`.
fn running_project_line(project: &DdevProject) -> (s: String)
    ensures
        s@ == "DDEV: "@ + project.name@ + " @ "@ + project.approot@ + if project.mutagen_enabled {
            " (running, Mutagen ok)"@
        } else {
            " (running, Mutagen disabled)"@
        },
{
    let mut s = concat4("DDEV: ", project.name.as_str(), " @ ", project.approot.as_str());
    if project.mutagen_enabled {
        s.append(" (running, Mutagen ok)");
    } else {
        s.append(" (running, Mutagen disabled)");
    }
    s
}

/// Diagnoses a repository or managed workspace without changing anything:
/// source state, ownership records, the configuration, and for a managed
/// workspace its runtime and DDEV identity. Reports `0` when everything is
/// ready and `1` otherwise.
pub fn doctor<R: CommandRunner, F: FileSystem, D: DdevRegistry, H: Host>(
    path: Option<&str>,
    runner: &mut Recorder<R>,
    fs: &mut Files<F>,
    registry: &mut Registry<D>,
    host: &mut H,
) -> (r: ToolResult<u8>)
    ensures
        fs_reads(old(fs).seen(), final(fs).seen()),
        r matches Ok(code) ==> code == 0 || code == 1,
        only_reads(old(runner).sent(), final(runner).sent()),
        r matches Ok(code) ==> exists|k: int, issues: Seq<Seq<char>>|
            #[trigger] crate::git::diagnosed_at(final(runner).sent(), k, None, issues) && (code == 0 ==> issues.len()
                == 0) && (issues.len() > 0 ==> code == 1),
        r matches Ok(code) ==> (code == 0 ==> exists|k: int|
            0 <= k < final(runner).sent().len() && #[trigger] crate::config::probe_ignored(final(runner).sent()[k])),
{
    let path = match path {
        Some(p) => p,
        None => ".",
    };
    let repository = GitRepository::discover(path, runner, fs)?;
    let ghost k = runner.sent().len() as int;
    let diagnostics = repository.diagnose(None, runner, fs)?;
    let ghost mid = runner.sent();
    say2(host, "Repository: ", repository.root.as_str());
    say2(host, "Git common directory: ", repository.common_dir.as_str());
    print_source_diagnostics(host, &diagnostics);
    let (managed_record, ownership_issues) = {
        let h: &H = host;
        ownership_state_for_path(fs, &repository, &|s: &str| h.parse_record(s))
    };
    let mut i: usize = 0;
    while i < ownership_issues.len()
        invariant
            fs_reads(old(fs).seen(), fs.seen()),
        decreases ownership_issues@.len() - i,
    {
        say2(host, "Ownership: NOT READY — ", ownership_issues[i].as_str());
        i = i + 1;
    }
    let ghost mut probe_at: int = 0;
    let ghost mut at_probe: Seq<(CommandRequest, ToolResult<CommandOutput>)> = Seq::empty();
    let config_result = match load_config(fs, host, repository.main_worktree.as_str()) {
        Ok(config) => match config.validate(repository.main_worktree.as_str(), runner, fs) {
            Ok(()) => {
                proof {
                    at_probe = runner.sent();
                    probe_at = at_probe.len() - 1;
                    assert(crate::config::probe_ignored(at_probe[probe_at]));
                }
                Ok(config)
            },
            Err(e) => Err(e),
        },
        Err(e) => Err(e),
    };
    assert(config_result is Ok ==> 0 <= probe_at < at_probe.len() && crate::config::probe_ignored(at_probe[probe_at])
        && extends(at_probe, runner.sent()));
    let config_ready = match config_result {
        Ok(config) => {
            host.say("Configuration: READY");
            let mut ready = true;
            if let Some((record_name, record)) = &managed_record {
                if let Err(error) = verify_removal_target(
                    fs,
                    runner,
                    registry,
                    &repository,
                    &config,
                    record_name.as_str(),
                    record,
                ) {
                    let detail = error.message();
                    say2(host, "Ownership: NOT READY — ", detail.as_str());
                    ready = false;
                }
                if let Some(reason) = runtime_precondition_failure(fs, &config, repository.root.as_str()) {
                    say2(host, "Runtime: NOT READY — ", reason.as_str());
                    ready = false;
                } else {
                    host.say("Runtime: READY");
                }
                say2(host, "Ownership: ", record.ddev_name.as_str());
            }
            if let Some(ddev_config) = &config.ddev {
                let app_root = safe_join(fs, repository.root.as_str(), ddev_config.app_root.as_str())?;
                match registry.inspect(runner.inner_mut(), app_root.as_str()) {
                    Ok(inspection) => {
                        print_ddev_warnings(host, &inspection);
                        if let Some((_, record)) = &managed_record {
                            match find_owned_ddev(
                                fs,
                                &inspection.entries,
                                record.ddev_name.as_str(),
                                app_root.as_str(),
                            ) {
                                Ok(Some(project)) => {
                                    match crate::ddev::require_ready_identity(
                                        &inspection,
                                        record.ddev_name.as_str(),
                                        app_root.as_str(),
                                        fs,
                                    ) {
                                        Ok(_) => {
                                            let line = running_project_line(&project);
                                            host.say(line.as_str());
                                        },
                                        Err(error) => {
                                            let detail = error.message();
                                            say2(host, "DDEV: NOT READY — ", detail.as_str());
                                            ready = false;
                                        },
                                    }
                                },
                                Ok(None) => {
                                    say3(
                                        host,
                                        "DDEV: NOT READY — managed identity `",
                                        record.ddev_name.as_str(),
                                        "` is not registered",
                                    );
                                    ready = false;
                                },
                                Err(error) => {
                                    let detail = error.message();
                                    say2(host, "DDEV: NOT READY — ", detail.as_str());
                                    ready = false;
                                },
                            }
                        } else {
                            host.say("DDEV: READY to inspect");
                        }
                    },
                    Err(error) => {
                        let detail = error.message();
                        say2(host, "DDEV: NOT READY — ", detail.as_str());
                        ready = false;
                    },
                }
            } else {
                host.say("DDEV: skipped (not configured)");
            }
            ready
        },
        Err(error) => {
            let detail = error.message();
            say2(host, "Configuration: NOT READY — ", detail.as_str());
            false
        },
    };
    let mut readiness: Vec<bool> = Vec::new();
    readiness.push(diagnostics.ready());
    readiness.push(config_ready);
    readiness.push(ownership_issues.len() == 0);
    let code = exit_code(&readiness);
    proof {
        crate::git::lemma_diagnosis_kept(mid, runner.sent(), k, None, strs_of(diagnostics.issues@));
        if diagnostics.issues@.len() > 0 {
            assert(!readiness@[0]);
        }
    }
    if code == 0 {
        host.say("READY");
        proof {
            assert(readiness@[0]);
            assert(readiness@[1]);
            assert(runner.sent()[probe_at] == at_probe[probe_at]);
        }
        Ok(0)
    } else {
        host.say("NOT READY — restore the reported repository or configuration state, then rerun doctor");
        Ok(1)
    }
}

/// The exit status of a report made of parts: `0` when every part is
/// ready, `1` otherwise.
pub fn exit_code(ready: &Vec<bool>) -> (c: u8)
    ensures
        c == 0 || c == 1,
        c == 0 <==> forall|i: int| 0 <= i < ready@.len() ==> #[trigger] ready@[i],
{
    let mut i: usize = 0;
    while i < ready.len()
        invariant
            i <= ready@.len(),
            forall|k: int| 0 <= k < i ==> #[trigger] ready@[k],
        decreases ready@.len() - i,
    {
        if !ready[i] {
            return 1;
        }
        i = i + 1;
    }
    0
}

/// Whether a directory listing recorded in `seen` from position `from` on
/// was answered with the names `files`.
pub open spec fn listed_names(seen: Seq<(FsOp, Seq<char>, Seq<char>, FsAnswer)>, from: int, files: Vec<String>) -> bool {
    exists|j: int| from <= j < seen.len() && seen[j].0 == FsOp::ReadDir && #[trigger] seen[j].3 == FsAnswer::Names(Ok(files))
}

/// Whether a query recorded in `seen` from position `from` on found that
/// its path does not exist.
pub open spec fn found_nothing(seen: Seq<(FsOp, Seq<char>, Seq<char>, FsAnswer)>, from: int) -> bool {
    exists|j: int|
        from <= j < seen.len() && seen[j].0 == FsOp::EntryKind && (#[trigger] seen[j].3 matches FsAnswer::Kind(Err(e))
            && e.not_found)
}

/// Whether Git, asked in `sent`, listed a worktree on the branch of each
/// of `names`.
pub open spec fn all_on_branch(sent: Seq<(CommandRequest, ToolResult<CommandOutput>)>, names: Seq<Seq<char>>) -> bool {
    forall|q: int| 0 <= q < names.len() ==> #[trigger] on_branch_somewhere(sent, names[q])
}

/// Whether Git, asked in `sent`, listed a worktree on the branch of `name`.
pub open spec fn on_branch_somewhere(sent: Seq<(CommandRequest, ToolResult<CommandOutput>)>, name: Seq<char>) -> bool {
    exists|k: int, p: Seq<char>| 0 <= k < sent.len() && #[trigger] crate::git::lists_on_branch(sent[k], p, name)
}

/// Lists the managed workspaces of the repository at `cwd` and recomputes
/// each one's readiness. Reports `0` when all are ready and `1` otherwise.
pub fn list<R: CommandRunner, F: FileSystem, D: DdevRegistry, H: Host>(
    cwd: &str,
    runner: &mut Recorder<R>,
    fs: &mut Files<F>,
    registry: &mut Registry<D>,
    host: &mut H,
) -> (r: ToolResult<u8>)
    ensures
        r matches Ok(code) ==> code == 0 || code == 1,
        only_reads(old(runner).sent(), final(runner).sent()),
        fs_reads(old(fs).seen(), final(fs).seen()),
        r == Ok::<u8, ToolError>(0) ==> found_nothing(final(fs).seen(), old(fs).seen().len() as int) || exists|
            files: Vec<String>,
        |
            #[trigger] listed_names(final(fs).seen(), old(fs).seen().len() as int, files) && all_on_branch(
                final(runner).sent(),
                crate::state::stems_of(files@),
            ),
        r == Ok::<u8, ToolError>(1) ==> exists|files: Vec<String>|
            #[trigger] listed_names(final(fs).seen(), old(fs).seen().len() as int, files)
                && crate::state::stems_of(files@).len() > 0,
{
    let repository = GitRepository::discover(cwd, runner, fs)?;
    let manager_root = repository.main_worktree.as_str();
    let ghost s1 = fs.seen().len() as int;
    let entries = {
        let h: &H = host;
        crate::state::list(fs, repository.common_dir.as_str(), &|s: &str| h.parse_record(s))?
    };
    let ghost seen1 = fs.seen();
    let ghost listed = seen1.len() > s1 + 2 && seen1[s1 + 2].0 == FsOp::ReadDir && seen1[s1 + 2].1
        == crate::state::records_directory_of(repository.common_dir@);
    let ghost files: Vec<String> = if listed {
        seen1[s1 + 2].3->Names_0->Ok_0
    } else {
        arbitrary()
    };
    proof {
        assert(parent_of(crate::state::records_directory_of(repository.common_dir@)) is Some);
        if entries@.len() > 0 {
            assert(listed);
        }
        if listed {
            assert(seen1[s1 + 2].3 == FsAnswer::Names(Ok(files)));
            assert(listed_names(seen1, old(fs).seen().len() as int, files));
            assert(crate::state::names_match(entries@, crate::state::stems_of(files@)));
        }
    }
    if entries.len() == 0 {
        say2(host, "No managed workspaces for ", manager_root);
        host.say("READY — list complete");
        proof {
            if listed {
                assert(crate::state::stems_of(files@).len() == 0);
                assert(all_on_branch(runner.sent(), crate::state::stems_of(files@)));
            } else {
                let j = choose|j: int|
                    s1 <= j < seen1.len() && seen1[j].0 == FsOp::EntryKind && (#[trigger] seen1[j].3 matches FsAnswer::Kind(
                        Err(e),
                    ) && e.not_found);
                assert(found_nothing(seen1, old(fs).seen().len() as int));
            }
        }
        return Ok(0);
    }
    let config_result = match load_config(fs, host, manager_root) {
        Ok(config) => match config.validate(manager_root, runner, fs) {
            Ok(()) => Ok(config),
            Err(e) => Err(e),
        },
        Err(e) => Err(e),
    };
    let (config, config_error) = match config_result {
        Ok(c) => (Some(c), None),
        Err(e) => {
            let text = e.message();
            let cs = chars_of(text.as_str());
            let missing = chars_of("configuration is required");
            if crate::text::has_prefix(cs.as_slice(), missing.as_slice()) {
                (None, None)
            } else {
                (None, Some(e))
            }
        },
    };
    let ddev_inspection = match &config {
        Some(c) => {
            if c.ddev.is_some() {
                Some(registry.inspect(runner.inner_mut(), manager_root))
            } else {
                None
            }
        },
        None => None,
    };
    if let Some(Ok(inspection)) = &ddev_inspection {
        print_ddev_warnings(host, inspection);
    }
    let mut readiness: Vec<bool> = Vec::new();
    let ghost start = old(runner).sent();
    let ghost seen2 = fs.seen();
    proof {
        assert(fs_extends(seen1, seen2));
    }
    let mut i: usize = 0;
    while i < entries.len()
        invariant
            start == old(runner).sent(),
            only_reads(start, runner.sent()),
            fs_reads(old(fs).seen(), fs.seen()),
            fs_extends(seen1, fs.seen()),
            readiness@.len() == i,
            i <= entries@.len(),
            forall|q: int|
                0 <= q < i && #[trigger] readiness@[q] ==> exists|k: int, p: Seq<char>|
                    0 <= k < runner.sent().len() && #[trigger] crate::git::lists_on_branch(
                        runner.sent()[k],
                        p,
                        entries@[q].name@,
                    ),
        decreases entries@.len() - i,
    {
        let ghost sent_a = runner.sent();
        let (line, ready) = list_entry_status(
            fs,
            runner,
            &repository,
            config.as_ref(),
            config_error.as_ref(),
            ddev_inspection.as_ref(),
            &entries[i],
        );
        host.say(line.as_str());
        let ghost before = readiness@;
        readiness.push(ready);
        proof {
            assert forall|q: int|
                0 <= q < i + 1 && #[trigger] readiness@[q] implies exists|k: int, p: Seq<char>|
                    0 <= k < runner.sent().len() && #[trigger] crate::git::lists_on_branch(
                        runner.sent()[k],
                        p,
                        entries@[q].name@,
                    ) by {
                if q < i {
                    assert(before[q] == readiness@[q]);
                    let (k, p) = choose|k: int, p: Seq<char>|
                        0 <= k < sent_a.len() && #[trigger] crate::git::lists_on_branch(sent_a[k], p, entries@[q].name@);
                    assert(runner.sent()[k] == sent_a[k]);
                } else {
                    let rec = entries@[q].record->Ok_0;
                    let k = choose|k: int|
                        0 <= k < runner.sent().len() && #[trigger] crate::git::lists_on_branch(
                            runner.sent()[k],
                            rec.worktree_path@,
                            entries@[q].name@,
                        );
                    assert(crate::git::lists_on_branch(runner.sent()[k], rec.worktree_path@, entries@[q].name@));
                }
            }
        }
        i = i + 1;
    }
    let code = exit_code(&readiness);
    proof {
        if code == 0 {
            assert forall|q: int|
                0 <= q < crate::state::stems_of(files@).len() implies #[trigger] on_branch_somewhere(
                    runner.sent(),
                    crate::state::stems_of(files@)[q],
                ) by {
                let e = choose|e: int|
                    #![trigger entries@[e]]
                    0 <= e < entries@.len() && entries@[e].name@ == crate::state::stems_of(files@)[q];
                assert(readiness@[e]);
            }
            assert(all_on_branch(runner.sent(), crate::state::stems_of(files@)));
        }
        assert(fs.seen()[s1 + 2] == seen1[s1 + 2]);
        assert(listed_names(fs.seen(), old(fs).seen().len() as int, files));
    }
    if code == 0 {
        host.say("READY — list complete");
        Ok(0)
    } else {
        host.say("NOT READY — one or more managed workspaces require attention");
        Ok(1)
    }
}

/// The last component of a path; `None` for a path without one or ending
/// in `..`.
fn file_name_of(path: &str) -> (r: Option<String>)
    ensures
        parts(path@).len() == 0 || parts(path@).last() == ".."@ ==> r is None,
        parts(path@).len() > 0 && parts(path@).last() != ".."@ ==> (r matches Some(n) && n@ == parts(path@).last()),
{
    let ps = crate::paths::path_parts(path);
    if ps.len() == 0 {
        return None;
    }
    let last = &ps[ps.len() - 1];
    if str_eq(last.as_str(), "..") {
        None
    } else {
        Some(last.clone())
    }
}

/// The plan a dry run of `create` reports.
fn print_create_dry_run<H: Host>(
    host: &mut H,
    config: &ProjectConfig,
    workspace: &str,
    base: &BaseRevision,
    ddev_name: &str,
    source_only: bool,
) {
    host.say("Source: planned read-only verification");
    let branch = match file_name_of(workspace) {
        Some(n) => n,
        None => "workspace".to_owned(),
    };
    let mut line = concat4("Planned: git worktree add -b ", branch.as_str(), " ", workspace);
    line.append(" ");
    line.append(base.sha.as_str());
    host.say(line.as_str());
    let mut i: usize = 0;
    while i < config.files.len()
        decreases config.files@.len() - i,
    {
        let file = &config.files[i];
        let line = concat4("Planned file rule: ", file.label.as_str(), " -> ", file.destination.as_str());
        host.say(line.as_str());
        i = i + 1;
    }
    let mut i: usize = 0;
    while i < config.commands.len()
        decreases config.commands@.len() - i,
    {
        let command = &config.commands[i];
        if command.sensitive {
            say3(host, "Planned command: ", command.label.as_str(), " [sensitive]");
        } else {
            let line = concat4("Planned command: ", command.label.as_str(), " in ", command.cwd.as_str());
            host.say(line.as_str());
        }
        i = i + 1;
    }
    if source_only {
        host.say("Runtime: skipped by --source-only");
        host.say("DDEV: skipped by --source-only");
    } else if config.ddev.is_some() {
        say2(host, "Planned DDEV identity: ", ddev_name);
    } else {
        host.say("DDEV: skipped (not configured)");
    }
    host.say("READY — dry run complete; no reservation, branch, path, file, or DDEV mutation performed");
}

/// Plans the file rules and copies each planned file into place.
pub(crate) fn prepare_files<R: CommandRunner, F: FileSystem, H: Host>(
    fs: &mut Files<F>,
    runner: &mut Recorder<R>,
    host: &mut H,
    config: &ProjectConfig,
    workspace: &str,
    repository: &GitRepository,
) -> (r: ToolResult<()>)
    ensures
        fs_reads(old(fs).seen(), final(fs).seen()),
        config.files@.len() == 0 ==> r is Ok,
        config.files@.len() > 0 ==> (relative_error("path"@, config.files@[0].destination@) matches Some(m) ==> fails_with(
            r,
            m,
        )),
        extends(old(runner).sent(), final(runner).sent()),
{
    let plan = plan_files(fs, runner, config, workspace, repository)?;
    let mut i: usize = 0;
    while i < plan.len()
        invariant
            extends(old(runner).sent(), runner.sent()),
            plan@.len() == config.files@.len(),
            config.files@.len() > 0 ==> relative_error("path"@, config.files@[0].destination@) is None,
            fs_reads(old(fs).seen(), fs.seen()),
        decreases plan@.len() - i,
    {
        host.copy_planned_file(&plan[i])?;
        i = i + 1;
    }
    Ok(())
}

/// Refuses a new identity whose name or app root DDEV already knows; what
/// that means exactly is `inspect_new_identity`'s contract, which the
/// preflight of `create` does not need in full.
fn refuse_known_identity<F: FileSystem>(
    inspection: &DdevInspection,
    expected_name: &str,
    app_root: &str,
    fs: &mut Files<F>,
) -> (r: ToolResult<()>)
    ensures
        fs_reads(old(fs).seen(), final(fs).seen()),
        r is Ok ==> forall|i: int|
            0 <= i < inspection.entries@.len() ==> (#[trigger] inspection.entries@[i]).name@ != expected_name@,
{
    crate::ddev::inspect_new_identity(inspection, expected_name, app_root, fs)
}

/// Creates a managed workspace: after preflight checks, reserves its
/// ownership record, then creates the worktree and, unless source-only,
/// prepares files, starts DDEV and runs the declared commands. A dry run
/// stops after the preflight and reports the plan. A failure after the
/// reservation rolls nothing back and names what was preserved.
#[verifier::spinoff_prover]
#[verifier::rlimit(100)]
pub fn create<R: CommandRunner, F: FileSystem, D: DdevRegistry, H: Host>(
    name: &str,
    requested_base: Option<&str>,
    source_only: bool,
    dry_run: bool,
    runner: &mut Recorder<R>,
    fs: &mut Files<F>,
    registry: &mut Registry<D>,
    host: &mut H,
) -> (r: ToolResult<u8>)
    ensures
        dry_run ==> fs_reads(old(fs).seen(), final(fs).seen()),
        !crate::config::valid_name(name@) ==> fails_with(r, crate::config::name_error("workspace name"@, name@)),
        !crate::config::valid_name(name@) ==> final(runner).sent() == old(runner).sent(),
        r matches Ok(code) ==> code == 0,
        dry_run ==> only_reads(old(runner).sent(), final(runner).sent()),
        extends(old(runner).sent(), final(runner).sent()),
        !dry_run && r is Ok ==> exists|i: int, path: Seq<char>, sha: Seq<char>|
            old(runner).sent().len() <= i < final(runner).sent().len() && #[trigger] crate::git::is_worktree_add(
                final(runner).sent()[i].0,
                name@,
                path,
                sha,
            ) && crate::ddev::succeeded(final(runner).sent()[i]),
        !dry_run && r is Ok ==> exists|k: int, sha: Seq<char>|
            #[trigger] crate::git::diagnosed_at(final(runner).sent(), k, Some(sha), Seq::<Seq<char>>::empty()),
        (exists|i: int|
            old(runner).sent().len() <= i < final(runner).sent().len() && (#[trigger] final(runner).sent()[i]).0.mutating)
            ==> exists|j: int, c: Seq<char>|
            old(fs).seen().len() <= j < final(fs).seen().len() && #[trigger] fs_event(
                final(fs).seen()[j],
                FsOp::CreateFile,
                crate::state::record_path_of(c, name@),
                FsAnswer::Write(Ok(())),
            ),
        forall|j: int, k: int, c: Seq<char>|
            old(fs).seen().len() <= j < k < final(fs).seen().len() && #[trigger] fs_event(
                final(fs).seen()[j],
                FsOp::CreateFile,
                crate::state::record_path_of(c, name@),
                FsAnswer::Write(Ok(())),
            ) ==> !removes((#[trigger] final(fs).seen()[k]).0),
{
    crate::config::validate_name("workspace name", name)?;
    let repository = GitRepository::discover(".", runner, fs)?;
    let manager_root = repository.main_worktree.as_str();
    let project_config = load_config(fs, host, manager_root)?;
    project_config.validate(manager_root, runner, fs)?;
    let base = repository.resolve_base(requested_base, runner)?;
    let workspace_root = safe_join(fs, manager_root, project_config.workspace_root.as_str())?;
    let workspace = join(workspace_root.as_str(), name);
    ensure_workspace_path(fs, workspace_root.as_str(), workspace.as_str())?;
    let ddev_name = expected_name(project_config.project_id.as_str(), name)?;
    repository.ensure_worktree_available(workspace.as_str(), name, runner, fs)?;
    if !source_only {
        validate_local_file_sources(fs, &project_config)?;
    }
    let app_root: Option<String> = if source_only {
        None
    } else {
        match &project_config.ddev {
            Some(d) => Some(join(workspace.as_str(), d.app_root.as_str())),
            None => None,
        }
    };
    if let Some(app_root) = &app_root {
        let inspection = registry.inspect(runner.inner_mut(), manager_root)?;
        refuse_known_identity(&inspection, ddev_name.as_str(), app_root.as_str(), fs)?;
    }
    say2(host, "Repository: ", project_config.project_id.as_str());
    let line = concat4("Base: ", base.reference.as_str(), " @ ", base.sha.as_str());
    host.say(line.as_str());
    say2(host, "Workspace: ", workspace.as_str());
    if dry_run {
        print_create_dry_run(host, &project_config, workspace.as_str(), &base, ddev_name.as_str(), source_only);
        return Ok(0);
    }
    let record = OwnershipRecord {
        version: 1,
        project_id: project_config.project_id.clone(),
        common_directory: repository.common_dir.clone(),
        worktree_path: workspace.clone(),
        base_sha: base.sha.clone(),
        branch: name.to_owned(),
        ddev_name,
        source_only,
        ddev_app_root: if source_only {
            None
        } else {
            match &project_config.ddev {
                Some(d) => Some(d.app_root.clone()),
                None => None,
            }
        },
    };
    proof {
        assert(record.branch@ == name@);
        assert(record.common_directory@ == repository.common_dir@);
    }
    let ghost preflight = fs.seen();
    let r = reserve_and_create(&repository, &project_config, &record, workspace.as_str(), &base, source_only, runner, fs, registry, host);
    proof {
        assert forall|a: int, b: int, c: Seq<char>|
            old(fs).seen().len() <= a < b < fs.seen().len() && #[trigger] fs_event(
                fs.seen()[a],
                FsOp::CreateFile,
                crate::state::record_path_of(c, name@),
                FsAnswer::Write(Ok(())),
            ) implies !removes((#[trigger] fs.seen()[b]).0) by {
            if a < preflight.len() {
                assert(fs.seen()[a] == preflight[a]);
                assert(crate::paths::reads_only(preflight[a].0));
            }
        }
    }
    r
}

/// Files the ownership record of a new workspace and, once it is filed,
/// creates the workspace. A failure after the reservation keeps the record
/// and everything made, and names them.
#[verifier::spinoff_prover]
#[verifier::rlimit(100)]
fn reserve_and_create<R: CommandRunner, F: FileSystem, D: DdevRegistry, H: Host>(
    repository: &GitRepository,
    project_config: &ProjectConfig,
    record: &OwnershipRecord,
    workspace: &str,
    base: &BaseRevision,
    source_only: bool,
    runner: &mut Recorder<R>,
    fs: &mut Files<F>,
    registry: &mut Registry<D>,
    host: &mut H,
) -> (r: ToolResult<u8>)
    requires
        fields_valid(*project_config),
    ensures
        r matches Ok(code) ==> code == 0,
        extends(old(runner).sent(), final(runner).sent()),
        fs_extends(old(fs).seen(), final(fs).seen()),
        r is Ok ==> exists|i: int|
            old(runner).sent().len() <= i < final(runner).sent().len() && #[trigger] crate::git::is_worktree_add(
                final(runner).sent()[i].0,
                record.branch@,
                workspace@,
                base.sha@,
            ) && crate::ddev::succeeded(final(runner).sent()[i]),
        r is Ok ==> exists|k: int|
            #[trigger] crate::git::diagnosed_at(final(runner).sent(), k, Some(base.sha@), Seq::<Seq<char>>::empty()),
        final(runner).sent().len() > old(runner).sent().len() ==> exists|j: int|
            old(fs).seen().len() <= j < final(fs).seen().len() && #[trigger] fs_event(
                final(fs).seen()[j],
                FsOp::CreateFile,
                crate::state::record_path_of(repository.common_dir@, record.branch@),
                FsAnswer::Write(Ok(())),
            ),
        final(runner).sent().len() == old(runner).sent().len() ==> final(runner).sent() == old(runner).sent(),
        forall|j: int, k: int, c: Seq<char>|
            old(fs).seen().len() <= j < k < final(fs).seen().len() && #[trigger] fs_event(
                final(fs).seen()[j],
                FsOp::CreateFile,
                crate::state::record_path_of(c, record.branch@),
                FsAnswer::Write(Ok(())),
            ) ==> !removes((#[trigger] final(fs).seen()[k]).0),
{
    let ghost s0 = fs.seen().len() as int;
    let record_path = {
        let h: &H = host;
        crate::state::reserve(fs, repository.common_dir.as_str(), record, &|x: &OwnershipRecord| h.serialize_record(x))?
    };
    let ghost reserved = fs.seen();
    let outcome = create_after_reservation(
        repository,
        project_config,
        record,
        workspace,
        base,
        source_only,
        runner,
        fs,
        registry,
        host,
    );
    proof {
        let j = reserved.len() - 1;
        assert(fs.seen()[j] == reserved[j]);
        assert(fs_event(
            fs.seen()[j],
            FsOp::CreateFile,
            crate::state::record_path_of(repository.common_dir@, record.branch@),
            FsAnswer::Write(Ok(())),
        ));
        assert forall|a: int, b: int, c: Seq<char>|
            s0 <= a < b < fs.seen().len() && #[trigger] fs_event(
                fs.seen()[a],
                FsOp::CreateFile,
                crate::state::record_path_of(c, record.branch@),
                FsAnswer::Write(Ok(())),
            ) implies !removes((#[trigger] fs.seen()[b]).0) by {
            if a < reserved.len() {
                assert(fs.seen()[a] == reserved[a]);
                assert(a == reserved.len() - 1);
            }
        }
    }
    match outcome {
        Ok(()) => Ok(0),
        Err(error) => Err(preserved_failure(&error, workspace, record_path.as_str())),
    }
}

/// The steps of `create` after the reservation.
#[verifier::spinoff_prover]
#[verifier::rlimit(100)]
fn create_after_reservation<R: CommandRunner, F: FileSystem, D: DdevRegistry, H: Host>(
    repository: &GitRepository,
    project_config: &ProjectConfig,
    record: &OwnershipRecord,
    workspace: &str,
    base: &BaseRevision,
    source_only: bool,
    runner: &mut Recorder<R>,
    fs: &mut Files<F>,
    registry: &mut Registry<D>,
    host: &mut H,
) -> (r: ToolResult<()>)
    requires
        fields_valid(*project_config),
    ensures
        fs_keeps(old(fs).seen(), final(fs).seen()),
        extends(old(runner).sent(), final(runner).sent()),
        final(runner).sent().len() > old(runner).sent().len(),
        crate::git::is_worktree_add(
            final(runner).sent()[old(runner).sent().len() as int].0,
            record.branch@,
            workspace@,
            base.sha@,
        ),
        r is Ok ==> crate::ddev::succeeded(final(runner).sent()[old(runner).sent().len() as int]),
        r is Ok ==> exists|k: int|
            #[trigger] crate::git::diagnosed_at(final(runner).sent(), k, Some(base.sha@), Seq::<Seq<char>>::empty()),
        r is Ok && !source_only ==> exists|k1: int, k2: int|
            k1 < k2 && #[trigger] crate::git::diagnosed_at(
                final(runner).sent(),
                k1,
                Some(base.sha@),
                Seq::<Seq<char>>::empty(),
            ) && #[trigger] crate::git::diagnosed_at(final(runner).sent(), k2, Some(base.sha@), Seq::<Seq<char>>::empty()),
        r is Ok && !source_only && project_config.ddev is Some ==> exists|i: int|
            0 <= i < final(runner).sent().len() && #[trigger] crate::ddev::started(final(runner).sent()[i]),
{
    repository.add_worktree(workspace, record.branch.as_str(), base.sha.as_str(), runner)?;
    let workspace_repository = GitRepository::discover(workspace, runner, fs)?;
    workspace_repository.initialize_submodules(runner)?;
    workspace_repository.checkout_lfs(runner)?;
    let ghost k1 = runner.sent().len() as int;
    let source = workspace_repository.diagnose(Some(base.sha.as_str()), runner, fs)?;
    let ghost m1 = runner.sent();
    if !source.ready() {
        return Err(ToolError::new(format_source_failure(&source)));
    }
    proof {
        assert(strs_of(source.issues@) =~= Seq::<Seq<char>>::empty());
    }
    print_cleanup_report(host, &source);
    host.say("Source: READY");
    if source_only {
        host.say("Runtime: skipped by --source-only");
        host.say("DDEV: skipped by --source-only");
        host.say("READY — source-only workspace");
        return Ok(());
    }
    let ghost mut start_at: int = 0;
    let ghost mut at_start: Seq<(CommandRequest, ToolResult<CommandOutput>)> = Seq::empty();
    prepare_files(fs, runner, host, project_config, workspace, &workspace_repository)?;
    let mut ddev_project: Option<DdevProject> = match &project_config.ddev {
        Some(ddev_config) => {
            let app_root = safe_join(fs, workspace, ddev_config.app_root.as_str())?;
            let inspection = registry.inspect(runner.inner_mut(), workspace)?;
            crate::ddev::inspect_new_identity(&inspection, record.ddev_name.as_str(), app_root.as_str(), fs)?;
            crate::ddev::write_override(
                workspace_repository.root.as_str(),
                app_root.as_str(),
                record.ddev_name.as_str(),
                false,
                fs,
                runner,
            )?;
            crate::ddev::start(app_root.as_str(), runner)?;
            proof {
                start_at = runner.sent().len() - 1;
                at_start = runner.sent();
                assert(crate::ddev::started(at_start[start_at]));
            }
            let after_start = registry.inspect(runner.inner_mut(), app_root.as_str())?;
            Some(
                crate::ddev::require_ready_identity(
                    &after_start,
                    record.ddev_name.as_str(),
                    app_root.as_str(),
                    fs,
                )?,
            )
        },
        None => None,
    };
    assert(project_config.ddev is Some ==> 0 <= start_at < at_start.len() && crate::ddev::started(at_start[start_at])
        && extends(at_start, runner.sent()));
    proof {
        lemma_valid_commands_have_argv(project_config.commands@);
    }
    run_declared_commands(fs, runner, project_config, workspace)?;
    let ghost k2 = runner.sent().len() as int;
    let source = workspace_repository.diagnose(Some(base.sha.as_str()), runner, fs)?;
    let ghost m2 = runner.sent();
    if !source.ready() {
        return Err(ToolError::new(format_source_failure(&source)));
    }
    proof {
        assert(strs_of(source.issues@) =~= Seq::<Seq<char>>::empty());
    }
    workspace_repository.worktree_is_clean(workspace, runner)?;
    print_cleanup_report(host, &source);
    if let Some(ddev_config) = &project_config.ddev {
        let app_root = safe_join(fs, workspace, ddev_config.app_root.as_str())?;
        let after_commands = registry.inspect(runner.inner_mut(), app_root.as_str())?;
        ddev_project = Some(
            crate::ddev::require_ready_identity(&after_commands, record.ddev_name.as_str(), app_root.as_str(), fs)?,
        );
    }
    if let Some(reason) = runtime_precondition_failure(fs, project_config, workspace) {
        return Err(ToolError::new(
            concat3("runtime readiness failed after declared commands: ", reason.as_str(), ""),
        ));
    }
    host.say("Runtime: READY");
    match &ddev_project {
        Some(project) => {
            let line = running_project_line(project);
            host.say(line.as_str());
        },
        None => {
            host.say("DDEV: skipped (not configured)");
        },
    }
    host.say("READY");
    proof {
        crate::git::lemma_diagnosis_kept(m1, runner.sent(), k1, Some(base.sha@), Seq::empty());
        crate::git::lemma_diagnosis_kept(m2, runner.sent(), k2, Some(base.sha@), Seq::empty());
        if project_config.ddev is Some {
            assert(runner.sent()[start_at] == at_start[start_at]);
        }
    }
    Ok(())
}

/// Requires confirmation of `purpose` for workspace `name`: the given
/// confirmation, or else an answer typed at the prompt, must be the name.
pub fn require_confirmation<H: Host>(host: &mut H, name: &str, provided: Option<&str>, purpose: &str) -> (r: ToolResult<()>)
    ensures
        provided matches Some(p) ==> (r is Ok <==> p@ == name@),
{
    let interactive = host.interactive();
    if confirmation_given(name, provided, purpose, interactive)? {
        return Ok(());
    }
    let prompt = confirmation_prompt(name, purpose);
    let input = match host.ask(prompt.as_str()) {
        Ok(line) => line,
        Err(e) => {
            return Err(crate::config::io_error(e.as_str()));
        },
    };
    typed_confirmation(name, input.as_str(), purpose)
}

/// Removes one proven managed workspace while retaining its branch: the
/// record and the target are verified, the removal (and, separately, DDEV
/// data deletion) confirmed, and the state reloaded and verified again
/// before DDEV is stopped and unlisted and again before the worktree and
/// then the record are removed. A dry run stops after the first
/// verification.
pub fn remove<R: CommandRunner, F: FileSystem, D: DdevRegistry, H: Host>(
    name: &str,
    dry_run: bool,
    delete_data: bool,
    confirmation: Option<&str>,
    data_confirmation: Option<&str>,
    runner: &mut Recorder<R>,
    fs: &mut Files<F>,
    registry: &mut Registry<D>,
    host: &mut H,
) -> (r: ToolResult<u8>)
    ensures
        !crate::config::valid_name(name@) ==> fails_with(r, crate::config::name_error("workspace name"@, name@)),
        !crate::config::valid_name(name@) ==> final(runner).sent() == old(runner).sent(),
        r matches Ok(code) ==> code == 0,
        dry_run ==> only_reads(old(runner).sent(), final(runner).sent()),
        changes_only_by_removal(old(runner).sent(), final(runner).sent()),
        !dry_run && r is Ok ==> exists|i: int, record: OwnershipRecord, config: ProjectConfig, repository: GitRepository|
            old(runner).sent().len() <= i < final(runner).sent().len() && #[trigger] removed_authorized(
                final(runner).sent()[i],
                record,
                config,
                repository,
                name@,
            ),
        !dry_run && (confirmation matches Some(c) && c@ != name@) ==> r is Err,
        (confirmation matches Some(c) && c@ != name@) ==> only_reads(old(runner).sent(), final(runner).sent()),
        delete_data && (data_confirmation matches Some(c) && c@ != name@) ==> only_reads(
            old(runner).sent(),
            final(runner).sent(),
        ),
        !dry_run && delete_data && (data_confirmation matches Some(c) && c@ != name@) ==> r is Err,
{
    crate::config::validate_name("workspace name", name)?;
    let repository = GitRepository::discover(".", runner, fs)?;
    let manager_root = repository.main_worktree.as_str();
    let project_config = load_config(fs, host, manager_root)?;
    project_config.validate(manager_root, runner, fs)?;
    let (record_path, record) = {
        let h: &H = host;
        crate::state::load(fs, repository.common_dir.as_str(), name, &|s: &str| h.parse_record(s))?
    };
    remove_loaded(
        name,
        dry_run,
        delete_data,
        confirmation,
        data_confirmation,
        &repository,
        &project_config,
        record_path.as_str(),
        &record,
        runner,
        fs,
        registry,
        host,
    )
}

/// Whether DDEV data may be deleted: only when it was asked for and the
/// workspace's own DDEV identity was found.
pub fn data_deletion_check(delete_data: bool, identity_found: bool) -> (r: ToolResult<()>)
    ensures
        r is Err <==> delete_data && !identity_found,
        r is Err ==> fails_with(r, "--delete-ddev-data was requested but the exact owned DDEV identity is absent"@),
{
    if delete_data && !identity_found {
        return Err(ToolError::new(
            "--delete-ddev-data was requested but the exact owned DDEV identity is absent".to_owned(),
        ));
    }
    Ok(())
}

/// Removes the managed workspace `name` of `repository`, given the
/// configuration and the ownership record (filed at `record_path`) loaded
/// for it. Only the worktree that `record` names is removed, and only when
/// it is the configured path of `name` under `config`, not the main
/// worktree, and authorized by the record; the DDEV identity is stopped and
/// unlisted first, and the branch is kept.
pub fn remove_loaded<R: CommandRunner, F: FileSystem, D: DdevRegistry, H: Host>(
    name: &str,
    dry_run: bool,
    delete_data: bool,
    confirmation: Option<&str>,
    data_confirmation: Option<&str>,
    repository: &GitRepository,
    config: &ProjectConfig,
    record_path: &str,
    record: &OwnershipRecord,
    runner: &mut Recorder<R>,
    fs: &mut Files<F>,
    registry: &mut Registry<D>,
    host: &mut H,
) -> (r: ToolResult<u8>)
    ensures
        r matches Ok(code) ==> code == 0,
        dry_run ==> only_reads(old(runner).sent(), final(runner).sent()),
        changes_only_by_removal(old(runner).sent(), final(runner).sent()),
        !dry_run && r is Ok ==> exists|i: int|
            old(runner).sent().len() <= i < final(runner).sent().len() && #[trigger] removed_authorized(
                final(runner).sent()[i],
                *record,
                *config,
                *repository,
                name@,
            ),
        !dry_run && (confirmation matches Some(c) && c@ != name@) ==> r is Err,
        (confirmation matches Some(c) && c@ != name@) ==> only_reads(old(runner).sent(), final(runner).sent()),
        delete_data && (data_confirmation matches Some(c) && c@ != name@) ==> only_reads(
            old(runner).sent(),
            final(runner).sent(),
        ),
        !dry_run && delete_data && (data_confirmation matches Some(c) && c@ != name@) ==> r is Err,
        delete_data && r is Ok ==> found_identity(
            final(registry).seen(),
            old(registry).seen().len() as int,
            record.ddev_name@,
        ),
{
    let target = verify_removal_target(fs, runner, registry, repository, config, name, record)?;
    say3(host, "Will remove managed worktree ", target.path.as_str(), ".");
    if target.ddev.is_some() {
        if delete_data {
            say3(host, "Will stop, remove data, and unlist DDEV project ", record.ddev_name.as_str(), ".");
        } else {
            say3(host, "Will stop and unlist DDEV project ", record.ddev_name.as_str(), ".");
        }
    }
    say3(host, "Will retain branch ", record.branch.as_str(), ".");
    if delete_data {
        host.say("DDEV data deletion requires a second exact confirmation.");
    }
    data_deletion_check(delete_data, target.ddev.is_some())?;
    let ghost checked = registry.seen();
    if dry_run {
        host.say("DRY RUN — no DDEV, Git, file, or ownership mutation performed");
        host.say("READY — removal preflight complete");
        return Ok(0);
    }
    require_confirmation(host, name, confirmation, "removal")?;
    if delete_data {
        require_confirmation(host, name, data_confirmation, "DDEV data deletion")?;
    }
    let (_, current_config, current_record) = {
        let h: &H = host;
        reload_removal_state(
            fs,
            runner,
            repository,
            name,
            config,
            record,
            record_path,
            &|s: &str| h.parse_config(s),
            &|s: &str| h.parse_record(s),
        )?
    };
    let current = verify_removal_target(fs, runner, registry, repository, &current_config, name, &current_record)?;
    if current.ddev.is_some() {
        let ddev_config = match &current_config.ddev {
            Some(d) => d,
            None => {
                return Err(ToolError::new("DDEV identity was found without DDEV configuration".to_owned()));
            },
        };
        let app_root = safe_join(fs, current.path.as_str(), ddev_config.app_root.as_str())?;
        let stopped = crate::ddev::stop_unlist(app_root.as_str(), current_record.ddev_name.as_str(), delete_data, runner);
        proof {
            let req = runner.sent().last().0;
            let a = req.args@;
            assert(strs_of(a).len() == a.len());
            if delete_data {
                assert(strs_of(a)[0] == "stop"@);
            } else {
                assert(strs_of(a)[0] == "stop"@);
            }
            assert(strs_of(a)[0] == a[0]@);
            assert(removal_step(req));
        }
        stopped?;
    }
    let (latest_record_path, latest_config, latest_record) = {
        let h: &H = host;
        reload_removal_state(
            fs,
            runner,
            repository,
            name,
            config,
            record,
            record_path,
            &|s: &str| h.parse_config(s),
            &|s: &str| h.parse_record(s),
        )?
    };
    let second_check = verify_removal_target(fs, runner, registry, repository, &latest_config, name, &latest_record)?;
    let removed = repository.remove_worktree(second_check.path.as_str(), runner);
    proof {
        let req = runner.sent().last().0;
        let a = req.args@;
        assert(strs_of(a).len() == a.len());
        assert(strs_of(a).len() == 3);
        assert(strs_of(a)[0] == a[0]@);
        assert(strs_of(a)[1] == a[1]@);
        assert(removal_step(req));
    }
    removed?;
    proof {
        let i = runner.sent().len() - 1;
        assert(removed_authorized(runner.sent()[i], latest_record, latest_config, *repository, name@));
        assert(removed_authorized(runner.sent()[i], *record, *config, *repository, name@));
    }
    crate::state::delete(fs, latest_record_path.as_str())?;
    host.say("READY — managed workspace removed; branch retained");
    proof {
        if delete_data {
            lemma_identity_kept(checked, registry.seen(), old(registry).seen().len() as int, record.ddev_name@);
        }
    }
    Ok(0)
}

} // verus!
