//! DDEV project identities: naming, registry inspection, readiness and the
//! requests that start, stop and clone projects.

use vstd::prelude::*;

use crate::command::{answered, extends, fails_with, one_more, CommandOutput, CommandRequest, CommandRunner, Recorder, ToolError, ToolResult};
use crate::config::{io_error, is_ignored, name_error, probe_said_ignored, valid_name, validate_name};
use crate::paths::{
    fs_event, fs_extends, fs_reads, kind_query, leaves_nothing, made, reads_only, unmakes, Files, FsAnswer, FsOp,
    is_abs, join, join_path, parts, path_eq, path_is_absolute, path_parts, path_starts_with, same_path, strip_path_prefix, starts_with_path, strip_prefix_path,
    DirError, EntryKind, FileSystem, WriteError,
};
use crate::text::{
    chars_of, concat3, concat4, copy_range, decimal, push_decimal, str_eq, has_prefix, has_suffix, is_suffix, lines_chars,
    lines_of, push_char, seqs_of, string_of, strs1, strs2, strs3, strs4, strs_of, trim, trim_chars,
};

verus! {

/// One project in DDEV's registry.
#[derive(Debug, Clone, PartialEq, Eq)]
pub struct DdevProject {
    pub name: String,
    pub approot: String,
    pub status: String,
    pub mutagen_enabled: bool,
    pub mutagen_status: String,
}

/// DDEV's registry and the warnings found while reading it.
#[derive(Debug, Clone, PartialEq, Eq)]
pub struct DdevInspection {
    pub entries: Vec<DdevProject>,
    pub warnings: Vec<String>,
}

/// Reads DDEV's project registry, as it stands for `cwd`, without changing
/// it.
pub trait DdevRegistry {
    fn inspect<R: CommandRunner>(&mut self, runner: &mut R, cwd: &str) -> ToolResult<DdevInspection>;
}

/// DDEV's registry together with the record of every inspection the
/// library made of it: the directory it was asked for and the answer, in
/// order. The library reaches the registry only through this record.
pub struct Registry<D> {
    inner: D,
    seen: Ghost<Seq<(Seq<char>, ToolResult<DdevInspection>)>>,
}

/// Whether `after` keeps the inspections of `before` and perhaps adds more.
pub open spec fn reg_extends(
    before: Seq<(Seq<char>, ToolResult<DdevInspection>)>,
    after: Seq<(Seq<char>, ToolResult<DdevInspection>)>,
) -> bool {
    &&& before.len() <= after.len()
    &&& forall|i: int| 0 <= i < before.len() ==> #[trigger] after[i] == before[i]
}

/// Whether `inspection` lists a project named `name`.
pub open spec fn lists_name(inspection: DdevInspection, name: Seq<char>) -> bool {
    exists|e: int| 0 <= e < inspection.entries@.len() && #[trigger] inspection.entries@[e].name@ == name
}

/// Whether an inspection recorded in `seen` from position `from` on listed
/// a project named `name`.
pub open spec fn found_identity(seen: Seq<(Seq<char>, ToolResult<DdevInspection>)>, from: int, name: Seq<char>) -> bool {
    exists|k: int| from <= k < seen.len() && ((#[trigger] seen[k]).1 matches Ok(i) && lists_name(i, name))
}

/// An identity found stays found as the record grows.
pub proof fn lemma_identity_kept(
    s1: Seq<(Seq<char>, ToolResult<DdevInspection>)>,
    s2: Seq<(Seq<char>, ToolResult<DdevInspection>)>,
    from: int,
    name: Seq<char>,
)
    requires
        found_identity(s1, from, name),
        reg_extends(s1, s2),
        0 <= from,
    ensures
        found_identity(s2, from, name),
{
    let k = choose|k: int| from <= k < s1.len() && ((#[trigger] s1[k]).1 matches Ok(i) && lists_name(i, name));
    assert(s2[k] == s1[k]);
}

impl<D: DdevRegistry> Registry<D> {
    /// A record of a registry that has been asked nothing yet.
    pub fn new(inner: D) -> (r: Self)
        ensures
            r.seen() == Seq::<(Seq<char>, ToolResult<DdevInspection>)>::empty(),
    {
        Registry { inner, seen: Ghost(Seq::empty()) }
    }

    /// The inspections made so far, each with its answer.
    pub closed spec fn seen(&self) -> Seq<(Seq<char>, ToolResult<DdevInspection>)> {
        self.seen@
    }

    /// The registry, to look at it.
    pub fn inner(&self) -> &D {
        &self.inner
    }

    /// Inspects the registry as it stands for `cwd` and records the answer.
    pub fn inspect<R: CommandRunner>(&mut self, runner: &mut R, cwd: &str) -> (r: ToolResult<DdevInspection>)
        ensures
            final(self).seen() == old(self).seen().push((cwd@, r)),
    {
        let r = self.inner.inspect(runner, cwd);
        self.seen = Ghost(self.seen@.push((cwd@, r)));
        r
    }
}

/// An exact copy of a project entry.
pub fn copy_project(p: &DdevProject) -> (r: DdevProject)
    ensures
        r == *p,
{
    DdevProject {
        name: p.name.clone(),
        approot: p.approot.clone(),
        status: p.status.clone(),
        mutagen_enabled: p.mutagen_enabled,
        mutagen_status: p.mutagen_status.clone(),
    }
}

// ---------------------------------------------------------------------------
// Names
// ---------------------------------------------------------------------------

/// The deterministic DDEV project name `dw-<project_id>--<workspace>`.
pub open spec fn ddev_name(project_id: Seq<char>, workspace: Seq<char>) -> Seq<char> {
    seq!['d', 'w', '-'] + project_id + seq!['-', '-'] + workspace
}

/// Distinct workspaces get distinct DDEV names: valid names never contain
/// `--` nor end in `-`, so the separator fixes where each part ends.
pub proof fn lemma_ddev_name_injective(p1: Seq<char>, w1: Seq<char>, p2: Seq<char>, w2: Seq<char>)
    requires
        valid_name(p1),
        valid_name(w1),
        valid_name(p2),
        valid_name(w2),
        ddev_name(p1, w1) == ddev_name(p2, w2),
    ensures
        p1 == p2,
        w1 == w2,
{
    let n = ddev_name(p1, w1);
    assert(n == ddev_name(p2, w2));
    if p1.len() < p2.len() {
        let k = p1.len() as int;
        assert(n[3 + k] == '-' && n[4 + k] == '-');
        assert(n[3 + k] == p2[k]);
        if k + 1 < p2.len() {
            assert(n[4 + k] == p2[k + 1]);
            assert(!(p2[k] == '-' && p2[k + 1] == '-'));
        } else {
            assert(p2.last() == p2[k]);
            assert(crate::config::name_char(p2.last()));
        }
    } else if p2.len() < p1.len() {
        let k = p2.len() as int;
        assert(n[3 + k] == '-' && n[4 + k] == '-');
        assert(n[3 + k] == p1[k]);
        if k + 1 < p1.len() {
            assert(n[4 + k] == p1[k + 1]);
            assert(!(p1[k] == '-' && p1[k + 1] == '-'));
        } else {
            assert(p1.last() == p1[k]);
            assert(crate::config::name_char(p1.last()));
        }
    }
    assert(p1.len() == p2.len());
    assert forall|i: int| 0 <= i < p1.len() implies p1[i] == p2[i] by {
        assert(n[3 + i] == p1[i]);
        assert(ddev_name(p2, w2)[3 + i] == p2[i]);
    }
    assert(p1 =~= p2);
    assert(n.len() == 5 + p1.len() + w1.len());
    assert(ddev_name(p2, w2).len() == 5 + p2.len() + w2.len());
    assert(w1.len() == w2.len());
    assert forall|i: int| 0 <= i < w1.len() implies w1[i] == w2[i] by {
        assert(n[5 + p1.len() + i] == w1[i]);
        assert(ddev_name(p2, w2)[5 + p2.len() + i] == w2[i]);
    }
    assert(w1 =~= w2);
}

/// The outcome of `expected_name`.
pub open spec fn expected_name_spec(project_id: Seq<char>, workspace: Seq<char>) -> Result<Seq<char>, Seq<char>> {
    if !valid_name(project_id) {
        Err(name_error("project_id"@, project_id))
    } else if !valid_name(workspace) {
        Err(name_error("workspace name"@, workspace))
    } else if ddev_name(project_id, workspace).len() > 63 {
        Err(
            "DDEV project name `"@ + ddev_name(project_id, workspace)
                + "` is longer than the 63-byte DNS-label limit"@,
        )
    } else {
        Ok(ddev_name(project_id, workspace))
    }
}

pub open spec fn result_matches(r: ToolResult<String>, s: Result<Seq<char>, Seq<char>>) -> bool {
    match s {
        Ok(v) => r matches Ok(x) && x@ == v,
        Err(m) => fails_with(r, m),
    }
}

/// The DDEV project name of a workspace; both names must follow the name
/// grammar and the result must fit a 63-byte DNS label.
pub fn expected_name(project_id: &str, workspace_name: &str) -> (r: ToolResult<String>)
    ensures
        result_matches(r, expected_name_spec(project_id@, workspace_name@)),
{
    match validate_name("project_id", project_id) {
        Ok(()) => {},
        Err(e) => return Err(e),
    }
    match validate_name("workspace name", workspace_name) {
        Ok(()) => {},
        Err(e) => return Err(e),
    }
    let mut name = String::new();
    push_char(&mut name, 'd');
    push_char(&mut name, 'w');
    push_char(&mut name, '-');
    name.append(project_id);
    push_char(&mut name, '-');
    push_char(&mut name, '-');
    name.append(workspace_name);
    assert(name@ =~= ddev_name(project_id@, workspace_name@));
    // Both names are ASCII, so the name's length in characters is its
    // length in bytes.
    let name_len = chars_of(name.as_str()).len();
    if name_len > 63 {
        return Err(ToolError::new(
            concat3("DDEV project name `", name.as_str(), "` is longer than the 63-byte DNS-label limit"),
        ));
    }
    Ok(name)
}

// ---------------------------------------------------------------------------
// Registry warnings
// ---------------------------------------------------------------------------

/// DDEV's message about a registration whose directory vanished, as a
/// warning naming the path; other messages unchanged.
pub open spec fn normalize_warning_spec(m: Seq<char>) -> Seq<char> {
    let p = "The project '"@;
    let s = "' no longer exists in the filesystem, removing it from registry"@;
    if p.is_prefix_of(m) && is_suffix(s, m.skip(p.len() as int)) {
        "stale DDEV registration points to missing path "@ + m.skip(p.len() as int).take(
            m.len() - p.len() - s.len(),
        )
    } else {
        m
    }
}

pub fn normalize_ddev_warning(message: String) -> (r: String)
    ensures
        r@ == normalize_warning_spec(message@),
{
    let m = chars_of(message.as_str());
    let p = chars_of("The project '");
    let s = chars_of("' no longer exists in the filesystem, removing it from registry");
    if !has_prefix(m.as_slice(), p.as_slice()) {
        return message;
    }
    let rest = copy_range(m.as_slice(), p.len(), m.len());
    assert(rest@ =~= m@.skip(p@.len() as int));
    if !has_suffix(rest.as_slice(), s.as_slice()) {
        return message;
    }
    let path = copy_range(rest.as_slice(), 0, rest.len() - s.len());
    assert(path@ =~= m@.skip(p@.len() as int).take(m@.len() - p@.len() - s@.len()));
    let path_s = crate::text::string_of(path.as_slice());
    let mut out = "stale DDEV registration points to missing path ".to_owned();
    out.append(path_s.as_str());
    out
}

/// `fs::canonicalize`, or the path unchanged when it cannot be resolved.
/// What a recorded canonicalization gives: the canonical path, or the path
/// as asked when it could not be canonicalized.
pub open spec fn canonical_of(x: (FsOp, Seq<char>, Seq<char>, FsAnswer)) -> Seq<char> {
    match x.3 {
        FsAnswer::Text(Ok(c)) => c@,
        _ => x.1,
    }
}

/// The canonical forms that the `n` canonicalizations recorded from
/// position `from` of `seen` on gave.
pub open spec fn recorded_roots(seen: Seq<(FsOp, Seq<char>, Seq<char>, FsAnswer)>, from: int, n: nat) -> Seq<Seq<char>> {
    Seq::new(n, |i: int| canonical_of(seen[from + i]))
}

/// Whether `seen` holds, from position `from` on, one canonicalization of
/// each project's app root, in order.
pub open spec fn roots_asked(seen: Seq<(FsOp, Seq<char>, Seq<char>, FsAnswer)>, from: int, entries: Seq<DdevProject>) -> bool {
    &&& from + entries.len() <= seen.len()
    &&& forall|i: int|
        0 <= i < entries.len() ==> (#[trigger] seen[from + i]).0 == FsOp::Canonicalize && seen[from + i].1
            == entries[i].approot@
}

pub(crate) fn canonical_or_raw<F: FileSystem>(fs: &mut Files<F>, path: &str) -> (r: String)
    ensures
        final(fs).seen() == old(fs).seen().push(
            (FsOp::Canonicalize, path@, Seq::<char>::empty(), final(fs).seen().last().3),
        ),
        final(fs).seen().last().3 is Text,
        r@ == canonical_of(final(fs).seen().last()),
{
    match fs.canonicalize(path) {
        Ok(c) => c,
        Err(_) => path.to_owned(),
    }
}

/// The warning about a name registered more than once.
pub open spec fn duplicate_name_warning(name: Seq<char>) -> Seq<char> {
    "duplicate DDEV name `"@ + name + "` is registered more than once"@
}

/// Whether one of `ws` reads `m`.
pub open spec fn has_warning(ws: Seq<String>, m: Seq<char>) -> bool {
    exists|k: int| 0 <= k < ws.len() && (#[trigger] ws[k])@ == m
}

proof fn lemma_warning_kept(ws: Seq<String>, x: String, m: Seq<char>)
    requires
        has_warning(ws, m),
    ensures
        has_warning(ws.push(x), m),
{
    let k = choose|k: int| 0 <= k < ws.len() && (#[trigger] ws[k])@ == m;
    assert(ws.push(x)[k] == ws[k]);
}

/// Every pair of entries before `(left, right)`, in the order they are
/// compared, that share a name has been warned about.
pub open spec fn duplicates_reported(es: Seq<DdevProject>, ws: Seq<String>, left: int, right: int) -> bool {
    forall|l: int, r: int|
        0 <= l < r < es.len() && (l < left || (l == left && r < right)) && (#[trigger] es[l]).name@ == (
        #[trigger] es[r]).name@ ==> has_warning(ws, duplicate_name_warning(es[l].name@))
}

/// The warning about a registration whose app root is missing.
pub open spec fn stale_warning(p: DdevProject) -> Seq<char> {
    "stale DDEV registration `"@ + p.name@ + "` points to missing path "@ + p.approot@
}

/// Whether the `i`-th registered project's app root was asked about at
/// its place in `seen` (its existence, then its canonical form), and, when
/// reported missing, has its warning in `ws`.
pub open spec fn stale_checked(
    seen: Seq<(FsOp, Seq<char>, Seq<char>, FsAnswer)>,
    from: int,
    es: Seq<DdevProject>,
    ws: Seq<String>,
    i: int,
) -> bool {
    &&& seen[from + 2 * i].0 == FsOp::PathExists
    &&& seen[from + 2 * i].1 == es[i].approot@
    &&& seen[from + 2 * i + 1].0 == FsOp::Canonicalize
    &&& (seen[from + 2 * i].3 == FsAnswer::Flag(false) ==> has_warning(ws, stale_warning(es[i])))
}

/// Whether the first `n` registered projects were checked in turn from
/// position `from` of `seen` on, as `stale_checked` says.
pub open spec fn stale_reported(
    seen: Seq<(FsOp, Seq<char>, Seq<char>, FsAnswer)>,
    from: int,
    es: Seq<DdevProject>,
    ws: Seq<String>,
    n: int,
) -> bool {
    &&& seen.len() == from + 2 * n
    &&& forall|i: int| 0 <= i < n ==> #[trigger] stale_checked(seen, from, es, ws, i)
}

proof fn lemma_stale_kept(
    seen: Seq<(FsOp, Seq<char>, Seq<char>, FsAnswer)>,
    from: int,
    es: Seq<DdevProject>,
    ws: Seq<String>,
    x: String,
    n: int,
)
    requires
        stale_reported(seen, from, es, ws, n),
    ensures
        stale_reported(seen, from, es, ws.push(x), n),
{
    assert forall|i: int| 0 <= i < n implies #[trigger] stale_checked(seen, from, es, ws.push(x), i) by {
        assert(stale_checked(seen, from, es, ws, i));
        if seen[from + 2 * i].3 == FsAnswer::Flag(false) {
            lemma_warning_kept(ws, x, stale_warning(es[i]));
        }
    }
}

/// The warning about an app root registered under more than one project.
pub open spec fn duplicate_root_warning(p: DdevProject) -> Seq<char> {
    "duplicate DDEV app root `"@ + p.approot@ + "` is registered under multiple names"@
}

/// The canonical app roots that the canonicalizations recorded in turn
/// from position `from` of `seen` on gave, one after each existence query.
pub open spec fn registry_roots(seen: Seq<(FsOp, Seq<char>, Seq<char>, FsAnswer)>, from: int, n: nat) -> Seq<Seq<char>> {
    Seq::new(n, |i: int| canonical_of(seen[from + 2 * i + 1]))
}

/// Whether the projects `l` and `r`, when their canonical roots are the
/// same path, have the first one's warning in `ws`.
pub open spec fn root_pair_warned(es: Seq<DdevProject>, roots: Seq<Seq<char>>, ws: Seq<String>, l: int, r: int) -> bool {
    path_eq(roots[l], roots[r]) ==> has_warning(ws, duplicate_root_warning(es[l]))
}

/// Every pair of projects before `(left, right)`, in the order they are
/// compared, that share a canonical root has been warned about.
pub open spec fn roots_reported(es: Seq<DdevProject>, roots: Seq<Seq<char>>, ws: Seq<String>, left: int, right: int) -> bool {
    forall|l: int, r: int|
        0 <= l < r < es.len() && (l < left || (l == left && r < right)) ==> #[trigger] root_pair_warned(es, roots, ws, l, r)
}

proof fn lemma_roots_kept(
    es: Seq<DdevProject>,
    roots: Seq<Seq<char>>,
    ws: Seq<String>,
    x: String,
    left: int,
    right: int,
)
    requires
        roots_reported(es, roots, ws, left, right),
    ensures
        roots_reported(es, roots, ws.push(x), left, right),
{
    assert forall|l: int, r: int|
        0 <= l < r < es.len() && (l < left || (l == left && r < right)) implies #[trigger] root_pair_warned(
        es,
        roots,
        ws.push(x),
        l,
        r,
    ) by {
        assert(root_pair_warned(es, roots, ws, l, r));
        if path_eq(roots[l], roots[r]) {
            lemma_warning_kept(ws, x, duplicate_root_warning(es[l]));
        }
    }
}

/// The registry warnings: DDEV's own messages (normalized), stale
/// registrations, and duplicate names and app roots. Each name registered
/// more than once is reported.
pub fn registry_warnings<F: FileSystem>(fs: &mut Files<F>, messages: Vec<String>, entries: &Vec<DdevProject>) -> (r: Vec<String>)
    ensures
        r@.len() >= messages@.len(),
        forall|i: int| 0 <= i < messages@.len() ==> (#[trigger] r@[i])@ == normalize_warning_spec(messages@[i]@),
        forall|l: int, m: int|
            0 <= l < m < entries@.len() && (#[trigger] entries@[l]).name@ == (#[trigger] entries@[m]).name@
                ==> has_warning(r@, duplicate_name_warning(entries@[l].name@)),
        fs_reads(old(fs).seen(), final(fs).seen()),
        stale_reported(final(fs).seen(), old(fs).seen().len() as int, entries@, r@, entries@.len() as int),
        roots_reported(
            entries@,
            registry_roots(final(fs).seen(), old(fs).seen().len() as int, entries@.len()),
            r@,
            entries@.len() as int,
            0,
        ),
{
    let mut warnings: Vec<String> = Vec::new();
    let mut i: usize = 0;
    while i < messages.len()
        invariant
            i <= messages@.len(),
            warnings@.len() == i,
            forall|k: int| 0 <= k < i ==> (#[trigger] warnings@[k])@ == normalize_warning_spec(messages@[k]@),
        decreases messages@.len() - i,
    {
        warnings.push(normalize_ddev_warning(messages[i].clone()));
        i = i + 1;
    }
    let n = entries.len();
    let mut roots: Vec<String> = Vec::new();
    let mut i: usize = 0;
    while i < n
        invariant
            i <= n == entries@.len(),
            roots@.len() == i,
            warnings@.len() >= messages@.len(),
            forall|k: int| 0 <= k < messages@.len() ==> (#[trigger] warnings@[k])@ == normalize_warning_spec(messages@[k]@),
            fs_reads(old(fs).seen(), fs.seen()),
            stale_reported(fs.seen(), old(fs).seen().len() as int, entries@, warnings@, i as int),
            forall|k: int|
                0 <= k < i ==> (#[trigger] roots@[k])@ == canonical_of(fs.seen()[old(fs).seen().len() + 2 * k + 1]),
        decreases n - i,
    {
        let e = &entries[i];
        let ghost before = warnings@;
        let ghost seen0 = fs.seen();
        let present = fs.path_exists(e.approot.as_str());
        if !present {
            let mut m = "stale DDEV registration `".to_owned();
            m.append(e.name.as_str());
            m.append("` points to missing path ");
            m.append(e.approot.as_str());
            warnings.push(m);
            proof {
                assert(warnings@[before.len() as int]@ == stale_warning(entries@[i as int]));
            }
        }
        let ghost seen1 = fs.seen();
        roots.push(canonical_or_raw(fs, e.approot.as_str()));
        proof {
            let s0 = old(fs).seen().len() as int;
            assert forall|k: int|
                0 <= k < i + 1 implies (#[trigger] roots@[k])@ == canonical_of(fs.seen()[s0 + 2 * k + 1]) by {
                if k < i {
                    assert(fs.seen()[s0 + 2 * k + 1] == seen0[s0 + 2 * k + 1]);
                }
            }
            assert forall|k: int| 0 <= k < i + 1 implies #[trigger] stale_checked(
                fs.seen(),
                s0,
                entries@,
                warnings@,
                k,
            ) by {
                if k < i {
                    assert(stale_checked(seen0, s0, entries@, before, k));
                    assert(fs.seen()[s0 + 2 * k] == seen0[s0 + 2 * k]);
                    assert(fs.seen()[s0 + 2 * k + 1] == seen0[s0 + 2 * k + 1]);
                    if seen0[s0 + 2 * k].3 == FsAnswer::Flag(false) && !present {
                        lemma_warning_kept(before, warnings@.last(), stale_warning(entries@[k]));
                        assert(warnings@ == before.push(warnings@.last()));
                    }
                } else {
                    assert(fs.seen()[s0 + 2 * k] == seen0.push((FsOp::PathExists, e.approot@, Seq::<char>::empty(), FsAnswer::Flag(present)))[s0 + 2 * k]);
                    if !present {
                        assert(warnings@[before.len() as int]@ == stale_warning(entries@[k]));
                    }
                }
            }
        }
        i = i + 1;
    }
    let ghost rs = registry_roots(fs.seen(), old(fs).seen().len() as int, entries@.len());
    proof {
        assert(strs_of(roots@) =~= rs);
    }
    let mut left: usize = 0;
    while left < n
        invariant
            rs == strs_of(roots@),
            roots_reported(entries@, rs, warnings@, left as int, 0),
            rs == registry_roots(fs.seen(), old(fs).seen().len() as int, entries@.len()),
            left <= n == entries@.len() == roots@.len(),
            warnings@.len() >= messages@.len(),
            forall|k: int| 0 <= k < messages@.len() ==> (#[trigger] warnings@[k])@ == normalize_warning_spec(messages@[k]@),
            duplicates_reported(entries@, warnings@, left as int, 0),
            fs_reads(old(fs).seen(), fs.seen()),
            stale_reported(fs.seen(), old(fs).seen().len() as int, entries@, warnings@, n as int),
        decreases n - left,
    {
        let mut right = left + 1;
        while right < n
            invariant
                left < right <= n || right == left + 1,
                left < n,
                n == entries@.len() == roots@.len(),
                warnings@.len() >= messages@.len(),
                forall|k: int| 0 <= k < messages@.len() ==> (#[trigger] warnings@[k])@ == normalize_warning_spec(messages@[k]@),
                duplicates_reported(entries@, warnings@, left as int, right as int),
                fs_reads(old(fs).seen(), fs.seen()),
                stale_reported(fs.seen(), old(fs).seen().len() as int, entries@, warnings@, n as int),
                rs == strs_of(roots@),
                roots_reported(entries@, rs, warnings@, left as int, right as int),
                rs == registry_roots(fs.seen(), old(fs).seen().len() as int, entries@.len()),
            decreases n - right,
        {
            if crate::text::str_eq(entries[left].name.as_str(), entries[right].name.as_str()) {
                let w = concat3("duplicate DDEV name `", entries[left].name.as_str(), "` is registered more than once");
                let ghost before = warnings@;
                warnings.push(w);
                proof {
                    lemma_stale_kept(fs.seen(), old(fs).seen().len() as int, entries@, before, w, n as int);
                    lemma_roots_kept(entries@, rs, before, w, left as int, right as int);
                    assert(warnings@[before.len() as int] == w);
                    assert(has_warning(warnings@, duplicate_name_warning(entries@[left as int].name@)));
                    assert forall|l: int, r: int|
                        0 <= l < r < entries@.len() && (l < left || (l == left && r < right + 1)) && (
                        #[trigger] entries@[l]).name@ == (#[trigger] entries@[r]).name@ implies has_warning(
                        warnings@,
                        duplicate_name_warning(entries@[l].name@),
                    ) by {
                        if l == left && r == right {
                        } else {
                            lemma_warning_kept(before, w, duplicate_name_warning(entries@[l].name@));
                        }
                    }
                }
            }
            if same_path(roots[left].as_str(), roots[right].as_str()) {
                let w = concat3(
                    "duplicate DDEV app root `",
                    entries[left].approot.as_str(),
                    "` is registered under multiple names",
                );
                let ghost before = warnings@;
                warnings.push(w);
                proof {
                    lemma_stale_kept(fs.seen(), old(fs).seen().len() as int, entries@, before, w, n as int);
                    lemma_roots_kept(entries@, rs, before, w, left as int, right as int);
                    assert(warnings@[before.len() as int]@ == duplicate_root_warning(entries@[left as int]));
                    assert(root_pair_warned(entries@, rs, warnings@, left as int, right as int));
                    assert forall|l: int, r: int|
                        0 <= l < r < entries@.len() && (l < left || (l == left && r < right + 1)) && (
                        #[trigger] entries@[l]).name@ == (#[trigger] entries@[r]).name@ implies has_warning(
                        warnings@,
                        duplicate_name_warning(entries@[l].name@),
                    ) by {
                        lemma_warning_kept(before, w, duplicate_name_warning(entries@[l].name@));
                    }
                }
            }
            proof {
                if !path_eq(rs[left as int], rs[right as int]) {
                    assert(root_pair_warned(entries@, rs, warnings@, left as int, right as int));
                }
                assert forall|l: int, r: int|
                    0 <= l < r < entries@.len() && (l < left || (l == left && r < right + 1)) implies #[trigger] root_pair_warned(
                    entries@,
                    rs,
                    warnings@,
                    l,
                    r,
                ) by {
                    if l == left && r == right {
                    } else {
                    }
                }
            }
            right = right + 1;
        }
        left = left + 1;
    }
    warnings
}

// ---------------------------------------------------------------------------
// Identity checks
// ---------------------------------------------------------------------------

pub open spec fn ascii_lower(c: char) -> char {
    if 'A' <= c && c <= 'Z' {
        (((c as u8) + 32) as u8) as char
    } else {
        c
    }
}

/// `str::eq_ignore_ascii_case`.
pub open spec fn eq_ignore_case(a: Seq<char>, b: Seq<char>) -> bool {
    a.len() == b.len() && forall|i: int| 0 <= i < a.len() ==> ascii_lower(#[trigger] a[i]) == ascii_lower(b[i])
}

fn lower(c: char) -> (r: char)
    ensures
        r == ascii_lower(c),
{
    if 'A' <= c && c <= 'Z' {
        ((c as u8) + 32) as char
    } else {
        c
    }
}

pub fn eq_ignore_ascii_case(a: &str, b: &str) -> (r: bool)
    ensures
        r == eq_ignore_case(a@, b@),
{
    let x = chars_of(a);
    let y = chars_of(b);
    if x.len() != y.len() {
        return false;
    }
    let mut i: usize = 0;
    while i < x.len()
        invariant
            x@ == a@,
            y@ == b@,
            x@.len() == y@.len(),
            i <= x@.len(),
            forall|k: int| 0 <= k < i ==> ascii_lower(#[trigger] x@[k]) == ascii_lower(y@[k]),
        decreases x@.len() - i,
    {
        if lower(x[i]) != lower(y[i]) {
            return false;
        }
        i = i + 1;
    }
    true
}

/// A project counts as running when its status is `running`, in any ASCII
/// case.
pub open spec fn is_running(p: DdevProject) -> bool {
    eq_ignore_case(p.status@, "running"@)
}

/// Mutagen is healthy when disabled or reporting `ok`.
pub open spec fn mutagen_ready(p: DdevProject) -> bool {
    !p.mutagen_enabled || eq_ignore_case(p.mutagen_status@, "ok"@)
}

/// Whether a registered project clashes with a new identity: it has the
/// new name, or its canonical app root `root` is the new one.
pub open spec fn identity_clash(p: DdevProject, root: Seq<char>, expected_name: Seq<char>, expected_root: Seq<char>) -> bool {
    p.name@ == expected_name || path_eq(root, expected_root)
}

/// Why a new identity is refused because of the registered project `p`.
pub open spec fn new_identity_refusal(p: DdevProject, expected_name: Seq<char>, app_root: Seq<char>) -> Seq<char> {
    if p.name@ == expected_name {
        "DDEV project name `"@ + expected_name + "` is already registered at "@ + p.approot@
            + "; v1 never adopts it"@
    } else {
        "workspace app root "@ + app_root + " is already registered in DDEV as `"@ + p.name@
            + "`; v1 never reuses another identity"@
    }
}

/// Judges a new identity against DDEV's registry, given the canonical app
/// root of each registered project (`roots`, in the same order) and of the
/// new identity: the first project that clashes refuses it.
pub fn new_identity_conflict(
    entries: &Vec<DdevProject>,
    roots: &Vec<String>,
    expected_name: &str,
    expected_root: &str,
    app_root: &str,
) -> (r: ToolResult<()>)
    requires
        roots@.len() == entries@.len(),
    ensures
        r is Ok <==> forall|i: int|
            0 <= i < entries@.len() ==> !identity_clash(
                #[trigger] entries@[i],
                roots@[i]@,
                expected_name@,
                expected_root@,
            ),
        r is Err ==> exists|i: int|
            0 <= i < entries@.len() && identity_clash(#[trigger] entries@[i], roots@[i]@, expected_name@, expected_root@)
                && (forall|k: int|
                0 <= k < i ==> !identity_clash(#[trigger] entries@[k], roots@[k]@, expected_name@, expected_root@))
                && fails_with(r, new_identity_refusal(entries@[i], expected_name@, app_root@)),
{
    let mut i: usize = 0;
    while i < entries.len()
        invariant
            i <= entries@.len() == roots@.len(),
            forall|k: int|
                0 <= k < i ==> !identity_clash(#[trigger] entries@[k], roots@[k]@, expected_name@, expected_root@),
        decreases entries@.len() - i,
    {
        let entry = &entries[i];
        if crate::text::str_eq(entry.name.as_str(), expected_name) {
            let mut m = concat3("DDEV project name `", expected_name, "` is already registered at ");
            m.append(entry.approot.as_str());
            m.append("; v1 never adopts it");
            let r = Err(ToolError::new(m));
            assert(identity_clash(entries@[i as int], roots@[i as int]@, expected_name@, expected_root@));
            assert(fails_with(r, new_identity_refusal(entries@[i as int], expected_name@, app_root@)));
            return r;
        }
        if same_path(roots[i].as_str(), expected_root) {
            let mut m = "workspace app root ".to_owned();
            m.append(app_root);
            m.append(" is already registered in DDEV as `");
            m.append(entry.name.as_str());
            m.append("`; v1 never reuses another identity");
            let r = Err(ToolError::new(m));
            assert(identity_clash(entries@[i as int], roots@[i as int]@, expected_name@, expected_root@));
            assert(fails_with(r, new_identity_refusal(entries@[i as int], expected_name@, app_root@)));
            return r;
        }
        i = i + 1;
    }
    Ok(())
}

/// The canonical app root of each registered project, in order.
fn canonical_roots<F: FileSystem>(fs: &mut Files<F>, entries: &Vec<DdevProject>) -> (roots: Vec<String>)
    ensures
        fs_reads(old(fs).seen(), final(fs).seen()),
        final(fs).seen().len() == old(fs).seen().len() + entries@.len(),
        roots@.len() == entries@.len(),
        roots_asked(final(fs).seen(), old(fs).seen().len() as int, entries@),
        strs_of(roots@) == recorded_roots(final(fs).seen(), old(fs).seen().len() as int, entries@.len()),
{
    let ghost s0 = fs.seen().len() as int;
    let mut roots: Vec<String> = Vec::new();
    let mut i: usize = 0;
    while i < entries.len()
        invariant
            i <= entries@.len(),
            roots@.len() == i,
            fs.seen().len() == s0 + i,
            s0 == old(fs).seen().len(),
            fs_reads(old(fs).seen(), fs.seen()),
            forall|k: int|
                0 <= k < i ==> (#[trigger] fs.seen()[s0 + k]).0 == FsOp::Canonicalize && fs.seen()[s0 + k].1
                    == entries@[k].approot@,
            forall|k: int| 0 <= k < i ==> (#[trigger] roots@[k])@ == canonical_of(fs.seen()[s0 + k]),
        decreases entries@.len() - i,
    {
        roots.push(canonical_or_raw(fs, entries[i].approot.as_str()));
        i = i + 1;
    }
    proof {
        assert(strs_of(roots@) =~= recorded_roots(fs.seen(), s0, entries@.len()));
    }
    roots
}

/// Whether the `i`-th registered project is the only one that clashes with
/// the identity `expected_name` at the canonical root `expected_root`,
/// given each project's canonical root `roots`.
pub open spec fn sole_clash(
    entries: Seq<DdevProject>,
    roots: Seq<Seq<char>>,
    expected_name: Seq<char>,
    expected_root: Seq<char>,
    i: int,
) -> bool {
    &&& 0 <= i < entries.len()
    &&& identity_clash(entries[i], roots[i], expected_name, expected_root)
    &&& forall|k: int|
        0 <= k < entries.len() && k != i ==> !identity_clash(#[trigger] entries[k], roots[k], expected_name, expected_root)
}

/// Whether the `i`-th registered project is the identity's one registration,
/// with its name at its root, running, with healthy or disabled Mutagen.
pub open spec fn ready_at(
    entries: Seq<DdevProject>,
    roots: Seq<Seq<char>>,
    expected_name: Seq<char>,
    expected_root: Seq<char>,
    i: int,
) -> bool {
    &&& sole_clash(entries, roots, expected_name, expected_root, i)
    &&& entries[i].name@ == expected_name
    &&& path_eq(roots[i], expected_root)
    &&& is_running(entries[i])
    &&& mutagen_ready(entries[i])
}

/// Judges whether an identity is ready, given the canonical app root of
/// each registered project (`roots`, in the same order) and of the identity:
/// exactly one project may share its name or root, and that one must be it,
/// running, with healthy or disabled Mutagen.
pub fn ready_identity(
    entries: &Vec<DdevProject>,
    roots: &Vec<String>,
    expected_name: &str,
    expected_root: &str,
    app_root: &str,
) -> (r: ToolResult<DdevProject>)
    requires
        roots@.len() == entries@.len(),
    ensures
        r is Ok <==> exists|i: int| ready_at(entries@, strs_of(roots@), expected_name@, expected_root@, i),
        r matches Ok(p) ==> exists|i: int|
            ready_at(entries@, strs_of(roots@), expected_name@, expected_root@, i) && p == #[trigger] entries@[i],
{
    let ghost rs = strs_of(roots@);
    let mut matches: Vec<usize> = Vec::new();
    let n = entries.len();
    let mut i: usize = 0;
    while i < n
        invariant
            i <= n == entries@.len() == roots@.len(),
            rs == strs_of(roots@),
            forall|k: int| 0 <= k < matches@.len() ==> #[trigger] matches@[k] < i,
            forall|k: int, l: int| 0 <= k < l < matches@.len() ==> #[trigger] matches@[k] < #[trigger] matches@[l],
            forall|k: int|
                0 <= k < i ==> (identity_clash(#[trigger] entries@[k], rs[k], expected_name@, expected_root@)
                    <==> matches@.contains(k as usize)),
            forall|k: int|
                0 <= k < matches@.len() ==> identity_clash(
                    entries@[#[trigger] matches@[k] as int],
                    rs[matches@[k] as int],
                    expected_name@,
                    expected_root@,
                ),
        decreases n - i,
    {
        let entry = &entries[i];
        let named = crate::text::str_eq(entry.name.as_str(), expected_name);
        if named || same_path(roots[i].as_str(), expected_root) {
            let ghost before = matches@;
            matches.push(i);
            assert forall|x: usize| before.contains(x) implies matches@.contains(x) by {
                let j = choose|j: int| 0 <= j < before.len() && before[j] == x;
                assert(matches@[j] == x);
            }
            assert(matches@[before.len() as int] == i);
            assert forall|k: int| 0 <= k <= i implies (identity_clash(
                #[trigger] entries@[k],
                rs[k],
                expected_name@,
                expected_root@,
            ) <==> matches@.contains(k as usize)) by {
                if matches@.contains(k as usize) && k < i {
                    let j = choose|j: int| 0 <= j < matches@.len() && matches@[j] == k as usize;
                    assert(j < before.len());
                    assert(before.contains(k as usize));
                }
            }
        } else {
            assert(!identity_clash(entries@[i as int], rs[i as int], expected_name@, expected_root@));
            assert(!matches@.contains(i));
        }
        i = i + 1;
    }
    if matches.len() != 1 {
        proof {
            assert forall|j: int| !ready_at(entries@, rs, expected_name@, expected_root@, j) by {
                if sole_clash(entries@, rs, expected_name@, expected_root@, j) {
                    assert(matches@.contains(j as usize));
                    let a = choose|a: int| 0 <= a < matches@.len() && matches@[a] == j as usize;
                    if matches@.len() > 1 {
                        let b: int = if a == 0 { 1 } else { 0 };
                        assert(matches@[b] != matches@[a]);
                        assert(identity_clash(entries@[matches@[b] as int], rs[matches@[b] as int], expected_name@, expected_root@));
                    }
                }
            }
        }
        let mut m = "DDEV identity `".to_owned();
        m.append(expected_name);
        m.append("` is not unique for ");
        m.append(app_root);
        m.append("; refusing readiness");
        return Err(ToolError::new(m));
    }
    let idx = matches[0];
    let entry = &entries[idx];
    proof {
        assert(sole_clash(entries@, rs, expected_name@, expected_root@, idx as int)) by {
            assert forall|k: int| 0 <= k < entries@.len() && k != idx implies !identity_clash(
                #[trigger] entries@[k],
                rs[k],
                expected_name@,
                expected_root@,
            ) by {
                if identity_clash(entries@[k], rs[k], expected_name@, expected_root@) {
                    assert(matches@.contains(k as usize));
                }
            }
        }
        assert forall|j: int| ready_at(entries@, rs, expected_name@, expected_root@, j) implies j == idx by {
            assert(matches@.contains(j as usize));
        }
    }
    if !crate::text::str_eq(entry.name.as_str(), expected_name) || !same_path(roots[idx].as_str(), expected_root) {
        let mut m = "DDEV identity mismatch: expected `".to_owned();
        m.append(expected_name);
        m.append("` at ");
        m.append(app_root);
        m.append(", found `");
        m.append(entry.name.as_str());
        m.append("` at ");
        m.append(entry.approot.as_str());
        return Err(ToolError::new(m));
    }
    if !eq_ignore_ascii_case(entry.status.as_str(), "running") {
        let mut m = "DDEV project `".to_owned();
        m.append(expected_name);
        m.append("` is not running (status `");
        m.append(entry.status.as_str());
        m.append("`); rerun doctor after manual remediation");
        return Err(ToolError::new(m));
    }
    if entry.mutagen_enabled && !eq_ignore_ascii_case(entry.mutagen_status.as_str(), "ok") {
        let mut m = "DDEV Mutagen for `".to_owned();
        m.append(expected_name);
        m.append("` is not healthy (status `");
        m.append(entry.mutagen_status.as_str());
        m.append("`); repair it manually");
        return Err(ToolError::new(m));
    }
    let p = copy_project(entry);
    assert(ready_at(entries@, rs, expected_name@, expected_root@, idx as int) && p == entries@[idx as int]);
    Ok(p)
}

/// Refuses a new identity whose name or app root DDEV already knows; the
/// app roots are compared in canonical form, as the file system gave them.
pub fn inspect_new_identity<F: FileSystem>(
    inspection: &DdevInspection,
    expected_name: &str,
    app_root: &str,
    fs: &mut Files<F>,
) -> (r: ToolResult<()>)
    ensures
        ({
            let s0 = old(fs).seen().len() as int;
            let seen = final(fs).seen();
            let roots = recorded_roots(seen, s0 + 1, inspection.entries@.len());
            let expected_root = canonical_of(seen[s0]);
            &&& fs_reads(old(fs).seen(), seen)
            &&& seen.len() == s0 + 1 + inspection.entries@.len()
            &&& seen[s0].0 == FsOp::Canonicalize && seen[s0].1 == app_root@
            &&& roots_asked(seen, s0 + 1, inspection.entries@)
            &&& (r is Ok <==> forall|i: int|
                0 <= i < inspection.entries@.len() ==> !identity_clash(
                    #[trigger] inspection.entries@[i],
                    roots[i],
                    expected_name@,
                    expected_root,
                ))
            &&& r is Err ==> exists|i: int|
                0 <= i < inspection.entries@.len() && identity_clash(
                    #[trigger] inspection.entries@[i],
                    roots[i],
                    expected_name@,
                    expected_root,
                ) && (forall|k: int|
                    0 <= k < i ==> !identity_clash(
                        #[trigger] inspection.entries@[k],
                        roots[k],
                        expected_name@,
                        expected_root,
                    )) && fails_with(r, new_identity_refusal(inspection.entries@[i], expected_name@, app_root@))
        }),
        r is Ok ==> forall|i: int|
            0 <= i < inspection.entries@.len() ==> (#[trigger] inspection.entries@[i]).name@ != expected_name@,
        inspection.entries@.len() == 0 ==> r is Ok,
{
    let expected_path = canonical_or_raw(fs, app_root);
    let roots = canonical_roots(fs, &inspection.entries);
    let r = new_identity_conflict(&inspection.entries, &roots, expected_name, expected_path.as_str(), app_root);
    proof {
        if r is Ok {
            assert forall|i: int| 0 <= i < inspection.entries@.len() implies (#[trigger] inspection.entries@[i]).name@
                != expected_name@ by {
                assert(!identity_clash(inspection.entries@[i], strs_of(roots@)[i], expected_name@, expected_path@));
            }
        }
    }
    r
}

/// The one registered identity for `expected_name` at `app_root`, which must
/// be running with healthy (or disabled) Mutagen; the app roots are compared
/// in canonical form, as the file system gave them.
pub fn require_ready_identity<F: FileSystem>(
    inspection: &DdevInspection,
    expected_name: &str,
    app_root: &str,
    fs: &mut Files<F>,
) -> (r: ToolResult<DdevProject>)
    ensures
        ({
            let s0 = old(fs).seen().len() as int;
            let seen = final(fs).seen();
            let roots = recorded_roots(seen, s0 + 1, inspection.entries@.len());
            let expected_root = canonical_of(seen[s0]);
            &&& fs_reads(old(fs).seen(), seen)
            &&& seen.len() == s0 + 1 + inspection.entries@.len()
            &&& seen[s0].0 == FsOp::Canonicalize && seen[s0].1 == app_root@
            &&& roots_asked(seen, s0 + 1, inspection.entries@)
            &&& (r is Ok <==> exists|i: int| ready_at(inspection.entries@, roots, expected_name@, expected_root, i))
            &&& r matches Ok(p) ==> exists|i: int|
                ready_at(inspection.entries@, roots, expected_name@, expected_root, i) && p
                    == #[trigger] inspection.entries@[i]
        }),
        r matches Ok(p) ==> {
            &&& p.name@ == expected_name@
            &&& is_running(p)
            &&& mutagen_ready(p)
            &&& inspection.entries@.contains(p)
            &&& forall|i: int, j: int|
                0 <= i < j < inspection.entries@.len() ==> !((#[trigger] inspection.entries@[i]).name@
                    == expected_name@ && (#[trigger] inspection.entries@[j]).name@ == expected_name@)
        },
{
    let expected_path = canonical_or_raw(fs, app_root);
    let roots = canonical_roots(fs, &inspection.entries);
    let r = ready_identity(&inspection.entries, &roots, expected_name, expected_path.as_str(), app_root);
    proof {
        if r is Ok {
            let p = r->Ok_0;
            let i = choose|i: int|
                ready_at(inspection.entries@, strs_of(roots@), expected_name@, expected_path@, i) && p
                    == #[trigger] inspection.entries@[i];
            assert(inspection.entries@[i] == p);
            assert forall|a: int, b: int|
                0 <= a < b < inspection.entries@.len() implies !((#[trigger] inspection.entries@[a]).name@
                    == expected_name@ && (#[trigger] inspection.entries@[b]).name@ == expected_name@) by {
                if inspection.entries@[a].name@ == expected_name@ && inspection.entries@[b].name@ == expected_name@ {
                    assert(identity_clash(inspection.entries@[a], strs_of(roots@)[a], expected_name@, expected_path@));
                    assert(identity_clash(inspection.entries@[b], strs_of(roots@)[b], expected_name@, expected_path@));
                }
            }
        }
    }
    r
}

// ---------------------------------------------------------------------------
// Registry inspection
// ---------------------------------------------------------------------------

/// The lines of DDEV's standard error, each trimmed, blank ones dropped.
pub open spec fn kept_lines(ls: Seq<Seq<char>>) -> Seq<Seq<char>>
    decreases ls.len(),
{
    if ls.len() == 0 {
        Seq::empty()
    } else {
        let prev = kept_lines(ls.drop_last());
        if trim(ls.last()).len() == 0 {
            prev
        } else {
            prev.push(trim(ls.last()))
        }
    }
}

/// The messages DDEV wrote to standard error: one per non-blank line, trimmed.
pub fn stderr_messages(stderr: &str) -> (out: Vec<String>)
    ensures
        strs_of(out@) == kept_lines(lines_of(stderr@)),
{
    let cs = chars_of(stderr);
    let ls = lines_chars(cs.as_slice());
    let mut out: Vec<String> = Vec::new();
    let mut i: usize = 0;
    while i < ls.len()
        invariant
            i <= ls@.len(),
            seqs_of(ls@) == lines_of(stderr@),
            strs_of(out@) =~= kept_lines(seqs_of(ls@).take(i as int)),
        decreases ls@.len() - i,
    {
        let t = trim_chars(ls[i].as_slice());
        assert(seqs_of(ls@).take(i + 1).drop_last() =~= seqs_of(ls@).take(i as int));
        assert(seqs_of(ls@)[i as int] == ls@[i as int]@);
        if t.len() > 0 {
            let ghost before = strs_of(out@);
            out.push(string_of(t.as_slice()));
            assert(strs_of(out@) =~= before.push(t@));
        }
        i = i + 1;
    }
    assert(seqs_of(ls@).take(ls@.len() as int) =~= seqs_of(ls@));
    out
}

/// `ddev version --json-output`, run in `cwd`.
pub fn version_request(cwd: &str) -> (r: CommandRequest)
    ensures
        r.program@ == "ddev"@,
        strs_of(r.args@) == seq!["version"@, "--json-output"@],
        r.cwd matches Some(c) && c@ == cwd@,
        r.env@.len() == 0,
        !r.mutating,
        !r.sensitive,
{
    CommandRequest::new("ddev", strs2("version", "--json-output")).cwd(cwd)
}

/// What DDEV's version report means: its global configuration directory,
/// which must be absolute. `global_dir` is the directory read from the
/// report, or why the report could not be read.
pub fn version_outcome(output: &CommandOutput, global_dir: Result<String, String>) -> (r: ToolResult<String>)
    ensures
        output.status != 0 ==> fails_with(
            r,
            "DDEV version inspection failed; verify that DDEV is installed and retry the read-only diagnosis"@,
        ),
        output.status == 0 ==> match global_dir {
            Err(e) => fails_with(
                r,
                "DDEV returned an unsupported JSON version envelope: "@ + e@
                    + "; upgrade guidance is required before inspection"@,
            ),
            Ok(d) => if is_abs(d@) {
                r matches Ok(x) && x@ == d@
            } else {
                fails_with(r, "DDEV reported a non-absolute global configuration directory; refusing inspection"@)
            },
        },
{
    if !output.success() {
        return Err(ToolError::new(
            "DDEV version inspection failed; verify that DDEV is installed and retry the read-only diagnosis".to_owned(),
        ));
    }
    match global_dir {
        Err(e) => Err(ToolError::new(
            concat3(
                "DDEV returned an unsupported JSON version envelope: ",
                e.as_str(),
                "; upgrade guidance is required before inspection",
            ),
        )),
        Ok(d) => {
            if path_is_absolute(d.as_str()) {
                Ok(d)
            } else {
                Err(ToolError::new(
                    "DDEV reported a non-absolute global configuration directory; refusing inspection".to_owned(),
                ))
            }
        },
    }
}

/// `ddev list --json-output`, run in `cwd` with DDEV's configuration home
/// redirected to `xdg_home`.
pub fn list_request(cwd: &str, xdg_home: &str) -> (r: CommandRequest)
    ensures
        r.program@ == "ddev"@,
        strs_of(r.args@) == seq!["list"@, "--json-output"@],
        r.cwd matches Some(c) && c@ == cwd@,
        r.env@.len() == 1,
        r.env@[0].0@ == "DDEV_XDG_CONFIG_HOME"@,
        r.env@[0].1@ == xdg_home@,
        !r.mutating,
        !r.sensitive,
{
    CommandRequest::new("ddev", strs2("list", "--json-output")).cwd(cwd).env("DDEV_XDG_CONFIG_HOME", xdg_home)
}

/// What DDEV's registry listing means. `entries` are the projects read from
/// the listing, or why it could not be read; `messages` are DDEV's messages
/// from standard error.
pub fn list_outcome<F: FileSystem>(
    fs: &mut Files<F>,
    output: &CommandOutput,
    entries: Result<Vec<DdevProject>, String>,
    messages: Vec<String>,
) -> (r: ToolResult<DdevInspection>)
    ensures
        output.status != 0 ==> fails_with(
            r,
            "DDEV list failed; verify that DDEV is installed and retry the read-only diagnosis"@,
        ),
        output.status == 0 ==> match entries {
            Err(e) => fails_with(
                r,
                "DDEV returned an unsupported JSON list envelope: "@ + e@
                    + "; upgrade guidance is required before mutation"@,
            ),
            Ok(v) => r matches Ok(i) && i.entries@ == v@ && i.warnings@.len() >= messages@.len()
                && (forall|k: int|
                0 <= k < messages@.len() ==> (#[trigger] i.warnings@[k])@ == normalize_warning_spec(messages@[k]@))
                && (forall|l: int, m: int|
                0 <= l < m < v@.len() && (#[trigger] v@[l]).name@ == (#[trigger] v@[m]).name@ ==> has_warning(
                    i.warnings@,
                    duplicate_name_warning(v@[l].name@),
                )),
        },
{
    if !output.success() {
        return Err(ToolError::new(
            "DDEV list failed; verify that DDEV is installed and retry the read-only diagnosis".to_owned(),
        ));
    }
    match entries {
        Err(e) => Err(ToolError::new(
            concat3(
                "DDEV returned an unsupported JSON list envelope: ",
                e.as_str(),
                "; upgrade guidance is required before mutation",
            ),
        )),
        Ok(v) => {
            let warnings = registry_warnings(fs, messages, &v);
            Ok(DdevInspection { entries: v, warnings })
        },
    }
}

// ---------------------------------------------------------------------------
// The workspace's DDEV override
// ---------------------------------------------------------------------------

/// Where the owned override of an app root lives.
pub open spec fn override_path_of(app_root: Seq<char>) -> Seq<char> {
    join_path(join_path(app_root, ".ddev"@), "config.ddev-workspaces.yaml"@)
}

/// The override's contents: the project name, and Mutagen disabled on request.
pub open spec fn override_text(name: Seq<char>, disable_mutagen: bool) -> Seq<char> {
    "name: "@ + name + "\n"@ + if disable_mutagen {
        "performance_mode: none\n"@
    } else {
        Seq::empty()
    }
}

pub fn override_contents(expected_name: &str, disable_mutagen: bool) -> (s: String)
    ensures
        s@ == override_text(expected_name@, disable_mutagen),
{
    let mut s = "name: ".to_owned();
    s.append(expected_name);
    s.append("\n");
    if disable_mutagen {
        s.append("performance_mode: none\n");
    }
    s
}

fn missing_config_error(app_root: &str) -> (e: ToolError)
    ensures
        e.code() == 1,
        e.msg() == "DDEV app root "@ + app_root@
            + " is missing named `.ddev/config.yaml`; materialize that file explicitly before start"@,
{
    ToolError::new(
        concat3(
            "DDEV app root ",
            app_root,
            " is missing named `.ddev/config.yaml`; materialize that file explicitly before start",
        ),
    )
}

/// The app root's `.ddev` directory.
pub open spec fn ddev_dir_of(app_root: Seq<char>) -> Seq<char> {
    join_path(app_root, ".ddev"@)
}

/// The DDEV configuration an app root must hold.
pub open spec fn ddev_config_of(app_root: Seq<char>) -> Seq<char> {
    join_path(ddev_dir_of(app_root), "config.yaml"@)
}

/// Whether everything an override needs was found, in the order it is
/// checked from position `s` of `seen`: `.ddev` a directory, `config.yaml`
/// in it a regular file, and no override there yet.
pub open spec fn override_allowed(seen: Seq<(FsOp, Seq<char>, Seq<char>, FsAnswer)>, s: int, app_root: Seq<char>) -> bool {
    &&& s + 3 <= seen.len()
    &&& fs_event(seen[s], FsOp::EntryKind, ddev_dir_of(app_root), FsAnswer::Kind(Ok(EntryKind::Directory)))
    &&& fs_event(seen[s + 1], FsOp::EntryKind, ddev_config_of(app_root), FsAnswer::Kind(Ok(EntryKind::File)))
    &&& kind_query(seen[s + 2], override_path_of(app_root)) && seen[s + 2].3->Kind_0 is Err
}

/// Creates the owned override naming the DDEV project. The app root's
/// `.ddev` must be a real directory holding a regular `config.yaml`; an
/// existing override is never overwritten, and inside the repository the
/// override must be ignored by Git.
pub fn write_override<F: FileSystem, R: CommandRunner>(
    repo_root: &str,
    app_root: &str,
    expected_name: &str,
    disable_mutagen: bool,
    fs: &mut Files<F>,
    runner: &mut Recorder<R>,
) -> (r: ToolResult<String>)
    ensures
        r matches Ok(p) ==> p@ == override_path_of(app_root@),
        extends(old(runner).sent(), final(runner).sent()),
        fs_extends(old(fs).seen(), final(fs).seen()),
        final(fs).seen().len() > old(fs).seen().len(),
        kind_query(final(fs).seen()[old(fs).seen().len() as int], ddev_dir_of(app_root@)),
        final(fs).seen()[old(fs).seen().len() as int].3 matches FsAnswer::Kind(Err(_)) ==> final(fs).seen().len()
            == old(fs).seen().len() + 1 && fails_with(
            r,
            "DDEV app root "@ + app_root@
                + " is missing named `.ddev/config.yaml`; materialize that file explicitly before start"@,
        ),
        fs_event(
            final(fs).seen()[old(fs).seen().len() as int],
            FsOp::EntryKind,
            ddev_dir_of(app_root@),
            FsAnswer::Kind(Ok(EntryKind::Directory)),
        ) ==> final(fs).seen().len() > old(fs).seen().len() + 1 && kind_query(
            final(fs).seen()[old(fs).seen().len() + 1 as int],
            ddev_config_of(app_root@),
        ) && (final(fs).seen()[old(fs).seen().len() + 1 as int].3 != FsAnswer::Kind(Ok(EntryKind::File)) ==> (
        final(fs).seen().len() == old(fs).seen().len() + 2 && fails_with(
            r,
            "DDEV app root "@ + app_root@
                + " is missing named `.ddev/config.yaml`; materialize that file explicitly before start"@,
        ))),
        final(fs).seen().len() > old(fs).seen().len() + 2 && kind_query(
            final(fs).seen()[old(fs).seen().len() + 2 as int],
            override_path_of(app_root@),
        ) && final(fs).seen()[old(fs).seen().len() + 2 as int].3->Kind_0 is Ok ==> final(fs).seen().len() == old(
            fs,
        ).seen().len() + 3 && fails_with(
            r,
            "DDEV override "@ + override_path_of(app_root@) + " already exists; v1 never overwrites local configuration"@,
        ),
        forall|j: int|
            old(fs).seen().len() <= j < final(fs).seen().len() && !reads_only((#[trigger] final(fs).seen()[j]).0) ==> {
                &&& j == old(fs).seen().len() + 3 && j == final(fs).seen().len() - 1
                &&& override_allowed(final(fs).seen(), old(fs).seen().len() as int, app_root@)
                &&& final(fs).seen()[j].0 == FsOp::CreateFile
                &&& final(fs).seen()[j].1 == override_path_of(app_root@)
                &&& final(fs).seen()[j].2 == override_text(expected_name@, disable_mutagen)
            },
        r is Ok <==> final(fs).seen().len() == old(fs).seen().len() + 4 && fs_event(
            final(fs).seen()[old(fs).seen().len() + 3 as int],
            FsOp::CreateFile,
            override_path_of(app_root@),
            FsAnswer::Write(Ok(())),
        ),
        !path_starts_with(override_path_of(app_root@), repo_root@) ==> final(runner).sent() == old(runner).sent(),
        path_starts_with(override_path_of(app_root@), repo_root@) && r is Ok ==> probe_said_ignored(
            old(runner).sent(),
            final(runner).sent(),
            repo_root@,
        ),
{
    let ddev_directory = join(app_root, ".ddev");
    match fs.entry_kind(ddev_directory.as_str()) {
        Ok(EntryKind::Directory) => {},
        Ok(_) => {
            return Err(ToolError::new(
                concat3(
                    "DDEV directory ",
                    ddev_directory.as_str(),
                    " must be a regular directory; refusing to write outside the workspace",
                ),
            ));
        },
        Err(_) => {
            return Err(missing_config_error(app_root));
        },
    }
    let config_path = join(ddev_directory.as_str(), "config.yaml");
    match fs.entry_kind(config_path.as_str()) {
        Ok(EntryKind::File) => {},
        _ => {
            return Err(missing_config_error(app_root));
        },
    }
    let override_path = join(ddev_directory.as_str(), "config.ddev-workspaces.yaml");
    if fs.entry_kind(override_path.as_str()).is_ok() {
        return Err(ToolError::new(
            concat3(
                "DDEV override ",
                override_path.as_str(),
                " already exists; v1 never overwrites local configuration",
            ),
        ));
    }
    if starts_with_path(override_path.as_str(), repo_root) {
        let ignored = is_ignored(repo_root, override_path.as_str(), runner)?;
        if !ignored {
            return Err(ToolError::new(
                concat3(
                    "DDEV override ",
                    override_path.as_str(),
                    " is not ignored by Git; add a local ignore rule manually",
                ),
            ));
        }
    }
    let contents = override_contents(expected_name, disable_mutagen);
    let created = fs.create_file(override_path.as_str(), contents.as_str());
    match created {
        Ok(()) => {
            proof {
                crate::paths::lemma_written(created);
            }
            Ok(override_path)
        },
        Err(WriteError::Exists(e)) | Err(WriteError::Create(e)) => Err(ToolError::new(
            concat4("cannot create owned DDEV override ", override_path.as_str(), ": ", e.as_str()),
        )),
        Err(WriteError::Write(e)) => Err(ToolError::new(
            concat4("cannot finish owned DDEV override ", override_path.as_str(), ": ", e.as_str()),
        )),
    }
}

// ---------------------------------------------------------------------------
// Starting and stopping
// ---------------------------------------------------------------------------

/// `ddev start` in the app root; it changes state.
pub fn start_request(app_root: &str) -> (r: CommandRequest)
    ensures
        r.program@ == "ddev"@,
        strs_of(r.args@) == seq!["start"@],
        r.cwd matches Some(c) && c@ == app_root@,
        r.env@.len() == 0,
        r.mutating,
        !r.sensitive,
{
    CommandRequest::new("ddev", strs1("start")).cwd(app_root).mutating()
}

/// What `ddev start` reported.
pub fn start_outcome(app_root: &str, output: &CommandOutput) -> (r: ToolResult<()>)
    ensures
        r is Ok <==> output.status == 0,
        output.status != 0 ==> fails_with(
            r,
            "DDEV start failed for "@ + app_root@ + "; preserve the owned workspace and inspect DDEV manually"@,
        ),
{
    if output.success() {
        Ok(())
    } else {
        Err(ToolError::new(
            concat3("DDEV start failed for ", app_root, "; preserve the owned workspace and inspect DDEV manually"),
        ))
    }
}

/// Starts the DDEV project of an app root.
pub fn start<R: CommandRunner>(app_root: &str, runner: &mut Recorder<R>) -> (r: ToolResult<()>)
    ensures
        one_more(old(runner).sent(), final(runner).sent()),
        final(runner).sent().last().0.program@ == "ddev"@,
        strs_of(final(runner).sent().last().0.args@) == seq!["start"@],
        final(runner).sent().last().0.cwd matches Some(c) && c@ == app_root@,
        final(runner).sent().last().0.mutating,
        answered(final(runner).sent().last().1, r),
        final(runner).sent().last().1 matches Ok(o) ==> (o.status != 0 ==> fails_with(
            r,
            "DDEV start failed for "@ + app_root@ + "; preserve the owned workspace and inspect DDEV manually"@,
        )),
{
    let request = start_request(app_root);
    let output = runner.run(&request)?;
    start_outcome(app_root, &output)
}

/// `ddev stop --unlist <name>`, with `--remove-data` when the project's
/// data is deleted; it changes state.
pub fn stop_unlist_request(app_root: &str, name: &str, delete_data: bool) -> (r: CommandRequest)
    ensures
        r.program@ == "ddev"@,
        strs_of(r.args@) == if delete_data {
            seq!["stop"@, "--remove-data"@, "--unlist"@, name@]
        } else {
            seq!["stop"@, "--unlist"@, name@]
        },
        r.cwd matches Some(c) && c@ == app_root@,
        r.env@.len() == 0,
        r.mutating,
        !r.sensitive,
{
    let args = if delete_data {
        strs4("stop", "--remove-data", "--unlist", name)
    } else {
        strs3("stop", "--unlist", name)
    };
    CommandRequest::new("ddev", args).cwd(app_root).mutating()
}

/// What `ddev stop --unlist` reported.
pub fn stop_unlist_outcome(name: &str, output: &CommandOutput) -> (r: ToolResult<()>)
    ensures
        r is Ok <==> output.status == 0,
        output.status != 0 ==> fails_with(
            r,
            "DDEV refused to stop and unlist `"@ + name@ + "`; no Git or ownership mutation was attempted"@,
        ),
{
    if output.success() {
        Ok(())
    } else {
        Err(ToolError::new(
            concat3("DDEV refused to stop and unlist `", name, "`; no Git or ownership mutation was attempted"),
        ))
    }
}

/// Stops and unlists a DDEV project, deleting its data on request.
pub fn stop_unlist<R: CommandRunner>(app_root: &str, name: &str, delete_data: bool, runner: &mut Recorder<R>) -> (r: ToolResult<()>)
    ensures
        one_more(old(runner).sent(), final(runner).sent()),
        final(runner).sent().last().0.program@ == "ddev"@,
        strs_of(final(runner).sent().last().0.args@) == if delete_data {
            seq!["stop"@, "--remove-data"@, "--unlist"@, name@]
        } else {
            seq!["stop"@, "--unlist"@, name@]
        },
        final(runner).sent().last().0.cwd matches Some(c) && c@ == app_root@,
        final(runner).sent().last().0.mutating,
        answered(final(runner).sent().last().1, r),
        final(runner).sent().last().1 matches Ok(o) ==> (o.status != 0 ==> fails_with(
            r,
            "DDEV refused to stop and unlist `"@ + name@ + "`; no Git or ownership mutation was attempted"@,
        )),
{
    let request = stop_unlist_request(app_root, name, delete_data);
    let output = runner.run(&request)?;
    stop_unlist_outcome(name, &output)
}

// ---------------------------------------------------------------------------
// Cloning the source site's database
// ---------------------------------------------------------------------------

/// Whether DDEV reports the source site's project as running.
pub fn source_was_running<F: FileSystem>(fs: &mut Files<F>, entries: &Vec<DdevProject>, source_root: &str) -> (r: bool)
    ensures
        r ==> exists|i: int| 0 <= i < entries@.len() && is_running(#[trigger] entries@[i]),
        fs_reads(old(fs).seen(), final(fs).seen()),
{
    let source = canonical_or_raw(fs, source_root);
    let mut i: usize = 0;
    while i < entries.len()
        invariant
            i <= entries@.len(),
            fs_reads(old(fs).seen(), fs.seen()),
        decreases entries@.len() - i,
    {
        let root = canonical_or_raw(fs, entries[i].approot.as_str());
        if same_path(root.as_str(), source.as_str()) && eq_ignore_ascii_case(entries[i].status.as_str(), "running") {
            assert(is_running(entries@[i as int]));
            return true;
        }
        i = i + 1;
    }
    false
}

/// Where the temporary override that keeps a stopped source site from
/// starting Mutagen lives.
pub fn source_override_path(source_root: &str) -> (p: String)
    ensures
        p@ == join_path(join_path(source_root@, ".ddev"@), "config.ddev-workspaces-export.yaml"@),
{
    let ddev = join(source_root, ".ddev");
    join(ddev.as_str(), "config.ddev-workspaces-export.yaml")
}

/// `--file=<dump>`.
pub open spec fn file_flag(dump: Seq<char>) -> Seq<char> {
    "--file="@ + dump
}

/// `ddev export-db --file=<dump>` in the source site; it changes state.
pub fn export_request(source_root: &str, dump: &str) -> (r: CommandRequest)
    ensures
        r.program@ == "ddev"@,
        strs_of(r.args@) == seq!["export-db"@, file_flag(dump@)],
        r.cwd matches Some(c) && c@ == source_root@,
        r.env@.len() == 0,
        r.mutating,
        !r.sensitive,
{
    let mut flag = "--file=".to_owned();
    flag.append(dump);
    CommandRequest::new("ddev", strs2("export-db", flag.as_str())).cwd(source_root).mutating()
}

/// `ddev import-db --no-progress --file=<dump>` in the target workspace; it
/// changes state.
pub fn import_request(target_root: &str, dump: &str) -> (r: CommandRequest)
    ensures
        r.program@ == "ddev"@,
        strs_of(r.args@) == seq!["import-db"@, "--no-progress"@, file_flag(dump@)],
        r.cwd matches Some(c) && c@ == target_root@,
        r.env@.len() == 0,
        r.mutating,
        !r.sensitive,
{
    let mut flag = "--file=".to_owned();
    flag.append(dump);
    CommandRequest::new("ddev", strs3("import-db", "--no-progress", flag.as_str())).cwd(target_root).mutating()
}

/// `ddev stop` in the source site, returning it to its stopped state.
pub fn restore_request(source_root: &str) -> (r: CommandRequest)
    ensures
        r.program@ == "ddev"@,
        strs_of(r.args@) == seq!["stop"@],
        r.cwd matches Some(c) && c@ == source_root@,
        r.env@.len() == 0,
        r.mutating,
        !r.sensitive,
{
    CommandRequest::new("ddev", strs1("stop")).cwd(source_root).mutating()
}

/// What the export reported.
pub fn export_outcome(source_root: &str, output: &CommandOutput) -> (r: ToolResult<()>)
    ensures
        r is Ok <==> output.status == 0,
        output.status != 0 ==> fails_with(r, "could not export the source DDEV database from "@ + source_root@),
{
    if output.success() {
        Ok(())
    } else {
        let mut m = "could not export the source DDEV database from ".to_owned();
        m.append(source_root);
        Err(ToolError::new(m))
    }
}

/// What the import reported; a failure quotes DDEV's output, trimmed.
pub fn import_outcome(target_root: &str, output: &CommandOutput) -> (r: ToolResult<()>)
    ensures
        r is Ok <==> output.status == 0,
        output.status != 0 ==> fails_with(
            r,
            "could not import the source DDEV database into "@ + target_root@ + {
                let detail = trim(output.stdout@ + output.stderr@);
                if detail.len() == 0 {
                    Seq::empty()
                } else {
                    ": "@ + detail
                }
            },
        ),
{
    if output.success() {
        return Ok(());
    }
    let mut both = output.stdout.clone();
    both.append(output.stderr.as_str());
    let cs = chars_of(both.as_str());
    let detail = trim_chars(cs.as_slice());
    let mut m = "could not import the source DDEV database into ".to_owned();
    m.append(target_root);
    if detail.len() > 0 {
        let mut suffix = ": ".to_owned();
        let d = string_of(detail.as_slice());
        suffix.append(d.as_str());
        m.append(suffix.as_str());
    }
    proof {
        let detail_spec = trim(output.stdout@ + output.stderr@);
        assert(detail@ == detail_spec);
        assert(m@ =~= "could not import the source DDEV database into "@ + target_root@ + (if detail_spec.len() == 0 {
            Seq::empty()
        } else {
            ": "@ + detail_spec
        }));
    }
    Err(ToolError::new(m))
}

/// What returning the source site to its stopped state reported.
pub fn restore_outcome(source_root: &str, output: &CommandOutput) -> (r: ToolResult<()>)
    ensures
        r is Ok <==> output.status == 0,
        output.status != 0 ==> fails_with(
            r,
            "source DDEV database was cloned, but "@ + source_root@
                + " could not be restored to its stopped state"@,
        ),
{
    if output.success() {
        Ok(())
    } else {
        Err(ToolError::new(
            concat3(
                "source DDEV database was cloned, but ",
                source_root,
                " could not be restored to its stopped state",
            ),
        ))
    }
}

/// Whether `req` exports the database of `source_root` to `dump`.
pub open spec fn is_export(req: CommandRequest, source_root: Seq<char>, dump: Seq<char>) -> bool {
    &&& req.program@ == "ddev"@
    &&& strs_of(req.args@) == seq!["export-db"@, file_flag(dump)]
    &&& req.cwd matches Some(c) && c@ == source_root
    &&& req.mutating
}

/// Whether `req` imports the dump `dump` into `target_root`.
pub open spec fn is_import(req: CommandRequest, target_root: Seq<char>, dump: Seq<char>) -> bool {
    &&& req.program@ == "ddev"@
    &&& strs_of(req.args@) == seq!["import-db"@, "--no-progress"@, file_flag(dump)]
    &&& req.cwd matches Some(c) && c@ == target_root
    &&& req.mutating
}

/// Whether `req` stops the source site again.
pub open spec fn is_restore(req: CommandRequest, source_root: Seq<char>) -> bool {
    &&& req.program@ == "ddev"@
    &&& strs_of(req.args@) == seq!["stop"@]
    &&& req.cwd matches Some(c) && c@ == source_root
    &&& req.mutating
}

/// Where the temporary override of a stopped source site lives.
pub open spec fn override_path(source_root: Seq<char>) -> Seq<char> {
    join_path(join_path(source_root, ".ddev"@), "config.ddev-workspaces-export.yaml"@)
}

/// Whether, from position `from` of `seen` on, the temporary override of
/// `source_root` was created.
pub open spec fn override_made(seen: Seq<(FsOp, Seq<char>, Seq<char>, FsAnswer)>, from: int, source_root: Seq<char>) -> bool {
    exists|j: int|
        from <= j < seen.len() && #[trigger] fs_event(
            seen[j],
            FsOp::CreateFile,
            override_path(source_root),
            FsAnswer::Write(Ok(())),
        )
}

/// Why an export failed.
pub open spec fn export_failure(source_root: Seq<char>) -> Seq<char> {
    "could not export the source DDEV database from "@ + source_root
}

/// Why the source site could not be stopped again.
pub open spec fn restore_failure(source_root: Seq<char>) -> Seq<char> {
    "source DDEV database was cloned, but "@ + source_root + " could not be restored to its stopped state"@
}

/// Whether the recorded request `x` started a DDEV project with success.
pub open spec fn started(x: (CommandRequest, ToolResult<CommandOutput>)) -> bool {
    &&& x.0.program@ == "ddev"@
    &&& strs_of(x.0.args@) == seq!["start"@]
    &&& x.1 matches Ok(o) && o.status == 0
}

/// Whether a request was answered with exit status 0.
pub open spec fn succeeded(x: (CommandRequest, ToolResult<CommandOutput>)) -> bool {
    x.1 matches Ok(o) && o.status == 0
}

/// Whether, from position `i` of `sent`, the database of `source_root` was
/// exported to a dump that was then imported into `target_root`, both with
/// success.
pub open spec fn cloned_at(
    sent: Seq<(CommandRequest, ToolResult<CommandOutput>)>,
    i: int,
    source_root: Seq<char>,
    target_root: Seq<char>,
    dump: Seq<char>,
) -> bool {
    &&& 0 <= i && i + 1 < sent.len()
    &&& is_export(sent[i].0, source_root, dump) && succeeded(sent[i])
    &&& is_import(sent[i + 1].0, target_root, dump) && succeeded(sent[i + 1])
}

/// Exports the source database to `dump`, imports it into the target and,
/// when the source was stopped, stops it again. The first result is the
/// clone's, the second the restoration's; a runner failure while restoring
/// ends the whole operation.
pub fn clone_steps<R: CommandRunner>(
    runner: &mut Recorder<R>,
    source_root: &str,
    target_root: &str,
    dump: &str,
    source_was_running: bool,
) -> (r: ToolResult<(ToolResult<()>, ToolResult<()>)>)
    ensures
        source_was_running ==> (r matches Ok((_, restored)) && restored is Ok),
        extends(old(runner).sent(), final(runner).sent()),
        final(runner).sent().len() > old(runner).sent().len(),
        is_export(final(runner).sent()[old(runner).sent().len() as int].0, source_root@, dump@),
        r matches Ok((c, _)) ==> (c is Ok ==> cloned_at(
            final(runner).sent(),
            old(runner).sent().len() as int,
            source_root@,
            target_root@,
            dump@,
        )),
        !source_was_running ==> is_restore(final(runner).sent().last().0, source_root@),
        source_was_running ==> final(runner).sent().len() <= old(runner).sent().len() + 2 && forall|k: int|
            old(runner).sent().len() <= k < final(runner).sent().len() ==> !is_restore(
                (#[trigger] final(runner).sent()[k]).0,
                source_root@,
            ),
        final(runner).sent()[old(runner).sent().len() as int].1 matches Ok(o) && o.status != 0 && (forall|k: int|
            old(runner).sent().len() < k < final(runner).sent().len() ==> (#[trigger] final(runner).sent()[k]).1 is Ok)
            ==> (r matches Ok((c, restored)) && fails_with(
            c,
            "could not export the source DDEV database from "@ + source_root@,
        ) && (source_was_running || final(runner).sent().len() == old(runner).sent().len() + 2)),
        !source_was_running ==> (r matches Ok((_, restored)) ==> (restored is Ok <==> succeeded(final(runner).sent().last()))),
        r matches Ok((_, restored)) ==> (restored is Err ==> (!source_was_running && fails_with(
            restored,
            "source DDEV database was cloned, but "@ + source_root@
                + " could not be restored to its stopped state"@,
        ))),
{
    let ghost n = runner.sent().len();
    let clone_result = clone_database_into(runner, source_root, target_root, dump);
    proof {
        assert forall|k: int| n <= k < runner.sent().len() implies !is_restore(
            (#[trigger] runner.sent()[k]).0,
            source_root@,
        ) by {
            if k == n {
                assert(strs_of(runner.sent()[k].0.args@).len() == 2);
            } else {
                assert(k == runner.sent().len() - 1);
                assert(strs_of(runner.sent()[k].0.args@).len() == 3);
            }
        }
    }
    let restore_result = if source_was_running {
        Ok(())
    } else {
        let output = runner.run(&restore_request(source_root))?;
        restore_outcome(source_root, &output)
    };
    Ok((clone_result, restore_result))
}

fn clone_database_into<R: CommandRunner>(runner: &mut Recorder<R>, source_root: &str, target_root: &str, dump: &str) -> (r: ToolResult<()>)
    ensures
        extends(old(runner).sent(), final(runner).sent()),
        final(runner).sent().len() == old(runner).sent().len() + 1 || final(runner).sent().len()
            == old(runner).sent().len() + 2,
        is_export(final(runner).sent()[old(runner).sent().len() as int].0, source_root@, dump@),
        final(runner).sent().len() == old(runner).sent().len() + 2 ==> succeeded(
            final(runner).sent()[old(runner).sent().len() as int],
        ) && is_import(final(runner).sent().last().0, target_root@, dump@),
        r is Ok ==> cloned_at(final(runner).sent(), old(runner).sent().len() as int, source_root@, target_root@, dump@),
        final(runner).sent()[old(runner).sent().len() as int].1 matches Ok(o) && o.status != 0 ==> (fails_with(
            r,
            "could not export the source DDEV database from "@ + source_root@,
        ) && final(runner).sent().len() == old(runner).sent().len() + 1),
        final(runner).sent()[old(runner).sent().len() as int].1 is Err ==> final(runner).sent().len()
            == old(runner).sent().len() + 1 && r is Err,
{
    let output = runner.run(&export_request(source_root, dump))?;
    export_outcome(source_root, &output)?;
    let output = runner.run(&import_request(target_root, dump))?;
    import_outcome(target_root, &output)
}

/// The outcome of a clone: a restoration failure outranks the clone's (and
/// is appended to it when both failed); a clean run that was interrupted
/// still fails.
pub open spec fn clone_outcome_spec(
    cloned: ToolResult<()>,
    restored: ToolResult<()>,
    interrupted: bool,
) -> Result<(), (Seq<char>, u8)> {
    match (cloned, restored) {
        (Err(c), Err(r)) => Err(
            (c.msg() + "; additionally, source-state restoration failed: "@ + r.msg(), 1u8),
        ),
        (_, Err(r)) => Err((r.msg(), r.code())),
        (Err(c), Ok(())) => Err((c.msg(), c.code())),
        (Ok(()), Ok(())) => if interrupted {
            Err(("database cloning was interrupted after source-state cleanup completed"@, 1u8))
        } else {
            Ok(())
        },
    }
}

/// A failed restoration of the source site is never hidden: the clone
/// fails and its message ends with the restoration's. A clean clone that
/// was interrupted fails too.
pub proof fn lemma_clone_outcome_reports_restoration(
    cloned: ToolResult<()>,
    restored: ToolResult<()>,
    interrupted: bool,
)
    ensures
        restored matches Err(r) ==> (clone_outcome_spec(cloned, restored, interrupted) matches Err((m, _))
            && is_suffix(r.msg(), m)),
        cloned is Ok && restored is Ok ==> (clone_outcome_spec(cloned, restored, interrupted) is Ok <==> !interrupted),
        cloned is Err ==> clone_outcome_spec(cloned, restored, interrupted) is Err,
{
    if let Err(r) = restored {
        let m = r.msg();
        match cloned {
            Err(c) => {
                let whole = c.msg() + "; additionally, source-state restoration failed: "@ + m;
                assert(whole.subrange(whole.len() - m.len(), whole.len() as int) =~= m);
            },
            Ok(()) => {
                assert(m.subrange(0, m.len() as int) =~= m);
            },
        }
    }
}

pub fn clone_outcome(cloned: ToolResult<()>, restored: ToolResult<()>, interrupted: bool) -> (r: ToolResult<()>)
    ensures
        match clone_outcome_spec(cloned, restored, interrupted) {
            Ok(()) => r is Ok,
            Err((m, c)) => r matches Err(e) && e.msg() == m && e.code() == c,
        },
{
    match (cloned, restored) {
        (Err(c), Err(r)) => {
            let mut m = c.message();
            m.append("; additionally, source-state restoration failed: ");
            let rm = r.message();
            m.append(rm.as_str());
            Err(ToolError::new(m))
        },
        (_, Err(r)) => Err(r),
        (Err(c), Ok(())) => Err(c),
        (Ok(()), Ok(())) => {
            if interrupted {
                Err(ToolError::new(
                    "database cloning was interrupted after source-state cleanup completed".to_owned(),
                ))
            } else {
                Ok(())
            }
        },
    }
}

/// Whether the process was asked to stop (an interrupt or a termination
/// signal) since the caller began watching.
pub trait Interrupts {
    fn interrupted(&mut self) -> bool;
}

/// Reserves a private directory for the database dump: the first of
/// `<base>-0` to `<base>-31` that can be newly created.
pub fn reserve_dump_directory<F: FileSystem>(fs: &mut Files<F>, base: &str) -> (r: ToolResult<String>)
    ensures
        r matches Ok(d) ==> exists|a: nat| a < 32 && d@ == base@ + "-"@ + decimal(a),
        r is Ok || fails_with(r, "could not reserve a private temporary directory for the database clone"@)
            || exists|d: Seq<char>| fails_with(r, "I/O error: "@ + d),
        fs_extends(old(fs).seen(), final(fs).seen()),
        forall|j: int|
            old(fs).seen().len() <= j < final(fs).seen().len() ==> (#[trigger] final(fs).seen()[j]).0
                == FsOp::CreatePrivateDir,
        forall|j: int|
            old(fs).seen().len() <= j < final(fs).seen().len() && made(#[trigger] final(fs).seen()[j]) ==> (r matches Ok(
                d,
            ) && final(fs).seen()[j].1 == d@),
{
    let mut attempt: u8 = 0;
    while attempt < 32
        invariant
            attempt <= 32,
            fs_extends(old(fs).seen(), fs.seen()),
            forall|j: int| old(fs).seen().len() <= j < fs.seen().len() ==> !made(#[trigger] fs.seen()[j]),
            forall|j: int|
                old(fs).seen().len() <= j < fs.seen().len() ==> (#[trigger] fs.seen()[j]).0 == FsOp::CreatePrivateDir,
        decreases 32 - attempt,
    {
        let mut directory = base.to_owned();
        directory.append("-");
        push_decimal(&mut directory, attempt as u64);
        match fs.create_private_dir(directory.as_str()) {
            Ok(()) => {
                assert(directory@ == base@ + "-"@ + decimal(attempt as nat));
                return Ok(directory);
            },
            Err(DirError::AlreadyExists(_)) => {},
            Err(DirError::Failed(e)) => {
                let r = Err(io_error(e.as_str()));
                assert(fails_with(r, "I/O error: "@ + e@));
                return r;
            },
        }
        attempt = attempt + 1;
    }
    Err(ToolError::new("could not reserve a private temporary directory for the database clone".to_owned()))
}

/// Clones the source site's database into a new workspace. A stopped source
/// is started only for the export, with Mutagen disabled by a temporary
/// override, and stopped again afterwards; the dump lives in a private
/// directory named from `dump_base`. The dump and the override are removed
/// whatever happens, and an interrupted clone fails once the source is back
/// in its state.
pub fn clone_database<R: CommandRunner, F: FileSystem, D: DdevRegistry, I: Interrupts>(
    source_root: &str,
    target_root: &str,
    dump_base: &str,
    runner: &mut Recorder<R>,
    fs: &mut Files<F>,
    registry: &mut Registry<D>,
    interrupts: &mut I,
) -> (r: ToolResult<()>)
    ensures
        extends(old(runner).sent(), final(runner).sent()),
        r is Ok ==> exists|i: int, dump: Seq<char>|
            old(runner).sent().len() <= i && #[trigger] cloned_at(final(runner).sent(), i, source_root@, target_root@, dump),
        leaves_nothing(final(fs).seen(), old(fs).seen().len() as int),
        final(runner).sent().len() > old(runner).sent().len() ==> {
            &&& exists|dump: Seq<char>| #[trigger] is_export(final(runner).sent()[old(runner).sent().len() as int].0, source_root@, dump)
            &&& is_restore(final(runner).sent().last().0, source_root@) <==> override_made(
                final(fs).seen(),
                old(fs).seen().len() as int,
                source_root@,
            )
        },
        final(runner).sent().len() > old(runner).sent().len() ==> (final(runner).sent()[old(runner).sent().len() as int].1 matches Ok(o)
            && o.status != 0 && (forall|k: int|
            old(runner).sent().len() < k < final(runner).sent().len() ==> (#[trigger] final(runner).sent()[k]).1 is Ok)
            ==> (r matches Err(e) && e.msg() == if is_restore(final(runner).sent().last().0, source_root@) && !succeeded(
            final(runner).sent().last(),
        ) {
            export_failure(source_root@) + "; additionally, source-state restoration failed: "@ + restore_failure(source_root@)
        } else {
            export_failure(source_root@)
        })),
{
    let ghost s0 = fs.seen().len() as int;
    let inspection = registry.inspect(runner.inner_mut(), source_root)?;
    let was_running = source_was_running(fs, &inspection.entries, source_root);
    let ghost s1 = fs.seen().len() as int;
    let source_override = if was_running {
        None
    } else {
        let path = source_override_path(source_root);
        let created = fs.create_file(path.as_str(), "performance_mode: none\n");
        match created {
            Ok(()) => {
                proof {
                    crate::paths::lemma_written(created);
                }
            },
            Err(WriteError::Exists(e)) | Err(WriteError::Create(e)) => {
                proof {
                    assert forall|j: int| s0 <= j < fs.seen().len() && made(#[trigger] fs.seen()[j]) implies exists|k: int|
                        j < k < fs.seen().len() && #[trigger] unmakes(fs.seen()[k], fs.seen()[j].1) by {
                        if j < s1 {
                            assert(reads_only(fs.seen()[j].0));
                        }
                    }
                }
                return Err(ToolError::new(
                    concat4("cannot create temporary source DDEV override ", path.as_str(), ": ", e.as_str()),
                ));
            },
            Err(WriteError::Write(e)) => {
                let _ = fs.remove_file(path.as_str());
                proof {
                    assert forall|j: int| s0 <= j < fs.seen().len() && made(#[trigger] fs.seen()[j]) implies exists|k: int|
                        j < k < fs.seen().len() && #[trigger] unmakes(fs.seen()[k], fs.seen()[j].1) by {
                        if j < s1 {
                            assert(reads_only(fs.seen()[j].0));
                        } else {
                            assert(unmakes(fs.seen()[s1 + 1], fs.seen()[j].1));
                        }
                    }
                }
                return Err(io_error(e.as_str()));
            },
        }
        proof {
            assert(fs.seen().len() == s1 + 1);
            assert(fs.seen()[s1].0 == FsOp::CreateFile);
            assert(fs.seen()[s1].1 == override_path(source_root@));
            assert(fs.seen()[s1].3 == FsAnswer::Write(Ok(())));
        }
        Some(path)
    };
    let ghost s2 = fs.seen().len() as int;
    proof {
        assert(was_running ==> s2 == s1);
        assert(!was_running ==> s2 == s1 + 1 && fs_event(
            fs.seen()[s1],
            FsOp::CreateFile,
            override_path(source_root@),
            FsAnswer::Write(Ok(())),
        ));
    }
    let directory = match reserve_dump_directory(fs, dump_base) {
        Ok(d) => d,
        Err(e) => {
            if let Some(path) = &source_override {
                let _ = fs.remove_file(path.as_str());
            }
            proof {
                assert forall|j: int| s0 <= j < fs.seen().len() && made(#[trigger] fs.seen()[j]) implies exists|k: int|
                    j < k < fs.seen().len() && #[trigger] unmakes(fs.seen()[k], fs.seen()[j].1) by {
                    if j < s1 {
                        assert(reads_only(fs.seen()[j].0));
                    } else if j < s2 {
                        assert(unmakes(fs.seen()[fs.seen().len() - 1], fs.seen()[j].1));
                    }
                }
            }
            return Err(e);
        },
    };
    let ghost s3 = fs.seen().len() as int;
    let ghost n0 = runner.sent().len() as int;
    let dump = join(directory.as_str(), "database.sql.gz");
    let steps = clone_steps(runner, source_root, target_root, dump.as_str(), was_running);
    let interrupted = interrupts.interrupted();
    let _ = fs.remove_dir_all(directory.as_str());
    if let Some(path) = &source_override {
        let _ = fs.remove_file(path.as_str());
    }
    proof {
        assert forall|j: int| s0 <= j < fs.seen().len() && made(#[trigger] fs.seen()[j]) implies exists|k: int|
            j < k < fs.seen().len() && #[trigger] unmakes(fs.seen()[k], fs.seen()[j].1) by {
            if j < s1 {
                assert(reads_only(fs.seen()[j].0));
            } else if j < s2 {
                assert(unmakes(fs.seen()[fs.seen().len() - 1], fs.seen()[j].1));
            } else if j < s3 {
                assert(unmakes(fs.seen()[s3], fs.seen()[j].1));
            }
        }
        if was_running {
            assert forall|j: int| s0 <= j < fs.seen().len() implies !#[trigger] fs_event(
                fs.seen()[j],
                FsOp::CreateFile,
                override_path(source_root@),
                FsAnswer::Write(Ok(())),
            ) by {
                if j < s1 {
                    assert(reads_only(fs.seen()[j].0));
                }
            }
        } else {
            assert(fs_event(fs.seen()[s1], FsOp::CreateFile, override_path(source_root@), FsAnswer::Write(Ok(()))));
        }
        assert(is_export(runner.sent()[n0].0, source_root@, dump@));
    }
    let (cloned, restored) = steps?;
    clone_outcome(cloned, restored, interrupted)
}

// ---------------------------------------------------------------------------
// Generated sites for source-only workspaces
// ---------------------------------------------------------------------------

/// Creates each missing directory from the generated root down to the app
/// root. Existing parents must be real directories; the app root itself must
/// not exist yet, and no component may step upwards.
pub fn reserve_generated_app_root<F: FileSystem>(fs: &mut Files<F>, generated_root: &str, app_root: &str) -> (r: ToolResult<()>)
    ensures
        r is Ok ==> exists|g: Seq<char>|
            #![trigger strip_path_prefix(app_root@, g)]
            strip_path_prefix(app_root@, g) matches Some(rel) && forall|i: int|
                0 <= i < parts(rel).len() ==> #[trigger] parts(rel)[i] != ".."@,
        r is Ok || (exists|d: Seq<char>| fails_with(r, "I/O error: "@ + d)) || (exists|g: Seq<char>|
            fails_with(r, "generated DDEV app root "@ + app_root@ + " is outside generated root "@ + g))
            || fails_with(r, "generated DDEV app root contains an unsafe component"@) || fails_with(
            r,
            "generated DDEV app root "@ + app_root@ + " already exists; refusing to overwrite it"@,
        ) || (exists|c: Seq<char>| fails_with(r, "generated DDEV parent "@ + c + " is not a regular directory"@)),
{
    let generated = match fs.canonicalize(generated_root) {
        Ok(c) => c,
        Err(e) => {
            let r = Err(io_error(e.as_str()));
            assert(fails_with(r, "I/O error: "@ + e@));
            return r;
        },
    };
    let relative = match strip_prefix_path(app_root, generated.as_str()) {
        Some(rel) => rel,
        None => {
            let r = Err(ToolError::new(
                concat4(
                    "generated DDEV app root ",
                    app_root,
                    " is outside generated root ",
                    generated.as_str(),
                ),
            ));
            assert(fails_with(r, "generated DDEV app root "@ + app_root@ + " is outside generated root "@ + generated@));
            return r;
        },
    };
    let components = path_parts(relative.as_str());
    let mut current = generated.clone();
    let mut i: usize = 0;
    while i < components.len()
        invariant
            i <= components@.len(),
            strs_of(components@) == parts(relative@),
            forall|k: int| 0 <= k < i ==> #[trigger] components@[k]@ != ".."@,
        decreases components@.len() - i,
    {
        let part = &components[i];
        if str_eq(part.as_str(), "..") {
            return Err(ToolError::new("generated DDEV app root contains an unsafe component".to_owned()));
        }
        current = join(current.as_str(), part.as_str());
        let is_app_root = i + 1 == components.len();
        match fs.create_dir(current.as_str()) {
            Ok(()) => {},
            Err(DirError::AlreadyExists(_)) => {
                if is_app_root {
                    return Err(ToolError::new(
                        concat3("generated DDEV app root ", app_root, " already exists; refusing to overwrite it"),
                    ));
                }
                match fs.entry_kind(current.as_str()) {
                    Ok(EntryKind::Directory) => {},
                    Ok(_) => {
                        let r = Err(ToolError::new(
                            concat3("generated DDEV parent ", current.as_str(), " is not a regular directory"),
                        ));
                        assert(fails_with(r, "generated DDEV parent "@ + current@ + " is not a regular directory"@));
                        return r;
                    },
                    Err(e) => {
                        let r = Err(io_error(e.message.as_str()));
                        assert(fails_with(r, "I/O error: "@ + e.message@));
                        return r;
                    },
                }
            },
            Err(DirError::Failed(e)) => {
                let r = Err(io_error(e.as_str()));
                assert(fails_with(r, "I/O error: "@ + e@));
                return r;
            },
        }
        i = i + 1;
    }
    assert(strip_path_prefix(app_root@, generated@) == Some(relative@));
    assert forall|k: int| 0 <= k < parts(relative@).len() implies #[trigger] parts(relative@)[k] != ".."@ by {
        assert(strs_of(components@)[k] == components@[k]@);
    }
    Ok(())
}

/// Entries of a source site that are never copied: Git metadata,
/// dependencies and this tool's own files anywhere, and DDEV's generated
/// state inside `.ddev`.
pub open spec fn skipped_site_entry(name: Seq<char>, in_ddev: bool) -> bool {
    ||| name == ".git"@
    ||| name == "node_modules"@
    ||| name == "config.ddev-workspaces.yaml"@
    ||| name == "config.ddev-workspaces-export.yaml"@
    ||| name == "docker-compose.ddev-workspaces.yaml"@
    ||| in_ddev && {
        ||| name == ".ddev-docker-compose-base.yaml"@
        ||| name == ".ddev-docker-compose-full.yaml"@
        ||| name == ".dbimageBuild"@
        ||| name == ".webimageBuild"@
        ||| name == ".homeadditions"@
        ||| name == ".start-synced"@
        ||| name == "db_snapshots"@
        ||| name == "traefik"@
    }
}

pub fn is_skipped_site_entry(name: &str, in_ddev: bool) -> (b: bool)
    ensures
        b == skipped_site_entry(name@, in_ddev),
{
    if str_eq(name, ".git") || str_eq(name, "node_modules") || str_eq(name, "config.ddev-workspaces.yaml")
        || str_eq(name, "config.ddev-workspaces-export.yaml") || str_eq(
        name,
        "docker-compose.ddev-workspaces.yaml",
    ) {
        return true;
    }
    in_ddev && (str_eq(name, ".ddev-docker-compose-base.yaml") || str_eq(name, ".ddev-docker-compose-full.yaml")
        || str_eq(name, ".dbimageBuild") || str_eq(name, ".webimageBuild") || str_eq(name, ".homeadditions")
        || str_eq(name, ".start-synced") || str_eq(name, "db_snapshots") || str_eq(name, "traefik"))
}

/// Whether an entry of the source site lies under its `.ddev` directory.
pub open spec fn in_ddev_spec(entry: Seq<char>, source_root: Seq<char>) -> bool {
    match strip_path_prefix(entry, source_root) {
        Some(rel) => path_starts_with(rel, ".ddev"@),
        None => path_starts_with(entry, ".ddev"@),
    }
}

pub fn entry_in_ddev(entry: &str, source_root: &str) -> (b: bool)
    ensures
        b == in_ddev_spec(entry@, source_root@),
{
    match strip_prefix_path(entry, source_root) {
        Some(rel) => starts_with_path(rel.as_str(), ".ddev"),
        None => starts_with_path(entry, ".ddev"),
    }
}

/// A symlink in the source site may be copied only when its target is
/// relative and resolves inside the site, outside the workspace's repository.
pub open spec fn symlink_escapes_spec(target: Seq<char>, resolved: Seq<char>, source_root: Seq<char>, excluded: Seq<char>) -> bool {
    is_abs(target) || !path_starts_with(resolved, source_root) || path_starts_with(resolved, excluded)
}

pub fn symlink_escapes(target: &str, resolved: &str, source_root: &str, excluded: &str) -> (b: bool)
    ensures
        b == symlink_escapes_spec(target@, resolved@, source_root@, excluded@),
{
    path_is_absolute(target) || !starts_with_path(resolved, source_root) || starts_with_path(resolved, excluded)
}

/// The refusal of a symlink that could escape the generated site.
pub fn symlink_refusal(entry: &str) -> (e: ToolError)
    ensures
        e.code() == 1,
        e.msg() == "source DDEV site contains symlink "@ + entry@
            + "; refusing to copy a link that could escape the generated site"@,
{
    ToolError::new(
        concat3(
            "source DDEV site contains symlink ",
            entry,
            "; refusing to copy a link that could escape the generated site",
        ),
    )
}

/// A lowercase hexadecimal digit.
pub open spec fn hex_digit(n: int) -> char {
    if n < 10 {
        (48 + n) as char
    } else {
        (87 + n) as char
    }
}

/// How JSON writes one character inside a string: `"` and `\` behind a
/// backslash, the usual short escapes for backspace, tab, newline, form
/// feed and carriage return, other control characters as `\u00XX` in
/// lowercase hexadecimal, and every other character unchanged.
pub open spec fn json_escaped_char(c: char) -> Seq<char> {
    let n = c as int;
    if c == '"' {
        seq!['\\', '"']
    } else if c == '\\' {
        seq!['\\', '\\']
    } else if n == 8 {
        seq!['\\', 'b']
    } else if n == 9 {
        seq!['\\', 't']
    } else if n == 10 {
        seq!['\\', 'n']
    } else if n == 12 {
        seq!['\\', 'f']
    } else if n == 13 {
        seq!['\\', 'r']
    } else if n < 32 {
        seq!['\\', 'u', '0', '0', hex_digit(n / 16), hex_digit(n % 16)]
    } else {
        seq![c]
    }
}

/// The escaped characters of a string, in order.
pub open spec fn json_escaped(s: Seq<char>) -> Seq<char>
    decreases s.len(),
{
    if s.len() == 0 {
        Seq::empty()
    } else {
        json_escaped(s.drop_last()) + json_escaped_char(s.last())
    }
}

/// The JSON text of a string: its escaped characters between double quotes.
pub open spec fn json_string_text(s: Seq<char>) -> Seq<char> {
    seq!['"'] + json_escaped(s) + seq!['"']
}

/// Calls `serde_json::to_string` on a string. Claimed: it succeeds (a
/// string is written into a vector, which cannot fail) and gives the JSON
/// text of `s`.
#[verifier::external_body]
fn json_string(s: &str) -> (r: Result<String, String>)
    ensures
        r is Ok,
        r matches Ok(t) ==> t@ == json_string_text(s@),
{
    serde_json::to_string(s).map_err(|e| e.to_string())
}

/// The bind mount of the workspace into the generated site's web container.
pub open spec fn mount_of(workspace: Seq<char>, repository_path: Seq<char>) -> Seq<char> {
    workspace + ":/var/www/html/"@ + repository_path
}

/// The compose file that mounts the workspace at the repository path.
pub open spec fn compose_text(quoted_mount: Seq<char>) -> Seq<char> {
    "services:\n  web:\n    volumes:\n      - "@ + quoted_mount + "\n"@
}

pub fn compose_contents(workspace: &str, repository_path: &str) -> (r: ToolResult<String>)
    ensures
        r matches Ok(t) && t@ == compose_text(json_string_text(mount_of(workspace@, repository_path@))),
{
    let mount = concat3(workspace, ":/var/www/html/", repository_path);
    match json_string(mount.as_str()) {
        Ok(quoted) => Ok(concat3("services:\n  web:\n    volumes:\n      - ", quoted.as_str(), "\n")),
        Err(e) => {
            let mut m = "cannot encode repository mount: ".to_owned();
            m.append(e.as_str());
            Err(ToolError::new(m))
        },
    }
}

/// Writes the owned compose file of a generated site.
pub fn write_compose<F: FileSystem>(fs: &mut Files<F>, workspace: &str, app_root: &str, repository_path: &str) -> (r: ToolResult<String>)
    ensures
        r matches Ok(p) ==> p@ == join_path(join_path(app_root@, ".ddev"@), "docker-compose.ddev-workspaces.yaml"@),
        r is Ok || (exists|
            d: Seq<char>,
        |
            fails_with(
                r,
                "cannot create owned DDEV compose file "@ + join_path(
                    join_path(app_root@, ".ddev"@),
                    "docker-compose.ddev-workspaces.yaml"@,
                ) + ": "@ + d,
            )) || (exists|d: Seq<char>| fails_with(r, "I/O error: "@ + d)),
{
    let contents = compose_contents(workspace, repository_path)?;
    let ddev = join(app_root, ".ddev");
    let path = join(ddev.as_str(), "docker-compose.ddev-workspaces.yaml");
    match fs.create_file(path.as_str(), contents.as_str()) {
        Ok(()) => Ok(path),
        Err(WriteError::Exists(e)) | Err(WriteError::Create(e)) => {
            let r = Err(ToolError::new(
                concat4("cannot create owned DDEV compose file ", path.as_str(), ": ", e.as_str()),
            ));
            assert(fails_with(r, "cannot create owned DDEV compose file "@ + path@ + ": "@ + e@));
            r
        },
        Err(WriteError::Write(e)) => {
            let r = Err(io_error(e.as_str()));
            assert(fails_with(r, "I/O error: "@ + e@));
            r
        },
    }
}

} // verus!
