//! Git repository inspection: request construction, output parsing and the
//! decisions taken on Git's answers.

use vstd::prelude::*;

use crate::command::{
    answered, extends, fails_with, one_more, only_reads, CommandOutput, CommandRequest, CommandRunner, Recorder, ToolError,
    ToolResult,
};
use crate::paths::{
    fs_extends, fs_reads, join_path, kind_query, lemma_missing_kept, reported_missing, Files, FsOp, FsAnswer, join, parent_of, parent_path, path_eq, same_path,
    strip_path_prefix, strip_prefix_path, FileSystem,
};
use crate::text::{
    chars_eq, chars_of, concat3, concat4, copy_range, find_char, find_whitespace, has_prefix,
    index_of, index_of_ws, lines_chars, lines_of, push_char, seqs_of,
    split_chars, split_on, str_eq, string_of, strs2, strs3, strs4, strs5, strs6, strs_of, trim, trim_chars, trim_start,
    trim_start_chars, words, words_chars, decimal,
};

verus! {

/// A discovered repository: its worktree root, the shared Git directory and
/// the main worktree that owns it.
#[derive(Debug, Clone, PartialEq, Eq)]
pub struct GitRepository {
    pub root: String,
    pub common_dir: String,
    pub main_worktree: String,
}

/// The commit a workspace starts from, and how it was named.
#[derive(Debug, Clone, PartialEq, Eq)]
pub struct BaseRevision {
    pub reference: String,
    pub sha: String,
}

/// One entry of `git worktree list --porcelain`.
#[derive(Debug, Clone, PartialEq, Eq)]
pub struct WorktreeRecord {
    pub path: String,
    pub head: Option<String>,
    pub branch: Option<String>,
    pub locked: bool,
    pub prunable: bool,
}

/// The value a worktree entry stands for.
pub struct WorktreeView {
    pub path: Seq<char>,
    pub head: Option<Seq<char>>,
    pub branch: Option<Seq<char>>,
    pub locked: bool,
    pub prunable: bool,
}

pub open spec fn opt_view(o: Option<String>) -> Option<Seq<char>> {
    match o {
        Some(s) => Some(s@),
        None => None,
    }
}

impl View for WorktreeRecord {
    type V = WorktreeView;

    open spec fn view(&self) -> WorktreeView {
        WorktreeView {
            path: self.path@,
            head: opt_view(self.head),
            branch: opt_view(self.branch),
            locked: self.locked,
            prunable: self.prunable,
        }
    }
}

pub open spec fn wt_views(v: Seq<WorktreeRecord>) -> Seq<WorktreeView> {
    Seq::new(v.len(), |i: int| v[i]@)
}

/// What inspecting a source tree found: blocking issues, cleanup warnings and
/// the registered worktrees.
#[derive(Debug, Clone, PartialEq, Eq, Default)]
pub struct SourceDiagnostics {
    pub issues: Vec<String>,
    pub warnings: Vec<String>,
    pub worktrees: Vec<WorktreeRecord>,
}

impl SourceDiagnostics {
    /// Ready exactly when nothing blocks.
    pub fn ready(&self) -> (b: bool)
        ensures
            b == (self.issues@.len() == 0),
    {
        self.issues.len() == 0
    }
}

// ---------------------------------------------------------------------------
// Commit IDs and single values
// ---------------------------------------------------------------------------

pub open spec fn hex_char(c: char) -> bool {
    ('0' <= c && c <= '9') || ('a' <= c && c <= 'f') || ('A' <= c && c <= 'F')
}

/// A full SHA-1 or SHA-256 object name.
pub open spec fn full_commit_id(v: Seq<char>) -> bool {
    (v.len() == 40 || v.len() == 64) && forall|i: int| 0 <= i < v.len() ==> hex_char(#[trigger] v[i])
}

fn chars_full_commit_id(cs: &[char]) -> (b: bool)
    ensures
        b == full_commit_id(cs@),
{
    if !(cs.len() == 40 || cs.len() == 64) {
        return false;
    }
    let mut i: usize = 0;
    while i < cs.len()
        invariant
            i <= cs@.len(),
            forall|k: int| 0 <= k < i ==> hex_char(#[trigger] cs@[k]),
        decreases cs@.len() - i,
    {
        let c = cs[i];
        if !(('0' <= c && c <= '9') || ('a' <= c && c <= 'f') || ('A' <= c && c <= 'F')) {
            return false;
        }
        i = i + 1;
    }
    true
}

/// Whether `value` is a full 40- or 64-digit hexadecimal commit ID.
pub fn is_full_commit_id(value: &str) -> (b: bool)
    ensures
        b == full_commit_id(value@),
{
    let cs = chars_of(value);
    chars_full_commit_id(cs.as_slice())
}

/// The trimmed single value Git printed; empty output is refused.
pub fn trim_one_line(value: &str) -> (r: ToolResult<String>)
    ensures
        trim(value@).len() == 0 ==> fails_with(r, "Git returned an empty machine-readable value"@),
        trim(value@).len() > 0 ==> (r matches Ok(t) && t@ == trim(value@)),
{
    let cs = chars_of(value);
    let t = trim_chars(cs.as_slice());
    if t.len() == 0 {
        Err(ToolError::new("Git returned an empty machine-readable value".to_owned()))
    } else {
        Ok(string_of(t.as_slice()))
    }
}

// ---------------------------------------------------------------------------
// `git ls-remote --symref origin HEAD`
// ---------------------------------------------------------------------------

pub type RemoteHeadState = (Seq<Seq<char>>, Seq<(Seq<char>, Seq<char>)>);

/// One line of `ls-remote --symref` output: a `ref: <target> <name>` line
/// records a symbolic reference; a `<sha> HEAD` line records the advertised
/// commit under the latest symbolic reference.
pub open spec fn remote_step(st: RemoteHeadState, line: Seq<char>) -> RemoteHeadState {
    if trim(line).len() == 0 {
        st
    } else if "ref: "@.is_prefix_of(line) {
        let w = words(line.skip("ref: "@.len() as int));
        if w.len() >= 2 {
            (st.0.push(w[0]), st.1)
        } else {
            st
        }
    } else {
        let w = words(line);
        if w.len() >= 2 && w[1] == "HEAD"@ && full_commit_id(w[0]) {
            (
                st.0,
                st.1.push(
                    (
                        if st.0.len() > 0 {
                            st.0.last()
                        } else {
                            Seq::empty()
                        },
                        w[0],
                    ),
                ),
            )
        } else {
            st
        }
    }
}

pub open spec fn remote_fold(ls: Seq<Seq<char>>) -> RemoteHeadState
    decreases ls.len(),
{
    if ls.len() == 0 {
        (Seq::empty(), Seq::empty())
    } else {
        remote_step(remote_fold(ls.drop_last()), ls.last())
    }
}

pub open spec fn pair_views(v: Seq<(String, String)>) -> Seq<(Seq<char>, Seq<char>)> {
    Seq::new(v.len(), |i: int| (v[i].0@, v[i].1@))
}

/// The symbolic references and advertised HEAD commits in `ls-remote` output.
pub fn parse_remote_head(output: &str) -> (r: (Vec<String>, Vec<(String, String)>))
    ensures
        (strs_of(r.0@), pair_views(r.1@)) == remote_fold(lines_of(output@)),
{
    let cs = chars_of(output);
    let ls = lines_chars(cs.as_slice());
    let prefix = chars_of("ref: ");
    let head = chars_of("HEAD");
    let mut refs: Vec<String> = Vec::new();
    let mut heads: Vec<(String, String)> = Vec::new();
    let mut i: usize = 0;
    while i < ls.len()
        invariant
            i <= ls@.len(),
            seqs_of(ls@) == lines_of(output@),
            prefix@ == "ref: "@,
            head@ == "HEAD"@,
            (strs_of(refs@), pair_views(heads@)) == remote_fold(seqs_of(ls@).take(i as int)),
        decreases ls@.len() - i,
    {
        let line = &ls[i];
        let ghost lv = line@;
        assert(seqs_of(ls@)[i as int] == lv);
        assert(seqs_of(ls@).take(i + 1).drop_last() =~= seqs_of(ls@).take(i as int));
        let ghost before_refs = strs_of(refs@);
        let ghost before_heads = pair_views(heads@);
        let t = trim_chars(line.as_slice());
        if t.len() == 0 {
        } else if has_prefix(line.as_slice(), prefix.as_slice()) {
            let rest = copy_range(line.as_slice(), prefix.len(), line.len());
            assert(rest@ =~= lv.skip("ref: "@.len() as int));
            let w = words_chars(rest.as_slice());
            if w.len() >= 2 {
                refs.push(string_of(w[0].as_slice()));
                assert(strs_of(refs@) =~= before_refs.push(seqs_of(w@)[0]));
            }
        } else {
            let w = words_chars(line.as_slice());
            if w.len() >= 2 {
                assert(seqs_of(w@)[1] == w@[1]@);
                assert(seqs_of(w@)[0] == w@[0]@);
                if chars_eq(w[1].as_slice(), head.as_slice()) && chars_full_commit_id(w[0].as_slice()) {
                    let last = if refs.len() > 0 {
                        refs[refs.len() - 1].clone()
                    } else {
                        String::new()
                    };
                    heads.push((last, string_of(w[0].as_slice())));
                    assert(pair_views(heads@) =~= before_heads.push(
                        (
                            if before_refs.len() > 0 {
                                before_refs.last()
                            } else {
                                Seq::empty()
                            },
                            seqs_of(w@)[0],
                        ),
                    ));
                }
            }
        }
        i = i + 1;
    }
    assert(seqs_of(ls@).take(ls@.len() as int) =~= seqs_of(ls@));
    (refs, heads)
}

} // verus!

verus! {

// ---------------------------------------------------------------------------
// `git worktree list --porcelain -z`
// ---------------------------------------------------------------------------

pub type WorktreeState = (Seq<WorktreeView>, Option<WorktreeView>);

pub open spec fn new_worktree(path: Seq<char>) -> WorktreeView {
    WorktreeView { path, head: None, branch: None, locked: false, prunable: false }
}

/// The attribute line `f` applied to the worktree entry being read.
pub open spec fn worktree_attribute(c: WorktreeView, f: Seq<char>) -> WorktreeView {
    if "HEAD "@.is_prefix_of(f) {
        WorktreeView { head: Some(f.skip("HEAD "@.len() as int)), ..c }
    } else if "branch "@.is_prefix_of(f) {
        WorktreeView { branch: Some(f.skip("branch "@.len() as int)), ..c }
    } else if f == "locked"@ || "locked "@.is_prefix_of(f) {
        WorktreeView { locked: true, ..c }
    } else if f == "prunable"@ || "prunable "@.is_prefix_of(f) {
        WorktreeView { prunable: true, ..c }
    } else {
        c
    }
}

/// One NUL-separated field: `worktree <path>` starts a new entry; other
/// fields describe the current entry; fields before the first entry and empty
/// fields are ignored.
pub open spec fn worktree_step(st: WorktreeState, f: Seq<char>) -> WorktreeState {
    if f.len() == 0 {
        st
    } else if "worktree "@.is_prefix_of(f) {
        (
            match st.1 {
                Some(c) => st.0.push(c),
                None => st.0,
            },
            Some(new_worktree(f.skip("worktree "@.len() as int))),
        )
    } else {
        match st.1 {
            None => st,
            Some(c) => (st.0, Some(worktree_attribute(c, f))),
        }
    }
}

pub open spec fn worktree_fold(fs: Seq<Seq<char>>) -> WorktreeState
    decreases fs.len(),
{
    if fs.len() == 0 {
        (Seq::empty(), None)
    } else {
        worktree_step(worktree_fold(fs.drop_last()), fs.last())
    }
}

/// The worktree entries of porcelain output.
pub open spec fn worktrees_of(output: Seq<char>) -> Seq<WorktreeView> {
    let st = worktree_fold(split_on(output, '\0'));
    match st.1 {
        Some(c) => st.0.push(c),
        None => st.0,
    }
}

fn chars_is(cs: &[char], lit: &str) -> (b: bool)
    ensures
        b == (cs@ == lit@),
{
    let l = chars_of(lit);
    chars_eq(cs, l.as_slice())
}

fn chars_starts(cs: &[char], lit: &str) -> (b: bool)
    ensures
        b == lit@.is_prefix_of(cs@),
{
    let l = chars_of(lit);
    has_prefix(cs, l.as_slice())
}

/// The remainder of `cs` after the literal prefix `lit`.
fn after_prefix(cs: &[char], lit: &str) -> (s: String)
    requires
        lit@.is_prefix_of(cs@),
    ensures
        s@ == cs@.skip(lit@.len() as int),
{
    let l = chars_of(lit);
    let rest = copy_range(cs, l.len(), cs.len());
    assert(rest@ =~= cs@.skip(lit@.len() as int));
    string_of(rest.as_slice())
}

fn apply_attribute(c: &mut WorktreeRecord, f: &[char])
    ensures
        final(c)@ == worktree_attribute(old(c)@, f@),
{
    if chars_starts(f, "HEAD ") {
        c.head = Some(after_prefix(f, "HEAD "));
    } else if chars_starts(f, "branch ") {
        c.branch = Some(after_prefix(f, "branch "));
    } else if chars_is(f, "locked") || chars_starts(f, "locked ") {
        c.locked = true;
    } else if chars_is(f, "prunable") || chars_starts(f, "prunable ") {
        c.prunable = true;
    }
}

/// A field that describes the current entry never clears its lock.
proof fn lemma_lock_kept(st: WorktreeState, g: Seq<char>)
    requires
        st.1 matches Some(c) && c.locked,
        !"worktree "@.is_prefix_of(g),
    ensures
        worktree_step(st, g).1 matches Some(c) && c.locked,
{
}

/// A bare `locked` field (a lock without a reason) marks the entry being
/// read locked, as `locked <reason>` does, and the fields that follow
/// until the next entry never clear it.
pub proof fn law_bare_lock_marks_entry(fs: Seq<Seq<char>>, more: Seq<Seq<char>>)
    requires
        worktree_fold(fs).1 is Some,
        forall|k: int| 0 <= k < more.len() ==> !"worktree "@.is_prefix_of(#[trigger] more[k]),
    ensures
        worktree_fold(fs + seq!["locked"@] + more).1 matches Some(c) && c.locked,
    decreases more.len(),
{
    if more.len() == 0 {
        let all = fs + seq!["locked"@] + more;
        assert(all.drop_last() =~= fs);
        assert(all.last() == "locked"@);
        reveal_strlit("locked");
        reveal_strlit("HEAD ");
        reveal_strlit("worktree ");
        reveal_strlit("branch ");
        assert("locked"@.len() == 6);
        assert(!"worktree "@.is_prefix_of("locked"@));
        assert(!"branch "@.is_prefix_of("locked"@));
        assert("locked"@[0] == 'l');
        assert(!"HEAD "@.is_prefix_of("locked"@)) by {
            if "HEAD "@.is_prefix_of("locked"@) {
                assert("HEAD "@[0] == "locked"@[0]);
            }
        }
    } else {
        let shorter = more.drop_last();
        law_bare_lock_marks_entry(fs, shorter);
        let all = fs + seq!["locked"@] + more;
        assert(all.drop_last() =~= fs + seq!["locked"@] + shorter);
        assert(all.last() == more.last());
        lemma_lock_kept(worktree_fold(fs + seq!["locked"@] + shorter), more.last());
    }
}

/// In the worktree listing, a worktree whose fields hold a bare `locked`
/// is listed locked.
pub proof fn law_bare_lock_listed(output: Seq<char>, fs: Seq<Seq<char>>, more: Seq<Seq<char>>)
    requires
        split_on(output, '\0') == fs + seq!["locked"@] + more,
        worktree_fold(fs).1 is Some,
        forall|k: int| 0 <= k < more.len() ==> !"worktree "@.is_prefix_of(#[trigger] more[k]),
    ensures
        worktrees_of(output).len() > 0 && worktrees_of(output).last().locked,
{
    law_bare_lock_marks_entry(fs, more);
}

pub fn parse_worktrees(output: &str) -> (records: Vec<WorktreeRecord>)
    ensures
        wt_views(records@) == worktrees_of(output@),
{
    let cs = chars_of(output);
    let fields = split_chars(cs.as_slice(), '\0');
    let mut records: Vec<WorktreeRecord> = Vec::new();
    let mut current: Option<WorktreeRecord> = None;
    let mut i: usize = 0;
    while i < fields.len()
        invariant
            i <= fields@.len(),
            seqs_of(fields@) == split_on(output@, '\0'),
            worktree_fold(seqs_of(fields@).take(i as int)) == (
                wt_views(records@),
                match current {
                    Some(c) => Some(c@),
                    None => None::<WorktreeView>,
                },
            ),
        decreases fields@.len() - i,
    {
        let f = &fields[i];
        let ghost fv = f@;
        assert(seqs_of(fields@)[i as int] == fv);
        assert(seqs_of(fields@).take(i + 1).drop_last() =~= seqs_of(fields@).take(i as int));
        let ghost before = wt_views(records@);
        if f.len() == 0 {
        } else if chars_starts(f.as_slice(), "worktree ") {
            let path = after_prefix(f.as_slice(), "worktree ");
            match current.take() {
                Some(c) => {
                    let ghost cv = c@;
                    records.push(c);
                    assert(wt_views(records@) =~= before.push(cv));
                },
                None => {},
            }
            current = Some(
                WorktreeRecord { path, head: None, branch: None, locked: false, prunable: false },
            );
        } else {
            match current.as_mut() {
                Some(c) => {
                    apply_attribute(c, f.as_slice());
                },
                None => {},
            }
        }
        i = i + 1;
    }
    assert(seqs_of(fields@).take(fields@.len() as int) =~= seqs_of(fields@));
    match current {
        Some(c) => {
            let ghost before = wt_views(records@);
            let ghost cv = c@;
            records.push(c);
            assert(wt_views(records@) =~= before.push(cv));
        },
        None => {},
    }
    records
}

} // verus!

verus! {

// ---------------------------------------------------------------------------
// `git ls-files -v -z`
// ---------------------------------------------------------------------------

/// `s` without leading spaces and tabs.
pub open spec fn trim_space_tab(s: Seq<char>) -> Seq<char>
    decreases s.len(),
{
    if s.len() > 0 && (s[0] == ' ' || s[0] == '\t') {
        trim_space_tab(s.drop_first())
    } else {
        s
    }
}

/// A flagged index entry: its first character and the path after spaces.
pub open spec fn prefixed_entry(e: Seq<char>) -> Option<(char, Seq<char>)> {
    if e.len() == 0 {
        None
    } else {
        let p = trim_space_tab(e.drop_first());
        if p.len() == 0 {
            None
        } else {
            Some((e[0], p))
        }
    }
}

pub open spec fn prefixed_fold(es: Seq<Seq<char>>) -> Seq<(char, Seq<char>)>
    decreases es.len(),
{
    if es.len() == 0 {
        Seq::empty()
    } else {
        let prev = prefixed_fold(es.drop_last());
        match prefixed_entry(es.last()) {
            Some(x) => prev.push(x),
            None => prev,
        }
    }
}

pub open spec fn flag_views(v: Seq<(char, String)>) -> Seq<(char, Seq<char>)> {
    Seq::new(v.len(), |i: int| (v[i].0, v[i].1@))
}

/// The flag and path of each NUL-separated `ls-files -v` entry.
pub fn parse_prefixed_paths(output: &str) -> (r: Vec<(char, String)>)
    ensures
        flag_views(r@) == prefixed_fold(split_on(output@, '\0')),
{
    let cs = chars_of(output);
    let es = split_chars(cs.as_slice(), '\0');
    let mut out: Vec<(char, String)> = Vec::new();
    let mut i: usize = 0;
    while i < es.len()
        invariant
            i <= es@.len(),
            seqs_of(es@) == split_on(output@, '\0'),
            flag_views(out@) == prefixed_fold(seqs_of(es@).take(i as int)),
        decreases es@.len() - i,
    {
        let e = &es[i];
        let ghost ev = e@;
        assert(seqs_of(es@)[i as int] == ev);
        assert(seqs_of(es@).take(i + 1).drop_last() =~= seqs_of(es@).take(i as int));
        if e.len() > 0 {
            let mut j: usize = 1;
            assert(ev.subrange(1, ev.len() as int) =~= ev.drop_first());
            while j < e.len() && (e[j] == ' ' || e[j] == '\t')
                invariant
                    1 <= j <= ev.len(),
                    e@ == ev,
                    trim_space_tab(ev.drop_first()) == trim_space_tab(ev.subrange(j as int, ev.len() as int)),
                decreases ev.len() - j,
            {
                assert(ev.subrange(j as int, ev.len() as int).drop_first() =~= ev.subrange(j + 1, ev.len() as int));
                j = j + 1;
            }
            if j < e.len() {
                let path = copy_range(e.as_slice(), j, e.len());
                let ghost before = flag_views(out@);
                out.push((e[0], string_of(path.as_slice())));
                assert(flag_views(out@) =~= before.push((ev[0], path@)));
            }
        }
        i = i + 1;
    }
    assert(seqs_of(es@).take(es@.len() as int) =~= seqs_of(es@));
    out
}

// ---------------------------------------------------------------------------
// `git ls-files --stage -z`
// ---------------------------------------------------------------------------

/// An index entry: its path and merge stage.
#[derive(Debug, Clone, PartialEq, Eq)]
pub struct TrackedPath {
    pub path: String,
    pub stage: u8,
}

pub open spec fn is_digit(c: char) -> bool {
    '0' <= c && c <= '9'
}

/// The value of a run of decimal digits.
pub open spec fn digits_value(d: Seq<char>) -> int
    decreases d.len(),
{
    if d.len() == 0 {
        0
    } else {
        digits_value(d.drop_last()) * 10 + (d.last() as int - '0' as int)
    }
}

/// `u8::from_str`: an optional `+`, then at least one digit, at most 255.
pub open spec fn unsigned_digits(s: Seq<char>) -> Seq<char> {
    if s.len() > 0 && s[0] == '+' {
        s.drop_first()
    } else {
        s
    }
}

pub open spec fn all_digits(d: Seq<char>) -> bool {
    forall|i: int| 0 <= i < d.len() ==> is_digit(#[trigger] d[i])
}

pub open spec fn parse_u8_spec(s: Seq<char>) -> Option<u8> {
    let d = unsigned_digits(s);
    if d.len() > 0 && all_digits(d) && digits_value(d) <= 255 {
        Some(digits_value(d) as u8)
    } else {
        None
    }
}

proof fn lemma_digits_value_nonneg(d: Seq<char>)
    requires
        forall|i: int| 0 <= i < d.len() ==> is_digit(#[trigger] d[i]),
    ensures
        digits_value(d) >= 0,
    decreases d.len(),
{
    if d.len() > 0 {
        lemma_digits_value_nonneg(d.drop_last());
    }
}

fn parse_u8(s: &[char]) -> (r: Option<u8>)
    ensures
        r == parse_u8_spec(s@),
{
    let start: usize = if s.len() > 0 && s[0] == '+' {
        1
    } else {
        0
    };
    let ghost d = unsigned_digits(s@);
    assert(d =~= s@.subrange(start as int, s@.len() as int));
    if start >= s.len() {
        return None;
    }
    let mut value: u32 = 0;
    let mut over = false;
    let mut i = start;
    while i < s.len()
        invariant
            start <= i <= s@.len(),
            d == s@.subrange(start as int, s@.len() as int),
            d == unsigned_digits(s@),
            forall|k: int| start <= k < i ==> is_digit(#[trigger] s@[k]),
            !over ==> value == digits_value(s@.subrange(start as int, i as int)) && value <= 255,
            over ==> digits_value(s@.subrange(start as int, i as int)) > 255,
        decreases s@.len() - i,
    {
        let c = s[i];
        if !('0' <= c && c <= '9') {
            assert(!is_digit(d[i - start]));
            assert(!all_digits(d));
            return None;
        }
        let ghost prev = s@.subrange(start as int, i as int);
        let ghost next = s@.subrange(start as int, i + 1);
        assert(next.drop_last() =~= prev);
        assert(next.last() == c);
        proof {
            assert forall|k: int| 0 <= k < prev.len() implies is_digit(#[trigger] prev[k]) by {
                assert(prev[k] == s@[start + k]);
            }
            lemma_digits_value_nonneg(prev);
        }
        if !over {
            let v = value * 10 + (c as u32 - '0' as u32);
            if v > 255 {
                over = true;
            } else {
                value = v;
            }
        }
        i = i + 1;
    }
    assert(s@.subrange(start as int, s@.len() as int) == d);
    assert forall|k: int| 0 <= k < d.len() implies is_digit(#[trigger] d[k]) by {
        assert(d[k] == s@[start + k]);
    }
    if over {
        None
    } else {
        Some(value as u8)
    }
}

/// The path and stage of one `ls-files --stage` entry
/// (`<mode> <object> <stage>\t<path>`).
pub open spec fn tracked_entry(e: Seq<char>) -> Option<(Seq<char>, u8)> {
    let t = index_of(e, '\t');
    if t < 0 {
        None
    } else {
        let w = words(e.take(t));
        if w.len() != 3 {
            None
        } else {
            match parse_u8_spec(w[2]) {
                Some(stage) => Some((e.skip(t + 1), stage)),
                None => None,
            }
        }
    }
}

pub open spec fn tracked_fold(es: Seq<Seq<char>>) -> Seq<(Seq<char>, u8)>
    decreases es.len(),
{
    if es.len() == 0 {
        Seq::empty()
    } else {
        let prev = tracked_fold(es.drop_last());
        match tracked_entry(es.last()) {
            Some(x) => prev.push(x),
            None => prev,
        }
    }
}

pub open spec fn tracked_views(v: Seq<TrackedPath>) -> Seq<(Seq<char>, u8)> {
    Seq::new(v.len(), |i: int| (v[i].path@, v[i].stage))
}

/// The well-formed entries of NUL-separated `ls-files --stage` output.
pub fn parse_tracked_paths(output: &str) -> (r: Vec<TrackedPath>)
    ensures
        tracked_views(r@) == tracked_fold(split_on(output@, '\0')),
{
    let cs = chars_of(output);
    let es = split_chars(cs.as_slice(), '\0');
    let mut out: Vec<TrackedPath> = Vec::new();
    let mut i: usize = 0;
    while i < es.len()
        invariant
            i <= es@.len(),
            seqs_of(es@) == split_on(output@, '\0'),
            tracked_views(out@) == tracked_fold(seqs_of(es@).take(i as int)),
        decreases es@.len() - i,
    {
        let e = &es[i];
        let ghost ev = e@;
        assert(seqs_of(es@)[i as int] == ev);
        assert(seqs_of(es@).take(i + 1).drop_last() =~= seqs_of(es@).take(i as int));
        match find_char(e.as_slice(), '\t') {
            None => {},
            Some(t) => {
                assert(t < e.len());
                let meta = copy_range(e.as_slice(), 0, t);
                assert(meta@ =~= ev.take(t as int));
                let w = words_chars(meta.as_slice());
                if w.len() == 3 {
                    assert(seqs_of(w@)[2] == w@[2]@);
                    match parse_u8(w[2].as_slice()) {
                        Some(stage) => {
                            let path = copy_range(e.as_slice(), t + 1, e.len());
                            assert(path@ =~= ev.skip(t + 1));
                            let ghost before = tracked_views(out@);
                            out.push(TrackedPath { path: string_of(path.as_slice()), stage });
                            assert(tracked_views(out@) =~= before.push((path@, stage)));
                        },
                        None => {},
                    }
                }
            },
        }
        i = i + 1;
    }
    assert(seqs_of(es@).take(es@.len() as int) =~= seqs_of(es@));
    out
}

} // verus!

verus! {

// ---------------------------------------------------------------------------
// `git submodule status --recursive`
// ---------------------------------------------------------------------------

/// `line.get(1..)`: the text after a one-byte first character, otherwise
/// nothing.
pub open spec fn after_marker(line: Seq<char>) -> Seq<char> {
    if (line[0] as u32) < 128 {
        line.drop_first()
    } else {
        Seq::empty()
    }
}

/// The submodule path of a status line, or `unknown-submodule`.
pub open spec fn submodule_path(line: Seq<char>) -> Seq<char> {
    let r = trim_start(after_marker(line));
    let k = index_of_ws(r);
    if k < 0 {
        "unknown-submodule"@
    } else {
        let p = trim(r.skip(k + 1));
        if p.len() == 0 {
            "unknown-submodule"@
        } else {
            p
        }
    }
}

pub open spec fn submodule_reason(marker: char) -> Seq<char> {
    if marker == '-' {
        "uninitialized"@
    } else if marker == '+' {
        "checked-out commit differs from the recorded gitlink"@
    } else if marker == 'U' {
        "conflicted"@
    } else {
        "reported by Git"@
    }
}

pub open spec fn submodule_issue(line: Seq<char>) -> Seq<char> {
    "submodule "@ + submodule_path(line) + ": "@ + submodule_reason(line[0])
}

/// One issue per status line whose marker is not a space.
pub open spec fn submodule_fold(ls: Seq<Seq<char>>) -> Seq<Seq<char>>
    decreases ls.len(),
{
    if ls.len() == 0 {
        Seq::empty()
    } else {
        let prev = submodule_fold(ls.drop_last());
        let l = ls.last();
        if l.len() > 0 && l[0] != ' ' {
            prev.push(submodule_issue(l))
        } else {
            prev
        }
    }
}

fn submodule_issue_of(line: &[char]) -> (s: String)
    requires
        line@.len() > 0,
    ensures
        s@ == submodule_issue(line@),
{
    let rest = if (line[0] as u32) < 128 {
        copy_range(line, 1, line.len())
    } else {
        Vec::new()
    };
    assert(rest@ =~= after_marker(line@));
    let r = trim_start_chars(rest.as_slice());
    let path = match find_whitespace(r.as_slice()) {
        None => "unknown-submodule".to_owned(),
        Some(k) => {
            assert(k < r.len());
            let after = copy_range(r.as_slice(), k + 1, r.len());
            assert(after@ =~= r@.skip(k + 1));
            let p = trim_chars(after.as_slice());
            if p.len() == 0 {
                "unknown-submodule".to_owned()
            } else {
                string_of(p.as_slice())
            }
        },
    };
    let marker = line[0];
    let reason = if marker == '-' {
        "uninitialized"
    } else if marker == '+' {
        "checked-out commit differs from the recorded gitlink"
    } else if marker == 'U' {
        "conflicted"
    } else {
        "reported by Git"
    };
    concat4("submodule ", path.as_str(), ": ", reason)
}

/// One message per problematic submodule in status output.
pub fn parse_submodule_issues(output: &str) -> (r: Vec<String>)
    ensures
        strs_of(r@) == submodule_fold(lines_of(output@)),
{
    let cs = chars_of(output);
    let ls = lines_chars(cs.as_slice());
    let mut out: Vec<String> = Vec::new();
    let mut i: usize = 0;
    while i < ls.len()
        invariant
            i <= ls@.len(),
            seqs_of(ls@) == lines_of(output@),
            strs_of(out@) == submodule_fold(seqs_of(ls@).take(i as int)),
        decreases ls@.len() - i,
    {
        let l = &ls[i];
        let ghost lv = l@;
        assert(seqs_of(ls@)[i as int] == lv);
        assert(seqs_of(ls@).take(i + 1).drop_last() =~= seqs_of(ls@).take(i as int));
        if l.len() > 0 && l[0] != ' ' {
            let ghost before = strs_of(out@);
            out.push(submodule_issue_of(l.as_slice()));
            assert(strs_of(out@) =~= before.push(submodule_issue(lv)));
        }
        i = i + 1;
    }
    assert(seqs_of(ls@).take(ls@.len() as int) =~= seqs_of(ls@));
    out
}

// ---------------------------------------------------------------------------
// `git check-attr -z filter -- <paths>`
// ---------------------------------------------------------------------------

/// The NUL-separated fields of attribute output, without a final empty one.
pub open spec fn attr_fields(output: Seq<char>) -> Seq<Seq<char>> {
    let f = split_on(output, '\0');
    if f.len() > 0 && f.last().len() == 0 {
        f.drop_last()
    } else {
        f
    }
}

/// The paths of the first `n` `<path> filter <value>` triples whose filter
/// is `lfs`.
pub open spec fn lfs_pick(f: Seq<Seq<char>>, n: int) -> Seq<Seq<char>>
    decreases n,
{
    if n <= 0 {
        Seq::empty()
    } else {
        let prev = lfs_pick(f, n - 1);
        let i = 3 * (n - 1);
        if f[i + 1] == "filter"@ && f[i + 2] == "lfs"@ {
            prev.push(f[i])
        } else {
            prev
        }
    }
}

/// The LFS-filtered paths of attribute output; `None` when the fields do not
/// form whole triples.
pub open spec fn lfs_attribute_paths(output: Seq<char>) -> Option<Seq<Seq<char>>> {
    let f = attr_fields(output);
    if f.len() % 3 != 0 {
        None
    } else {
        Some(lfs_pick(f, (f.len() / 3) as int))
    }
}

/// Whether the `t`-th `<path> filter <value>` triple of `f` names the
/// `lfs` filter.
pub open spec fn lfs_triple(f: Seq<Seq<char>>, t: int) -> bool {
    f[3 * t + 1] == "filter"@ && f[3 * t + 2] == "lfs"@
}

/// Whether `p` is the path of one of the first `n` triples of `f` whose
/// filter is `lfs`.
pub open spec fn lfs_tracked(f: Seq<Seq<char>>, n: int, p: Seq<char>) -> bool {
    exists|t: int| 0 <= t < n && #[trigger] lfs_triple(f, t) && f[3 * t] == p
}

/// A path is listed as LFS-tracked exactly when one of the triples names it
/// with the filter `lfs`: a triple whose value is anything else (such as
/// `unspecified`) contributes nothing, and each `lfs` triple contributes its
/// path, in order.
pub proof fn law_lfs_paths_are_the_lfs_triples(f: Seq<Seq<char>>, n: int)
    requires
        0 <= n,
        3 * n <= f.len(),
    ensures
        forall|m: int| 0 <= m < lfs_pick(f, n).len() ==> #[trigger] lfs_tracked(f, n, lfs_pick(f, n)[m]),
        forall|t: int| 0 <= t < n && #[trigger] lfs_triple(f, t) ==> lfs_pick(f, n).contains(f[3 * t]),
        lfs_pick(f, n).len() <= n,
    decreases n,
{
    if n > 0 {
        law_lfs_paths_are_the_lfs_triples(f, n - 1);
        assert forall|m: int| 0 <= m < lfs_pick(f, n).len() implies #[trigger] lfs_tracked(f, n, lfs_pick(f, n)[m]) by {
            if m < lfs_pick(f, n - 1).len() {
                assert(lfs_pick(f, n)[m] == lfs_pick(f, n - 1)[m]);
                assert(lfs_tracked(f, n - 1, lfs_pick(f, n - 1)[m]));
                let t = choose|t: int| 0 <= t < n - 1 && #[trigger] lfs_triple(f, t) && f[3 * t] == lfs_pick(f, n - 1)[m];
                assert(lfs_triple(f, t));
            } else {
                assert(lfs_triple(f, n - 1));
                assert(lfs_pick(f, n)[m] == f[3 * (n - 1)]);
            }
        }
        assert forall|t: int| 0 <= t < n && #[trigger] lfs_triple(f, t) implies lfs_pick(f, n).contains(f[3 * t]) by {
            if t < n - 1 {
                let m = choose|m: int|
                    #![trigger lfs_pick(f, n - 1)[m]]
                    0 <= m < lfs_pick(f, n - 1).len() && lfs_pick(f, n - 1)[m] == f[3 * t];
                assert(lfs_pick(f, n)[m] == lfs_pick(f, n - 1)[m]);
            } else {
                assert(lfs_pick(f, n)[lfs_pick(f, n - 1).len() as int] == f[3 * t]);
            }
        }
    }
}

/// What parsing `git check-attr filter -z` output gives: nothing unless the
/// fields form whole triples; otherwise exactly the paths of the triples
/// whose filter is `lfs`.
pub proof fn law_lfs_attribute_output(output: Seq<char>)
    ensures
        lfs_attribute_paths(output) is Some <==> attr_fields(output).len() % 3 == 0,
        lfs_attribute_paths(output) matches Some(ps) ==> {
            let f = attr_fields(output);
            let n = f.len() / 3;
            &&& forall|m: int| 0 <= m < ps.len() ==> #[trigger] lfs_tracked(f, n as int, ps[m])
            &&& forall|t: int| 0 <= t < n && #[trigger] lfs_triple(f, t) ==> ps.contains(f[3 * t])
        },
{
    let f = attr_fields(output);
    if f.len() % 3 == 0 {
        law_lfs_paths_are_the_lfs_triples(f, (f.len() / 3) as int);
    }
}

pub fn parse_lfs_attributes(output: &str) -> (r: Option<Vec<String>>)
    ensures
        match r {
            Some(v) => lfs_attribute_paths(output@) == Some(strs_of(v@)),
            None => lfs_attribute_paths(output@) is None,
        },
{
    let cs = chars_of(output);
    let mut f = split_chars(cs.as_slice(), '\0');
    proof {
        crate::text::lemma_split_on_nonempty(output@, '\0');
    }
    if f.len() > 0 && f[f.len() - 1].len() == 0 {
        let ghost before = seqs_of(f@);
        f.pop();
        assert(seqs_of(f@) =~= before.drop_last());
    }
    assert(seqs_of(f@) == attr_fields(output@));
    if f.len() % 3 != 0 {
        return None;
    }
    let n = f.len() / 3;
    let mut out: Vec<String> = Vec::new();
    let mut k: usize = 0;
    while k < n
        invariant
            n * 3 == f@.len(),
            f@.len() <= usize::MAX,
            seqs_of(f@) == attr_fields(output@),
            k <= n,
            strs_of(out@) == lfs_pick(seqs_of(f@), k as int),
        decreases n - k,
    {
        let i = k + k + k;
        assert(seqs_of(f@)[i + 1] == f@[i + 1]@);
        assert(seqs_of(f@)[i + 2] == f@[i + 2]@);
        assert(seqs_of(f@)[i as int] == f@[i as int]@);
        if chars_is(f[i + 1].as_slice(), "filter") && chars_is(f[i + 2].as_slice(), "lfs") {
            let ghost before = strs_of(out@);
            out.push(string_of(f[i].as_slice()));
            assert(strs_of(out@) =~= before.push(f@[i as int]@));
        }
        k = k + 1;
    }
    Some(out)
}

} // verus!

verus! {

// ---------------------------------------------------------------------------
// Requests and their outcomes
// ---------------------------------------------------------------------------

/// A `git` request run in `cwd`.
pub fn git_request(cwd: &str, args: Vec<String>) -> (r: CommandRequest)
    ensures
        r.program@ == "git"@,
        r.args@ == args@,
        r.cwd matches Some(c) && c@ == cwd@,
        r.env@.len() == 0,
        !r.sensitive,
        !r.mutating,
{
    CommandRequest::new("git", args).cwd(cwd)
}

/// What a required Git command's output means: its stdout on success,
/// otherwise a failure naming the command (never its output).
pub fn git_output(request: &CommandRequest, output: CommandOutput) -> (r: ToolResult<String>)
    ensures
        output.status == 0 ==> (r matches Ok(s) && s == output.stdout),
        output.status != 0 ==> fails_with(
            r,
            "Git command `"@ + request.shown() + "` failed; inspect Git's diagnostic and retry manually"@,
        ),
{
    if output.success() {
        Ok(output.stdout)
    } else {
        let shown = request.display();
        Err(ToolError::new(
            concat3("Git command `", shown.as_str(), "` failed; inspect Git's diagnostic and retry manually"),
        ))
    }
}

fn run_git<R: CommandRunner>(runner: &mut Recorder<R>, cwd: &str, args: Vec<String>) -> (r: ToolResult<String>)
    ensures
        final(runner).sent().len() == old(runner).sent().len() + 1,
        only_reads(old(runner).sent(), final(runner).sent()),
        final(runner).sent().last().0.program@ == "git"@,
        final(runner).sent().last().0.args@ == args@,
        final(runner).sent().last().0.cwd matches Some(c) && c@ == cwd@,
        final(runner).sent().last().1 matches Err(e) ==> r == Err::<String, ToolError>(e),
        final(runner).sent().last().1 matches Ok(o) ==> (o.status == 0 <==> r is Ok),
        final(runner).sent().last().1 matches Ok(o) ==> (r matches Ok(s) ==> s == o.stdout),
{
    let request = git_request(cwd, args);
    let output = runner.run(&request)?;
    git_output(&request, output)
}

fn run_git_allow_failure<R: CommandRunner>(runner: &mut Recorder<R>, cwd: &str, args: Vec<String>) -> (r: ToolResult<CommandOutput>)
    ensures
        final(runner).sent().len() == old(runner).sent().len() + 1,
        only_reads(old(runner).sent(), final(runner).sent()),
        final(runner).sent().last().0.program@ == "git"@,
        final(runner).sent().last().0.args@ == args@,
        final(runner).sent().last().0.cwd matches Some(c) && c@ == cwd@,
        r == final(runner).sent().last().1,
{
    let request = git_request(cwd, args);
    runner.run(&request)
}


/// The current HEAD commit from `rev-parse HEAD` output.
pub fn head_from_output(stdout: &str) -> (r: ToolResult<String>)
    ensures
        trim(stdout@).len() == 0 ==> fails_with(r, "Git returned an empty machine-readable value"@),
        trim(stdout@).len() > 0 && !full_commit_id(trim(stdout@)) ==> fails_with(
            r,
            "Git returned an invalid HEAD commit"@,
        ),
        trim(stdout@).len() > 0 && full_commit_id(trim(stdout@)) ==> (r matches Ok(s) && s@ == trim(
            stdout@,
        )),
{
    let sha = trim_one_line(stdout)?;
    if !is_full_commit_id(sha.as_str()) {
        return Err(ToolError::new("Git returned an invalid HEAD commit".to_owned()));
    }
    Ok(sha)
}

/// Why a requested base revision is refused before Git is asked.
pub open spec fn base_reference_refused(reference: Seq<char>) -> bool {
    trim(reference).len() == 0 || (reference.len() > 0 && reference[0] == '-')
}

/// The commit a `rev-parse --verify` answer names for `reference`.
pub fn local_commit_from_output(reference: &str, output: &CommandOutput) -> (r: ToolResult<String>)
    ensures
        output.status != 0 ==> fails_with(
            r,
            "base revision `"@ + reference@
                + "` is not one locally resolvable commit; run `git fetch origin <branch>` manually and retry"@,
        ),
        output.status == 0 && trim(output.stdout@).len() == 0 ==> fails_with(
            r,
            "Git returned an empty machine-readable value"@,
        ),
        output.status == 0 && trim(output.stdout@).len() > 0 && !full_commit_id(trim(output.stdout@))
            ==> fails_with(
            r,
            "base revision `"@ + reference@ + "` did not resolve to a full local commit"@,
        ),
        output.status == 0 && trim(output.stdout@).len() > 0 && full_commit_id(trim(output.stdout@))
            ==> (r matches Ok(s) && s@ == trim(output.stdout@)),
{
    if !output.success() {
        return Err(ToolError::new(
            concat3(
                "base revision `",
                reference,
                "` is not one locally resolvable commit; run `git fetch origin <branch>` manually and retry",
            ),
        ));
    }
    let sha = trim_one_line(output.stdout.as_str())?;
    if !is_full_commit_id(sha.as_str()) {
        return Err(ToolError::new(
            concat3("base revision `", reference, "` did not resolve to a full local commit"),
        ));
    }
    Ok(sha)
}

/// The single advertised default branch and commit of `ls-remote --symref`
/// output: exactly one symbolic reference and one advertised HEAD under it.
pub open spec fn remote_default_spec(stdout: Seq<char>) -> Option<(Seq<char>, Seq<char>)> {
    let (refs, heads) = remote_fold(lines_of(stdout));
    if refs.len() != 1 || heads.len() != 1 || refs[0] != heads[0].0 {
        None
    } else {
        Some((refs[0], heads[0].1))
    }
}

pub fn remote_default_from_output(output: &CommandOutput) -> (r: ToolResult<BaseRevision>)
    ensures
        output.status != 0 ==> fails_with(
            r,
            "could not query origin's advertised HEAD; run `git fetch origin <default-branch>` manually and retry"@,
        ),
        output.status == 0 ==> match remote_default_spec(output.stdout@) {
            None => fails_with(
                r,
                "origin's advertised HEAD is missing or ambiguous; inspect `git ls-remote --symref origin HEAD` manually"@,
            ),
            Some((reference, sha)) => r matches Ok(b) && b.reference@ == reference && b.sha@ == sha,
        },
{
    if !output.success() {
        return Err(ToolError::new(
            "could not query origin's advertised HEAD; run `git fetch origin <default-branch>` manually and retry".to_owned(),
        ));
    }
    let (references, heads) = parse_remote_head(output.stdout.as_str());
    proof {
        if references@.len() > 0 {
            assert(strs_of(references@)[0] == references@[0]@);
        }
        if heads@.len() > 0 {
            assert(pair_views(heads@)[0] == (heads@[0].0@, heads@[0].1@));
        }
    }
    if references.len() != 1 || heads.len() != 1 || !str_eq(references[0].as_str(), heads[0].0.as_str()) {
        return Err(ToolError::new(
            "origin's advertised HEAD is missing or ambiguous; inspect `git ls-remote --symref origin HEAD` manually".to_owned(),
        ));
    }
    Ok(BaseRevision { reference: references[0].clone(), sha: heads[0].1.clone() })
}

/// Whether a branch exists, from the status of `show-ref --verify --quiet`.
pub fn branch_exists_from_status(status: i32) -> (r: ToolResult<bool>)
    ensures
        status == 0 ==> r == Ok::<bool, ToolError>(true),
        status == 1 ==> r == Ok::<bool, ToolError>(false),
        status != 0 && status != 1 ==> fails_with(
            r,
            "Git could not inspect whether the requested branch exists; refusing workspace creation"@,
        ),
{
    if status == 0 {
        Ok(true)
    } else if status == 1 {
        Ok(false)
    } else {
        Err(ToolError::new(
            "Git could not inspect whether the requested branch exists; refusing workspace creation".to_owned(),
        ))
    }
}

/// The first registered worktree that already uses `path` or the branch.
pub open spec fn worktree_conflict(ws: Seq<WorktreeView>, path: Seq<char>, branch: Seq<char>) -> Option<Seq<char>>
    decreases ws.len(),
{
    if ws.len() == 0 {
        None
    } else {
        match worktree_conflict(ws.drop_last(), path, branch) {
            Some(m) => Some(m),
            None => {
                let w = ws.last();
                if path_eq(w.path, path) {
                    Some("workspace path "@ + path + " is already registered by Git"@)
                } else if w.branch == Some("refs/heads/"@ + branch) {
                    Some("branch `"@ + branch + "` is already used by a Git worktree at "@ + w.path)
                } else {
                    None
                }
            },
        }
    }
}

proof fn lemma_worktree_conflict_persists(ws: Seq<WorktreeView>, path: Seq<char>, branch: Seq<char>, j: int, k: int)
    requires
        0 <= j <= k <= ws.len(),
        worktree_conflict(ws.take(j), path, branch) is Some,
    ensures
        worktree_conflict(ws.take(k), path, branch) == worktree_conflict(ws.take(j), path, branch),
    decreases k - j,
{
    if k > j {
        lemma_worktree_conflict_persists(ws, path, branch, j, k - 1);
        assert(ws.take(k).drop_last() =~= ws.take(k - 1));
    }
}

/// Refuses a workspace path or branch that a registered worktree already uses.
pub fn check_worktree_conflicts(worktrees: &Vec<WorktreeRecord>, path: &str, branch: &str) -> (r: ToolResult<()>)
    ensures
        match worktree_conflict(wt_views(worktrees@), path@, branch@) {
            None => r is Ok,
            Some(m) => fails_with(r, m),
        },
{
    let mut full_ref = "refs/heads/".to_owned();
    full_ref.append(branch);
    let mut i: usize = 0;
    while i < worktrees.len()
        invariant
            i <= worktrees@.len(),
            full_ref@ == "refs/heads/"@ + branch@,
            worktree_conflict(wt_views(worktrees@).take(i as int), path@, branch@) is None,
        decreases worktrees@.len() - i,
    {
        let w = &worktrees[i];
        assert(wt_views(worktrees@).take(i + 1).drop_last() =~= wt_views(worktrees@).take(i as int));
        assert(wt_views(worktrees@).take(i + 1).last() == w@);
        if same_path(w.path.as_str(), path) {
            proof {
                lemma_worktree_conflict_persists(wt_views(worktrees@), path@, branch@, i + 1, worktrees@.len() as int);
                assert(wt_views(worktrees@).take(worktrees@.len() as int) =~= wt_views(worktrees@));
            }
            return Err(ToolError::new(concat3("workspace path ", path, " is already registered by Git")));
        }
        let uses_branch = match &w.branch {
            Some(b) => str_eq(b.as_str(), full_ref.as_str()),
            None => false,
        };
        if uses_branch {
            proof {
                lemma_worktree_conflict_persists(wt_views(worktrees@), path@, branch@, i + 1, worktrees@.len() as int);
                assert(wt_views(worktrees@).take(worktrees@.len() as int) =~= wt_views(worktrees@));
            }
            return Err(ToolError::new(
                concat4("branch `", branch, "` is already used by a Git worktree at ", w.path.as_str()),
            ));
        }
        i = i + 1;
    }
    assert(wt_views(worktrees@).take(worktrees@.len() as int) =~= wt_views(worktrees@));
    Ok(())
}

/// The paths of the stage-zero entries, in their order.
pub open spec fn stage_zero_of(entries: Seq<TrackedPath>) -> Seq<Seq<char>>
    decreases entries.len(),
{
    if entries.len() == 0 {
        Seq::empty()
    } else {
        let rest = stage_zero_of(entries.drop_last());
        if entries.last().stage == 0 {
            rest.push(entries.last().path@)
        } else {
            rest
        }
    }
}

/// Whether a stage-zero entry for exactly `relative` is listed.
pub fn stage_zero_listed(entries: &Vec<TrackedPath>, relative: &str) -> (b: bool)
    ensures
        b == exists|i: int|
            0 <= i < entries@.len() && (#[trigger] entries@[i]).stage == 0 && entries@[i].path@
                == relative@,
{
    let mut i: usize = 0;
    while i < entries.len()
        invariant
            i <= entries@.len(),
            forall|k: int|
                0 <= k < i ==> !((#[trigger] entries@[k]).stage == 0 && entries@[k].path@ == relative@),
        decreases entries@.len() - i,
    {
        if entries[i].stage == 0 && str_eq(entries[i].path.as_str(), relative) {
            return true;
        }
        i = i + 1;
    }
    false
}

} // verus!

verus! {

// ---------------------------------------------------------------------------
// LFS batches
// ---------------------------------------------------------------------------

/// The most path bytes handed to one `check-attr` call.
pub const MAX_BATCH_BYTES: usize = 32768;

/// The bytes a path adds to a batch: its UTF-8 length plus a separator,
/// saturating.
pub open spec fn batch_cost(p: Seq<char>) -> int {
    let n = (vstd::utf8::encode_utf8(p).len() as usize) as int;
    if n + 1 > usize::MAX {
        usize::MAX as int
    } else {
        (n + 1) as int
    }
}

pub open spec fn sat_add(a: int, b: int) -> int {
    if a + b > usize::MAX {
        usize::MAX as int
    } else {
        a + b
    }
}

pub type BatchState = (Seq<Seq<Seq<char>>>, Seq<Seq<char>>, int);

/// Adding one path: it starts a new batch when the current batch is not
/// empty and would exceed the byte limit.
pub open spec fn batch_step(st: BatchState, p: Seq<char>) -> BatchState {
    if st.1.len() > 0 && sat_add(st.2, batch_cost(p)) > MAX_BATCH_BYTES {
        (st.0.push(st.1), seq![p], batch_cost(p))
    } else {
        (st.0, st.1.push(p), sat_add(st.2, batch_cost(p)))
    }
}

pub open spec fn batch_fold(ps: Seq<Seq<char>>) -> BatchState
    decreases ps.len(),
{
    if ps.len() == 0 {
        (Seq::empty(), Seq::empty(), 0)
    } else {
        batch_step(batch_fold(ps.drop_last()), ps.last())
    }
}

/// The batches `check-attr` is called with, in order.
pub open spec fn lfs_batches(ps: Seq<Seq<char>>) -> Seq<Seq<Seq<char>>> {
    let st = batch_fold(ps);
    if st.1.len() > 0 {
        st.0.push(st.1)
    } else {
        st.0
    }
}

pub open spec fn batch_views(v: Seq<Vec<String>>) -> Seq<Seq<Seq<char>>> {
    Seq::new(v.len(), |i: int| strs_of(v[i]@))
}

/// The batches joined back together.
pub open spec fn concat_batches(bs: Seq<Seq<Seq<char>>>) -> Seq<Seq<char>>
    decreases bs.len(),
{
    if bs.len() == 0 {
        Seq::empty()
    } else {
        concat_batches(bs.drop_last()) + bs.last()
    }
}

proof fn lemma_batch_fold_keeps_paths(ps: Seq<Seq<char>>)
    ensures
        concat_batches(batch_fold(ps).0) + batch_fold(ps).1 == ps,
        forall|i: int| 0 <= i < batch_fold(ps).0.len() ==> (#[trigger] batch_fold(ps).0[i]).len() > 0,
    decreases ps.len(),
{
    if ps.len() > 0 {
        let prev = ps.drop_last();
        lemma_batch_fold_keeps_paths(prev);
        let st = batch_fold(prev);
        let p = ps.last();
        assert(prev.push(p) =~= ps);
        if st.1.len() > 0 && sat_add(st.2, batch_cost(p)) > MAX_BATCH_BYTES {
            assert(st.0.push(st.1).drop_last() =~= st.0);
            assert(concat_batches(st.0.push(st.1)) == concat_batches(st.0) + st.1);
            assert(concat_batches(st.0.push(st.1)) + seq![p] =~= concat_batches(st.0) + st.1 + seq![p]);
            assert(concat_batches(st.0) + st.1 + seq![p] =~= (concat_batches(st.0) + st.1).push(p));
        } else {
            assert(concat_batches(st.0) + st.1.push(p) =~= (concat_batches(st.0) + st.1).push(p));
        }
    }
}

/// Every tracked path is checked exactly once and in order: the batches,
/// joined, are the paths, and no batch is empty.
pub proof fn lemma_lfs_batches_cover_paths(ps: Seq<Seq<char>>)
    ensures
        concat_batches(lfs_batches(ps)) == ps,
        forall|i: int| 0 <= i < lfs_batches(ps).len() ==> (#[trigger] lfs_batches(ps)[i]).len() > 0,
{
    lemma_batch_fold_keeps_paths(ps);
    let st = batch_fold(ps);
    if st.1.len() > 0 {
        assert(st.0.push(st.1).drop_last() =~= st.0);
    } else {
        assert(concat_batches(st.0) + st.1 =~= concat_batches(st.0));
    }
}

/// What a batch costs: its paths' costs, added with saturation.
pub open spec fn batch_total(b: Seq<Seq<char>>) -> int
    decreases b.len(),
{
    if b.len() == 0 {
        0
    } else {
        sat_add(batch_total(b.drop_last()), batch_cost(b.last()))
    }
}

proof fn lemma_batch_fold_bounded(ps: Seq<Seq<char>>)
    ensures
        batch_fold(ps).2 == batch_total(batch_fold(ps).1),
        forall|i: int|
            0 <= i < batch_fold(ps).0.len() ==> (#[trigger] batch_fold(ps).0[i]).len() == 1 || batch_total(
                batch_fold(ps).0[i],
            ) <= MAX_BATCH_BYTES,
        batch_fold(ps).1.len() <= 1 || batch_total(batch_fold(ps).1) <= MAX_BATCH_BYTES,
    decreases ps.len(),
{
    if ps.len() > 0 {
        let prev = ps.drop_last();
        lemma_batch_fold_bounded(prev);
        let st = batch_fold(prev);
        let p = ps.last();
        if st.1.len() > 0 && sat_add(st.2, batch_cost(p)) > MAX_BATCH_BYTES {
            let single = seq![p];
            assert(single.drop_last() =~= Seq::<Seq<char>>::empty());
            assert(single.last() == p);
            assert(batch_total(Seq::<Seq<char>>::empty()) == 0);
            assert(batch_total(single) == sat_add(0, batch_cost(p)));
            let done = st.0.push(st.1);
            assert forall|i: int| 0 <= i < done.len() implies (#[trigger] done[i]).len() == 1 || batch_total(done[i])
                <= MAX_BATCH_BYTES by {
                if i < st.0.len() {
                    assert(done[i] == st.0[i]);
                }
            }
        } else {
            assert(st.1.push(p).drop_last() =~= st.1);
            assert(st.1.push(p).last() == p);
        }
    }
}

/// Each batch stays within the byte budget, unless it is a single path
/// that exceeds the budget alone.
pub proof fn lemma_lfs_batches_bounded(ps: Seq<Seq<char>>)
    ensures
        forall|i: int|
            0 <= i < lfs_batches(ps).len() ==> (#[trigger] lfs_batches(ps)[i]).len() == 1 || batch_total(
                lfs_batches(ps)[i],
            ) <= MAX_BATCH_BYTES,
{
    lemma_batch_fold_bounded(ps);
    let st = batch_fold(ps);
    if st.1.len() > 0 {
        let all = st.0.push(st.1);
        assert forall|i: int| 0 <= i < all.len() implies (#[trigger] all[i]).len() == 1 || batch_total(all[i])
            <= MAX_BATCH_BYTES by {
            if i < st.0.len() {
                assert(all[i] == st.0[i]);
            }
        }
    }
}

/// Splits tracked paths into `check-attr` batches of bounded size.
pub fn plan_lfs_batches(paths: &Vec<String>) -> (r: Vec<Vec<String>>)
    ensures
        batch_views(r@) == lfs_batches(strs_of(paths@)),
        concat_batches(batch_views(r@)) == strs_of(paths@),
        forall|i: int|
            0 <= i < batch_views(r@).len() ==> (#[trigger] batch_views(r@)[i]).len() > 0 && (batch_views(r@)[i].len()
                == 1 || batch_total(batch_views(r@)[i]) <= MAX_BATCH_BYTES),
{
    let mut done: Vec<Vec<String>> = Vec::new();
    let mut batch: Vec<String> = Vec::new();
    let mut bytes: usize = 0;
    let mut i: usize = 0;
    while i < paths.len()
        invariant
            i <= paths@.len(),
            batch_fold(strs_of(paths@).take(i as int)) == (batch_views(done@), strs_of(batch@), bytes as int),
        decreases paths@.len() - i,
    {
        let p = &paths[i];
        assert(strs_of(paths@).take(i + 1).drop_last() =~= strs_of(paths@).take(i as int));
        assert(strs_of(paths@).take(i + 1).last() == p@);
        let cost = p.as_str().len().saturating_add(1);
        assert(cost as int == batch_cost(p@));
        let ghost before_done = batch_views(done@);
        let ghost before_batch = strs_of(batch@);
        if batch.len() > 0 && bytes.saturating_add(cost) > MAX_BATCH_BYTES {
            done.push(batch);
            batch = Vec::new();
            batch.push(p.clone());
            bytes = cost;
            assert(batch_views(done@) =~= before_done.push(before_batch));
            assert(strs_of(batch@) =~= seq![p@]);
        } else {
            batch.push(p.clone());
            bytes = bytes.saturating_add(cost);
            assert(strs_of(batch@) =~= before_batch.push(p@));
        }
        i = i + 1;
    }
    assert(strs_of(paths@).take(paths@.len() as int) =~= strs_of(paths@));
    if batch.len() > 0 {
        let ghost before_done = batch_views(done@);
        let ghost b = strs_of(batch@);
        done.push(batch);
        assert(batch_views(done@) =~= before_done.push(b));
    }
    proof {
        lemma_lfs_batches_cover_paths(strs_of(paths@));
        lemma_lfs_batches_bounded(strs_of(paths@));
    }
    done
}

// ---------------------------------------------------------------------------
// Source diagnostics
// ---------------------------------------------------------------------------

pub open spec fn locked_warnings(ws: Seq<WorktreeView>) -> Seq<Seq<char>>
    decreases ws.len(),
{
    if ws.len() == 0 {
        Seq::empty()
    } else if ws.last().locked {
        locked_warnings(ws.drop_last()).push("locked Git worktree metadata: "@ + ws.last().path)
    } else {
        locked_warnings(ws.drop_last())
    }
}

pub open spec fn detached_warnings(ws: Seq<WorktreeView>) -> Seq<Seq<char>>
    decreases ws.len(),
{
    if ws.len() == 0 {
        Seq::empty()
    } else if ws.last().head is Some && ws.last().branch is None {
        detached_warnings(ws.drop_last()).push("detached Git worktree metadata: "@ + ws.last().path)
    } else {
        detached_warnings(ws.drop_last())
    }
}

pub open spec fn prunable_count(ws: Seq<WorktreeView>) -> nat
    decreases ws.len(),
{
    if ws.len() == 0 {
        0
    } else if ws.last().prunable {
        prunable_count(ws.drop_last()) + 1
    } else {
        prunable_count(ws.drop_last())
    }
}

/// The cleanup warnings about registered worktrees: locked entries, then
/// detached entries, then how many are prunable.
pub open spec fn worktree_warnings(ws: Seq<WorktreeView>) -> Seq<Seq<char>> {
    let base = locked_warnings(ws) + detached_warnings(ws);
    if prunable_count(ws) > 0 {
        base.push(
            crate::text::decimal(prunable_count(ws))
                + " prunable Git worktree record(s); run a manual `git worktree prune --dry-run` to inspect"@,
        )
    } else {
        base
    }
}

pub proof fn lemma_prunable_count_bound(ws: Seq<WorktreeView>)
    ensures
        prunable_count(ws) <= ws.len(),
    decreases ws.len(),
{
    if ws.len() > 0 {
        lemma_prunable_count_bound(ws.drop_last());
    }
}

pub fn worktree_warnings_of(worktrees: &Vec<WorktreeRecord>) -> (r: Vec<String>)
    ensures
        strs_of(r@) == worktree_warnings(wt_views(worktrees@)),
{
    let ghost ws = wt_views(worktrees@);
    let mut locked: Vec<String> = Vec::new();
    let mut detached: Vec<String> = Vec::new();
    let mut prunable: usize = 0;
    let mut i: usize = 0;
    while i < worktrees.len()
        invariant
            i <= worktrees@.len(),
            ws == wt_views(worktrees@),
            strs_of(locked@) == locked_warnings(ws.take(i as int)),
            strs_of(detached@) == detached_warnings(ws.take(i as int)),
            prunable == prunable_count(ws.take(i as int)),
            prunable <= i,
        decreases worktrees@.len() - i,
    {
        let w = &worktrees[i];
        assert(ws.take(i + 1).drop_last() =~= ws.take(i as int));
        assert(ws.take(i + 1).last() == w@);
        if w.locked {
            let ghost before = strs_of(locked@);
            let mut m = "locked Git worktree metadata: ".to_owned();
            m.append(w.path.as_str());
            locked.push(m);
            assert(strs_of(locked@) =~= before.push("locked Git worktree metadata: "@ + w.path@));
        }
        if w.head.is_some() && w.branch.is_none() {
            let ghost before = strs_of(detached@);
            let mut m = "detached Git worktree metadata: ".to_owned();
            m.append(w.path.as_str());
            detached.push(m);
            assert(strs_of(detached@) =~= before.push("detached Git worktree metadata: "@ + w.path@));
        }
        if w.prunable {
            prunable = prunable + 1;
        }
        i = i + 1;
    }
    assert(ws.take(worktrees@.len() as int) =~= ws);
    let mut out = locked;
    let ghost l = strs_of(out@);
    let mut j: usize = 0;
    while j < detached.len()
        invariant
            j <= detached@.len(),
            strs_of(out@) =~= l + strs_of(detached@).take(j as int),
        decreases detached@.len() - j,
    {
        let ghost before = strs_of(out@);
        out.push(detached[j].clone());
        assert(strs_of(out@) =~= before.push(detached@[j as int]@));
        assert(strs_of(detached@).take(j + 1) =~= strs_of(detached@).take(j as int).push(detached@[j as int]@));
        j = j + 1;
    }
    assert(strs_of(detached@).take(detached@.len() as int) =~= strs_of(detached@));
    if prunable > 0 {
        let ghost before = strs_of(out@);
        let mut m = String::new();
        crate::text::push_decimal(&mut m, prunable as u64);
        m.append(" prunable Git worktree record(s); run a manual `git worktree prune --dry-run` to inspect");
        out.push(m);
        assert(strs_of(out@) =~= before.push(strs_of(out@).last()));
    }
    out
}

/// Whether an `ls-files -v` flag hides an entry from Git: skip-worktree
/// (`S`) or assume-unchanged (lowercase).
pub open spec fn hidden_flag(c: char) -> bool {
    c == 'S' || ('a' <= c && c <= 'z')
}

pub open spec fn hidden_flag_issue(flag: char, path: Seq<char>) -> Seq<char> {
    "hidden index flag `"@ + seq![flag] + "`: "@ + path
        + " (clear it manually with `git update-index --no-skip-worktree --no-assume-unchanged -- <path>` )"@
}

pub open spec fn hidden_flag_issues(es: Seq<(char, Seq<char>)>) -> Seq<Seq<char>>
    decreases es.len(),
{
    if es.len() == 0 {
        Seq::empty()
    } else if hidden_flag(es.last().0) {
        hidden_flag_issues(es.drop_last()).push(hidden_flag_issue(es.last().0, es.last().1))
    } else {
        hidden_flag_issues(es.drop_last())
    }
}

/// Whether `x` reports an entry of `es` whose flag is skip-worktree (`S`)
/// or assume-unchanged (a lowercase letter).
pub open spec fn reports_hidden_entry(es: Seq<(char, Seq<char>)>, x: Seq<char>) -> bool {
    exists|i: int|
        #![trigger es[i]]
        0 <= i < es.len() && (es[i].0 == 'S' || ('a' <= es[i].0 && es[i].0 <= 'z')) && x == hidden_flag_issue(
            es[i].0,
            es[i].1,
        )
}

/// Every index entry marked skip-worktree (`S`) or assume-unchanged (any
/// lowercase flag) is reported, with its flag and path; and every report is
/// of such an entry.
pub proof fn law_hidden_flags_reported(es: Seq<(char, Seq<char>)>)
    ensures
        forall|i: int|
            0 <= i < es.len() && (es[i].0 == 'S' || ('a' <= es[i].0 && es[i].0 <= 'z')) ==> hidden_flag_issues(
                es,
            ).contains(hidden_flag_issue(#[trigger] es[i].0, es[i].1)),
        forall|m: int|
            0 <= m < hidden_flag_issues(es).len() ==> #[trigger] reports_hidden_entry(es, hidden_flag_issues(es)[m]),
    decreases es.len(),
{
    if es.len() > 0 {
        law_hidden_flags_reported(es.drop_last());
        let last = es.len() - 1;
        assert forall|i: int|
            0 <= i < es.len() && (es[i].0 == 'S' || ('a' <= es[i].0 && es[i].0 <= 'z')) implies hidden_flag_issues(
                es,
            ).contains(hidden_flag_issue(#[trigger] es[i].0, es[i].1)) by {
            if i < last {
                assert(es.drop_last()[i] == es[i]);
                let m = choose|m: int|
                    0 <= m < hidden_flag_issues(es.drop_last()).len() && hidden_flag_issues(es.drop_last())[m]
                        == hidden_flag_issue(es.drop_last()[i].0, es.drop_last()[i].1);
                assert(hidden_flag_issues(es)[m] == hidden_flag_issues(es.drop_last())[m]);
            } else {
                let n = hidden_flag_issues(es.drop_last()).len();
                assert(hidden_flag_issues(es)[n as int] == hidden_flag_issue(es[i].0, es[i].1));
            }
        }
        assert forall|m: int| 0 <= m < hidden_flag_issues(es).len() implies #[trigger] reports_hidden_entry(
            es,
            hidden_flag_issues(es)[m],
        ) by {
            if m < hidden_flag_issues(es.drop_last()).len() {
                assert(hidden_flag_issues(es.drop_last())[m] == hidden_flag_issues(es)[m]);
                assert(reports_hidden_entry(es.drop_last(), hidden_flag_issues(es.drop_last())[m]));
                let i = choose|i: int|
                    #![trigger es.drop_last()[i]]
                    0 <= i < es.drop_last().len() && (es.drop_last()[i].0 == 'S' || ('a' <= es.drop_last()[i].0
                        && es.drop_last()[i].0 <= 'z')) && hidden_flag_issues(es.drop_last())[m] == hidden_flag_issue(
                        es.drop_last()[i].0,
                        es.drop_last()[i].1,
                    );
                assert(es.drop_last()[i] == es[i]);
            } else {
                assert(hidden_flag(es.last().0));
                assert(es.last() == es[last]);
                assert(hidden_flag_issues(es)[m] == hidden_flag_issue(es[last].0, es[last].1));
            }
        }
    }
}

/// One issue per index entry hidden from Git.
pub fn hidden_flag_issues_of(entries: &Vec<(char, String)>) -> (r: Vec<String>)
    ensures
        strs_of(r@) == hidden_flag_issues(flag_views(entries@)),
{
    let mut out: Vec<String> = Vec::new();
    let mut i: usize = 0;
    while i < entries.len()
        invariant
            i <= entries@.len(),
            strs_of(out@) == hidden_flag_issues(flag_views(entries@).take(i as int)),
        decreases entries@.len() - i,
    {
        let (flag, path) = &entries[i];
        assert(flag_views(entries@).take(i + 1).drop_last() =~= flag_views(entries@).take(i as int));
        assert(flag_views(entries@).take(i + 1).last() == (*flag, path@));
        if *flag == 'S' || ('a' <= *flag && *flag <= 'z') {
            let ghost before = strs_of(out@);
            let mut m = "hidden index flag `".to_owned();
            let ghost m0 = m@;
            push_char(&mut m, *flag);
            assert(m@ =~= m0 + seq![*flag]);
            m.append("`: ");
            m.append(path.as_str());
            m.append(" (clear it manually with `git update-index --no-skip-worktree --no-assume-unchanged -- <path>` )");
            out.push(m);
            assert(strs_of(out@) =~= before.push(hidden_flag_issue(*flag, path@)));
        }
        i = i + 1;
    }
    assert(flag_views(entries@).take(entries@.len() as int) =~= flag_views(entries@));
    out
}

/// The first bytes of a Git LFS pointer file.
pub open spec fn lfs_pointer_prefix() -> Seq<u8> {
    "version https://git-lfs.github.com/spec/v1\n"@.map_values(|c: char| c as u8)
}

fn lfs_pointer_bytes() -> (v: Vec<u8>)
    ensures
        v@ == lfs_pointer_prefix(),
{
    let cs = chars_of("version https://git-lfs.github.com/spec/v1\n");
    let mut v: Vec<u8> = Vec::new();
    let mut i: usize = 0;
    while i < cs.len()
        invariant
            i <= cs@.len(),
            cs@ == "version https://git-lfs.github.com/spec/v1\n"@,
            v@ =~= cs@.take(i as int).map_values(|c: char| c as u8),
        decreases cs@.len() - i,
    {
        v.push(cs[i] as u8);
        assert(cs@.take(i + 1).map_values(|c: char| c as u8) =~= cs@.take(i as int).map_values(|c: char| c as u8).push(cs@[i as int] as u8));
        i = i + 1;
    }
    assert(cs@.take(cs@.len() as int) =~= cs@);
    v
}

/// Whether a read recorded in `seen` from position `from` on found the
/// file at `path` starting with the LFS pointer header.
pub open spec fn read_pointer(seen: Seq<(FsOp, Seq<char>, Seq<char>, FsAnswer)>, from: int, path: Seq<char>) -> bool {
    exists|j: int|
        from <= j < seen.len() && #[trigger] seen[j].0 == FsOp::ReadPrefix && seen[j].1 == path && (seen[j].3 matches FsAnswer::Bytes(
            Some(v),
        ) && v@ == lfs_pointer_prefix())
}

/// A read found stays recorded as the record grows.
pub proof fn lemma_pointer_kept(
    s1: Seq<(FsOp, Seq<char>, Seq<char>, FsAnswer)>,
    s2: Seq<(FsOp, Seq<char>, Seq<char>, FsAnswer)>,
    from: int,
    path: Seq<char>,
)
    requires
        read_pointer(s1, from, path),
        fs_extends(s1, s2),
        0 <= from,
    ensures
        read_pointer(s2, from, path),
{
    let j = choose|j: int|
        from <= j < s1.len() && #[trigger] s1[j].0 == FsOp::ReadPrefix && s1[j].1 == path && (s1[j].3 matches FsAnswer::Bytes(
            Some(v),
        ) && v@ == lfs_pointer_prefix());
    assert(s2[j] == s1[j]);
}

/// Whether each of the paths `pointers`, below `root`, was read and found
/// to hold only an LFS pointer, by a read recorded in `seen` from position
/// `from` on.
pub open spec fn pointers_seen(
    seen: Seq<(FsOp, Seq<char>, Seq<char>, FsAnswer)>,
    from: int,
    root: Seq<char>,
    pointers: Seq<Seq<char>>,
) -> bool {
    forall|q: int| 0 <= q < pointers.len() ==> #[trigger] read_pointer(seen, from, join_path(root, pointers[q]))
}

/// Whether the file at `path` starts with the LFS pointer header.
pub(crate) fn is_lfs_pointer<F: FileSystem>(fs: &mut Files<F>, path: &str) -> (b: bool)
    ensures
        fs_reads(old(fs).seen(), final(fs).seen()),
        b ==> read_pointer(final(fs).seen(), old(fs).seen().len() as int, path@),
{
    let prefix = lfs_pointer_bytes();
    match fs.read_prefix(path, prefix.len()) {
        None => false,
        Some(read) => {
            if read.len() != prefix.len() {
                return false;
            }
            let mut i: usize = 0;
            while i < read.len()
                invariant
                    read@.len() == prefix@.len(),
                    i <= read@.len(),
                    fs_reads(old(fs).seen(), fs.seen()),
                    forall|k: int| 0 <= k < i ==> read@[k] == prefix@[k],
                decreases read@.len() - i,
            {
                if read[i] != prefix[i] {
                    return false;
                }
                i = i + 1;
            }
            proof {
                assert(read@ =~= prefix@);
                let j = fs.seen().len() - 1;
                assert(fs.seen()[j].0 == FsOp::ReadPrefix);
            }
            true
        },
    }
}

/// The message of a source that failed verification.
pub open spec fn source_failure_message(issues: Seq<Seq<char>>) -> Seq<char>
    decreases issues.len(),
{
    if issues.len() == 0 {
        "source verification failed"@
    } else {
        source_failure_message(issues.drop_last()) + "; "@ + issues.last()
    }
}

} // verus!

verus! {

proof fn lemma_remote_heads_full(ls: Seq<Seq<char>>)
    ensures
        forall|i: int| 0 <= i < remote_fold(ls).1.len() ==> full_commit_id(#[trigger] remote_fold(ls).1[i].1),
    decreases ls.len(),
{
    if ls.len() > 0 {
        lemma_remote_heads_full(ls.drop_last());
        let prev = remote_fold(ls.drop_last());
        let cur = remote_fold(ls);
        assert forall|i: int| 0 <= i < cur.1.len() implies full_commit_id(#[trigger] cur.1[i].1) by {
            if i < prev.1.len() {
                assert(cur.1[i] == prev.1[i]);
            }
        }
    }
}

/// Appends every string of `w` to `v`.
pub fn append_all(v: &mut Vec<String>, w: Vec<String>)
    ensures
        strs_of(final(v)@) == strs_of(old(v)@) + strs_of(w@),
{
    let ghost start = strs_of(v@);
    let mut i: usize = 0;
    while i < w.len()
        invariant
            i <= w@.len(),
            strs_of(v@) =~= start + strs_of(w@).take(i as int),
        decreases w@.len() - i,
    {
        let ghost before = strs_of(v@);
        v.push(w[i].clone());
        assert(strs_of(v@) =~= before.push(w@[i as int]@));
        assert(strs_of(w@).take(i + 1) =~= strs_of(w@).take(i as int).push(w@[i as int]@));
        i = i + 1;
    }
    assert(strs_of(w@).take(w@.len() as int) =~= strs_of(w@));
}

/// The issues `submodule status` output reports: a failed status adds a
/// leading note, or stands alone when nothing could be parsed.
pub open spec fn submodule_status_spec(status: i32, stdout: Seq<char>) -> Seq<Seq<char>> {
    let parsed = submodule_fold(lines_of(stdout));
    if status == 0 {
        parsed
    } else if parsed.len() == 0 {
        seq!["submodule status could not be read; inspect nested gitlinks manually"@]
    } else {
        seq!["submodule status command failed"@] + parsed
    }
}

pub fn submodule_status_issues(output: &CommandOutput) -> (r: Vec<String>)
    ensures
        strs_of(r@) == submodule_status_spec(output.status, output.stdout@),
{
    let issues = parse_submodule_issues(output.stdout.as_str());
    if output.success() {
        return issues;
    }
    if issues.len() == 0 {
        let mut v = Vec::new();
        v.push("submodule status could not be read; inspect nested gitlinks manually".to_owned());
        assert(strs_of(v@) =~= seq!["submodule status could not be read; inspect nested gitlinks manually"@]);
        return v;
    }
    let mut v = Vec::new();
    v.push("submodule status command failed".to_owned());
    assert(strs_of(v@) =~= seq!["submodule status command failed"@]);
    append_all(&mut v, issues);
    v
}

/// The first check of `worktree_is_clean`: `git status --porcelain` must
/// succeed and print nothing.
pub fn worktree_status_result(worktree: &str, output: &CommandOutput) -> (r: ToolResult<()>)
    ensures
        output.status != 0 ==> fails_with(r, "could not inspect worktree "@ + worktree@ + "; refusing removal"@),
        output.status == 0 && trim(output.stdout@).len() > 0 ==> fails_with(
            r,
            "worktree "@ + worktree@ + " is dirty or has untracked files; commit or remove them manually"@,
        ),
        output.status == 0 && trim(output.stdout@).len() == 0 ==> r is Ok,
{
    if !output.success() {
        return Err(ToolError::new(concat3("could not inspect worktree ", worktree, "; refusing removal")));
    }
    let cs = chars_of(output.stdout.as_str());
    if trim_chars(cs.as_slice()).len() > 0 {
        return Err(ToolError::new(
            concat3("worktree ", worktree, " is dirty or has untracked files; commit or remove them manually"),
        ));
    }
    Ok(())
}

/// The second check of `worktree_is_clean`: submodule status must succeed
/// and report no issue.
pub fn worktree_submodule_result(worktree: &str, output: &CommandOutput) -> (r: ToolResult<()>)
    ensures
        output.status != 0 ==> fails_with(
            r,
            "could not inspect submodules in "@ + worktree@ + "; refusing removal"@,
        ),
        output.status == 0 && submodule_fold(lines_of(output.stdout@)).len() > 0 ==> fails_with(
            r,
            "worktree "@ + worktree@ + " has unsafe submodule state: "@ + crate::text::join_sep(
                submodule_fold(lines_of(output.stdout@)),
                ", "@,
            ),
        ),
        output.status == 0 && submodule_fold(lines_of(output.stdout@)).len() == 0 ==> r is Ok,
{
    if !output.success() {
        return Err(ToolError::new(concat3("could not inspect submodules in ", worktree, "; refusing removal")));
    }
    let issues = parse_submodule_issues(output.stdout.as_str());
    if issues.len() > 0 {
        let joined = crate::text::join_strings_sep(&issues, ", ");
        return Err(ToolError::new(
            concat4("worktree ", worktree, " has unsafe submodule state: ", joined.as_str()),
        ));
    }
    Ok(())
}

/// What `git worktree add` reported.
pub fn add_worktree_outcome(path: &str, base_sha: &str, output: &CommandOutput) -> (r: ToolResult<()>)
    ensures
        r is Ok <==> output.status == 0,
        output.status != 0 ==> fails_with(
            r,
            "Git could not create workspace "@ + path@ + " from "@ + base_sha@
                + "; preserve the ownership record and inspect Git manually"@,
        ),
{
    if output.success() {
        Ok(())
    } else {
        let mut m = "Git could not create workspace ".to_owned();
        m.append(path);
        m.append(" from ");
        m.append(base_sha);
        m.append("; preserve the ownership record and inspect Git manually");
        Err(ToolError::new(m))
    }
}

/// What `git worktree remove` reported; Git's refusal is never overridden.
pub fn remove_worktree_outcome(path: &str, output: &CommandOutput) -> (r: ToolResult<()>)
    ensures
        r is Ok <==> output.status == 0,
        output.status != 0 ==> fails_with(
            r,
            "Git refused to remove "@ + path@
                + " without force; resolve the reported cleanliness, lock, or submodule issue manually"@,
        ),
{
    if output.success() {
        Ok(())
    } else {
        Err(ToolError::new(
            concat3(
                "Git refused to remove ",
                path,
                " without force; resolve the reported cleanliness, lock, or submodule issue manually",
            ),
        ))
    }
}

/// The failure of recursive submodule initialization, naming the
/// submodules still reported as problems.
pub fn submodule_initialization_failure(issues: &Vec<String>) -> (e: ToolError)
    ensures
        e.code() == 1,
        e.msg() == "recursive submodule initialization failed: "@ + if issues@.len() == 0 {
            "inspect the named submodule and authenticate its private repository manually"@
        } else {
            crate::text::join_sep(strs_of(issues@), ", "@) + "; authenticate its private repository manually"@
        },
{
    let detail = if issues.len() == 0 {
        "inspect the named submodule and authenticate its private repository manually".to_owned()
    } else {
        let mut joined = crate::text::join_strings_sep(issues, ", ");
        joined.append("; authenticate its private repository manually");
        joined
    };
    let mut m = "recursive submodule initialization failed: ".to_owned();
    m.append(detail.as_str());
    ToolError::new(m)
}

/// Submodules are ready when none is still reported.
pub fn submodule_verification(remaining: &Vec<String>) -> (r: ToolResult<()>)
    ensures
        r is Ok <==> remaining@.len() == 0,
        remaining@.len() > 0 ==> fails_with(
            r,
            "recursive submodule verification failed: "@ + crate::text::join_sep(strs_of(remaining@), ", "@)
                + "; inspect those paths manually"@,
        ),
{
    if remaining.len() == 0 {
        Ok(())
    } else {
        let joined = crate::text::join_strings_sep(remaining, ", ");
        Err(ToolError::new(
            concat3("recursive submodule verification failed: ", joined.as_str(), "; inspect those paths manually"),
        ))
    }
}

/// The working directory of a request; empty when it has none.
pub open spec fn cwd_of(req: CommandRequest) -> Seq<char> {
    match req.cwd {
        Some(c) => c@,
        None => Seq::empty(),
    }
}

/// Whether `req` runs `git` in `cwd` without changing anything.
pub open spec fn git_at(req: CommandRequest, cwd: Seq<char>) -> bool {
    &&& req.program@ == "git"@
    &&& req.cwd matches Some(c) && c@ == cwd
    &&& !req.mutating
}

/// Whether the recorded request `x` asked for the status of the worktree
/// `worktree`, and Git answered that it is clean.
pub open spec fn clean_status(x: (CommandRequest, ToolResult<CommandOutput>), worktree: Seq<char>) -> bool {
    &&& git_at(x.0, worktree)
    &&& strs_of(x.0.args@) == seq!["status"@, "--porcelain"@, "--untracked-files=normal"@]
    &&& x.1 matches Ok(o) && o.status == 0 && trim(o.stdout@).len() == 0
}

/// Whether the recorded request `x` asked for the submodule status in
/// `cwd`, and Git answered with no submodule issue.
pub open spec fn clean_submodules(x: (CommandRequest, ToolResult<CommandOutput>), cwd: Seq<char>) -> bool {
    &&& git_at(x.0, cwd)
    &&& strs_of(x.0.args@) == seq!["submodule"@, "status"@, "--recursive"@]
    &&& x.1 matches Ok(o) && submodule_status_spec(o.status, o.stdout@).len() == 0
}

/// Whether the recorded request `x` listed the index entries of `relative`
/// in `root`, and Git's answer holds a stage-zero entry for exactly that
/// path.
pub open spec fn lists_stage_zero(x: (CommandRequest, ToolResult<CommandOutput>), root: Seq<char>, relative: Seq<char>) -> bool {
    &&& git_at(x.0, root)
    &&& strs_of(x.0.args@) == seq!["ls-files"@, "--stage"@, "-z"@, "--"@, relative]
    &&& x.1 matches Ok(o) && o.status == 0 && exists|i: int|
        0 <= i < tracked_fold(split_on(o.stdout@, '\0')).len() && #[trigger] tracked_fold(split_on(o.stdout@, '\0'))[i]
            == (relative, 0u8)
}

/// Whether `req` materializes LFS content in `root`.
pub open spec fn is_lfs_checkout(req: CommandRequest, root: Seq<char>) -> bool {
    &&& req.program@ == "git"@
    &&& req.cwd matches Some(c) && c@ == root
    &&& strs_of(req.args@) == seq!["lfs"@, "checkout"@]
}

/// Whether `req` creates the worktree `path` on the new branch `branch` at
/// commit `base_sha`.
pub open spec fn is_worktree_add(req: CommandRequest, branch: Seq<char>, path: Seq<char>, base_sha: Seq<char>) -> bool {
    &&& req.program@ == "git"@
    &&& strs_of(req.args@) == seq!["worktree"@, "add"@, "-b"@, branch, path, base_sha]
    &&& req.mutating
}

/// Whether the first request made after `before` asks `origin` for its
/// advertised HEAD, and a failure of that query gives the refusal that
/// names no remote detail.
pub open spec fn remote_head_asked<T>(
    before: Seq<(CommandRequest, ToolResult<CommandOutput>)>,
    after: Seq<(CommandRequest, ToolResult<CommandOutput>)>,
    r: ToolResult<T>,
) -> bool {
    &&& after.len() > before.len()
    &&& strs_of(after[before.len() as int].0.args@) == seq!["ls-remote"@, "--symref"@, "origin"@, "HEAD"@]
    &&& (after[before.len() as int].1 matches Ok(o) && o.status != 0) ==> fails_with(
        r,
        "could not query origin's advertised HEAD; run `git fetch origin <default-branch>` manually and retry"@,
    )
}

/// Whether the recorded request `x` listed the worktrees, and Git's answer
/// reads as `ws`.
pub open spec fn lists_worktrees(x: (CommandRequest, ToolResult<CommandOutput>), ws: Seq<WorktreeView>) -> bool {
    &&& strs_of(x.0.args@) == seq!["worktree"@, "list"@, "--porcelain"@, "-z"@]
    &&& x.1 matches Ok(o) && o.status == 0 && worktrees_of(o.stdout@) == ws
}

/// Whether the recorded request `x` listed the worktrees and Git's answer
/// holds `path` on the branch `refs/heads/<branch>`.
pub open spec fn lists_on_branch(x: (CommandRequest, ToolResult<CommandOutput>), path: Seq<char>, branch: Seq<char>) -> bool {
    exists|ws: Seq<WorktreeView>, i: int|
        #![trigger lists_worktrees(x, ws), ws[i]]
        lists_worktrees(x, ws) && 0 <= i < ws.len() && path_eq(ws[i].path, path) && ws[i].branch == Some(
            "refs/heads/"@ + branch,
        )
}

/// Whether the recorded request `x` listed the worktrees and Git's answer
/// holds `path` on the branch `refs/heads/<branch>`, neither locked nor
/// prunable.
pub open spec fn lists_removable(x: (CommandRequest, ToolResult<CommandOutput>), path: Seq<char>, branch: Seq<char>) -> bool {
    exists|ws: Seq<WorktreeView>, i: int|
        #![trigger lists_worktrees(x, ws), ws[i]]
        lists_worktrees(x, ws) && 0 <= i < ws.len() && path_eq(ws[i].path, path) && ws[i].branch == Some(
            "refs/heads/"@ + branch,
        ) && !ws[i].locked && !ws[i].prunable
}

/// What Git and the file system reported while a source tree was
/// diagnosed: the sparse-checkout setting, the `ls-files -v` listing, the
/// tracked paths found missing, the HEAD commit, the exit statuses of the
/// index and working-tree comparisons and of the branch lookup, how many
/// tracked paths use LFS, whether `git lfs` is available, the LFS paths
/// whose content is only a pointer, and the submodule status.
pub struct SourceObservations {
    pub sparse: CommandOutput,
    pub flags: String,
    pub missing: Vec<String>,
    pub head: String,
    pub index_diff_status: i32,
    pub worktree_diff_status: i32,
    pub branch_status: i32,
    pub lfs_paths: usize,
    pub lfs_available: bool,
    pub pointer_only: Vec<String>,
    pub submodules: CommandOutput,
}

/// The text of an optional string slice.
pub open spec fn opt_text(o: Option<&str>) -> Option<Seq<char>> {
    match o {
        Some(s) => Some(s@),
        None => None,
    }
}

pub open spec fn sparse_issues(sparse: CommandOutput) -> Seq<Seq<char>> {
    if sparse.status == 0 && trim(sparse.stdout@) == "true"@ {
        seq!["sparse checkout is enabled; restore the complete working tree manually"@]
    } else {
        Seq::empty()
    }
}

pub open spec fn missing_issues(ps: Seq<Seq<char>>) -> Seq<Seq<char>> {
    Seq::new(ps.len(), |i: int| "tracked path missing: "@ + ps[i])
}

pub open spec fn head_issues(head: Seq<char>, expected: Option<Seq<char>>) -> Seq<Seq<char>> {
    match expected {
        Some(e) => if head != e {
            seq!["worktree HEAD "@ + head + " differs from expected base "@ + e]
        } else {
            Seq::empty()
        },
        None => Seq::empty(),
    }
}

/// The revision the index is compared with: the expected base, or `HEAD`.
pub open spec fn comparison_of(expected: Option<Seq<char>>) -> Seq<char> {
    match expected {
        Some(e) => e,
        None => "HEAD"@,
    }
}

pub open spec fn status_issue(status: i32, issue: Seq<char>) -> Seq<Seq<char>> {
    if status != 0 {
        seq![issue]
    } else {
        Seq::empty()
    }
}

pub open spec fn lfs_issues(count: usize, available: bool, pointers: Seq<Seq<char>>) -> Seq<Seq<char>> {
    if count == 0 {
        Seq::empty()
    } else if !available {
        seq![
            "Git LFS is required for "@ + decimal(count as nat)
                + " tracked path(s), but `git lfs` is unavailable; install Git LFS and rerun doctor"@,
        ]
    } else {
        Seq::new(
            pointers.len(),
            |i: int|
                "LFS content is pointer-only: "@ + pointers[i]
                    + "; materialize it with a manual local/credentialed Git LFS operation"@,
        )
    }
}

/// The issues a source tree has, given what was observed, in the order the
/// checks are made.
pub open spec fn source_issues_spec(o: SourceObservations, expected: Option<Seq<char>>) -> Seq<Seq<char>> {
    sparse_issues(o.sparse) + hidden_flag_issues(prefixed_fold(split_on(o.flags@, '\0')))
        + missing_issues(strs_of(o.missing@)) + head_issues(o.head@, expected) + status_issue(
        o.index_diff_status,
        "tracked content or mode differs from "@ + comparison_of(expected),
    ) + status_issue(o.worktree_diff_status, "working-tree files differ from the index"@) + status_issue(
        o.branch_status,
        "repository is detached"@,
    ) + lfs_issues(o.lfs_paths, o.lfs_available, strs_of(o.pointer_only@)) + submodule_status_spec(
        o.submodules.status,
        o.submodules.stdout@,
    )
}

/// Whether the recorded requests from position `k` on are those of a
/// diagnosis, and `o` holds what Git answered to them: the sparse-checkout
/// setting, the `ls-files -v` listing, the HEAD commit, the statuses of the
/// index and working-tree comparisons and of the branch lookup, and, at
/// position `j`, the submodule status.
pub open spec fn observed_at(
    sent: Seq<(CommandRequest, ToolResult<CommandOutput>)>,
    k: int,
    j: int,
    o: SourceObservations,
    expected: Option<Seq<char>>,
) -> bool {
    &&& 0 <= k && k + 8 <= j < sent.len()
    &&& git_at(sent[k].0, cwd_of(sent[k].0))
    &&& forall|i: int|
        k < i <= k + 7 || i == j ==> #[trigger] git_at(sent[i].0, cwd_of(sent[k].0))
    &&& strs_of(sent[k + 1].0.args@) == seq!["config"@, "--bool"@, "core.sparseCheckout"@]
    &&& sent[k + 1].1 == Ok::<CommandOutput, ToolError>(o.sparse)
    &&& strs_of(sent[k + 2].0.args@) == seq!["ls-files"@, "-v"@, "-z"@]
    &&& (sent[k + 2].1 matches Ok(out) && out.stdout@ == o.flags@)
    &&& strs_of(sent[k + 4].0.args@) == seq!["rev-parse"@, "HEAD"@]
    &&& (sent[k + 4].1 matches Ok(out) && trim(out.stdout@) == o.head@)
    &&& strs_of(sent[k + 5].0.args@) == seq!["diff-index"@, "--quiet"@, comparison_of(expected), "--"@]
    &&& (sent[k + 5].1 matches Ok(out) && out.status == o.index_diff_status)
    &&& strs_of(sent[k + 6].0.args@) == seq!["diff-files"@, "--quiet"@, "--"@]
    &&& (sent[k + 6].1 matches Ok(out) && out.status == o.worktree_diff_status)
    &&& strs_of(sent[k + 7].0.args@) == seq!["symbolic-ref"@, "--quiet"@, "--short"@, "HEAD"@]
    &&& (sent[k + 7].1 matches Ok(out) && out.status == o.branch_status)
    &&& strs_of(sent[j].0.args@) == seq!["submodule"@, "status"@, "--recursive"@]
    &&& sent[j].1 == Ok::<CommandOutput, ToolError>(o.submodules)
}

/// Whether each of the paths `missing`, below `root`, was reported missing
/// by a query recorded in `seen` from position `from` on.
pub open spec fn missing_seen(
    seen: Seq<(FsOp, Seq<char>, Seq<char>, FsAnswer)>,
    from: int,
    root: Seq<char>,
    missing: Seq<Seq<char>>,
) -> bool {
    forall|q: int| 0 <= q < missing.len() ==> #[trigger] reported_missing(seen, from, join_path(root, missing[q]))
}

/// Whether the diagnosis recorded from position `k` of `sent` found
/// `issues`: those `source_issues_spec` gives for what Git answered there
/// (and what the file system showed).
pub open spec fn diagnosed_at(
    sent: Seq<(CommandRequest, ToolResult<CommandOutput>)>,
    k: int,
    expected: Option<Seq<char>>,
    issues: Seq<Seq<char>>,
) -> bool {
    exists|o: SourceObservations, j: int|
        #[trigger] source_issues_spec(o, expected) == issues && #[trigger] observed_at(sent, k, j, o, expected)
}

/// A recorded diagnosis stays recorded as more requests are made.
pub proof fn lemma_diagnosis_kept(
    mid: Seq<(CommandRequest, ToolResult<CommandOutput>)>,
    after: Seq<(CommandRequest, ToolResult<CommandOutput>)>,
    k: int,
    expected: Option<Seq<char>>,
    issues: Seq<Seq<char>>,
)
    requires
        diagnosed_at(mid, k, expected, issues),
        extends(mid, after),
    ensures
        diagnosed_at(after, k, expected, issues),
{
    let (o, j) = choose|o: SourceObservations, j: int|
        #[trigger] source_issues_spec(o, expected) == issues && #[trigger] observed_at(mid, k, j, o, expected);
    assert(after[k] == mid[k]);
    assert(after[k + 3] == mid[k + 3]);
    assert(after[k + 1] == mid[k + 1]);
    assert(after[k + 2] == mid[k + 2]);
    assert(after[k + 4] == mid[k + 4]);
    assert(after[k + 5] == mid[k + 5]);
    assert(after[k + 6] == mid[k + 6]);
    assert(after[k + 7] == mid[k + 7]);
    assert(after[j] == mid[j]);
    assert(observed_at(after, k, j, o, expected));
}

/// `prefix + p` for each `p`, in order.
fn prefix_each(prefix: &str, ps: &Vec<String>) -> (r: Vec<String>)
    ensures
        strs_of(r@) == Seq::new(ps@.len(), |i: int| prefix@ + ps@[i]@),
{
    let mut out: Vec<String> = Vec::new();
    let mut i: usize = 0;
    while i < ps.len()
        invariant
            i <= ps@.len(),
            strs_of(out@) =~= Seq::new(i as nat, |k: int| prefix@ + ps@[k]@),
        decreases ps@.len() - i,
    {
        let mut m = prefix.to_owned();
        m.append(ps[i].as_str());
        let ghost before = strs_of(out@);
        out.push(m);
        assert(strs_of(out@) =~= before.push(prefix@ + ps@[i as int]@));
        i = i + 1;
    }
    out
}

/// `prefix + p + suffix` for each `p`, in order.
fn wrap_each(prefix: &str, ps: &Vec<String>, suffix: &str) -> (r: Vec<String>)
    ensures
        strs_of(r@) == Seq::new(ps@.len(), |i: int| prefix@ + ps@[i]@ + suffix@),
{
    let mut out: Vec<String> = Vec::new();
    let mut i: usize = 0;
    while i < ps.len()
        invariant
            i <= ps@.len(),
            strs_of(out@) =~= Seq::new(i as nat, |k: int| prefix@ + ps@[k]@ + suffix@),
        decreases ps@.len() - i,
    {
        let ghost before = strs_of(out@);
        out.push(concat3(prefix, ps[i].as_str(), suffix));
        assert(strs_of(out@) =~= before.push(prefix@ + ps@[i as int]@ + suffix@));
        i = i + 1;
    }
    out
}

/// Pushes `m` and records what that does to the texts.
fn push_issue(issues: &mut Vec<String>, m: String)
    ensures
        strs_of(final(issues)@) == strs_of(old(issues)@).push(m@),
{
    issues.push(m);
    assert(strs_of(issues@) =~= strs_of(old(issues)@).push(m@));
}

fn early_issues(o: &SourceObservations) -> (r: Vec<String>)
    ensures
        strs_of(r@) == sparse_issues(o.sparse) + hidden_flag_issues(prefixed_fold(split_on(o.flags@, '\0')))
            + missing_issues(strs_of(o.missing@)),
{
    let mut issues: Vec<String> = Vec::new();
    if o.sparse.success() {
        let cs = chars_of(o.sparse.stdout.as_str());
        let t = trim_chars(cs.as_slice());
        if chars_is(t.as_slice(), "true") {
            push_issue(&mut issues, "sparse checkout is enabled; restore the complete working tree manually".to_owned());
        }
    }
    assert(strs_of(issues@) =~= sparse_issues(o.sparse));
    let flagged = parse_prefixed_paths(o.flags.as_str());
    append_all(&mut issues, hidden_flag_issues_of(&flagged));
    append_all(&mut issues, prefix_each("tracked path missing: ", &o.missing));
    issues
}

fn comparison_issues(o: &SourceObservations, expected: Option<&str>) -> (r: Vec<String>)
    ensures
        strs_of(r@) == head_issues(o.head@, opt_text(expected)) + status_issue(
            o.index_diff_status,
            "tracked content or mode differs from "@ + comparison_of(opt_text(expected)),
        ) + status_issue(o.worktree_diff_status, "working-tree files differ from the index"@) + status_issue(
            o.branch_status,
            "repository is detached"@,
        ),
{
    let ghost ex = opt_text(expected);
    let mut issues: Vec<String> = Vec::new();
    if let Some(e) = expected {
        if !str_eq(o.head.as_str(), e) {
            push_issue(&mut issues, concat4("worktree HEAD ", o.head.as_str(), " differs from expected base ", e));
        }
    }
    assert(strs_of(issues@) =~= head_issues(o.head@, ex));
    let comparison = match expected {
        Some(e) => e,
        None => "HEAD",
    };
    if o.index_diff_status != 0 {
        let mut m = "tracked content or mode differs from ".to_owned();
        m.append(comparison);
        push_issue(&mut issues, m);
    }
    let ghost b = head_issues(o.head@, ex) + status_issue(
        o.index_diff_status,
        "tracked content or mode differs from "@ + comparison_of(ex),
    );
    assert(strs_of(issues@) =~= b);
    if o.worktree_diff_status != 0 {
        push_issue(&mut issues, "working-tree files differ from the index".to_owned());
    }
    let ghost c = b + status_issue(o.worktree_diff_status, "working-tree files differ from the index"@);
    assert(strs_of(issues@) =~= c);
    if o.branch_status != 0 {
        push_issue(&mut issues, "repository is detached".to_owned());
    }
    assert(strs_of(issues@) =~= c + status_issue(o.branch_status, "repository is detached"@));
    issues
}

fn lfs_issues_of(o: &SourceObservations) -> (r: Vec<String>)
    ensures
        strs_of(r@) == lfs_issues(o.lfs_paths, o.lfs_available, strs_of(o.pointer_only@)),
{
    let mut issues: Vec<String> = Vec::new();
    if o.lfs_paths > 0 {
        if !o.lfs_available {
            let mut m = "Git LFS is required for ".to_owned();
            crate::text::push_decimal(&mut m, o.lfs_paths as u64);
            m.append(" tracked path(s), but `git lfs` is unavailable; install Git LFS and rerun doctor");
            push_issue(&mut issues, m);
        } else {
            issues = wrap_each(
                "LFS content is pointer-only: ",
                &o.pointer_only,
                "; materialize it with a manual local/credentialed Git LFS operation",
            );
        }
    }
    assert(strs_of(issues@) =~= lfs_issues(o.lfs_paths, o.lfs_available, strs_of(o.pointer_only@)));
    issues
}

/// The issues of a source tree, found in what was observed (see
/// `source_issues_spec`).
pub fn source_issues(o: &SourceObservations, expected: Option<&str>) -> (r: Vec<String>)
    ensures
        strs_of(r@) == source_issues_spec(*o, opt_text(expected)),
{
    let mut issues = early_issues(o);
    append_all(&mut issues, comparison_issues(o, expected));
    append_all(&mut issues, lfs_issues_of(o));
    append_all(&mut issues, submodule_status_issues(&o.submodules));
    issues
}

impl GitRepository {
    /// Finds the repository containing `path`: its canonical worktree root,
    /// its common Git directory and the main worktree above that directory.
    pub fn discover<R: CommandRunner, F: FileSystem>(path: &str, runner: &mut Recorder<R>, fs: &mut Files<F>) -> (r: ToolResult<Self>)
        ensures
            fs_reads(old(fs).seen(), final(fs).seen()),
            r matches Ok(repo) ==> parent_of(repo.common_dir@) == Some(repo.main_worktree@),
            only_reads(old(runner).sent(), final(runner).sent()),
    {
        let input = match fs.canonicalize(path) {
            Ok(c) => c,
            Err(e) => {
                return Err(ToolError::new(concat4("cannot resolve repository path ", path, ": ", e.as_str())));
            },
        };
        let root_output = run_git(runner, input.as_str(), strs2("rev-parse", "--show-toplevel"))?;
        let root_line = trim_one_line(root_output.as_str())?;
        let root = match fs.canonicalize(root_line.as_str()) {
            Ok(c) => c,
            Err(e) => {
                return Err(ToolError::new(concat3("cannot resolve Git repository root: ", e.as_str(), "")));
            },
        };
        let common_output = run_git(runner, root.as_str(), strs2("rev-parse", "--git-common-dir"))?;
        let common_line = trim_one_line(common_output.as_str())?;
        let common_path = join(root.as_str(), common_line.as_str());
        let common_dir = match fs.canonicalize(common_path.as_str()) {
            Ok(c) => c,
            Err(e) => {
                return Err(ToolError::new(
                    concat4("cannot resolve common Git directory ", common_path.as_str(), ": ", e.as_str()),
                ));
            },
        };
        let main_worktree = match parent_path(common_dir.as_str()) {
            Some(p) => p,
            None => {
                return Err(ToolError::new("Git common directory has no repository parent".to_owned()));
            },
        };
        Ok(GitRepository { root, common_dir, main_worktree })
    }

    /// The commit checked out in this worktree.
    pub fn current_head<R: CommandRunner>(&self, runner: &mut Recorder<R>) -> (r: ToolResult<String>)
        ensures
            r matches Ok(sha) ==> full_commit_id(sha@),
            only_reads(old(runner).sent(), final(runner).sent()),
            final(runner).sent().len() == old(runner).sent().len() + 1,
            strs_of(final(runner).sent().last().0.args@) == seq!["rev-parse"@, "HEAD"@],
            git_at(final(runner).sent().last().0, self.root@),
            r matches Ok(sha) ==> (final(runner).sent().last().1 matches Ok(o) && sha@ == trim(o.stdout@)),
    {
        let output = run_git(runner, self.root.as_str(), strs2("rev-parse", "HEAD"))?;
        head_from_output(output.as_str())
    }

    /// The base commit of a new workspace: the named local commit, or the
    /// commit that `origin` advertises for its HEAD.
    pub fn resolve_base<R: CommandRunner>(&self, requested: Option<&str>, runner: &mut Recorder<R>) -> (r: ToolResult<BaseRevision>)
        ensures
            r matches Ok(b) ==> full_commit_id(b.sha@),
            requested matches Some(reference) ==> (r matches Ok(b) ==> b.reference@ == reference@),
            requested matches Some(reference) ==> (base_reference_refused(reference@) ==> fails_with(
                r,
                "base revision `"@ + reference@ + "` is invalid or ambiguous; provide one local commit"@,
            )),
            requested matches Some(reference) ==> (base_reference_refused(reference@) ==> final(runner).sent()
                == old(runner).sent()),
            requested is None ==> remote_head_asked(old(runner).sent(), final(runner).sent(), r),
            only_reads(old(runner).sent(), final(runner).sent()),
    {
        match requested {
            Some(reference) => {
                let sha = self.resolve_local_commit(reference, runner)?;
                Ok(BaseRevision { reference: reference.to_owned(), sha })
            },
            None => self.resolve_remote_default(runner),
        }
    }

    /// The full commit ID of one locally resolvable revision.
    pub fn resolve_local_commit<R: CommandRunner>(&self, reference: &str, runner: &mut Recorder<R>) -> (r: ToolResult<String>)
        ensures
            base_reference_refused(reference@) ==> fails_with(
                r,
                "base revision `"@ + reference@ + "` is invalid or ambiguous; provide one local commit"@,
            ),
            r matches Ok(sha) ==> full_commit_id(sha@),
            base_reference_refused(reference@) ==> final(runner).sent() == old(runner).sent(),
            only_reads(old(runner).sent(), final(runner).sent()),
            !base_reference_refused(reference@) ==> {
                &&& final(runner).sent().len() == old(runner).sent().len() + 1
                &&& git_at(final(runner).sent().last().0, self.root@)
                &&& strs_of(final(runner).sent().last().0.args@) == seq![
                    "rev-parse"@,
                    "--verify"@,
                    "--quiet"@,
                    "--end-of-options"@,
                    reference@ + "^{commit}"@,
                ]
                &&& (final(runner).sent().last().1 matches Err(e) ==> r == Err::<String, ToolError>(e))
                &&& (final(runner).sent().last().1 matches Ok(o) ==> (o.status != 0 ==> r is Err))
                &&& (r matches Ok(sha) ==> (final(runner).sent().last().1 matches Ok(o) && sha@ == trim(o.stdout@)))
            },
    {
        let cs = chars_of(reference);
        let t = trim_chars(cs.as_slice());
        if t.len() == 0 || (cs.len() > 0 && cs[0] == '-') {
            return Err(ToolError::new(
                concat3("base revision `", reference, "` is invalid or ambiguous; provide one local commit"),
            ));
        }
        let mut revision = reference.to_owned();
        revision.append("^{commit}");
        let request = git_request(
            self.root.as_str(),
            strs5("rev-parse", "--verify", "--quiet", "--end-of-options", revision.as_str()),
        );
        let output = runner.run(&request)?;
        local_commit_from_output(reference, &output)
    }

    fn resolve_remote_default<R: CommandRunner>(&self, runner: &mut Recorder<R>) -> (r: ToolResult<BaseRevision>)
        ensures
            r matches Ok(b) ==> full_commit_id(b.sha@),
            only_reads(old(runner).sent(), final(runner).sent()),
            remote_head_asked(old(runner).sent(), final(runner).sent(), r),
    {
        let request = git_request(self.root.as_str(), strs4("ls-remote", "--symref", "origin", "HEAD"));
        let output = runner.run(&request)?;
        let base = remote_default_from_output(&output)?;
        proof {
            lemma_remote_heads_full(lines_of(output.stdout@));
        }
        self.require_local_commit(base.sha.as_str(), runner)?;
        Ok(base)
    }

    fn require_local_commit<R: CommandRunner>(&self, sha: &str, runner: &mut Recorder<R>) -> (r: ToolResult<()>)
        ensures
            final(runner).sent().len() == old(runner).sent().len() + 1,
            only_reads(old(runner).sent(), final(runner).sent()),
            final(runner).sent().last().1 matches Err(e) ==> r == Err::<(), ToolError>(e),
            final(runner).sent().last().1 matches Ok(o) ==> (r is Ok <==> o.status == 0),
    {
        let object = concat3(sha, "^{commit}", "");
        let request = git_request(self.root.as_str(), strs3("cat-file", "-e", object.as_str()));
        let output = runner.run(&request)?;
        if output.success() {
            Ok(())
        } else {
            Err(ToolError::new(
                concat3(
                    "origin's advertised commit ",
                    sha,
                    " is not present locally; run `git fetch origin <default-branch>` manually and retry",
                ),
            ))
        }
    }

    /// Whether `refs/heads/<branch>` exists.
    pub fn branch_exists<R: CommandRunner>(&self, branch: &str, runner: &mut Recorder<R>) -> (r: ToolResult<bool>)
        ensures
            final(runner).sent().len() == old(runner).sent().len() + 1,
            only_reads(old(runner).sent(), final(runner).sent()),
            git_at(final(runner).sent().last().0, self.root@),
            strs_of(final(runner).sent().last().0.args@) == seq![
                "show-ref"@,
                "--verify"@,
                "--quiet"@,
                "refs/heads/"@ + branch@,
            ],
            final(runner).sent().last().1 matches Err(e) ==> r == Err::<bool, ToolError>(e),
            final(runner).sent().last().1 matches Ok(o) ==> (o.status == 0 ==> r == Ok::<bool, ToolError>(true)),
            final(runner).sent().last().1 matches Ok(o) ==> (o.status == 1 ==> r == Ok::<bool, ToolError>(false)),
            final(runner).sent().last().1 matches Ok(o) ==> (o.status != 0 && o.status != 1 ==> fails_with(
                r,
                "Git could not inspect whether the requested branch exists; refusing workspace creation"@,
            )),
    {
        let mut reference = "refs/heads/".to_owned();
        reference.append(branch);
        let request = git_request(
            self.root.as_str(),
            strs4("show-ref", "--verify", "--quiet", reference.as_str()),
        );
        let output = runner.run(&request)?;
        branch_exists_from_status(output.status)
    }

    /// The worktrees Git has registered.
    pub fn worktrees<R: CommandRunner>(&self, runner: &mut Recorder<R>) -> (r: ToolResult<Vec<WorktreeRecord>>)
        ensures
            final(runner).sent().len() == old(runner).sent().len() + 1,
            git_at(final(runner).sent().last().0, self.root@),
            r matches Ok(ws) ==> lists_worktrees(final(runner).sent().last(), wt_views(ws@)),
            only_reads(old(runner).sent(), final(runner).sent()),
    {
        let output = run_git(runner, self.root.as_str(), strs4("worktree", "list", "--porcelain", "-z"))?;
        Ok(parse_worktrees(output.as_str()))
    }

    /// Refuses a workspace path that exists or is registered, and a branch
    /// that a worktree uses or that already exists.
    pub fn ensure_worktree_available<R: CommandRunner, F: FileSystem>(
        &self,
        path: &str,
        branch: &str,
        runner: &mut Recorder<R>,
        fs: &mut Files<F>,
    ) -> (r: ToolResult<()>)
        ensures
            fs_reads(old(fs).seen(), final(fs).seen()),
            only_reads(old(runner).sent(), final(runner).sent()),
            r is Ok ==> final(runner).sent().len() == old(runner).sent().len() + 2 && (exists|ws: Seq<WorktreeView>|
                #[trigger] lists_worktrees(final(runner).sent()[old(runner).sent().len() as int], ws)
                    && worktree_conflict(ws, path@, branch@) is None) && git_at(
                final(runner).sent().last().0,
                self.root@,
            ) && strs_of(final(runner).sent().last().0.args@) == seq![
                "show-ref"@,
                "--verify"@,
                "--quiet"@,
                "refs/heads/"@ + branch@,
            ] && (final(runner).sent().last().1 matches Ok(o) && o.status == 1),
    {
        match fs.entry_kind(path) {
            Ok(_) => {
                return Err(ToolError::new(
                    concat3("workspace path ", path, " already exists; choose another name or remove it manually"),
                ));
            },
            Err(e) => {
                if !e.not_found {
                    return Err(ToolError::new(
                        concat4("workspace path ", path, " cannot be inspected: ", e.message.as_str()),
                    ));
                }
            },
        }
        let worktrees = self.worktrees(runner)?;
        let ghost listing = runner.sent();
        check_worktree_conflicts(&worktrees, path, branch)?;
        if self.branch_exists(branch, runner)? {
            return Err(ToolError::new(
                concat3("branch `", branch, "` already exists; v1 never adopts or resets an existing branch"),
            ));
        }
        proof {
            let k = old(runner).sent().len() as int;
            assert(runner.sent()[k] == listing[k]);
            assert(lists_worktrees(runner.sent()[k], wt_views(worktrees@)));
        }
        Ok(())
    }

    /// The request that creates the workspace worktree on a new branch.
    pub fn add_worktree_request(&self, path: &str, branch: &str, base_sha: &str) -> (req: CommandRequest)
        ensures
            req.program@ == "git"@,
            strs_of(req.args@) == seq!["worktree"@, "add"@, "-b"@, branch@, path@, base_sha@],
            req.cwd matches Some(c) && c@ == self.root@,
            req.mutating,
            !req.sensitive,
    {
        git_request(self.root.as_str(), strs6("worktree", "add", "-b", branch, path, base_sha)).mutating()
    }

    pub fn add_worktree<R: CommandRunner>(&self, path: &str, branch: &str, base_sha: &str, runner: &mut Recorder<R>) -> (r: ToolResult<()>)
        ensures
            one_more(old(runner).sent(), final(runner).sent()),
            final(runner).sent().last().0.program@ == "git"@,
            strs_of(final(runner).sent().last().0.args@) == seq!["worktree"@, "add"@, "-b"@, branch@, path@, base_sha@],
            final(runner).sent().last().0.cwd matches Some(c) && c@ == self.root@,
            final(runner).sent().last().0.mutating,
            answered(final(runner).sent().last().1, r),
            final(runner).sent().last().1 matches Ok(o) ==> (o.status != 0 ==> fails_with(
                r,
                "Git could not create workspace "@ + path@ + " from "@ + base_sha@
                    + "; preserve the ownership record and inspect Git manually"@,
            )),
    {
        let request = self.add_worktree_request(path, branch, base_sha);
        let output = runner.run(&request)?;
        add_worktree_outcome(path, base_sha, &output)
    }

    /// Requires `path` to be a stage-zero tracked file of this worktree.
    pub fn require_stage_zero_file<R: CommandRunner>(&self, path: &str, runner: &mut Recorder<R>) -> (r: ToolResult<()>)
        ensures
            strip_path_prefix(path@, self.root@) is None ==> fails_with(
                r,
                "declared template "@ + path@ + " is outside the Git worktree"@,
            ),
            extends(old(runner).sent(), final(runner).sent()),
            strip_path_prefix(path@, self.root@) is None ==> final(runner).sent() == old(runner).sent(),
            strip_path_prefix(path@, self.root@) matches Some(rel) ==> (r is Ok <==> final(runner).sent().len()
                == old(runner).sent().len() + 1 && lists_stage_zero(final(runner).sent().last(), self.root@, rel)),
    {
        let relative = match strip_prefix_path(path, self.root.as_str()) {
            Some(rel) => rel,
            None => {
                return Err(ToolError::new(concat3("declared template ", path, " is outside the Git worktree")));
            },
        };
        let output = run_git(
            runner,
            self.root.as_str(),
            strs5("ls-files", "--stage", "-z", "--", relative.as_str()),
        )?;
        let entries = parse_tracked_paths(output.as_str());
        let listed = stage_zero_listed(&entries, relative.as_str());
        proof {
            let ts = tracked_fold(split_on(output@, '\0'));
            assert(tracked_views(entries@) == ts);
            if listed {
                let i = choose|i: int|
                    0 <= i < entries@.len() && (#[trigger] entries@[i]).stage == 0 && entries@[i].path@ == relative@;
                assert(ts[i] == (relative@, 0u8));
            } else {
                assert forall|i: int| 0 <= i < ts.len() implies ts[i] != (relative@, 0u8) by {
                    assert(ts[i] == (entries@[i].path@, entries@[i].stage));
                }
            }
        }
        if listed {
            return Ok(());
        }
        Err(ToolError::new(
            concat3(
                "declared template ",
                path,
                " must be a stage-zero tracked Git file; untracked templates are not accepted",
            ),
        ))
    }

    /// The request that removes a worktree; it never forces.
    pub fn remove_worktree_request(&self, path: &str) -> (req: CommandRequest)
        ensures
            req.program@ == "git"@,
            strs_of(req.args@) == seq!["worktree"@, "remove"@, path@],
            req.cwd matches Some(c) && c@ == self.root@,
            req.mutating,
            !req.sensitive,
    {
        git_request(self.root.as_str(), strs3("worktree", "remove", path)).mutating()
    }

    pub fn remove_worktree<R: CommandRunner>(&self, path: &str, runner: &mut Recorder<R>) -> (r: ToolResult<()>)
        ensures
            one_more(old(runner).sent(), final(runner).sent()),
            final(runner).sent().last().0.program@ == "git"@,
            strs_of(final(runner).sent().last().0.args@) == seq!["worktree"@, "remove"@, path@],
            final(runner).sent().last().0.cwd matches Some(c) && c@ == self.root@,
            final(runner).sent().last().0.mutating,
            answered(final(runner).sent().last().1, r),
            final(runner).sent().last().1 matches Ok(o) ==> (o.status != 0 ==> fails_with(
                r,
                "Git refused to remove "@ + path@
                    + " without force; resolve the reported cleanliness, lock, or submodule issue manually"@,
            )),
    {
        let request = self.remove_worktree_request(path);
        let output = runner.run(&request)?;
        remove_worktree_outcome(path, &output)
    }

    fn stage_zero_paths(&self, entries: &Vec<TrackedPath>) -> (r: Vec<String>)
        ensures
            strs_of(r@) == stage_zero_of(entries@),
    {
        let mut out: Vec<String> = Vec::new();
        let mut i: usize = 0;
        assert(entries@.take(0) =~= Seq::<TrackedPath>::empty());
        assert(strs_of(out@) =~= stage_zero_of(entries@.take(0)));
        while i < entries.len()
            invariant
                i <= entries@.len(),
                strs_of(out@) == stage_zero_of(entries@.take(i as int)),
            decreases entries@.len() - i,
        {
            let ghost before = strs_of(out@);
            assert(entries@.take(i + 1).drop_last() =~= entries@.take(i as int));
            assert(entries@.take(i + 1).last() == entries@[i as int]);
            if entries[i].stage == 0 {
                out.push(entries[i].path.clone());
                assert(strs_of(out@) =~= before.push(entries@[i as int].path@));
            }
            i = i + 1;
        }
        assert(entries@.take(entries@.len() as int) =~= entries@);
        out
    }

    /// Inspects the source tree: worktree metadata, sparse checkout, hidden
    /// index flags, missing tracked paths, the expected HEAD, index and
    /// working-tree differences, detached HEAD, LFS content and submodules.
    /// The issues are those `source_issues` finds in what was observed.
    pub fn diagnose<R: CommandRunner, F: FileSystem>(
        &self,
        expected_commit: Option<&str>,
        runner: &mut Recorder<R>,
        fs: &mut Files<F>,
    ) -> (r: ToolResult<SourceDiagnostics>)
        ensures
            r matches Ok(d) ==> strs_of(d.warnings@) == worktree_warnings(wt_views(d.worktrees@)),
            r matches Ok(d) ==> final(runner).sent().len() > old(runner).sent().len() && lists_worktrees(
                final(runner).sent()[old(runner).sent().len() as int],
                wt_views(d.worktrees@),
            ) && git_at(final(runner).sent()[old(runner).sent().len() as int].0, self.root@),
            only_reads(old(runner).sent(), final(runner).sent()),
            r matches Ok(d) ==> diagnosed_at(
                final(runner).sent(),
                old(runner).sent().len() as int,
                opt_text(expected_commit),
                strs_of(d.issues@),
            ),
            fs_reads(old(fs).seen(), final(fs).seen()),
            r matches Ok(d) ==> exists|o: SourceObservations, j: int|
                #[trigger] observed_at(
                    final(runner).sent(),
                    old(runner).sent().len() as int,
                    j,
                    o,
                    opt_text(expected_commit),
                ) && source_issues_spec(o, opt_text(expected_commit)) == strs_of(d.issues@) && missing_seen(
                    final(fs).seen(),
                    old(fs).seen().len() as int,
                    self.root@,
                    strs_of(o.missing@),
                ) && pointers_seen(final(fs).seen(), old(fs).seen().len() as int, self.root@, strs_of(o.pointer_only@)),
    {
        let worktrees = self.worktrees(runner)?;
        let warnings = worktree_warnings_of(&worktrees);
        let sparse = run_git_allow_failure(
            runner,
            self.root.as_str(),
            strs3("config", "--bool", "core.sparseCheckout"),
        )?;
        let flags = run_git(runner, self.root.as_str(), strs3("ls-files", "-v", "-z"))?;
        let listing = run_git(runner, self.root.as_str(), strs3("ls-files", "--stage", "-z"))?;
        let entries = parse_tracked_paths(listing.as_str());
        let tracked_paths = self.stage_zero_paths(&entries);
        let mut missing: Vec<String> = Vec::new();
        let mut i: usize = 0;
        while i < tracked_paths.len()
            invariant
                fs_reads(old(fs).seen(), fs.seen()),
                missing_seen(fs.seen(), old(fs).seen().len() as int, self.root@, strs_of(missing@)),
            decreases tracked_paths@.len() - i,
        {
            let full = join(self.root.as_str(), tracked_paths[i].as_str());
            let ghost before = fs.seen();
            let ghost earlier = missing@;
            let kind = fs.entry_kind(full.as_str());
            proof {
                assert forall|q: int| 0 <= q < earlier.len() implies #[trigger] reported_missing(
                    fs.seen(),
                    old(fs).seen().len() as int,
                    join_path(self.root@, strs_of(earlier)[q]),
                ) by {
                    assert(reported_missing(before, old(fs).seen().len() as int, join_path(self.root@, strs_of(earlier)[q])));
                    lemma_missing_kept(before, fs.seen(), old(fs).seen().len() as int, join_path(self.root@, strs_of(earlier)[q]));
                }
            }
            if kind.is_err() {
                let path = tracked_paths[i].clone();
                missing.push(path);
                proof {
                    let last = fs.seen().len() - 1;
                    assert(kind_query(fs.seen()[last], join_path(self.root@, path@)));
                    assert(reported_missing(fs.seen(), old(fs).seen().len() as int, join_path(self.root@, path@)));
                    assert forall|q: int| 0 <= q < missing@.len() implies #[trigger] reported_missing(
                        fs.seen(),
                        old(fs).seen().len() as int,
                        join_path(self.root@, strs_of(missing@)[q]),
                    ) by {
                        if q < earlier.len() {
                            assert(strs_of(missing@)[q] == strs_of(earlier)[q]);
                        }
                    }
                }
            }
            i = i + 1;
        }
        let ghost after_missing = fs.seen();
        let head = self.current_head(runner)?;
        let comparison = match expected_commit {
            Some(e) => e,
            None => "HEAD",
        };
        let index_diff = run_git_allow_failure(
            runner,
            self.root.as_str(),
            strs4("diff-index", "--quiet", comparison, "--"),
        )?;
        let worktree_diff = run_git_allow_failure(runner, self.root.as_str(), strs3("diff-files", "--quiet", "--"))?;
        let branch = run_git_allow_failure(
            runner,
            self.root.as_str(),
            strs4("symbolic-ref", "--quiet", "--short", "HEAD"),
        )?;
        let lfs_paths = self.lfs_paths(&tracked_paths, runner)?;
        let mut lfs_available = true;
        let mut pointer_only: Vec<String> = Vec::new();
        if lfs_paths.len() > 0 {
            let lfs = run_git_allow_failure(runner, self.root.as_str(), strs2("lfs", "version"))?;
            lfs_available = lfs.success();
            if lfs_available {
                let mut j: usize = 0;
                while j < lfs_paths.len()
                    invariant
                        fs_reads(old(fs).seen(), fs.seen()),
                        fs_extends(after_missing, fs.seen()),
                        pointers_seen(fs.seen(), old(fs).seen().len() as int, self.root@, strs_of(pointer_only@)),
                    decreases lfs_paths@.len() - j,
                {
                    let full = join(self.root.as_str(), lfs_paths[j].as_str());
                    let ghost before = fs.seen();
                    let ghost earlier = pointer_only@;
                    let pointer = is_lfs_pointer(fs, full.as_str());
                    proof {
                        assert forall|q: int| 0 <= q < earlier.len() implies #[trigger] read_pointer(
                            fs.seen(),
                            old(fs).seen().len() as int,
                            join_path(self.root@, strs_of(earlier)[q]),
                        ) by {
                            assert(read_pointer(before, old(fs).seen().len() as int, join_path(self.root@, strs_of(earlier)[q])));
                            lemma_pointer_kept(before, fs.seen(), old(fs).seen().len() as int, join_path(self.root@, strs_of(earlier)[q]));
                        }
                    }
                    if pointer {
                        let path = lfs_paths[j].clone();
                        pointer_only.push(path);
                        proof {
                            assert(read_pointer(fs.seen(), before.len() as int, join_path(self.root@, path@)));
                            let w = choose|w: int|
                                before.len() <= w < fs.seen().len() && #[trigger] fs.seen()[w].0 == FsOp::ReadPrefix && fs.seen()[w].1
                                    == join_path(self.root@, path@) && (fs.seen()[w].3 matches FsAnswer::Bytes(Some(v)) && v@
                                    == lfs_pointer_prefix());
                            assert(read_pointer(fs.seen(), old(fs).seen().len() as int, join_path(self.root@, path@)));
                            assert forall|q: int| 0 <= q < pointer_only@.len() implies #[trigger] read_pointer(
                                fs.seen(),
                                old(fs).seen().len() as int,
                                join_path(self.root@, strs_of(pointer_only@)[q]),
                            ) by {
                                if q < earlier.len() {
                                    assert(strs_of(pointer_only@)[q] == strs_of(earlier)[q]);
                                }
                            }
                        }
                    }
                    j = j + 1;
                }
            }
        }
        let submodules = run_git_allow_failure(
            runner,
            self.root.as_str(),
            strs3("submodule", "status", "--recursive"),
        )?;
        let observations = SourceObservations {
            sparse,
            flags,
            missing,
            head,
            index_diff_status: index_diff.status,
            worktree_diff_status: worktree_diff.status,
            branch_status: branch.status,
            lfs_paths: lfs_paths.len(),
            lfs_available,
            pointer_only,
            submodules,
        };
        let issues = source_issues(&observations, expected_commit);
        proof {
            let sent = runner.sent();
            let k = old(runner).sent().len() as int;
            let j = sent.len() - 1;
            assert(observed_at(sent, k, j, observations, opt_text(expected_commit)));
            assert(pointers_seen(fs.seen(), old(fs).seen().len() as int, self.root@, strs_of(observations.pointer_only@)));
            assert forall|q: int| 0 <= q < strs_of(observations.missing@).len() implies #[trigger] reported_missing(
                fs.seen(),
                old(fs).seen().len() as int,
                join_path(self.root@, strs_of(observations.missing@)[q]),
            ) by {
                lemma_missing_kept(
                    after_missing,
                    fs.seen(),
                    old(fs).seen().len() as int,
                    join_path(self.root@, strs_of(observations.missing@)[q]),
                );
            }
        }
        Ok(SourceDiagnostics { issues, warnings, worktrees })
    }

    /// Initializes submodules recursively and then requires a clean
    /// submodule status.
    pub fn initialize_submodules<R: CommandRunner>(&self, runner: &mut Recorder<R>) -> (r: ToolResult<()>)
        ensures
            extends(old(runner).sent(), final(runner).sent()),
            final(runner).sent().len() > old(runner).sent().len(),
            final(runner).sent()[old(runner).sent().len() as int].0.program@ == "git"@,
            final(runner).sent()[old(runner).sent().len() as int].0.cwd matches Some(c) && c@ == self.root@,
            strs_of(final(runner).sent()[old(runner).sent().len() as int].0.args@) == seq![
                "submodule"@,
                "update"@,
                "--init"@,
                "--recursive"@,
            ],
            forall|i: int|
                old(runner).sent().len() < i < final(runner).sent().len() ==> !(#[trigger] final(runner).sent()[i]).0.mutating,
            r is Ok <==> final(runner).sent().len() == old(runner).sent().len() + 2 && crate::ddev::succeeded(
                final(runner).sent()[old(runner).sent().len() as int],
            ) && clean_submodules(final(runner).sent().last(), self.root@),
    {
        let request = git_request(
            self.root.as_str(),
            strs4("submodule", "update", "--init", "--recursive"),
        ).mutating();
        let output = runner.run(&request)?;
        if !output.success() {
            let issues = self.submodule_status(runner)?;
            return Err(submodule_initialization_failure(&issues));
        }
        let remaining = self.submodule_status(runner)?;
        submodule_verification(&remaining)
    }

    /// Materializes LFS content when tracked attributes use LFS.
    pub fn checkout_lfs<R: CommandRunner>(&self, runner: &mut Recorder<R>) -> (r: ToolResult<()>)
        ensures
            extends(old(runner).sent(), final(runner).sent()),
            final(runner).sent().len() > old(runner).sent().len(),
            git_at(final(runner).sent()[old(runner).sent().len() as int].0, self.root@),
            strs_of(final(runner).sent()[old(runner).sent().len() as int].0.args@) == seq![
                "ls-files"@,
                "--stage"@,
                "-z"@,
            ],
            forall|i: int|
                old(runner).sent().len() <= i < final(runner).sent().len() && (
                #[trigger] final(runner).sent()[i]).0.mutating ==> i == final(runner).sent().len() - 1 && is_lfs_checkout(
                    final(runner).sent()[i].0,
                    self.root@,
                ),
            r is Ok && final(runner).sent().last().0.mutating ==> crate::ddev::succeeded(final(runner).sent().last()),
    {
        let listing = run_git(runner, self.root.as_str(), strs3("ls-files", "--stage", "-z"))?;
        let entries = parse_tracked_paths(listing.as_str());
        let paths = self.stage_zero_paths(&entries);
        if self.lfs_paths(&paths, runner)?.len() == 0 {
            return Ok(());
        }
        let version = run_git_allow_failure(runner, self.root.as_str(), strs2("lfs", "version"))?;
        if !version.success() {
            return Err(ToolError::new(
                "Git LFS is required by tracked attributes but is unavailable; install Git LFS and rerun the source preparation".to_owned(),
            ));
        }
        let request = git_request(self.root.as_str(), strs2("lfs", "checkout")).mutating();
        let output = runner.run(&request)?;
        if output.success() {
            Ok(())
        } else {
            Err(ToolError::new(
                "Git LFS could not materialize local content; run a credentialed local Git LFS operation manually".to_owned(),
            ))
        }
    }

    fn submodule_status<R: CommandRunner>(&self, runner: &mut Recorder<R>) -> (r: ToolResult<Vec<String>>)
        ensures
            only_reads(old(runner).sent(), final(runner).sent()),
            final(runner).sent().len() == old(runner).sent().len() + 1,
            git_at(final(runner).sent().last().0, self.root@),
            strs_of(final(runner).sent().last().0.args@) == seq!["submodule"@, "status"@, "--recursive"@],
            final(runner).sent().last().1 matches Err(e) ==> r == Err::<Vec<String>, ToolError>(e),
            final(runner).sent().last().1 is Ok ==> r is Ok,
            r matches Ok(v) ==> (final(runner).sent().last().1 matches Ok(o) && strs_of(v@) == submodule_status_spec(
                o.status,
                o.stdout@,
            )),
    {
        let output = run_git_allow_failure(
            runner,
            self.root.as_str(),
            strs3("submodule", "status", "--recursive"),
        )?;
        Ok(submodule_status_issues(&output))
    }

    fn lfs_paths<R: CommandRunner>(&self, tracked_paths: &Vec<String>, runner: &mut Recorder<R>) -> (r: ToolResult<Vec<String>>)
        ensures
            tracked_paths@.len() == 0 ==> (r matches Ok(v) && v@.len() == 0),
            only_reads(old(runner).sent(), final(runner).sent()),
    {
        let mut out: Vec<String> = Vec::new();
        if tracked_paths.len() == 0 {
            return Ok(out);
        }
        let batches = plan_lfs_batches(tracked_paths);
        let ghost start = runner.sent();
        let mut i: usize = 0;
        while i < batches.len()
            invariant
                tracked_paths@.len() > 0,
                start == old(runner).sent(),
                only_reads(start, runner.sent()),
            decreases batches@.len() - i,
        {
            let found = self.lfs_paths_batch(&batches[i], runner)?;
            append_all(&mut out, found);
            i = i + 1;
        }
        Ok(out)
    }

    fn lfs_paths_batch<R: CommandRunner>(&self, batch: &Vec<String>, runner: &mut Recorder<R>) -> (r: ToolResult<Vec<String>>)
        ensures
            only_reads(old(runner).sent(), final(runner).sent()),
    {
        let mut args = strs4("check-attr", "-z", "filter", "--");
        let mut i: usize = 0;
        while i < batch.len()
            decreases batch@.len() - i,
        {
            args.push(batch[i].clone());
            i = i + 1;
        }
        let output = run_git_allow_failure(runner, self.root.as_str(), args)?;
        if !output.success() {
            return Err(ToolError::new(
                "Git attribute inspection failed; refusing to infer LFS readiness".to_owned(),
            ));
        }
        match parse_lfs_attributes(output.stdout.as_str()) {
            Some(v) => Ok(v),
            None => Err(ToolError::new(
                "Git returned malformed attribute output; refusing to infer LFS readiness".to_owned(),
            )),
        }
    }

    /// Requires a worktree without changes, untracked files or submodule
    /// issues.
    pub fn worktree_is_clean<R: CommandRunner>(&self, worktree: &str, runner: &mut Recorder<R>) -> (r: ToolResult<()>)
        ensures
            only_reads(old(runner).sent(), final(runner).sent()),
            r is Ok <==> final(runner).sent().len() == old(runner).sent().len() + 2 && clean_status(
                final(runner).sent()[old(runner).sent().len() as int],
                worktree@,
            ) && clean_submodules(final(runner).sent()[old(runner).sent().len() + 1int], worktree@),
    {
        let status = run_git_allow_failure(
            runner,
            worktree,
            strs3("status", "--porcelain", "--untracked-files=normal"),
        )?;
        worktree_status_result(worktree, &status)?;
        let submodule_status = run_git_allow_failure(
            runner,
            worktree,
            strs3("submodule", "status", "--recursive"),
        )?;
        worktree_submodule_result(worktree, &submodule_status)
    }
}

} // verus!
