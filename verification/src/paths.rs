//! A model of Unix paths as text, and the file-system queries the library
//! makes through an implementation supplied by its caller.

use vstd::prelude::*;

use crate::text::{chars_of, join_strings, join_with, push_char, seqs_of, split_chars, split_on, str_eq, string_of, strs_of};

verus! {

/// Whether a path is absolute.
pub open spec fn is_abs(p: Seq<char>) -> bool {
    p.len() > 0 && p[0] == '/'
}

/// Separator-delimited segments that name no component: empty and `.`.
pub open spec fn is_skip(seg: Seq<char>) -> bool {
    seg.len() == 0 || seg == seq!['.']
}

/// The segments kept as components.
pub open spec fn keep_parts(segs: Seq<Seq<char>>) -> Seq<Seq<char>>
    decreases segs.len(),
{
    if segs.len() == 0 {
        Seq::empty()
    } else {
        let prev = keep_parts(segs.drop_last());
        if is_skip(segs.last()) {
            prev
        } else {
            prev.push(segs.last())
        }
    }
}

/// The components of a path, as `Path::components` yields them apart from the
/// root and a leading `.`: normal names and `..`.
pub open spec fn parts(p: Seq<char>) -> Seq<Seq<char>> {
    keep_parts(split_on(p, '/'))
}

/// The path that `components` render to, absolute or not.
pub open spec fn render(abs: bool, components: Seq<Seq<char>>) -> Seq<char> {
    if abs {
        seq!['/'] + join_with(components, '/')
    } else {
        join_with(components, '/')
    }
}

/// `Path::join`: an absolute `rel` replaces `base`; otherwise `rel` follows
/// `base` after one separator.
pub open spec fn join_path(base: Seq<char>, rel: Seq<char>) -> Seq<char> {
    if is_abs(rel) {
        rel
    } else if base.len() == 0 {
        rel
    } else if base.last() == '/' {
        base + rel
    } else {
        base + seq!['/'] + rel
    }
}

/// Path equality: same anchoring and same components.
pub open spec fn path_eq(a: Seq<char>, b: Seq<char>) -> bool {
    is_abs(a) == is_abs(b) && parts(a) == parts(b)
}

/// `Path::starts_with`: `base` is a whole-component prefix of `p`.
pub open spec fn path_starts_with(p: Seq<char>, base: Seq<char>) -> bool {
    is_abs(p) == is_abs(base) && parts(base).is_prefix_of(parts(p))
}

/// `Path::strip_prefix`, rendered.
pub open spec fn strip_path_prefix(p: Seq<char>, base: Seq<char>) -> Option<Seq<char>> {
    if path_starts_with(p, base) {
        Some(join_with(parts(p).skip(parts(base).len() as int), '/'))
    } else {
        None
    }
}

/// A component as `parts` yields it: non-empty, not `.`, without `/`.
pub open spec fn plain_component(c: Seq<char>) -> bool {
    c.len() > 0 && c != seq!['.'] && forall|i: int| 0 <= i < c.len() ==> c[i] != '/'
}

proof fn lemma_keep_parts_append(x: Seq<Seq<char>>, y: Seq<Seq<char>>)
    ensures
        keep_parts(x + y) == keep_parts(x) + keep_parts(y),
    decreases y.len(),
{
    if y.len() == 0 {
        assert(x + y =~= x);
        assert(keep_parts(x) + keep_parts(y) =~= keep_parts(x));
    } else {
        lemma_keep_parts_append(x, y.drop_last());
        assert((x + y).drop_last() =~= x + y.drop_last());
        assert((x + y).last() == y.last());
        if !is_skip(y.last()) {
            assert((keep_parts(x) + keep_parts(y.drop_last())).push(y.last()) =~= keep_parts(x) + keep_parts(
                y.drop_last(),
            ).push(y.last()));
        }
    }
}

/// The components of two paths joined by a separator are those of the
/// first followed by those of the second.
pub proof fn lemma_parts_joined(a: Seq<char>, b: Seq<char>)
    ensures
        parts(a + seq!['/'] + b) == parts(a) + parts(b),
{
    crate::text::lemma_split_on_joined(a, b, '/');
    lemma_keep_parts_append(split_on(a, '/'), split_on(b, '/'));
}

proof fn lemma_keep_parts_plain(segs: Seq<Seq<char>>)
    requires
        forall|i: int, j: int| 0 <= i < segs.len() && 0 <= j < segs[i].len() ==> #[trigger] segs[i][j] != '/',
    ensures
        forall|i: int| 0 <= i < keep_parts(segs).len() ==> plain_component(#[trigger] keep_parts(segs)[i]),
    decreases segs.len(),
{
    if segs.len() > 0 {
        let prev = segs.drop_last();
        assert forall|i: int, j: int| 0 <= i < prev.len() && 0 <= j < prev[i].len() implies #[trigger] prev[i][j]
            != '/' by {
            assert(prev[i] == segs[i]);
        }
        lemma_keep_parts_plain(prev);
        let kp = keep_parts(prev);
        if !is_skip(segs.last()) {
            assert forall|i: int| 0 <= i < kp.push(segs.last()).len() implies plain_component(
                #[trigger] kp.push(segs.last())[i],
            ) by {
                if i < kp.len() {
                    assert(kp.push(segs.last())[i] == kp[i]);
                } else {
                    let c = segs.last();
                    assert forall|j: int| 0 <= j < c.len() implies c[j] != '/' by {
                        assert(segs[segs.len() - 1][j] == c[j]);
                    }
                }
            }
        }
    }
}

/// Every component of a path is plain.
pub proof fn lemma_parts_plain(p: Seq<char>)
    ensures
        forall|i: int| 0 <= i < parts(p).len() ==> plain_component(#[trigger] parts(p)[i]),
{
    crate::text::lemma_split_on_pieces(p, '/');
    lemma_keep_parts_plain(split_on(p, '/'));
}

proof fn lemma_parts_empty()
    ensures
        parts(Seq::<char>::empty()) == Seq::<Seq<char>>::empty(),
{
    let segs = split_on(Seq::<char>::empty(), '/');
    assert(segs == seq![Seq::<char>::empty()]);
    assert(segs.drop_last() =~= Seq::<Seq<char>>::empty());
    assert(is_skip(segs.last()));
    assert(keep_parts(Seq::<Seq<char>>::empty()) == Seq::<Seq<char>>::empty());
}

proof fn lemma_parts_single(c: Seq<char>)
    requires
        plain_component(c),
    ensures
        parts(c) == seq![c],
{
    crate::text::lemma_split_on_without_sep(c, '/');
    let segs = split_on(c, '/');
    assert(segs.drop_last() =~= Seq::<Seq<char>>::empty());
    assert(segs.last() == c);
    assert(!is_skip(c));
    assert(keep_parts(Seq::<Seq<char>>::empty()) == Seq::<Seq<char>>::empty());
    assert(Seq::<Seq<char>>::empty().push(c) =~= seq![c]);
}

/// Plain components joined with `/` have exactly those components.
pub proof fn lemma_parts_of_joined_components(cs: Seq<Seq<char>>)
    requires
        forall|i: int| 0 <= i < cs.len() ==> plain_component(#[trigger] cs[i]),
    ensures
        parts(join_with(cs, '/')) == cs,
    decreases cs.len(),
{
    if cs.len() == 0 {
        lemma_parts_empty();
        assert(cs =~= Seq::<Seq<char>>::empty());
    } else {
        let last = cs.last();
        assert(plain_component(cs[cs.len() - 1]));
        lemma_parts_single(last);
        if cs.len() == 1 {
            assert(cs =~= seq![last]);
        } else {
            let prev = cs.drop_last();
            assert forall|i: int| 0 <= i < prev.len() implies plain_component(#[trigger] prev[i]) by {
                assert(prev[i] == cs[i]);
            }
            lemma_parts_of_joined_components(prev);
            lemma_parts_joined(join_with(prev, '/'), last);
            assert(prev + seq![last] =~= cs);
        }
    }
}

/// Joining a relative path below a base appends its components to the
/// base's, and keeps the base's anchoring.
pub proof fn lemma_join_path_parts(base: Seq<char>, rel: Seq<char>)
    requires
        !is_abs(rel),
    ensures
        parts(join_path(base, rel)) == parts(base) + parts(rel),
        base.len() > 0 ==> is_abs(join_path(base, rel)) == is_abs(base),
{
    if base.len() == 0 {
        assert(base =~= Seq::<char>::empty());
        lemma_parts_empty();
        assert(parts(base) + parts(rel) =~= parts(rel));
    } else if base.last() == '/' {
        let b0 = base.drop_last();
        assert(base =~= b0 + seq!['/'] + Seq::<char>::empty());
        lemma_parts_joined(b0, Seq::<char>::empty());
        lemma_parts_empty();
        assert(parts(b0) + Seq::<Seq<char>>::empty() =~= parts(b0));
        assert(parts(base) =~= parts(b0));
        assert(base + rel =~= b0 + seq!['/'] + rel);
        lemma_parts_joined(b0, rel);
        assert((base + rel)[0] == base[0]);
    } else {
        lemma_parts_joined(base, rel);
        assert((base + seq!['/'] + rel)[0] == base[0]);
    }
}

/// The components of `p`, as strings.
pub fn path_parts(p: &str) -> (out: Vec<String>)
    ensures
        strs_of(out@) == parts(p@),
{
    let cs = chars_of(p);
    let segs = split_chars(cs.as_slice(), '/');
    let mut out: Vec<String> = Vec::new();
    let mut i: usize = 0;
    while i < segs.len()
        invariant
            i <= segs@.len(),
            seqs_of(segs@) == split_on(p@, '/'),
            strs_of(out@) =~= keep_parts(seqs_of(segs@).take(i as int)),
        decreases segs@.len() - i,
    {
        let seg = &segs[i];
        let ghost sv = seg@;
        assert(seqs_of(segs@)[i as int] == sv);
        assert(seqs_of(segs@).take(i + 1).drop_last() =~= seqs_of(segs@).take(i as int));
        let skip = seg.len() == 0 || (seg.len() == 1 && seg[0] == '.');
        assert(skip == is_skip(sv)) by {
            if sv.len() == 1 && sv[0] == '.' {
                assert(sv =~= seq!['.']);
            }
        }
        if !skip {
            let ghost before = strs_of(out@);
            out.push(string_of(seg.as_slice()));
            assert(strs_of(out@) =~= before.push(sv));
        }
        i = i + 1;
    }
    assert(seqs_of(segs@).take(segs@.len() as int) =~= seqs_of(segs@));
    out
}

/// Whether a path is absolute.
pub fn path_is_absolute(p: &str) -> (b: bool)
    ensures
        b == is_abs(p@),
{
    let cs = chars_of(p);
    cs.len() > 0 && cs[0] == '/'
}

/// `Path::join`.
pub fn join(base: &str, rel: &str) -> (out: String)
    ensures
        out@ == join_path(base@, rel@),
{
    if path_is_absolute(rel) {
        return rel.to_owned();
    }
    let bs = chars_of(base);
    if bs.len() == 0 {
        return rel.to_owned();
    }
    let mut out = base.to_owned();
    if bs[bs.len() - 1] != '/' {
        push_char(&mut out, '/');
    }
    out.append(rel);
    out
}

/// Whether two string sequences are equal.
pub fn strings_eq(a: &Vec<String>, b: &Vec<String>) -> (r: bool)
    ensures
        r == (strs_of(a@) == strs_of(b@)),
{
    if a.len() != b.len() {
        assert(strs_of(a@).len() != strs_of(b@).len());
        return false;
    }
    let mut i: usize = 0;
    while i < a.len()
        invariant
            a@.len() == b@.len(),
            i <= a@.len(),
            forall|k: int| 0 <= k < i ==> a@[k]@ == b@[k]@,
        decreases a@.len() - i,
    {
        if !str_eq(a[i].as_str(), b[i].as_str()) {
            assert(strs_of(a@)[i as int] != strs_of(b@)[i as int]);
            return false;
        }
        i = i + 1;
    }
    assert(strs_of(a@) =~= strs_of(b@));
    true
}

/// Whether `a` is a prefix of `b`, element by element.
pub fn strings_prefix(a: &Vec<String>, b: &Vec<String>) -> (r: bool)
    ensures
        r == strs_of(a@).is_prefix_of(strs_of(b@)),
{
    if a.len() > b.len() {
        return false;
    }
    let mut i: usize = 0;
    while i < a.len()
        invariant
            a@.len() <= b@.len(),
            i <= a@.len(),
            forall|k: int| 0 <= k < i ==> a@[k]@ == b@[k]@,
        decreases a@.len() - i,
    {
        if !str_eq(a[i].as_str(), b[i].as_str()) {
            assert(strs_of(a@)[i as int] != strs_of(b@)[i as int]);
            return false;
        }
        i = i + 1;
    }
    assert(strs_of(b@).take(a@.len() as int) =~= strs_of(a@));
    true
}

/// Path equality, component by component.
pub fn same_path(a: &str, b: &str) -> (r: bool)
    ensures
        r == path_eq(a@, b@),
{
    if path_is_absolute(a) != path_is_absolute(b) {
        return false;
    }
    let pa = path_parts(a);
    let pb = path_parts(b);
    strings_eq(&pa, &pb)
}

/// `Path::starts_with`.
pub fn starts_with_path(p: &str, base: &str) -> (r: bool)
    ensures
        r == path_starts_with(p@, base@),
{
    if path_is_absolute(p) != path_is_absolute(base) {
        return false;
    }
    let pp = path_parts(p);
    let pb = path_parts(base);
    strings_prefix(&pb, &pp)
}

/// `Path::strip_prefix`, rendered with `/` between the remaining components.
pub fn strip_prefix_path(p: &str, base: &str) -> (r: Option<String>)
    ensures
        match r {
            Some(s) => strip_path_prefix(p@, base@) == Some(s@),
            None => strip_path_prefix(p@, base@) is None,
        },
{
    if !starts_with_path(p, base) {
        return None;
    }
    let pp = path_parts(p);
    let pb = path_parts(base);
    let mut rest: Vec<String> = Vec::new();
    let mut i = pb.len();
    while i < pp.len()
        invariant
            pb@.len() <= i <= pp@.len(),
            strs_of(pb@).is_prefix_of(strs_of(pp@)),
            strs_of(rest@) =~= strs_of(pp@).subrange(pb@.len() as int, i as int),
        decreases pp@.len() - i,
    {
        let ghost before = strs_of(rest@);
        rest.push(pp[i].clone());
        assert(strs_of(rest@) =~= before.push(strs_of(pp@)[i as int]));
        i = i + 1;
    }
    assert(strs_of(pp@).skip(pb@.len() as int) =~= strs_of(rest@));
    Some(join_strings(&rest, '/'))
}

/// What `symlink_metadata` reports about an existing directory entry.
#[derive(Debug, Clone, Copy, PartialEq, Eq)]
pub enum EntryKind {
    File,
    Directory,
    Symlink,
    Other,
}

/// The file-system queries the library's checks depend on. Paths are text;
/// failures carry the system's message.
pub trait FileSystem {
    /// `fs::canonicalize`.
    fn canonicalize(&mut self, path: &str) -> Result<String, String>;

    /// `fs::symlink_metadata`, which does not follow a final symlink.
    fn entry_kind(&mut self, path: &str) -> Result<EntryKind, FsError>;

    /// `Path::exists`, following symlinks.
    fn path_exists(&mut self, path: &str) -> bool;

    /// `Path::is_dir`, following symlinks.
    fn is_dir(&mut self, path: &str) -> bool;

    /// `fs::read_to_string`.
    fn read_to_string(&mut self, path: &str) -> Result<String, String>;

    /// The value of an environment variable, when it is set and is text.
    fn env_var(&mut self, name: &str) -> Option<String>;

    /// The bytes that one `read` into a buffer of `len` bytes returns from the
    /// start of the file at `path`; `None` when it cannot be opened or read.
    fn read_prefix(&mut self, path: &str, len: usize) -> Option<Vec<u8>>;

    /// Creates a new file at `path` holding `contents`, failing when anything
    /// already exists there; the data is synced before success is reported.
    fn create_file(&mut self, path: &str, contents: &str) -> Result<(), WriteError>;

    /// `fs::create_dir` of one directory.
    fn create_dir(&mut self, path: &str) -> Result<(), DirError>;

    /// Creates one directory that only its owner may enter (mode `0700` on
    /// Unix).
    fn create_private_dir(&mut self, path: &str) -> Result<(), DirError>;

    /// `fs::remove_file`.
    fn remove_file(&mut self, path: &str) -> Result<(), String>;

    /// `fs::remove_dir_all`.
    fn remove_dir_all(&mut self, path: &str) -> Result<(), String>;

    /// The names of the entries of a directory, in the order the system
    /// lists them; names that are not text are left out.
    fn read_dir(&mut self, path: &str) -> Result<Vec<String>, String>;
}

/// The kind of a file-system query.
#[derive(Debug, Clone, Copy, PartialEq, Eq)]
pub enum FsOp {
    Canonicalize,
    EntryKind,
    PathExists,
    IsDir,
    ReadToString,
    EnvVar,
    ReadPrefix,
    CreateFile,
    CreateDir,
    CreatePrivateDir,
    RemoveFile,
    RemoveDirAll,
    ReadDir,
}

/// The answer a file-system query got.
pub enum FsAnswer {
    Text(Result<String, String>),
    Kind(Result<EntryKind, FsError>),
    Flag(bool),
    Var(Option<String>),
    Bytes(Option<Vec<u8>>),
    Write(Result<(), WriteError>),
    Dir(Result<(), DirError>),
    Done(Result<(), String>),
    Names(Result<Vec<String>, String>),
}

/// A file system together with the record of every query the library made
/// of it: the kind of query, the path (or variable name), the contents
/// written (empty for other queries) and the answer, in order. The library
/// reaches the file system only through this record, so its contracts can
/// say what was asked, what was answered and what was written.
pub struct Files<F> {
    inner: F,
    seen: Ghost<Seq<(FsOp, Seq<char>, Seq<char>, FsAnswer)>>,
}

/// Whether the recorded query `x` is `op` on `path`, answered `answer`.
pub open spec fn fs_event(
    x: (FsOp, Seq<char>, Seq<char>, FsAnswer),
    op: FsOp,
    path: Seq<char>,
    answer: FsAnswer,
) -> bool {
    x.0 == op && x.1 == path && x.3 == answer
}

/// Whether the recorded query `x` asked for the kind of entry at `path`.
pub open spec fn kind_query(x: (FsOp, Seq<char>, Seq<char>, FsAnswer), path: Seq<char>) -> bool {
    x.0 == FsOp::EntryKind && x.1 == path && x.3 is Kind
}

/// Whether a kind query recorded in `seen` from position `from` on found
/// nothing usable at `path`.
pub open spec fn reported_missing(seen: Seq<(FsOp, Seq<char>, Seq<char>, FsAnswer)>, from: int, path: Seq<char>) -> bool {
    exists|j: int| from <= j < seen.len() && #[trigger] kind_query(seen[j], path) && seen[j].3->Kind_0 is Err
}

/// A query found stays recorded as the record grows.
pub proof fn lemma_missing_kept(
    s1: Seq<(FsOp, Seq<char>, Seq<char>, FsAnswer)>,
    s2: Seq<(FsOp, Seq<char>, Seq<char>, FsAnswer)>,
    from: int,
    path: Seq<char>,
)
    requires
        reported_missing(s1, from, path),
        fs_extends(s1, s2),
        0 <= from,
    ensures
        reported_missing(s2, from, path),
{
    let j = choose|j: int| from <= j < s1.len() && #[trigger] kind_query(s1[j], path) && s1[j].3->Kind_0 is Err;
    assert(s2[j] == s1[j]);
}

/// Whether the recorded query `x` asked whether `path` exists.
pub open spec fn asked_exists(x: (FsOp, Seq<char>, Seq<char>, FsAnswer), path: Seq<char>) -> bool {
    &&& x.0 == FsOp::PathExists
    &&& x.1 == path
    &&& x.3 is Flag
}

/// Whether a query of kind `op` leaves the file system as it was.
pub open spec fn reads_only(op: FsOp) -> bool {
    !(op == FsOp::CreateFile || op == FsOp::CreateDir || op == FsOp::CreatePrivateDir || op == FsOp::RemoveFile
        || op == FsOp::RemoveDirAll)
}

/// Whether the recorded query `x` left something new at its path: a file it
/// created (also one whose contents could not then be written) or a
/// directory it created.
pub open spec fn made(x: (FsOp, Seq<char>, Seq<char>, FsAnswer)) -> bool {
    ||| x.0 == FsOp::CreateFile && (x.3 matches FsAnswer::Write(w) && (w is Ok || w matches Err(WriteError::Write(_))))
    ||| (x.0 == FsOp::CreateDir || x.0 == FsOp::CreatePrivateDir) && (x.3 matches FsAnswer::Dir(Ok(_)))
}

/// Whether the recorded query `x` removes what is at `path`.
pub open spec fn unmakes(x: (FsOp, Seq<char>, Seq<char>, FsAnswer), path: Seq<char>) -> bool {
    (x.0 == FsOp::RemoveFile || x.0 == FsOp::RemoveDirAll) && x.1 == path
}

/// Whether everything made by the queries from position `from` of `seen` on
/// was asked to be removed again by a later query.
pub open spec fn leaves_nothing(seen: Seq<(FsOp, Seq<char>, Seq<char>, FsAnswer)>, from: int) -> bool {
    forall|j: int|
        from <= j < seen.len() && made(#[trigger] seen[j]) ==> exists|k: int|
            j < k < seen.len() && #[trigger] unmakes(seen[k], seen[j].1)
}

/// Whether `after` keeps the queries of `before` and perhaps adds more.
pub open spec fn fs_extends(
    before: Seq<(FsOp, Seq<char>, Seq<char>, FsAnswer)>,
    after: Seq<(FsOp, Seq<char>, Seq<char>, FsAnswer)>,
) -> bool {
    &&& before.len() <= after.len()
    &&& forall|i: int| 0 <= i < before.len() ==> #[trigger] after[i] == before[i]
}

/// Whether a query of kind `op` removes something.
pub open spec fn removes(op: FsOp) -> bool {
    op == FsOp::RemoveFile || op == FsOp::RemoveDirAll
}

/// Whether `after` extends `before` with queries that remove nothing.
pub open spec fn fs_keeps(
    before: Seq<(FsOp, Seq<char>, Seq<char>, FsAnswer)>,
    after: Seq<(FsOp, Seq<char>, Seq<char>, FsAnswer)>,
) -> bool {
    &&& fs_extends(before, after)
    &&& forall|i: int| before.len() <= i < after.len() ==> !removes((#[trigger] after[i]).0)
}

/// Whether `after` extends `before` with queries that change nothing.
pub open spec fn fs_reads(
    before: Seq<(FsOp, Seq<char>, Seq<char>, FsAnswer)>,
    after: Seq<(FsOp, Seq<char>, Seq<char>, FsAnswer)>,
) -> bool {
    &&& fs_extends(before, after)
    &&& forall|i: int| before.len() <= i < after.len() ==> reads_only((#[trigger] after[i]).0)
}

impl<F: FileSystem> Files<F> {
    /// A record of a file system that has been asked nothing yet.
    pub fn new(inner: F) -> (r: Self)
        ensures
            r.seen() == Seq::<(FsOp, Seq<char>, Seq<char>, FsAnswer)>::empty(),
    {
        Files { inner, seen: Ghost(Seq::empty()) }
    }

    /// The queries made so far, each with its answer.
    pub closed spec fn seen(&self) -> Seq<(FsOp, Seq<char>, Seq<char>, FsAnswer)> {
        self.seen@
    }

    /// The file system the queries go to.
    pub closed spec fn system(&self) -> F {
        self.inner
    }

    /// The file system, to look at it.
    pub fn inner(&self) -> (r: &F)
        ensures
            *r == self.system(),
    {
        &self.inner
    }

    /// The file system, to change it outside the record.
    pub fn inner_mut(&mut self) -> (r: &mut F)
        ensures
            *r == old(self).system(),
            final(self).seen() == old(self).seen(),
            final(self).system() == *final(r),
    {
        &mut self.inner
    }

    pub fn canonicalize(&mut self, path: &str) -> (r: Result<String, String>)
        ensures
            final(self).seen() == old(self).seen().push((FsOp::Canonicalize, path@, Seq::empty(), FsAnswer::Text(r))),
    {
        let r = self.inner.canonicalize(path);
        self.seen = Ghost(self.seen@.push((FsOp::Canonicalize, path@, Seq::empty(), FsAnswer::Text(r))));
        r
    }

    pub fn entry_kind(&mut self, path: &str) -> (r: Result<EntryKind, FsError>)
        ensures
            final(self).seen() == old(self).seen().push((FsOp::EntryKind, path@, Seq::empty(), FsAnswer::Kind(r))),
    {
        let r = self.inner.entry_kind(path);
        self.seen = Ghost(self.seen@.push((FsOp::EntryKind, path@, Seq::empty(), FsAnswer::Kind(r))));
        r
    }

    pub fn path_exists(&mut self, path: &str) -> (r: bool)
        ensures
            final(self).seen() == old(self).seen().push((FsOp::PathExists, path@, Seq::empty(), FsAnswer::Flag(r))),
    {
        let r = self.inner.path_exists(path);
        self.seen = Ghost(self.seen@.push((FsOp::PathExists, path@, Seq::empty(), FsAnswer::Flag(r))));
        r
    }

    pub fn is_dir(&mut self, path: &str) -> (r: bool)
        ensures
            final(self).seen() == old(self).seen().push((FsOp::IsDir, path@, Seq::empty(), FsAnswer::Flag(r))),
    {
        let r = self.inner.is_dir(path);
        self.seen = Ghost(self.seen@.push((FsOp::IsDir, path@, Seq::empty(), FsAnswer::Flag(r))));
        r
    }

    pub fn read_to_string(&mut self, path: &str) -> (r: Result<String, String>)
        ensures
            final(self).seen() == old(self).seen().push((FsOp::ReadToString, path@, Seq::empty(), FsAnswer::Text(r))),
    {
        let r = self.inner.read_to_string(path);
        self.seen = Ghost(self.seen@.push((FsOp::ReadToString, path@, Seq::empty(), FsAnswer::Text(r))));
        r
    }

    pub fn env_var(&mut self, name: &str) -> (r: Option<String>)
        ensures
            final(self).seen() == old(self).seen().push((FsOp::EnvVar, name@, Seq::empty(), FsAnswer::Var(r))),
    {
        let r = self.inner.env_var(name);
        self.seen = Ghost(self.seen@.push((FsOp::EnvVar, name@, Seq::empty(), FsAnswer::Var(r))));
        r
    }

    pub fn read_prefix(&mut self, path: &str, len: usize) -> (r: Option<Vec<u8>>)
        ensures
            final(self).seen() == old(self).seen().push((FsOp::ReadPrefix, path@, Seq::empty(), FsAnswer::Bytes(r))),
    {
        let r = self.inner.read_prefix(path, len);
        self.seen = Ghost(self.seen@.push((FsOp::ReadPrefix, path@, Seq::empty(), FsAnswer::Bytes(r))));
        r
    }

    pub fn create_file(&mut self, path: &str, contents: &str) -> (r: Result<(), WriteError>)
        ensures
            final(self).seen() == old(self).seen().push((FsOp::CreateFile, path@, contents@, FsAnswer::Write(r))),
    {
        let r = self.inner.create_file(path, contents);
        self.seen = Ghost(self.seen@.push((FsOp::CreateFile, path@, contents@, FsAnswer::Write(r))));
        r
    }

    pub fn create_dir(&mut self, path: &str) -> (r: Result<(), DirError>)
        ensures
            final(self).seen() == old(self).seen().push((FsOp::CreateDir, path@, Seq::empty(), FsAnswer::Dir(r))),
    {
        let r = self.inner.create_dir(path);
        self.seen = Ghost(self.seen@.push((FsOp::CreateDir, path@, Seq::empty(), FsAnswer::Dir(r))));
        r
    }

    pub fn create_private_dir(&mut self, path: &str) -> (r: Result<(), DirError>)
        ensures
            final(self).seen() == old(self).seen().push(
                (FsOp::CreatePrivateDir, path@, Seq::empty(), FsAnswer::Dir(r)),
            ),
    {
        let r = self.inner.create_private_dir(path);
        self.seen = Ghost(self.seen@.push((FsOp::CreatePrivateDir, path@, Seq::empty(), FsAnswer::Dir(r))));
        r
    }

    pub fn remove_file(&mut self, path: &str) -> (r: Result<(), String>)
        ensures
            final(self).seen() == old(self).seen().push((FsOp::RemoveFile, path@, Seq::empty(), FsAnswer::Done(r))),
    {
        let r = self.inner.remove_file(path);
        self.seen = Ghost(self.seen@.push((FsOp::RemoveFile, path@, Seq::empty(), FsAnswer::Done(r))));
        r
    }

    pub fn remove_dir_all(&mut self, path: &str) -> (r: Result<(), String>)
        ensures
            final(self).seen() == old(self).seen().push((FsOp::RemoveDirAll, path@, Seq::empty(), FsAnswer::Done(r))),
    {
        let r = self.inner.remove_dir_all(path);
        self.seen = Ghost(self.seen@.push((FsOp::RemoveDirAll, path@, Seq::empty(), FsAnswer::Done(r))));
        r
    }

    pub fn read_dir(&mut self, path: &str) -> (r: Result<Vec<String>, String>)
        ensures
            final(self).seen() == old(self).seen().push((FsOp::ReadDir, path@, Seq::empty(), FsAnswer::Names(r))),
    {
        let r = self.inner.read_dir(path);
        self.seen = Ghost(self.seen@.push((FsOp::ReadDir, path@, Seq::empty(), FsAnswer::Names(r))));
        r
    }
}

/// A failed file-system query: whether nothing existed at the path, and the
/// system's message.
#[derive(Debug, Clone, PartialEq, Eq)]
pub struct FsError {
    pub not_found: bool,
    pub message: String,
}

/// Why `create_file` failed: something already exists at the path, the
/// file could not be created for another reason, or its contents could not
/// be written and synced (the file then remains). Each carries the system's
/// message.
#[derive(Debug, Clone, PartialEq, Eq)]
pub enum WriteError {
    Exists(String),
    Create(String),
    Write(String),
}

/// Why `create_dir` failed, with the system's message.
#[derive(Debug, Clone, PartialEq, Eq)]
pub enum DirError {
    AlreadyExists(String),
    Failed(String),
}

/// A successful write carries nothing but its success.
pub proof fn lemma_written(r: Result<(), WriteError>)
    requires
        r is Ok,
    ensures
        r == Ok::<(), WriteError>(()),
{
    assert(r matches Ok(u) && u == ());
}

/// The first `k` components rendered as a path.
pub fn render_prefix(abs: bool, ps: &Vec<String>, k: usize) -> (out: String)
    requires
        k <= ps@.len(),
    ensures
        out@ == render(abs, strs_of(ps@).take(k as int)),
{
    let mut first: Vec<String> = Vec::new();
    let mut i: usize = 0;
    while i < k
        invariant
            i <= k <= ps@.len(),
            strs_of(first@) =~= strs_of(ps@).take(i as int),
        decreases k - i,
    {
        let ghost before = strs_of(first@);
        first.push(ps[i].clone());
        assert(strs_of(first@) =~= before.push(ps@[i as int]@));
        i = i + 1;
    }
    let joined = join_strings(&first, '/');
    if abs {
        let mut out = String::new();
        push_char(&mut out, '/');
        out.append(joined.as_str());
        out
    } else {
        joined
    }
}

/// The parent of a path: all components but the last; `None` for a path
/// without components.
pub open spec fn parent_of(p: Seq<char>) -> Option<Seq<char>> {
    if parts(p).len() == 0 {
        None
    } else {
        Some(render(is_abs(p), parts(p).drop_last()))
    }
}

/// `Path::parent`, rendered.
pub fn parent_path(p: &str) -> (r: Option<String>)
    ensures
        match r {
            Some(s) => parent_of(p@) == Some(s@),
            None => parent_of(p@) is None,
        },
{
    let ps = path_parts(p);
    if ps.len() == 0 {
        return None;
    }
    let abs = path_is_absolute(p);
    let out = render_prefix(abs, &ps, ps.len() - 1);
    assert(strs_of(ps@).take(ps@.len() - 1) =~= strs_of(ps@).drop_last());
    Some(out)
}

/// The nearest ancestor of `path`, starting with `path` itself, that exists
/// according to `fs`; the root (or the empty relative path) when none does.
/// It asks about `path`, then about each shorter ancestor in turn, and stops
/// at the first that exists.
pub fn nearest_existing_parent<F: FileSystem>(fs: &mut Files<F>, path: &str) -> (out: String)
    ensures
        out@ == path@ || exists|k: int|
            0 <= k < parts(path@).len() && out@ == render(is_abs(path@), parts(path@).take(k)),
        fs_reads(old(fs).seen(), final(fs).seen()),
        final(fs).seen().len() > old(fs).seen().len(),
        asked_exists(final(fs).seen()[old(fs).seen().len() as int], path@),
        forall|m: int|
            1 <= m && old(fs).seen().len() + m < final(fs).seen().len() ==> asked_exists(
                #[trigger] final(fs).seen()[old(fs).seen().len() + m],
                render(is_abs(path@), parts(path@).take(parts(path@).len() - m)),
            ),
        forall|i: int|
            old(fs).seen().len() <= i < final(fs).seen().len() - 1 ==> (#[trigger] final(fs).seen()[i]).3
                == FsAnswer::Flag(false),
        final(fs).seen().last().3 == FsAnswer::Flag(true) ==> out@ == final(fs).seen().last().1,
        final(fs).seen().last().3 != FsAnswer::Flag(true) ==> out@ == (if parts(path@).len() == 0 {
            path@
        } else {
            render(is_abs(path@), parts(path@).take(0))
        }),
{
    let ghost start = old(fs).seen().len() as int;
    let exists_here = fs.path_exists(path);
    if exists_here {
        return path.to_owned();
    }
    let abs = path_is_absolute(path);
    let ps = path_parts(path);
    if ps.len() == 0 {
        return path.to_owned();
    }
    let mut k = ps.len();
    while k > 0
        invariant
            k <= ps@.len(),
            strs_of(ps@) == parts(path@),
            abs == is_abs(path@),
            ps@.len() > 0,
            start == old(fs).seen().len(),
            fs_reads(old(fs).seen(), fs.seen()),
            fs.seen().len() == start + 1 + (ps@.len() - k),
            asked_exists(fs.seen()[start], path@),
            forall|m: int|
                1 <= m && start + m < fs.seen().len() ==> asked_exists(
                    #[trigger] fs.seen()[start + m],
                    render(is_abs(path@), parts(path@).take(parts(path@).len() - m)),
                ),
            forall|i: int| start <= i < fs.seen().len() ==> (#[trigger] fs.seen()[i]).3 == FsAnswer::Flag(false),
        decreases k,
    {
        k = k - 1;
        let candidate = render_prefix(abs, &ps, k);
        let found = fs.path_exists(candidate.as_str());
        if found {
            return candidate;
        }
    }
    render_prefix(abs, &ps, 0)
}

} // verus!
