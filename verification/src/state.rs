//! Ownership records: one file per managed workspace, kept under the Git
//! common directory, proving which worktrees and DDEV identities this tool
//! created.

use vstd::prelude::*;

use crate::command::{fails_with, ToolError, ToolResult};
use crate::config::io_error;
use crate::paths::{
    fs_event, fs_extends, fs_reads, kind_query, Files, FsAnswer, FsOp, join, join_path, parent_of, parent_path, DirError, EntryKind, FileSystem, WriteError};
use crate::text::{chars_of, concat3, concat4, decimal, push_decimal, string_of};

verus! {

/// Where the records live, relative to the Git common directory.
pub const STATE_DIRECTORY: &'static str = "ddev-workspaces/workspaces";

/// What the tool records about a workspace it created.
#[derive(Debug, Clone, PartialEq, Eq)]
pub struct OwnershipRecord {
    pub version: u32,
    pub project_id: String,
    pub common_directory: String,
    pub worktree_path: String,
    pub base_sha: String,
    pub branch: String,
    pub ddev_name: String,
    pub source_only: bool,
    pub ddev_app_root: Option<String>,
}

/// A record file found in the record directory: the workspace name it is
/// filed under, and the record or why it cannot be used.
#[derive(Debug, PartialEq, Eq)]
pub struct RecordEntry {
    pub name: String,
    pub record: Result<OwnershipRecord, String>,
}

impl Clone for RecordEntry {
    fn clone(&self) -> (r: Self) {
        RecordEntry {
            name: self.name.clone(),
            record: match &self.record {
                Ok(rec) => Ok(rec.clone()),
                Err(e) => Err(e.clone()),
            },
        }
    }
}

/// An exact copy of a record.
pub fn copy_record(r: &OwnershipRecord) -> (c: OwnershipRecord)
    ensures
        c == *r,
{
    OwnershipRecord {
        version: r.version,
        project_id: r.project_id.clone(),
        common_directory: r.common_directory.clone(),
        worktree_path: r.worktree_path.clone(),
        base_sha: r.base_sha.clone(),
        branch: r.branch.clone(),
        ddev_name: r.ddev_name.clone(),
        source_only: r.source_only,
        ddev_app_root: match &r.ddev_app_root {
            Some(a) => Some(a.clone()),
            None => None,
        },
    }
}

/// The record directory of a Git common directory.
pub open spec fn records_directory_of(common: Seq<char>) -> Seq<char> {
    join_path(common, STATE_DIRECTORY@)
}

/// The record file of a workspace.
pub open spec fn record_path_of(common: Seq<char>, name: Seq<char>) -> Seq<char> {
    join_path(records_directory_of(common), name + ".toml"@)
}

/// Distinct workspaces never share a record file.
pub proof fn lemma_record_path_injective(common: Seq<char>, a: Seq<char>, b: Seq<char>)
    requires
        crate::config::valid_name(a),
        crate::config::valid_name(b),
        record_path_of(common, a) == record_path_of(common, b),
    ensures
        a == b,
{
    let ra = a + ".toml"@;
    let rb = b + ".toml"@;
    assert(!crate::paths::is_abs(ra)) by {
        assert(ra[0] == a[0]);
    }
    assert(!crate::paths::is_abs(rb)) by {
        assert(rb[0] == b[0]);
    }
    let d = records_directory_of(common);
    let pa = record_path_of(common, a);
    if d.len() == 0 {
        assert(ra == rb);
    } else if d.last() == '/' {
        assert(ra =~= pa.skip(d.len() as int));
        assert(rb =~= pa.skip(d.len() as int));
    } else {
        assert(ra =~= pa.skip(d.len() as int + 1));
        assert(rb =~= pa.skip(d.len() as int + 1));
    }
    assert(a.len() == b.len());
    assert forall|i: int| 0 <= i < a.len() implies a[i] == b[i] by {
        assert(ra[i] == a[i]);
        assert(rb[i] == b[i]);
    }
    assert(a =~= b);
}

pub fn records_directory(common_directory: &str) -> (r: String)
    ensures
        r@ == records_directory_of(common_directory@),
{
    join(common_directory, STATE_DIRECTORY)
}

pub fn record_path(common_directory: &str, name: &str) -> (r: String)
    ensures
        r@ == record_path_of(common_directory@, name@),
{
    let directory = records_directory(common_directory);
    let mut file = name.to_owned();
    file.append(".toml");
    join(directory.as_str(), file.as_str())
}

/// How the use of the directory `path`, described as `label`, was refused:
/// something else is there, or it could not be inspected or created.
pub open spec fn directory_refused<T>(r: ToolResult<T>, label: Seq<char>, path: Seq<char>) -> bool {
    ||| fails_with(r, label + " "@ + path + " is not a regular directory; refusing to use it"@)
    ||| exists|d: Seq<char>| fails_with(r, "cannot inspect "@ + label + " "@ + path + ": "@ + d)
    ||| exists|d: Seq<char>| fails_with(r, "cannot create "@ + label + " "@ + path + ": "@ + d)
}

/// How preparing the record directory under `common` was refused: it has
/// no parent, or the manager directory or the record directory itself was
/// refused.
pub open spec fn records_directory_refused<T>(r: ToolResult<T>, common: Seq<char>) -> bool {
    ||| fails_with(r, "ownership directory has no parent"@)
    ||| (parent_of(records_directory_of(common)) matches Some(m) && directory_refused(
        r,
        "ownership manager directory"@,
        m,
    ))
    ||| directory_refused(r, "ownership directory"@, records_directory_of(common))
}

/// A directory the records depend on: used when it is a real directory,
/// created when missing, refused otherwise.
fn ensure_directory<F: FileSystem>(fs: &mut Files<F>, path: &str, label: &str) -> (r: ToolResult<()>)
    ensures
        r is Ok || directory_refused(r, label@, path@),
        fs_extends(old(fs).seen(), final(fs).seen()),
        forall|j: int|
            old(fs).seen().len() <= j < final(fs).seen().len() ==> (#[trigger] final(fs).seen()[j]).0 == FsOp::EntryKind
                || final(fs).seen()[j].0 == FsOp::CreateDir,
{
    match fs.entry_kind(path) {
        Ok(EntryKind::Directory) => Ok(()),
        Ok(_) => Err(ToolError::new(
            concat4(label, " ", path, " is not a regular directory; refusing to use it"),
        )),
        Err(e) => {
            if !e.not_found {
                let mut m = concat4("cannot inspect ", label, " ", path);
                m.append(": ");
                m.append(e.message.as_str());
                let r = Err(ToolError::new(m));
                assert(fails_with(r, "cannot inspect "@ + label@ + " "@ + path@ + ": "@ + e.message@));
                return r;
            }
            match fs.create_dir(path) {
                Ok(()) => Ok(()),
                Err(DirError::AlreadyExists(m)) | Err(DirError::Failed(m)) => {
                    let mut msg = concat4("cannot create ", label, " ", path);
                    msg.append(": ");
                    msg.append(m.as_str());
                    let r = Err(ToolError::new(msg));
                    assert(fails_with(r, "cannot create "@ + label@ + " "@ + path@ + ": "@ + m@));
                    r
                },
            }
        },
    }
}

fn ensure_records_directory<F: FileSystem>(fs: &mut Files<F>, common_directory: &str) -> (r: ToolResult<()>)
    ensures
        parent_of(records_directory_of(common_directory@)) is None ==> fails_with(
            r,
            "ownership directory has no parent"@,
        ),
        r is Ok || records_directory_refused(r, common_directory@),
        fs_extends(old(fs).seen(), final(fs).seen()),
        forall|j: int|
            old(fs).seen().len() <= j < final(fs).seen().len() ==> (#[trigger] final(fs).seen()[j]).0 == FsOp::EntryKind
                || final(fs).seen()[j].0 == FsOp::CreateDir,
{
    let directory = records_directory(common_directory);
    let manager = match parent_path(directory.as_str()) {
        Some(p) => p,
        None => {
            return Err(ToolError::new("ownership directory has no parent".to_owned()));
        },
    };
    ensure_directory(fs, manager.as_str(), "ownership manager directory")?;
    ensure_directory(fs, directory.as_str(), "ownership directory")
}

/// How a record directory at `path` was found unusable: something else is
/// there, or it could not be inspected.
pub open spec fn record_directory_unusable<T>(r: ToolResult<T>, path: Seq<char>) -> bool {
    ||| fails_with(r, "ownership directory "@ + path + " is not a regular directory; refusing to use it"@)
    ||| exists|d: Seq<char>| fails_with(r, "cannot inspect ownership directory "@ + path + ": "@ + d)
}

/// Whether a record directory exists; anything there but a real directory
/// is refused.
fn valid_directory<F: FileSystem>(fs: &mut Files<F>, path: &str) -> (r: ToolResult<bool>)
    ensures
        r is Ok || record_directory_unusable(r, path@),
        final(fs).seen() == old(fs).seen().push(
            (FsOp::EntryKind, path@, Seq::<char>::empty(), final(fs).seen().last().3),
        ),
        kind_query(final(fs).seen().last(), path@),
        r == Ok::<bool, ToolError>(true) <==> final(fs).seen().last().3 == FsAnswer::Kind(Ok(EntryKind::Directory)),
        r == Ok::<bool, ToolError>(false) <==> (final(fs).seen().last().3 matches FsAnswer::Kind(Err(e)) && e.not_found),
{
    match fs.entry_kind(path) {
        Ok(EntryKind::Directory) => Ok(true),
        Ok(_) => Err(ToolError::new(
            concat3("ownership directory ", path, " is not a regular directory; refusing to use it"),
        )),
        Err(e) => {
            if e.not_found {
                Ok(false)
            } else {
                let r = Err(ToolError::new(
                    concat4("cannot inspect ownership directory ", path, ": ", e.message.as_str()),
                ));
                assert(fails_with(r, "cannot inspect ownership directory "@ + path@ + ": "@ + e.message@));
                r
            }
        },
    }
}

/// A record file must be a regular file, never a symlink.
fn ensure_record_file<F: FileSystem>(fs: &mut Files<F>, path: &str) -> (r: ToolResult<()>)
    ensures
        fs_reads(old(fs).seen(), final(fs).seen()),
        r is Ok || fails_with(r, "ownership record "@ + path@ + " is not a regular file; refusing to use it"@)
            || exists|d: Seq<char>| fails_with(r, "ownership record "@ + path@ + " cannot be inspected: "@ + d),
{
    match fs.entry_kind(path) {
        Ok(EntryKind::File) => Ok(()),
        Ok(_) => Err(ToolError::new(
            concat3("ownership record ", path, " is not a regular file; refusing to use it"),
        )),
        Err(e) => {
            let r = Err(ToolError::new(
                concat4("ownership record ", path, " cannot be inspected: ", e.message.as_str()),
            ));
            assert(fails_with(r, "ownership record "@ + path@ + " cannot be inspected: "@ + e.message@));
            r
        },
    }
}

/// Reserves the record of a new workspace, filed under its branch. The file
/// is created exclusively: an existing record is never adopted, and a record
/// that could not be written completely is removed again. `serialize` gives
/// the record's text.
pub fn reserve<F: FileSystem, S: Fn(&OwnershipRecord) -> Result<String, String>>(
    fs: &mut Files<F>,
    common_directory: &str,
    record: &OwnershipRecord,
    serialize: &S,
) -> (r: ToolResult<String>)
    requires
        forall|x: &OwnershipRecord| serialize.requires((x,)),
    ensures
        r matches Ok(p) ==> p@ == record_path_of(common_directory@, record.branch@),
        parent_of(records_directory_of(common_directory@)) is None ==> fails_with(
            r,
            "ownership directory has no parent"@,
        ),
        r is Ok || records_directory_refused(r, common_directory@) || (exists|d: Seq<char>|
            fails_with(r, "TOML serialization error: "@ + d)) || fails_with(
            r,
            "ownership record already exists at "@ + record_path_of(common_directory@, record.branch@)
                + "; refusing to adopt it"@,
        ) || (exists|d: Seq<char>|
            fails_with(
                r,
                "cannot reserve ownership record "@ + record_path_of(common_directory@, record.branch@) + ": "@
                    + d,
            )) || (exists|d: Seq<char>|
            fails_with(
                r,
                "initial ownership reservation failed at "@ + record_path_of(common_directory@, record.branch@)
                    + ": "@ + d,
            )),
        fs_extends(old(fs).seen(), final(fs).seen()),
        forall|j: int|
            old(fs).seen().len() <= j < final(fs).seen().len() && (#[trigger] final(fs).seen()[j]).0 == FsOp::RemoveFile
                ==> {
                &&& j == final(fs).seen().len() - 1 && j >= 1
                &&& final(fs).seen()[j].1 == record_path_of(common_directory@, record.branch@)
                &&& final(fs).seen()[j - 1].0 == FsOp::CreateFile
                &&& final(fs).seen()[j - 1].1 == record_path_of(common_directory@, record.branch@)
                &&& final(fs).seen()[j - 1].3 matches FsAnswer::Write(Err(WriteError::Write(_)))
            },
        (final(fs).seen().len() > old(fs).seen().len() && final(fs).seen().last().0 == FsOp::CreateFile
            && final(fs).seen().last().3 matches FsAnswer::Write(Err(WriteError::Exists(_)))) ==> fails_with(
            r,
            "ownership record already exists at "@ + record_path_of(common_directory@, record.branch@)
                + "; refusing to adopt it"@,
        ),
        r is Ok ==> final(fs).seen().len() > old(fs).seen().len() && fs_event(
            final(fs).seen().last(),
            FsOp::CreateFile,
            record_path_of(common_directory@, record.branch@),
            FsAnswer::Write(Ok(())),
        ),
        forall|j: int|
            old(fs).seen().len() <= j < final(fs).seen().len() && (#[trigger] final(fs).seen()[j]).0 == FsOp::CreateFile
                && final(fs).seen()[j].3 == FsAnswer::Write(Ok(())) ==> j == final(fs).seen().len() - 1 && r is Ok,
{
    ensure_records_directory(fs, common_directory)?;
    let path = record_path(common_directory, record.branch.as_str());
    let contents = match serialize(record) {
        Ok(c) => c,
        Err(e) => {
            let mut m = "TOML serialization error: ".to_owned();
            m.append(e.as_str());
            let r = Err(ToolError::new(m));
            assert(fails_with(r, "TOML serialization error: "@ + e@));
            return r;
        },
    };
    let created = fs.create_file(path.as_str(), contents.as_str());
    match created {
        Ok(()) => {
            proof {
                crate::paths::lemma_written(created);
            }
            Ok(path)
        },
        Err(WriteError::Exists(_)) => Err(ToolError::new(
            concat3("ownership record already exists at ", path.as_str(), "; refusing to adopt it"),
        )),
        Err(WriteError::Create(e)) => {
            let r = Err(ToolError::new(
                concat4("cannot reserve ownership record ", path.as_str(), ": ", e.as_str()),
            ));
            assert(fails_with(r, "cannot reserve ownership record "@ + path@ + ": "@ + e@));
            r
        },
        Err(WriteError::Write(e)) => {
            let _ = fs.remove_file(path.as_str());
            let r = Err(ToolError::new(
                concat4("initial ownership reservation failed at ", path.as_str(), ": ", e.as_str()),
            ));
            assert(fails_with(r, "initial ownership reservation failed at "@ + path@ + ": "@ + e@));
            r
        },
    }
}

/// Why a record of version `v` is refused when listed.
pub open spec fn unsupported_version_message(v: u32) -> Seq<char> {
    "unsupported ownership record version "@ + decimal(v as nat)
}

/// Only version 1 records are supported.
pub fn validate_record_version(record: OwnershipRecord) -> (r: Result<OwnershipRecord, String>)
    ensures
        record.version == 1 ==> r == Ok::<OwnershipRecord, String>(record),
        record.version != 1 ==> (r matches Err(m) && m@ == unsupported_version_message(record.version)),
{
    if record.version == 1 {
        Ok(record)
    } else {
        let mut m = "unsupported ownership record version ".to_owned();
        push_decimal(&mut m, record.version as u64);
        Err(m)
    }
}

/// Loads the record of workspace `name`: a regular file whose text `parse`
/// reads, of version 1. Missing, unreadable and unsupported records are
/// refused.
pub fn load<F: FileSystem, P: Fn(&str) -> Result<OwnershipRecord, String>>(
    fs: &mut Files<F>,
    common_directory: &str,
    name: &str,
    parse: &P,
) -> (r: ToolResult<(String, OwnershipRecord)>)
    requires
        forall|s: &str| parse.requires((s,)),
    ensures
        r matches Ok((p, rec)) ==> p@ == record_path_of(common_directory@, name@) && rec.version == 1
            && exists|s: &str| parse.ensures((s,), Ok::<OwnershipRecord, String>(rec)),
        r is Ok || (exists|d: Seq<char>|
            fails_with(
                r,
                "no valid ownership record for `"@ + name@ + "` at "@ + record_path_of(common_directory@, name@)
                    + ": "@ + d + "; unmanaged paths are never removed"@,
            )) || (exists|d: Seq<char>|
            fails_with(
                r,
                "ownership record "@ + record_path_of(common_directory@, name@) + " is invalid: "@ + d
                    + "; repair or remove it manually"@,
            )) || (exists|v: u32|
            v != 1 && fails_with(
                r,
                "ownership record "@ + record_path_of(common_directory@, name@) + " has unsupported version "@
                    + decimal(v as nat) + "; v1 refuses it"@,
            )),
{
    let path = record_path(common_directory, name);
    if let Err(e) = ensure_record_file(fs, path.as_str()) {
        let detail = e.message();
        let r = Err(no_valid_record(name, path.as_str(), detail.as_str()));
        assert(fails_with(
            r,
            "no valid ownership record for `"@ + name@ + "` at "@ + path@ + ": "@ + detail@
                + "; unmanaged paths are never removed"@,
        ));
        return r;
    }
    let contents = match fs.read_to_string(path.as_str()) {
        Ok(c) => c,
        Err(e) => {
            let r = Err(no_valid_record(name, path.as_str(), e.as_str()));
            assert(fails_with(
                r,
                "no valid ownership record for `"@ + name@ + "` at "@ + path@ + ": "@ + e@
                    + "; unmanaged paths are never removed"@,
            ));
            return r;
        },
    };
    let record = match parse(contents.as_str()) {
        Ok(rec) => rec,
        Err(e) => {
            let mut m = concat4("ownership record ", path.as_str(), " is invalid: ", e.as_str());
            m.append("; repair or remove it manually");
            let r = Err(ToolError::new(m));
            assert(fails_with(r, "ownership record "@ + path@ + " is invalid: "@ + e@ + "; repair or remove it manually"@));
            return r;
        },
    };
    if record.version != 1 {
        let mut m = concat3("ownership record ", path.as_str(), " has unsupported version ");
        push_decimal(&mut m, record.version as u64);
        m.append("; v1 refuses it");
        let r = Err(ToolError::new(m));
        assert(fails_with(
            r,
            "ownership record "@ + path@ + " has unsupported version "@ + decimal(record.version as nat)
                + "; v1 refuses it"@,
        ));
        return r;
    }
    Ok((path, record))
}

fn no_valid_record(name: &str, path: &str, detail: &str) -> (e: ToolError)
    ensures
        e.code() == 1,
        e.msg() == "no valid ownership record for `"@ + name@ + "` at "@ + path@ + ": "@ + detail@
            + "; unmanaged paths are never removed"@,
{
    let mut m = concat3("no valid ownership record for `", name, "` at ");
    m.append(path);
    m.append(": ");
    m.append(detail);
    m.append("; unmanaged paths are never removed");
    ToolError::new(m)
}

// ---------------------------------------------------------------------------
// Listing
// ---------------------------------------------------------------------------

/// The order of names: lexicographic by character, which is the byte order
/// of their UTF-8 encodings.
pub open spec fn name_le(a: Seq<char>, b: Seq<char>) -> bool
    decreases a.len(),
{
    if a.len() == 0 {
        true
    } else if b.len() == 0 {
        false
    } else if a[0] != b[0] {
        a[0] < b[0]
    } else {
        name_le(a.drop_first(), b.drop_first())
    }
}

/// Any two names are ordered one way or the other.
pub proof fn lemma_name_le_total(a: Seq<char>, b: Seq<char>)
    ensures
        name_le(a, b) || name_le(b, a),
    decreases a.len(),
{
    if a.len() > 0 && b.len() > 0 && a[0] == b[0] {
        lemma_name_le_total(a.drop_first(), b.drop_first());
    }
}

/// The order of names is transitive.
pub proof fn lemma_name_le_transitive(a: Seq<char>, b: Seq<char>, c: Seq<char>)
    requires
        name_le(a, b),
        name_le(b, c),
    ensures
        name_le(a, c),
    decreases a.len(),
{
    if a.len() > 0 && b.len() > 0 && c.len() > 0 && a[0] == b[0] && b[0] == c[0] {
        lemma_name_le_transitive(a.drop_first(), b.drop_first(), c.drop_first());
    }
}

fn names_le(a: &str, b: &str) -> (r: bool)
    ensures
        r == name_le(a@, b@),
{
    let x = chars_of(a);
    let y = chars_of(b);
    let mut i: usize = 0;
    assert(a@.skip(0) =~= a@ && b@.skip(0) =~= b@);
    while i < x.len() && i < y.len()
        invariant
            x@ == a@,
            y@ == b@,
            i <= x@.len(),
            i <= y@.len(),
            name_le(a@, b@) == name_le(a@.skip(i as int), b@.skip(i as int)),
        decreases x@.len() - i,
    {
        let ghost sa = a@.skip(i as int);
        let ghost sb = b@.skip(i as int);
        assert(sa[0] == x@[i as int] && sb[0] == y@[i as int]);
        if x[i] != y[i] {
            return x[i] < y[i];
        }
        assert(sa.drop_first() =~= a@.skip(i + 1));
        assert(sb.drop_first() =~= b@.skip(i + 1));
        i = i + 1;
    }
    i == x.len()
}

/// Whether record entries are sorted by name.
pub open spec fn sorted_by_name(es: Seq<RecordEntry>) -> bool {
    forall|i: int, j: int| 0 <= i < j < es.len() ==> name_le(#[trigger] es[i].name@, #[trigger] es[j].name@)
}

/// Inserts `entry` into a sorted list, keeping it sorted.
fn insert_by_name(entries: &mut Vec<RecordEntry>, entry: RecordEntry)
    requires
        sorted_by_name(old(entries)@),
    ensures
        sorted_by_name(final(entries)@),
        final(entries)@.len() == old(entries)@.len() + 1,
        final(entries)@.contains(entry),
        forall|x: RecordEntry| old(entries)@.contains(x) ==> final(entries)@.contains(x),
        forall|k: int|
            0 <= k < final(entries)@.len() ==> #[trigger] final(entries)@[k] == entry || old(entries)@.contains(
                final(entries)@[k],
            ),
{
    let mut p: usize = 0;
    while p < entries.len() && names_le(entries[p].name.as_str(), entry.name.as_str())
        invariant
            p <= entries@.len(),
            forall|k: int| 0 <= k < p ==> name_le(#[trigger] entries@[k].name@, entry.name@),
        decreases entries@.len() - p,
    {
        p = p + 1;
    }
    let ghost before = entries@;
    proof {
        if p < before.len() {
            lemma_name_le_total(before[p as int].name@, entry.name@);
        }
    }
    entries.insert(p, entry);
    proof {
        let after = entries@;
        assert(after =~= before.insert(p as int, entry));
        before.insert_ensures(p as int, entry);
        assert forall|i: int, j: int| 0 <= i < j < after.len() implies name_le(
            #[trigger] after[i].name@,
            #[trigger] after[j].name@,
        ) by {
            if j < p {
                assert(after[i] == before[i] && after[j] == before[j]);
            } else if j == p {
                assert(after[i] == before[i]);
            } else if i == p {
                assert(after[j] == before[j - 1]);
                if j - 1 > p {
                    lemma_name_le_transitive(entry.name@, before[p as int].name@, before[j - 1].name@);
                }
            } else if i < p {
                assert(after[i] == before[i] && after[j] == before[j - 1]);
            } else {
                assert(after[i] == before[i - 1] && after[j] == before[j - 1]);
            }
        }
        assert(after[p as int] == entry);
        assert forall|x: RecordEntry| before.contains(x) implies after.contains(x) by {
            let j = choose|j: int| 0 <= j < before.len() && before[j] == x;
            if j < p {
                assert(after[j] == x);
            } else {
                assert(after[j + 1] == x);
            }
        }
        assert forall|k: int| 0 <= k < after.len() implies #[trigger] after[k] == entry || before.contains(after[k]) by {
            if k < p {
                assert(after[k] == before[k]);
            } else if k > p {
                assert(after[k] == before[k - 1]);
            }
        }
    }
}

/// The stem of a record file name: the part before `.toml`; `None` for
/// other names (a name consisting of a dot and an extension has no
/// extension).
pub open spec fn toml_stem(file: Seq<char>) -> Option<Seq<char>> {
    if file.len() > 5 && file.skip(file.len() - 5) == ".toml"@ {
        Some(file.take(file.len() - 5))
    } else {
        None
    }
}

fn record_stem(file: &str) -> (r: Option<String>)
    ensures
        match r {
            Some(s) => toml_stem(file@) == Some(s@),
            None => toml_stem(file@) is None,
        },
{
    let cs = chars_of(file);
    let n = cs.len();
    if n <= 5 {
        return None;
    }
    let suffix = crate::text::copy_range(cs.as_slice(), n - 5, n);
    let ext = chars_of(".toml");
    if !crate::text::chars_eq(suffix.as_slice(), ext.as_slice()) {
        assert(suffix@ =~= file@.skip(n - 5));
        return None;
    }
    assert(suffix@ =~= file@.skip(n - 5));
    let stem = crate::text::copy_range(cs.as_slice(), 0, n - 5);
    assert(stem@ =~= file@.take(n - 5));
    Some(string_of(stem.as_slice()))
}

/// Reads one listed record: a regular file whose text `parse` reads, of a
/// supported version.
fn read_listed_record<F: FileSystem, P: Fn(&str) -> Result<OwnershipRecord, String>>(
    fs: &mut Files<F>,
    path: &str,
    parse: &P,
) -> (r: Result<OwnershipRecord, String>)
    requires
        forall|s: &str| parse.requires((s,)),
    ensures
        r matches Ok(rec) ==> rec.version == 1,
        fs_reads(old(fs).seen(), final(fs).seen()),
{
    if let Err(e) = ensure_record_file(fs, path) {
        return Err(e.message());
    }
    let contents = fs.read_to_string(path)?;
    let record = parse(contents.as_str())?;
    validate_record_version(record)
}

/// The record names that the file names `files` give, in their order: the
/// stems of the `.toml` files.
pub open spec fn stems_of(files: Seq<String>) -> Seq<Seq<char>>
    decreases files.len(),
{
    if files.len() == 0 {
        Seq::empty()
    } else {
        let rest = stems_of(files.drop_last());
        match toml_stem(files.last()@) {
            Some(stem) => rest.push(stem),
            None => rest,
        }
    }
}

/// Whether `es` holds one entry for each of the record names `stems`.
pub open spec fn names_match(es: Seq<RecordEntry>, stems: Seq<Seq<char>>) -> bool {
    &&& es.len() == stems.len()
    &&& forall|i: int| 0 <= i < es.len() ==> stems.contains(#[trigger] es[i].name@)
    &&& forall|k: int|
        #![trigger stems[k]]
        0 <= k < stems.len() ==> exists|i: int| #![trigger es[i]] 0 <= i < es.len() && es[i].name@ == stems[k]
}

/// The records under a Git common directory, sorted by name. Files that are
/// not `.toml` are ignored; a record that cannot be used is listed with the
/// reason. Without a record directory there are no records; a record
/// directory that is not a real directory is refused.
pub fn list<F: FileSystem, P: Fn(&str) -> Result<OwnershipRecord, String>>(
    fs: &mut Files<F>,
    common_directory: &str,
    parse: &P,
) -> (r: ToolResult<Vec<RecordEntry>>)
    requires
        forall|s: &str| parse.requires((s,)),
    ensures
        r matches Ok(es) ==> {
            &&& sorted_by_name(es@)
            &&& forall|i: int| 0 <= i < es@.len() ==> ((#[trigger] es@[i]).record matches Ok(rec) ==> rec.version == 1)
            &&& forall|i: int|
                0 <= i < es@.len() ==> exists|f: Seq<char>| toml_stem(f) == Some((#[trigger] es@[i]).name@)
        },
        fs_reads(old(fs).seen(), final(fs).seen()),
        parent_of(records_directory_of(common_directory@)) matches Some(m) ==> {
            let s0 = old(fs).seen().len() as int;
            let seen = final(fs).seen();
            let listed = seen.len() > s0 + 2 && seen[s0 + 2].0 == FsOp::ReadDir && seen[s0 + 2].1
                == records_directory_of(common_directory@);
            &&& fs_reads(old(fs).seen(), seen)
            &&& seen.len() > s0 && kind_query(seen[s0], m)
            &&& ((seen[s0].3 matches FsAnswer::Kind(Err(e)) && e.not_found) ==> (r matches Ok(es) && es@.len() == 0))
            &&& seen[s0].3 == FsAnswer::Kind(Ok(EntryKind::Directory)) ==> seen.len() > s0 + 1 && kind_query(
                seen[s0 + 1],
                records_directory_of(common_directory@),
            )
            &&& (seen[s0].3 == FsAnswer::Kind(Ok(EntryKind::Directory)) && (seen[s0 + 1].3 matches FsAnswer::Kind(
                Err(e),
            ) && e.not_found)) ==> (r matches Ok(es) && es@.len() == 0)
            &&& (seen[s0].3 == FsAnswer::Kind(Ok(EntryKind::Directory)) && seen[s0 + 1].3 == FsAnswer::Kind(
                Ok(EntryKind::Directory),
            )) ==> listed
            &&& (r matches Ok(es) && es@.len() > 0) ==> listed
            &&& (r matches Ok(es) ==> (listed || (es@.len() == 0 && exists|j: int|
                s0 <= j < seen.len() && seen[j].0 == FsOp::EntryKind && (#[trigger] seen[j].3 matches FsAnswer::Kind(
                    Err(e),
                ) && e.not_found))))
            &&& (listed && r is Ok) ==> (seen[s0 + 2].3 matches FsAnswer::Names(Ok(files)) && (r matches Ok(es)
                && names_match(es@, stems_of(files@))))
        },
        parent_of(records_directory_of(common_directory@)) is None ==> fails_with(
            r,
            "ownership directory has no parent"@,
        ),
        r is Ok || fails_with(r, "ownership directory has no parent"@) || (parent_of(
            records_directory_of(common_directory@),
        ) matches Some(m) && record_directory_unusable(r, m)) || record_directory_unusable(
            r,
            records_directory_of(common_directory@),
        ) || (exists|d: Seq<char>| fails_with(r, "I/O error: "@ + d)),
{
    let directory = records_directory(common_directory);
    let manager = match parent_path(directory.as_str()) {
        Some(p) => p,
        None => {
            return Err(ToolError::new("ownership directory has no parent".to_owned()));
        },
    };
    let ghost s0 = fs.seen().len() as int;
    if !valid_directory(fs, manager.as_str())? {
        return Ok(Vec::new());
    }
    if !valid_directory(fs, directory.as_str())? {
        return Ok(Vec::new());
    }
    let files = match fs.read_dir(directory.as_str()) {
        Ok(files) => files,
        Err(e) => {
            let r = Err(io_error(e.as_str()));
            assert(fails_with(r, "I/O error: "@ + e@));
            return r;
        },
    };
    let ghost listing = fs.seen();
    let mut entries: Vec<RecordEntry> = Vec::new();
    let mut i: usize = 0;
    while i < files.len()
        invariant
            i <= files@.len(),
            fs_reads(listing, fs.seen()),
            names_match(entries@, stems_of(files@.take(i as int))),
            forall|s: &str| parse.requires((s,)),
            sorted_by_name(entries@),
            forall|k: int| 0 <= k < entries@.len() ==> ((#[trigger] entries@[k]).record matches Ok(rec) ==> rec.version == 1),
            forall|k: int|
                0 <= k < entries@.len() ==> exists|f: Seq<char>| toml_stem(f) == Some((#[trigger] entries@[k]).name@),
        decreases files@.len() - i,
    {
        proof {
            assert(files@.take(i + 1).drop_last() =~= files@.take(i as int));
            assert(files@.take(i + 1).last() == files@[i as int]);
        }
        let ghost prev = entries@;
        if let Some(stem) = record_stem(files[i].as_str()) {
            let path = join(directory.as_str(), files[i].as_str());
            let record = read_listed_record(fs, path.as_str(), parse);
            let entry = RecordEntry { name: stem, record };
            let ghost before = entries@;
            insert_by_name(&mut entries, entry);
            proof {
                assert forall|k: int| 0 <= k < entries@.len() implies ((#[trigger] entries@[k]).record matches Ok(
                    rec,
                ) ==> rec.version == 1) by {
                    if entries@[k] != entry {
                        let j = choose|j: int| 0 <= j < before.len() && before[j] == entries@[k];
                        assert(before[j] == entries@[k]);
                    }
                }
                assert forall|k: int| 0 <= k < entries@.len() implies exists|f: Seq<char>|
                    toml_stem(f) == Some((#[trigger] entries@[k]).name@) by {
                    if entries@[k] != entry {
                        let j = choose|j: int| 0 <= j < before.len() && before[j] == entries@[k];
                        assert(before[j] == entries@[k]);
                    } else {
                        assert(toml_stem(files@[i as int]@) == Some(entries@[k].name@));
                    }
                }
                let st = stems_of(files@.take(i + 1));
                assert(st == stems_of(files@.take(i as int)).push(entry.name@));
                assert forall|k: int| 0 <= k < entries@.len() implies st.contains(#[trigger] entries@[k].name@) by {
                    if entries@[k] != entry {
                        let j = choose|j: int| 0 <= j < before.len() && before[j] == entries@[k];
                        assert(stems_of(files@.take(i as int)).contains(before[j].name@));
                        let q = choose|q: int| 0 <= q < stems_of(files@.take(i as int)).len() && stems_of(files@.take(i as int))[q] == before[j].name@;
                        assert(st[q] == before[j].name@);
                    } else {
                        assert(st[st.len() - 1] == entry.name@);
                    }
                }
                assert forall|q: int| 0 <= q < st.len() implies exists|k: int|
                    #![trigger entries@[k]] 0 <= k < entries@.len() && entries@[k].name@ == #[trigger] st[q] by {
                    if q == st.len() - 1 {
                        let k = choose|k: int| 0 <= k < entries@.len() && entries@[k] == entry;
                        assert(entries@[k].name@ == st[q]);
                    } else {
                        let j = choose|j: int| #![trigger before[j]] 0 <= j < before.len() && before[j].name@ == stems_of(files@.take(i as int))[q];
                        assert(before.contains(before[j]));
                        let k = choose|k: int| 0 <= k < entries@.len() && entries@[k] == before[j];
                        assert(entries@[k].name@ == st[q]);
                    }
                }
                assert(names_match(entries@, stems_of(files@.take(i + 1))));
            }
        } else {
            proof {
                let next = files@.take(i + 1);
                assert(stems_of(next) == stems_of(files@.take(i as int)));
                assert(names_match(entries@, stems_of(next)));
            }
        }
        i = i + 1;
    }
    proof {
        assert(files@.take(files@.len() as int) =~= files@);
    }
    Ok(entries)
}

/// Deletes a record file after its workspace was removed.
pub fn delete<F: FileSystem>(fs: &mut Files<F>, path: &str) -> (r: ToolResult<()>)
    ensures
        r is Err ==> exists|d: Seq<char>|
            fails_with(
                r,
                "workspace was removed but ownership record "@ + path@ + " could not be deleted: "@ + d
                    + "; delete it manually only after rechecking ownership"@,
            ),
{
    match fs.remove_file(path) {
        Ok(()) => Ok(()),
        Err(e) => {
            let mut m = concat4("workspace was removed but ownership record ", path, " could not be deleted: ", e.as_str());
            m.append("; delete it manually only after rechecking ownership");
            let r = Err(ToolError::new(m));
            assert(fails_with(
                r,
                "workspace was removed but ownership record "@ + path@ + " could not be deleted: "@ + e@
                    + "; delete it manually only after rechecking ownership"@,
            ));
            r
        },
    }
}

} // verus!
