//! Archive extraction, planned as explicit filesystem actions.
//!
//! The archive is parsed in memory through the `zip` crate; the entry list
//! is enumerated in archive order and turned into a plan: a directory entry
//! becomes a directory creation, a file entry becomes a creation of its
//! parent directory followed by a file write, and on success the source
//! archive is removed last. An entry that cannot be read aborts the plan at
//! that entry: the actions for the entries before it are still handed out,
//! since extraction materializes entries in order and rolls nothing back.
//! The process boundary performs the actions; this module guarantees exactly
//! which actions are performed, in which order.
//!
//! Entry paths are taken in their sanitized form: absolute prefixes and
//! parent-directory components are dropped before the path is joined under
//! the destination, so a crafted entry name cannot climb out of it.

use std::io::Cursor;
use vstd::prelude::*;
use zip::ZipArchive;

use crate::paths::spec_join;
use crate::paths::join_path;
use crate::text::parent_of;
use crate::text::parent_dir;

verus! {

/// Why an extraction failed.
#[derive(Debug)]
pub enum ExtractError {
    /// The archive could not be opened as a zip file.
    ArchiveOpen(String),
    /// An entry could not be read out of the archive.
    ArchiveEntry(String),
}

impl ExtractError {
    /// The human-readable message carried by the error.
    pub fn message(&self) -> (r: &String)
        ensures
            r == match self {
                ExtractError::ArchiveOpen(m) => m,
                ExtractError::ArchiveEntry(m) => m,
            },
    {
        match self {
            ExtractError::ArchiveOpen(m) => m,
            ExtractError::ArchiveEntry(m) => m,
        }
    }
}

/// A read-only view over one archive member.
pub struct ArchiveEntry {
    /// The entry's stored path, relative to the extraction root, sanitized.
    pub relative_path: String,
    /// Whether the entry denotes a directory (its stored name ends with a
    /// separator).
    pub is_directory: bool,
    /// The entry's decompressed bytes; empty for a directory.
    pub data: Vec<u8>,
}

impl View for ArchiveEntry {
    type V = (Seq<char>, bool, Seq<u8>);

    open spec fn view(&self) -> (Seq<char>, bool, Seq<u8>) {
        (self.relative_path@, self.is_directory, self.data@)
    }
}

#[verifier::external_type_specification]
#[verifier::external_body]
#[verifier::reject_recursive_types(R)]
pub struct ExZipArchive<R>(ZipArchive<R>);

#[verifier::external_type_specification]
#[verifier::external_body]
#[verifier::reject_recursive_types(T)]
pub struct ExCursor<T>(Cursor<T>);

/// The entries an opened archive holds, in archive order: for each, its
/// sanitized relative path, whether it is a directory, and its decompressed
/// bytes.
pub uninterp spec fn archive_entries(a: ZipArchive<Cursor<Vec<u8>>>) -> Seq<
    (Seq<char>, bool, Seq<u8>),
>;

/// The entry list a byte buffer parses to as a zip archive, or `None` when
/// it is not one. Parsing an in-memory buffer is a pure function of its
/// bytes.
pub uninterp spec fn zip_parse(bytes: Seq<u8>) -> Option<Seq<(Seq<char>, bool, Seq<u8>)>>;

/// Whether entry `i` of an opened archive can be read out: its data is
/// present, not password-protected, decompresses, and passes the checksum.
/// For an in-memory archive this depends on the archive value alone.
pub uninterp spec fn entry_readable(a: ZipArchive<Cursor<Vec<u8>>>, i: int) -> bool;

/// Whether entry `i` of the archive that `bytes` parse to can be read out:
/// the same condition as `entry_readable`, as the pure function of the bytes
/// that it is.
pub uninterp spec fn zip_entry_readable(bytes: Seq<u8>, i: int) -> bool;

/// Whether `i` marks a parent-directory component of the path `p`.
pub open spec fn parent_component_at(p: Seq<char>, i: int) -> bool {
    &&& 0 <= i && i + 2 <= p.len()
    &&& p.subrange(i, i + 2) == ".."@
    &&& (i == 0 || p[i - 1] == '/')
    &&& (i + 2 == p.len() || p[i + 2] == '/')
}

/// A sanitized entry path: relative (no leading separator) and free of
/// parent-directory components, so joining it under a destination cannot
/// escape the destination.
pub open spec fn sane_entry_path(p: Seq<char>) -> bool {
    &&& (p.len() > 0 ==> p[0] != '/')
    &&& forall|i: int| !parent_component_at(p, i)
}

/// Relies on `zip::ZipArchive::new` over an in-memory cursor: reading the
/// central directory either yields the archive's entry list or fails, as a
/// pure function of the bytes — and so is the readability of each entry.
/// Entry paths are the sanitized names (`ZipFileData::file_name_sanitized`
/// keeps only normal path components), hence relative and free of
/// parent-directory components.
#[verifier::external_body]
fn open_archive(bytes: Vec<u8>) -> (r: Result<ZipArchive<Cursor<Vec<u8>>>, ExtractError>)
    ensures
        match r {
            Ok(a) => {
                &&& zip_parse(bytes@) == Some(archive_entries(a))
                &&& forall|i: int| entry_readable(a, i) == zip_entry_readable(bytes@, i)
                &&& forall|i: int|
                    0 <= i < archive_entries(a).len() ==> sane_entry_path(
                        #[trigger] archive_entries(a)[i].0,
                    )
            },
            Err(e) => zip_parse(bytes@) is None && e matches ExtractError::ArchiveOpen(_),
        },
{
    match ZipArchive::new(Cursor::new(bytes)) {
        Ok(a) => Ok(a),
        Err(e) => Err(ExtractError::ArchiveOpen(e.to_string())),
    }
}

/// Relies on `zip::ZipArchive::len`: the number of entries the archive
/// holds.
#[verifier::external_body]
fn archive_len(a: &ZipArchive<Cursor<Vec<u8>>>) -> (n: usize)
    ensures
        n == archive_entries(*a).len(),
{
    a.len()
}

/// Relies on `zip::ZipArchive::by_index`, `ZipFile::is_dir`,
/// `ZipFile::mangled_name` and `std::io::Read::read_to_end`: entry `i` of an
/// in-memory archive, its path sanitized, the directory flag decided by the
/// zip crate from the stored name's trailing separator. Reading succeeds
/// exactly when the entry is readable, moves only the reader's position, and
/// so leaves the entry list and every entry's readability unchanged.
#[verifier::external_body]
fn read_entry(a: &mut ZipArchive<Cursor<Vec<u8>>>, i: usize) -> (r: Result<
    ArchiveEntry,
    ExtractError,
>)
    requires
        i < archive_entries(*old(a)).len(),
    ensures
        archive_entries(*final(a)) == archive_entries(*old(a)),
        forall|j: int| entry_readable(*final(a), j) == entry_readable(*old(a), j),
        r is Ok <==> entry_readable(*old(a), i as int),
        match r {
            Ok(e) => e@ == archive_entries(*old(a))[i as int],
            Err(e) => e matches ExtractError::ArchiveEntry(_),
        },
{
    let mut file = match a.by_index(i) {
        Ok(f) => f,
        Err(e) => return Err(ExtractError::ArchiveEntry(e.to_string())),
    };
    let is_directory = file.is_dir();
    let relative_path = file.mangled_name().to_string_lossy().into_owned();
    let mut data = Vec::new();
    if let Err(e) = std::io::Read::read_to_end(&mut file, &mut data) {
        return Err(ExtractError::ArchiveEntry(e.to_string()));
    }
    Ok(ArchiveEntry { relative_path, is_directory, data })
}

/// One filesystem effect of an extraction.
#[derive(Debug)]
pub enum FsAction {
    /// Create the directory and all missing ancestors.
    MkDirAll(String),
    /// Create or overwrite the file with the given bytes, last write wins.
    WriteFile(String, Vec<u8>),
    /// Delete the file.
    RemoveFile(String),
}

/// The mathematical form of one filesystem action.
pub enum ActionModel {
    MkDirAll(Seq<char>),
    WriteFile(Seq<char>, Seq<u8>),
    RemoveFile(Seq<char>),
}

impl View for FsAction {
    type V = ActionModel;

    open spec fn view(&self) -> ActionModel {
        match self {
            FsAction::MkDirAll(p) => ActionModel::MkDirAll(p@),
            FsAction::WriteFile(p, d) => ActionModel::WriteFile(p@, d@),
            FsAction::RemoveFile(p) => ActionModel::RemoveFile(p@),
        }
    }
}

/// The views of a sequence of actions.
pub open spec fn plan_views(s: Seq<FsAction>) -> Seq<ActionModel> {
    s.map_values(|a: FsAction| a@)
}

/// The destination path of an entry: its relative path joined under the
/// extraction root.
pub open spec fn entry_target(entry: (Seq<char>, bool, Seq<u8>), dest: Seq<char>) -> Seq<char> {
    spec_join(dest, entry.0)
}

/// The actions that materialize one entry under `dest`, in order.
pub open spec fn entry_actions(entry: (Seq<char>, bool, Seq<u8>), dest: Seq<char>) -> Seq<
    ActionModel,
> {
    if entry.1 {
        seq![ActionModel::MkDirAll(entry_target(entry, dest))]
    } else {
        seq![
            ActionModel::MkDirAll(parent_of(entry_target(entry, dest))),
            ActionModel::WriteFile(entry_target(entry, dest), entry.2),
        ]
    }
}

/// The actions that materialize a whole entry list under `dest`, in archive
/// order.
pub open spec fn plan_of(entries: Seq<(Seq<char>, bool, Seq<u8>)>, dest: Seq<char>) -> Seq<
    ActionModel,
>
    decreases entries.len(),
{
    if entries.len() == 0 {
        Seq::empty()
    } else {
        plan_of(entries.drop_last(), dest) + entry_actions(entries.last(), dest)
    }
}

/// The full extraction plan: materialize every entry, then delete the source
/// archive.
pub open spec fn extraction_plan(
    entries: Seq<(Seq<char>, bool, Seq<u8>)>,
    dest: Seq<char>,
    archive_path: Seq<char>,
) -> Seq<ActionModel> {
    plan_of(entries, dest).push(ActionModel::RemoveFile(archive_path))
}

/// Whether the first `n` entries of the archive that `bytes` parse to can
/// all be read out.
pub open spec fn all_entries_readable(bytes: Seq<u8>, n: int) -> bool {
    forall|i: int| 0 <= i < n ==> zip_entry_readable(bytes, i)
}

/// An aborted extraction: the actions for the entries read before the
/// failing one — extraction materializes entries in order and rolls nothing
/// back, so these have to be performed — together with the error itself.
#[derive(Debug)]
pub struct ExtractAbort {
    /// The actions for the entries that precede the failure, in order.
    pub prefix: Vec<FsAction>,
    /// Why the extraction stopped.
    pub error: ExtractError,
}

/// Extending an entry list appends that entry's actions to the plan.
proof fn lemma_plan_of_step(entries: Seq<(Seq<char>, bool, Seq<u8>)>, dest: Seq<char>, i: int)
    requires
        0 <= i < entries.len(),
    ensures
        plan_of(entries.take(i + 1), dest) == plan_of(entries.take(i), dest) + entry_actions(
            entries[i],
            dest,
        ),
{
    assert(entries.take(i + 1).drop_last() =~= entries.take(i));
    assert(entries.take(i + 1).last() == entries[i]);
}

/// Turn an archive held in memory into the exact list of filesystem actions
/// that extracts it under `dest` and then removes the archive file at
/// `archive_path`. The plan is produced exactly when the bytes parse as a
/// zip archive and every entry can be read; an unreadable entry aborts at
/// that entry, handing back the actions for the entries before it.
pub fn plan_extraction(archive_bytes: Vec<u8>, dest: &str, archive_path: &str) -> (r: Result<
    Vec<FsAction>,
    ExtractAbort,
>)
    ensures
        match r {
            Ok(plan) => {
                &&& zip_parse(archive_bytes@) is Some
                &&& all_entries_readable(
                    archive_bytes@,
                    zip_parse(archive_bytes@).unwrap().len() as int,
                )
                &&& plan_views(plan@) == extraction_plan(
                    zip_parse(archive_bytes@).unwrap(),
                    dest@,
                    archive_path@,
                )
            },
            Err(ab) => match ab.error {
                ExtractError::ArchiveOpen(_) => {
                    &&& zip_parse(archive_bytes@) is None
                    &&& ab.prefix@.len() == 0
                },
                ExtractError::ArchiveEntry(_) => {
                    &&& zip_parse(archive_bytes@) is Some
                    &&& exists|k: int|
                        {
                            &&& 0 <= k < zip_parse(archive_bytes@).unwrap().len()
                            &&& !#[trigger] zip_entry_readable(archive_bytes@, k)
                            &&& all_entries_readable(archive_bytes@, k)
                            &&& plan_views(ab.prefix@) == plan_of(
                                zip_parse(archive_bytes@).unwrap().take(k),
                                dest@,
                            )
                        }
                },
            },
        },
{
    let ghost bytes = archive_bytes@;
    let mut archive = match open_archive(archive_bytes) {
        Ok(a) => a,
        Err(e) => {
            return Err(ExtractAbort { prefix: Vec::new(), error: e });
        },
    };
    let ghost entries = archive_entries(archive);
    let n = archive_len(&archive);
    let mut plan: Vec<FsAction> = Vec::new();
    assert(entries.take(0) =~= Seq::<(Seq<char>, bool, Seq<u8>)>::empty());
    assert(plan_views(plan@) =~= plan_of(entries.take(0), dest@));
    let mut i: usize = 0;
    while i < n
        invariant
            bytes == archive_bytes@,
            n == entries.len(),
            archive_entries(archive) == entries,
            zip_parse(bytes) == Some(entries),
            forall|j: int| entry_readable(archive, j) == zip_entry_readable(bytes, j),
            all_entries_readable(bytes, i as int),
            0 <= i <= n,
            plan_views(plan@) == plan_of(entries.take(i as int), dest@),
        decreases n - i,
    {
        let entry = match read_entry(&mut archive, i) {
            Ok(e) => e,
            Err(e) => {
                proof {
                    assert(!zip_entry_readable(bytes, i as int));
                }
                return Err(ExtractAbort { prefix: plan, error: e });
            },
        };
        let ghost plan_before = plan_views(plan@);
        let target = join_path(dest, entry.relative_path.as_str());
        if entry.is_directory {
            plan.push(FsAction::MkDirAll(target));
            assert(plan_views(plan@) =~= plan_before + entry_actions(entries[i as int], dest@));
        } else {
            let parent = parent_dir(target.as_str());
            plan.push(FsAction::MkDirAll(parent));
            plan.push(FsAction::WriteFile(target, entry.data));
            assert(plan_views(plan@) =~= plan_before + entry_actions(entries[i as int], dest@));
        }
        proof {
            lemma_plan_of_step(entries, dest@, i as int);
        }
        i += 1;
    }
    assert(entries.take(n as int) =~= entries);
    let ghost plan_before = plan_views(plan@);
    plan.push(FsAction::RemoveFile(archive_path.to_owned()));
    assert(plan_views(plan@) =~= plan_before.push(ActionModel::RemoveFile(archive_path@)));
    Ok(plan)
}

} // verus!
