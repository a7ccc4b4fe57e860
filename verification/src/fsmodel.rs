//! A mathematical model of the filesystem namespace under the storage root,
//! an executable in-memory filesystem that implements it, and the laws the
//! extraction plan guarantees over any filesystem.
//!
//! The model is deliberately small: a set of directories that exist and a
//! map from file paths to contents. Applying an extraction plan to it states
//! exactly what extraction does to a disk; the process boundary interprets
//! the same actions against the real filesystem.

use vstd::prelude::*;

use crate::archive::ActionModel;
use crate::archive::ExtractAbort;
use crate::archive::ExtractError;
use crate::archive::FsAction;
use crate::archive::all_entries_readable;
use crate::archive::zip_entry_readable;
use crate::archive::entry_actions;
use crate::archive::entry_target;
use crate::archive::extraction_plan;
use crate::archive::plan_of;
use crate::archive::plan_extraction;
use crate::archive::plan_views;
use crate::archive::zip_parse;
use crate::paths::spec_resolve;
use crate::paths::resolve;
use crate::text::parent_of;
use crate::text::str_eq;

verus! {

/// The modelled state of the filesystem: which directories exist and what
/// each file holds.
#[verifier::ext_equal]
pub struct FsModel {
    pub dirs: Set<Seq<char>>,
    pub files: Map<Seq<char>, Seq<u8>>,
}

/// The effect of one action on the modelled filesystem.
pub open spec fn apply_action(fs: FsModel, a: ActionModel) -> FsModel {
    match a {
        ActionModel::MkDirAll(p) => FsModel { dirs: fs.dirs.insert(p), files: fs.files },
        ActionModel::WriteFile(p, d) => FsModel { dirs: fs.dirs, files: fs.files.insert(p, d) },
        ActionModel::RemoveFile(p) => FsModel { dirs: fs.dirs, files: fs.files.remove(p) },
    }
}

/// The effect of a sequence of actions, applied in order.
pub open spec fn apply_plan(fs: FsModel, plan: Seq<ActionModel>) -> FsModel
    decreases plan.len(),
{
    if plan.len() == 0 {
        fs
    } else {
        apply_action(apply_plan(fs, plan.drop_last()), plan.last())
    }
}

/// Actions apply piecewise over concatenation.
pub proof fn lemma_apply_plan_concat(fs: FsModel, a: Seq<ActionModel>, b: Seq<ActionModel>)
    ensures
        apply_plan(fs, a + b) == apply_plan(apply_plan(fs, a), b),
    decreases b.len(),
{
    if b.len() == 0 {
        assert(a + b =~= a);
    } else {
        assert((a + b).drop_last() =~= a + b.drop_last());
        assert((a + b).last() == b.last());
        lemma_apply_plan_concat(fs, a, b.drop_last());
    }
}

/// No action removes a directory: the directory set only grows.
pub proof fn lemma_dirs_monotone(fs: FsModel, plan: Seq<ActionModel>, d: Seq<char>)
    requires
        fs.dirs.contains(d),
    ensures
        apply_plan(fs, plan).dirs.contains(d),
    decreases plan.len(),
{
    if plan.len() > 0 {
        lemma_dirs_monotone(fs, plan.drop_last(), d);
    }
}

/// Round trip, file contents: after materializing an entry list, every file
/// entry that no later file entry overwrites stands at its target path with
/// exactly its bytes.
pub proof fn lemma_plan_writes_files(
    fs: FsModel,
    entries: Seq<(Seq<char>, bool, Seq<u8>)>,
    dest: Seq<char>,
    i: int,
)
    requires
        0 <= i < entries.len(),
        !entries[i].1,
        forall|j: int|
            i < j < entries.len() ==> !(!entries[j].1 && entry_target(#[trigger] entries[j], dest)
                == entry_target(entries[i], dest)),
    ensures
        apply_plan(fs, plan_of(entries, dest)).files.contains_key(entry_target(entries[i], dest)),
        apply_plan(fs, plan_of(entries, dest)).files[entry_target(entries[i], dest)]
            == entries[i].2,
    decreases entries.len(),
{
    let target = entry_target(entries[i], dest);
    let prefix = entries.drop_last();
    let last = entries.last();
    let mid = apply_plan(fs, plan_of(prefix, dest));
    lemma_apply_plan_concat(fs, plan_of(prefix, dest), entry_actions(last, dest));
    lemma_apply_plan_small(mid, entry_actions(last, dest));
    if i == entries.len() - 1 {
        assert(apply_plan(fs, plan_of(entries, dest)).files[target] == entries[i].2);
    } else {
        assert(prefix[i] == entries[i]);
        lemma_plan_writes_files(fs, prefix, dest, i);
        if !last.1 {
            assert(entry_target(last, dest) != target);
        }
    }
}

/// Unfold the application of the one or two actions of a single entry.
proof fn lemma_apply_plan_small(fs: FsModel, plan: Seq<ActionModel>)
    requires
        1 <= plan.len() <= 2,
    ensures
        plan.len() == 1 ==> apply_plan(fs, plan) == apply_action(fs, plan[0]),
        plan.len() == 2 ==> apply_plan(fs, plan) == apply_action(apply_action(fs, plan[0]), plan[1]),
{
    let e = Seq::<ActionModel>::empty();
    assert(apply_plan(fs, e) == fs);
    if plan.len() == 1 {
        assert(plan.drop_last() =~= e);
        assert(apply_plan(fs, plan) == apply_action(apply_plan(fs, e), plan[0]));
    } else {
        assert(plan.drop_last().drop_last() =~= e);
        assert(plan.drop_last().last() == plan[0]);
        assert(apply_plan(fs, plan.drop_last()) == apply_action(apply_plan(fs, e), plan[0]));
        assert(apply_plan(fs, plan) == apply_action(apply_plan(fs, plan.drop_last()), plan[1]));
    }
}

/// Round trip, directories: after materializing an entry list, every
/// directory entry's target exists, and every file entry's parent directory
/// exists.
pub proof fn lemma_plan_creates_dirs(
    fs: FsModel,
    entries: Seq<(Seq<char>, bool, Seq<u8>)>,
    dest: Seq<char>,
    i: int,
)
    requires
        0 <= i < entries.len(),
    ensures
        entries[i].1 ==> apply_plan(fs, plan_of(entries, dest)).dirs.contains(
            entry_target(entries[i], dest),
        ),
        !entries[i].1 ==> apply_plan(fs, plan_of(entries, dest)).dirs.contains(
            parent_of(entry_target(entries[i], dest)),
        ),
    decreases entries.len(),
{
    let prefix = entries.drop_last();
    let last = entries.last();
    let mid = apply_plan(fs, plan_of(prefix, dest));
    lemma_apply_plan_concat(fs, plan_of(prefix, dest), entry_actions(last, dest));
    lemma_apply_plan_small(mid, entry_actions(last, dest));
    if i < entries.len() - 1 {
        assert(prefix[i] == entries[i]);
        lemma_plan_creates_dirs(fs, prefix, dest, i);
    }
}

/// Round trip over the whole extraction: after the full plan runs, every
/// file entry that no later file entry overwrites — and that does not target
/// the archive file itself — stands at its destination-joined path with
/// exactly its bytes, every directory entry's target exists, and every file
/// entry's parent directory exists. Together with the frame law below, the
/// destination reproduces the archive's relative file tree.
pub proof fn lemma_extraction_round_trip(
    fs: FsModel,
    entries: Seq<(Seq<char>, bool, Seq<u8>)>,
    dest: Seq<char>,
    archive_path: Seq<char>,
    i: int,
)
    requires
        0 <= i < entries.len(),
        !entries[i].1 ==> forall|j: int|
            i < j < entries.len() ==> !(!entries[j].1 && entry_target(#[trigger] entries[j], dest)
                == entry_target(entries[i], dest)),
        !entries[i].1 ==> entry_target(entries[i], dest) != archive_path,
    ensures
        !entries[i].1 ==> {
            let result = apply_plan(fs, extraction_plan(entries, dest, archive_path));
            &&& result.files.contains_key(entry_target(entries[i], dest))
            &&& result.files[entry_target(entries[i], dest)] == entries[i].2
            &&& result.dirs.contains(parent_of(entry_target(entries[i], dest)))
        },
        entries[i].1 ==> apply_plan(fs, extraction_plan(entries, dest, archive_path)).dirs.contains(
            entry_target(entries[i], dest),
        ),
{
    let plan = plan_of(entries, dest);
    let full = extraction_plan(entries, dest, archive_path);
    assert(full.drop_last() =~= plan);
    lemma_plan_creates_dirs(fs, entries, dest, i);
    if !entries[i].1 {
        lemma_plan_writes_files(fs, entries, dest, i);
    }
}

/// After a successful extraction the archive file itself no longer exists:
/// its removal is the last action of every extraction plan.
pub proof fn lemma_archive_removed(
    fs: FsModel,
    entries: Seq<(Seq<char>, bool, Seq<u8>)>,
    dest: Seq<char>,
    archive_path: Seq<char>,
)
    ensures
        !apply_plan(fs, extraction_plan(entries, dest, archive_path)).files.contains_key(
            archive_path,
        ),
{
    let plan = plan_of(entries, dest);
    let full = extraction_plan(entries, dest, archive_path);
    assert(full.drop_last() =~= plan);
}

/// Frame: a path that is not the target of any file entry and not the
/// archive itself is untouched by extraction.
pub proof fn lemma_extraction_untouched(
    fs: FsModel,
    entries: Seq<(Seq<char>, bool, Seq<u8>)>,
    dest: Seq<char>,
    archive_path: Seq<char>,
    q: Seq<char>,
)
    requires
        q != archive_path,
        forall|j: int|
            0 <= j < entries.len() ==> !(!entries[j].1 && entry_target(#[trigger] entries[j], dest)
                == q),
    ensures
        apply_plan(fs, extraction_plan(entries, dest, archive_path)).files.contains_key(q)
            == fs.files.contains_key(q),
        fs.files.contains_key(q) ==> apply_plan(
            fs,
            extraction_plan(entries, dest, archive_path),
        ).files[q] == fs.files[q],
{
    let plan = plan_of(entries, dest);
    let full = extraction_plan(entries, dest, archive_path);
    assert(full.drop_last() =~= plan);
    lemma_plan_untouched(fs, entries, dest, q);
}

/// Frame over the entry actions alone.
proof fn lemma_plan_untouched(
    fs: FsModel,
    entries: Seq<(Seq<char>, bool, Seq<u8>)>,
    dest: Seq<char>,
    q: Seq<char>,
)
    requires
        forall|j: int|
            0 <= j < entries.len() ==> !(!entries[j].1 && entry_target(#[trigger] entries[j], dest)
                == q),
    ensures
        apply_plan(fs, plan_of(entries, dest)).files.contains_key(q) == fs.files.contains_key(q),
        fs.files.contains_key(q) ==> apply_plan(fs, plan_of(entries, dest)).files[q]
            == fs.files[q],
    decreases entries.len(),
{
    if entries.len() > 0 {
        let prefix = entries.drop_last();
        let last = entries.last();
        let mid = apply_plan(fs, plan_of(prefix, dest));
        lemma_apply_plan_concat(fs, plan_of(prefix, dest), entry_actions(last, dest));
        lemma_apply_plan_small(mid, entry_actions(last, dest));
        assert(forall|j: int|
            0 <= j < prefix.len() ==> !(!prefix[j].1 && entry_target(#[trigger] prefix[j], dest)
                == q));
        lemma_plan_untouched(fs, prefix, dest, q);
        if !last.1 {
            assert(entry_target(last, dest) != q);
        }
    }
}

/// One record of the in-memory filesystem's journal: a write of bytes to a
/// path, or `None` for a deletion of the path.
type FileEvent = (String, Option<Vec<u8>>);

/// The directories named by a journal of directory creations.
spec fn dirs_set(s: Seq<String>) -> Set<Seq<char>>
    decreases s.len(),
{
    if s.len() == 0 {
        Set::empty()
    } else {
        dirs_set(s.drop_last()).insert(s.last()@)
    }
}

/// The file contents described by a journal of writes and deletions, later
/// records shadowing earlier ones.
spec fn files_map(s: Seq<FileEvent>) -> Map<Seq<char>, Seq<u8>>
    decreases s.len(),
{
    if s.len() == 0 {
        Map::empty()
    } else {
        match s.last().1 {
            Some(d) => files_map(s.drop_last()).insert(s.last().0@, d@),
            None => files_map(s.drop_last()).remove(s.last().0@),
        }
    }
}

/// An in-memory filesystem: a journal of directory creations and file
/// events, viewed as the folded state. Tests drive the extraction plan
/// against it; the process boundary applies the same actions to the disk.
pub struct FsState {
    dirs: Vec<String>,
    files: Vec<FileEvent>,
}

impl View for FsState {
    type V = FsModel;

    closed spec fn view(&self) -> FsModel {
        FsModel { dirs: dirs_set(self.dirs@), files: files_map(self.files@) }
    }
}

impl FsState {
    /// An empty filesystem: no directories, no files.
    pub fn new() -> (r: Self)
        ensures
            r@.dirs == Set::<Seq<char>>::empty(),
            r@.files == Map::<Seq<char>, Seq<u8>>::empty(),
    {
        FsState { dirs: Vec::new(), files: Vec::new() }
    }

    /// Record the directory as existing.
    pub fn create_dir_all(&mut self, p: &str)
        ensures
            final(self)@.dirs == old(self)@.dirs.insert(p@),
            final(self)@.files == old(self)@.files,
    {
        let ghost before = self.dirs@;
        self.dirs.push(p.to_owned());
        proof {
            assert(self.dirs@.drop_last() =~= before);
        }
    }

    /// Create or overwrite the file with the given bytes.
    pub fn write_file(&mut self, p: &str, data: Vec<u8>)
        ensures
            final(self)@.files == old(self)@.files.insert(p@, data@),
            final(self)@.dirs == old(self)@.dirs,
    {
        let ghost before = self.files@;
        self.files.push((p.to_owned(), Some(data)));
        proof {
            assert(self.files@.drop_last() =~= before);
        }
    }

    /// Delete the file, if it exists.
    pub fn remove_file(&mut self, p: &str)
        ensures
            final(self)@.files == old(self)@.files.remove(p@),
            final(self)@.dirs == old(self)@.dirs,
    {
        let ghost before = self.files@;
        self.files.push((p.to_owned(), None));
        proof {
            assert(self.files@.drop_last() =~= before);
        }
    }

    /// Perform one planned action.
    pub fn apply(&mut self, action: FsAction)
        ensures
            final(self)@ == apply_action(old(self)@, action@),
    {
        match action {
            FsAction::MkDirAll(p) => self.create_dir_all(p.as_str()),
            FsAction::WriteFile(p, d) => self.write_file(p.as_str(), d),
            FsAction::RemoveFile(p) => self.remove_file(p.as_str()),
        }
        assert(self@ =~= apply_action(old(self)@, action@));
    }

    /// Perform a whole plan, in order.
    pub fn apply_all(&mut self, plan: Vec<FsAction>)
        ensures
            final(self)@ == apply_plan(old(self)@, plan_views(plan@)),
    {
        let ghost actions = plan_views(plan@);
        let mut rest = plan;
        proof {
            assert(actions.take(0) =~= Seq::<ActionModel>::empty());
            assert(plan_views(rest@) =~= actions.skip(0));
        }
        let total = rest.len();
        let mut i: usize = 0;
        while rest.len() > 0
            invariant
                0 <= i,
                total == actions.len(),
                i + rest@.len() == actions.len(),
                plan_views(rest@) == actions.skip(i as int),
                self@ == apply_plan(old(self)@, actions.take(i as int)),
            decreases rest@.len(),
        {
            let ghost rest_before = rest@;
            let action = rest.remove(0);
            proof {
                assert(plan_views(rest_before)[0] == actions.skip(i as int)[0]);
                assert(action@ == actions[i as int]);
                assert(rest@ =~= rest_before.skip(1));
                assert forall|k: int| 0 <= k < plan_views(rest@).len() implies plan_views(rest@)[k]
                    == #[trigger] actions.skip(i + 1)[k] by {
                    assert(plan_views(rest@)[k] == rest@[k]@);
                    assert(rest@[k] == rest_before[k + 1]);
                    assert(plan_views(rest_before)[k + 1] == rest_before[k + 1]@);
                    assert(plan_views(rest_before)[k + 1] == actions.skip(i as int)[k + 1]);
                }
                assert(plan_views(rest@) =~= actions.skip(i + 1));
            }
            self.apply(action);
            proof {
                assert(actions.take(i + 1).drop_last() =~= actions.take(i as int));
                assert(actions.take(i + 1).last() == actions[i as int]);
            }
            i += 1;
        }
        proof {
            assert(actions.skip(i as int).len() == 0);
            assert(actions.take(i as int) =~= actions);
        }
    }

    /// Whether the directory exists.
    pub fn dir_exists(&self, p: &str) -> (r: bool)
        ensures
            r == self@.dirs.contains(p@),
    {
        let n = self.dirs.len();
        proof {
            assert(self.dirs@.take(n as int) =~= self.dirs@);
        }
        let mut j: usize = n;
        while j > 0
            invariant
                n == self.dirs.len(),
                0 <= j <= n,
                self@.dirs.contains(p@) == dirs_set(self.dirs@.take(j as int)).contains(p@),
            decreases j,
        {
            proof {
                assert(self.dirs@.take(j as int).drop_last() =~= self.dirs@.take(j - 1));
                assert(self.dirs@.take(j as int).last() == self.dirs@[j - 1]);
            }
            if str_eq(self.dirs[j - 1].as_str(), p) {
                return true;
            }
            j -= 1;
        }
        proof {
            assert(self.dirs@.take(0) =~= Seq::<String>::empty());
        }
        false
    }

    /// The file's bytes, if it exists.
    pub fn read_file(&self, p: &str) -> (r: Option<&Vec<u8>>)
        ensures
            match r {
                Some(d) => self@.files.contains_key(p@) && self@.files[p@] == d@,
                None => !self@.files.contains_key(p@),
            },
    {
        let n = self.files.len();
        proof {
            assert(self.files@.take(n as int) =~= self.files@);
        }
        let mut j: usize = n;
        while j > 0
            invariant
                n == self.files.len(),
                0 <= j <= n,
                self@.files.contains_key(p@) == files_map(self.files@.take(j as int)).contains_key(
                    p@,
                ),
                files_map(self.files@.take(j as int)).contains_key(p@) ==> files_map(
                    self.files@.take(j as int),
                )[p@] == self@.files[p@],
            decreases j,
        {
            proof {
                assert(self.files@.take(j as int).drop_last() =~= self.files@.take(j - 1));
                assert(self.files@.take(j as int).last() == self.files@[j - 1]);
            }
            let matched = str_eq(self.files[j - 1].0.as_str(), p);
            if matched {
                return match &self.files[j - 1].1 {
                    Some(d) => Some(d),
                    None => None,
                };
            }
            j -= 1;
        }
        proof {
            assert(self.files@.take(0) =~= Seq::<FileEvent>::empty());
        }
        None
    }

    /// Whether the file exists.
    pub fn file_exists(&self, p: &str) -> (r: bool)
        ensures
            r == self@.files.contains_key(p@),
    {
        match self.read_file(p) {
            Some(_) => true,
            None => false,
        }
    }
}

/// Extract an in-memory archive into the filesystem: read entries in
/// archive order and materialize each, removing the archive file last. On
/// success the filesystem holds exactly the planned result. A file that does
/// not open as a zip archive leaves the filesystem untouched; an entry that
/// cannot be read aborts at that entry, the entries before it materialized
/// and nothing rolled back, the archive file still in place.
pub fn extract_into(
    fs: &mut FsState,
    archive_bytes: Vec<u8>,
    dest: &str,
    archive_path: &str,
) -> (r: Result<(), ExtractError>)
    ensures
        match r {
            Ok(()) => {
                &&& zip_parse(archive_bytes@) is Some
                &&& all_entries_readable(
                    archive_bytes@,
                    zip_parse(archive_bytes@).unwrap().len() as int,
                )
                &&& final(fs)@ == apply_plan(
                    old(fs)@,
                    extraction_plan(zip_parse(archive_bytes@).unwrap(), dest@, archive_path@),
                )
            },
            Err(e) => match e {
                ExtractError::ArchiveOpen(_) => {
                    &&& zip_parse(archive_bytes@) is None
                    &&& final(fs)@ == old(fs)@
                },
                ExtractError::ArchiveEntry(_) => {
                    &&& zip_parse(archive_bytes@) is Some
                    &&& exists|k: int|
                        {
                            &&& 0 <= k < zip_parse(archive_bytes@).unwrap().len()
                            &&& !#[trigger] zip_entry_readable(archive_bytes@, k)
                            &&& all_entries_readable(archive_bytes@, k)
                            &&& final(fs)@ == apply_plan(
                                old(fs)@,
                                plan_of(zip_parse(archive_bytes@).unwrap().take(k), dest@),
                            )
                        }
                },
            },
        },
{
    match plan_extraction(archive_bytes, dest, archive_path) {
        Ok(plan) => {
            fs.apply_all(plan);
            Ok(())
        },
        Err(ab) => {
            let ExtractAbort { prefix, error } = ab;
            let ghost prefix_views = plan_views(prefix@);
            fs.apply_all(prefix);
            proof {
                if error matches ExtractError::ArchiveOpen(_) {
                    assert(prefix_views =~= Seq::<ActionModel>::empty());
                    assert(apply_plan(old(fs)@, prefix_views) == old(fs)@);
                }
            }
            Err(error)
        },
    }
}

/// Whether the asset `(category, name)` is ready under `root`: a single
/// existence test on its resolved storage directory. Existence is the entire
/// readiness criterion; nothing about the directory's contents is checked.
pub fn is_ready(fs: &FsState, root: &str, category: &str, name: &str) -> (r: bool)
    ensures
        r == fs@.dirs.contains(spec_resolve(root@, category@, name@)),
{
    let dir = resolve(root, category, name);
    fs.dir_exists(dir.as_str())
}

/// Readiness is directory existence alone: creating the asset's directory,
/// even before any file is written into it, makes the asset ready, and an
/// asset whose directory was never created is not ready.
pub proof fn lemma_readiness_is_existence(
    fs: FsModel,
    root: Seq<char>,
    category: Seq<char>,
    name: Seq<char>,
)
    ensures
        apply_action(
            fs,
            ActionModel::MkDirAll(spec_resolve(root, category, name)),
        ).dirs.contains(spec_resolve(root, category, name)),
        apply_action(fs, ActionModel::MkDirAll(spec_resolve(root, category, name))).files
            == fs.files,
{
}

} // verus!
