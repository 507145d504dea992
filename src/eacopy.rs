use vstd::prelude::*;
use crate::config::{Config, ErrorStrategy, GlobalConfig, config_valid, global_config};
use crate::engine::{FileTransfer, tier_of, tier_size};
use crate::error::{Error, ErrorView, describe};
use crate::path::{FsPath, PathView, file_name, join_paths, joined_path};
use crate::walk::{EntryKind, PathEntry, TreeWalker};
use crate::client::ClientSession;
use crate::config::MAX_COMPRESSION_LEVEL;
use crate::path::rendered;
use crate::protocol::{Command, CommandView, copy_bytes};
use crate::server::EACopyServer;
use crate::policy::{Completed, RunState, after_success};
use vstd::utf8::encode_utf8;

verus! {

/// What a path turned out to be when the caller looked at it (following
/// links).
#[derive(Debug, Clone, Copy, PartialEq, Eq, Structural)]
pub enum PathKind {
    Missing,
    File,
    Directory,
    Other,
}

/// A path and what the caller found there.
#[derive(Debug, Clone, PartialEq, Eq)]
pub struct PathInfo {
    pub path: FsPath,
    pub kind: PathKind,
    pub size: u64,
}

/// The copy of one file: from where, to where, whether metadata follows
/// the data, and the buffer and progress plan of the data transfer. The
/// caller creates the destination's parent directory where it is missing.
#[derive(Debug, Clone, PartialEq, Eq)]
pub struct FileCopyPlan {
    pub source: FsPath,
    pub destination: FsPath,
    pub preserve_metadata: bool,
    pub transfer: FileTransfer,
}

/// The transfer plan of a file of `size` bytes under `c`.
pub open spec fn transfer_for(size: u64, c: Config) -> FileTransfer {
    FileTransfer {
        size,
        done: 0,
        buffer_size: tier_size(tier_of(size, c), c),
        reported: 0,
        interval: c.progress_interval,
    }
}

pub open spec fn plans(p: FileCopyPlan, source: PathView, destination: PathView, preserve: bool, size: u64, c: Config) -> bool {
    &&& p.source@ == source
    &&& p.destination@ == destination
    &&& p.preserve_metadata == preserve
    &&& p.transfer == transfer_for(size, c)
}

/// What copying `src` to `dst` decides: a missing source is not found, a
/// directory source is refused, a destination directory receives the
/// source's last component.
pub open spec fn copy_result(src: PathInfo, dst: PathInfo, preserve: bool, c: Config, r: Result<FileCopyPlan, Error>) -> bool {
    if src.kind == PathKind::Missing {
        r matches Err(e) && e@ == ErrorView::FileNotFound(src.path@)
    } else if src.kind == PathKind::Directory {
        r matches Err(e) && e@ is InvalidArgument
    } else if dst.kind == PathKind::Directory {
        if src.path@.1.len() == 0 {
            r matches Err(e) && e@ is InvalidArgument
        } else {
            r matches Ok(p) && plans(p, src.path@, (dst.path@.0, dst.path@.1.push(src.path@.1.last())), preserve, src.size, c)
        }
    } else {
        r matches Ok(p) && plans(p, src.path@, dst.path@, preserve, src.size, c)
    }
}

/// What copying the contents of file `src` to path `dst` decides.
pub open spec fn copyfile_result(src: PathInfo, dst: PathView, c: Config, r: Result<FileCopyPlan, Error>) -> bool {
    if src.kind == PathKind::Missing {
        r matches Err(e) && e@ == ErrorView::FileNotFound(src.path@)
    } else if src.kind != PathKind::File {
        r matches Err(e) && e@ is InvalidArgument
    } else {
        r matches Ok(p) && plans(p, src.path@, dst, false, src.size, c)
    }
}

/// A delta copy: the destination's file copy, and the reference to encode
/// against; none where the reference is missing, in which case the delta
/// is computed against an empty reference and carries the whole source as
/// literal bytes.
#[derive(Debug, Clone, PartialEq, Eq)]
pub struct DeltaPlan {
    pub copy: FileCopyPlan,
    pub reference: Option<FsPath>,
}

/// What checking a delta copy of `src` to `dst` against `reference`
/// decides: a missing source is not found; a source, or a present
/// reference, that is not a file is refused; a missing reference falls back
/// to sending the whole source.
pub open spec fn delta_result(src: PathInfo, dst: PathView, reference: PathInfo, c: Config, r: Result<DeltaPlan, Error>) -> bool {
    if src.kind == PathKind::Missing {
        r matches Err(e) && e@ == ErrorView::FileNotFound(src.path@)
    } else if src.kind != PathKind::File || (reference.kind != PathKind::Missing && reference.kind != PathKind::File) {
        r matches Err(e) && e@ is InvalidArgument
    } else {
        r matches Ok(d) && plans(d.copy, src.path@, dst, false, src.size, c)
            && (reference.kind == PathKind::Missing ==> d.reference is None)
            && (reference.kind == PathKind::File ==> (d.reference matches Some(p) && p@ == reference.path@))
    }
}

/// How one entry of a tree copy is carried out.
#[derive(Debug, Clone, PartialEq, Eq)]
pub enum EntryAction {
    /// Create this directory (an existing one is accepted).
    CreateDirectory(FsPath),
    /// Copy this file.
    CopyFile(FileCopyPlan),
    /// Recreate the link `source` as `destination`.
    CreateSymlink { source: FsPath, destination: FsPath },
    /// Leave the entry out.
    Skip,
}

/// A directory tree copy: its roots, its link policy and the walk.
pub struct TreeCopy {
    pub source: FsPath,
    pub destination: FsPath,
    pub follow_symlinks: bool,
    pub ignore_dangling_symlinks: bool,
    pub config: Config,
    pub walker: TreeWalker,
}

/// What the tree copy check decides, before any entry: the source must be
/// an existing directory, and the destination must be missing, or be a
/// directory where existing ones are accepted.
pub open spec fn copytree_check(src: PathInfo, dst: PathInfo, dirs_exist_ok: bool) -> Option<ErrorView> {
    if src.kind == PathKind::Missing {
        Some(ErrorView::DirectoryNotFound(src.path@))
    } else if src.kind != PathKind::Directory {
        Some(ErrorView::InvalidArgument(describe_spec("Source is not a directory: "@, src.path@)))
    } else if dst.kind != PathKind::Missing && !(dirs_exist_ok && dst.kind == PathKind::Directory) {
        Some(ErrorView::DestinationExists(dst.path@))
    } else {
        None
    }
}

pub open spec fn describe_spec(prefix: Seq<char>, p: PathView) -> Seq<char> {
    prefix + crate::path::rendered(p)
}

/// How an entry is carried out: directories are created, files copied;
/// a link is recreated unless links are followed, in which case a link
/// whose target is missing is left out where that is asked for, and fails
/// as not found otherwise.
pub open spec fn entry_action_ok(t: TreeCopy, e: PathEntry, r: Result<EntryAction, Error>) -> bool {
    let src = joined_path(t.source@, e.relative_path@);
    let dst = joined_path(t.destination@, e.relative_path@);
    match e.kind {
        EntryKind::Directory => r matches Ok(EntryAction::CreateDirectory(d)) && d@ == dst,
        EntryKind::File => r matches Ok(EntryAction::CopyFile(p))
            && plans(p, src, dst, t.config.preserve_metadata, e.size, t.config),
        EntryKind::Symlink => if t.follow_symlinks && e.dangling {
            if t.ignore_dangling_symlinks {
                r == Ok::<EntryAction, Error>(EntryAction::Skip)
            } else {
                r matches Err(er) && er@ == ErrorView::FileNotFound(src)
            }
        } else {
            r matches Ok(EntryAction::CreateSymlink { source, destination }) && source@ == src && destination@ == dst
        },
    }
}

/// The plan of one file copy.
fn plan_file(source: FsPath, destination: FsPath, preserve: bool, size: u64, config: &Config) -> (p: FileCopyPlan)
    requires
        config_valid(*config),
    ensures
        p.source == source,
        p.destination == destination,
        p.preserve_metadata == preserve,
        p.transfer == transfer_for(size, *config),
{
    FileCopyPlan { source, destination, preserve_metadata: preserve, transfer: FileTransfer::new(size, config) }
}

/// The copy engine under one policy.
pub struct EACopy {
    pub config: Config,
}

impl EACopy {
    pub open spec fn wf(&self) -> bool {
        config_valid(self.config)
    }

    /// The engine under the default policy.
    pub fn new() -> (r: EACopy)
        ensures
            r.wf(),
            crate::config::is_default(r.config),
    {
        EACopy { config: Config::default() }
    }

    /// The engine under `config`, which must be valid.
    pub fn with_config(config: Config) -> (r: Result<EACopy, Error>)
        ensures
            r is Ok <==> config_valid(config),
            r matches Ok(e) ==> e.config == config && e.wf(),
            r matches Err(e) ==> e@ is Configuration,
    {
        match config.validate() {
            Ok(()) => Ok(EACopy { config }),
            Err(e) => Err(e),
        }
    }

    /// The policy in use.
    pub fn get_config(&self) -> (r: Config)
        ensures
            r == self.config,
    {
        self.config
    }

    /// Replaces the policy, where the new one is valid.
    pub fn set_config(&mut self, config: Config) -> (r: Result<(), Error>)
        requires
            old(self).wf(),
        ensures
            final(self).wf(),
            r is Ok <==> config_valid(config),
            r is Ok ==> final(self).config == config,
            r is Err ==> final(self).config == old(self).config,
    {
        match config.validate() {
            Ok(()) => {
                self.config = config;
                Ok(())
            },
            Err(e) => Err(e),
        }
    }

    fn plan_copy(&self, src: &PathInfo, dst: &PathInfo, preserve: bool) -> (r: Result<FileCopyPlan, Error>)
        requires
            self.wf(),
        ensures
            copy_result(*src, *dst, preserve, self.config, r),
    {
        if src.kind == PathKind::Missing {
            return Err(Error::FileNotFound(src.path.duplicate()));
        }
        if src.kind == PathKind::Directory {
            return Err(Error::InvalidArgument(describe("Source is a directory, use copytree instead: ", &src.path)));
        }
        let destination = if dst.kind == PathKind::Directory {
            match file_name(&src.path) {
                Some(name) => dst.path.child(&name),
                None => {
                    return Err(Error::InvalidArgument(describe("Source has no file name: ", &src.path)));
                },
            }
        } else {
            dst.path.duplicate()
        };
        Ok(plan_file(src.path.duplicate(), destination, preserve, src.size, &self.config))
    }

    /// Copies the contents of file `src` to `dst`, without metadata.
    pub fn copyfile(&self, src: &PathInfo, dst: &FsPath) -> (r: Result<FileCopyPlan, Error>)
        requires
            self.wf(),
        ensures
            copyfile_result(*src, dst@, self.config, r),
    {
        if src.kind == PathKind::Missing {
            return Err(Error::FileNotFound(src.path.duplicate()));
        }
        if src.kind != PathKind::File {
            return Err(Error::InvalidArgument(describe("Source is not a file: ", &src.path)));
        }
        Ok(plan_file(src.path.duplicate(), dst.duplicate(), false, src.size, &self.config))
    }

    /// Copies file `src` to `dst` (into it, where it is a directory),
    /// without metadata.
    pub fn copy(&self, src: &PathInfo, dst: &PathInfo) -> (r: Result<FileCopyPlan, Error>)
        requires
            self.wf(),
        ensures
            copy_result(*src, *dst, false, self.config, r),
    {
        self.plan_copy(src, dst, false)
    }

    /// Copies file `src` to `dst` (into it, where it is a directory), with
    /// its timestamps and attributes.
    pub fn copy2(&self, src: &PathInfo, dst: &PathInfo) -> (r: Result<FileCopyPlan, Error>)
        requires
            self.wf(),
        ensures
            copy_result(*src, *dst, true, self.config, r),
    {
        self.plan_copy(src, dst, true)
    }

    /// Checks a tree copy from `src` to `dst` and starts its walk.
    pub fn copytree(
        &self,
        src: &PathInfo,
        dst: &PathInfo,
        follow_symlinks: bool,
        ignore_dangling_symlinks: bool,
        dirs_exist_ok: bool,
    ) -> (r: Result<TreeCopy, Error>)
        requires
            self.wf(),
        ensures
            tree_result(*src, *dst, follow_symlinks, ignore_dangling_symlinks, dirs_exist_ok, self.config, r),
    {
        if src.kind == PathKind::Missing {
            return Err(Error::DirectoryNotFound(src.path.duplicate()));
        }
        if src.kind != PathKind::Directory {
            return Err(Error::InvalidArgument(describe("Source is not a directory: ", &src.path)));
        }
        if dst.kind != PathKind::Missing && !(dirs_exist_ok && dst.kind == PathKind::Directory) {
            return Err(Error::DestinationExists(dst.path.duplicate()));
        }
        Ok(TreeCopy {
            source: src.path.duplicate(),
            destination: dst.path.duplicate(),
            follow_symlinks,
            ignore_dangling_symlinks,
            config: self.config,
            walker: TreeWalker::new(follow_symlinks),
        })
    }

    /// Checks a delta copy of `src` to `dst` against `reference`; the plan
    /// is that of the destination's file copy. Both source and reference
    /// must be existing files.
    pub fn delta_copy(&self, src: &PathInfo, dst: &FsPath, reference: &PathInfo) -> (r: Result<DeltaPlan, Error>)
        requires
            self.wf(),
        ensures
            delta_result(*src, dst@, *reference, self.config, r),
    {
        if src.kind == PathKind::Missing {
            return Err(Error::FileNotFound(src.path.duplicate()));
        }
        if src.kind != PathKind::File || (reference.kind != PathKind::Missing && reference.kind != PathKind::File) {
            return Err(Error::InvalidArgument(describe("Source and reference must be files: ", &src.path)));
        }
        let copy = plan_file(src.path.duplicate(), dst.duplicate(), false, src.size, &self.config);
        let reference_path = if reference.kind == PathKind::Missing {
            None
        } else {
            Some(reference.path.duplicate())
        };
        Ok(DeltaPlan { copy, reference: reference_path })
    }
}

/// `t` is a tree copy from `src` to `dst` under `c` that has not begun:
/// its walk will first ask for the root's listing.
pub open spec fn tree_started(t: TreeCopy, src: PathInfo, dst: PathInfo, follow: bool, ignore: bool, c: Config) -> bool {
    &&& t.source@ == src.path@
    &&& t.destination@ == dst.path@
    &&& t.follow_symlinks == follow
    &&& t.ignore_dangling_symlinks == ignore
    &&& t.config == c
    &&& t.walker.wf()
    &&& t.walker.follow_symlinks == follow
    &&& t.walker.yielded@.len() == 0
    &&& t.walker.pending@.len() == 0
    &&& t.walker.awaiting matches Some(d) && d@.1.len() == 0
}

/// What checking one tree copy decides.
pub open spec fn tree_result(
    src: PathInfo,
    dst: PathInfo,
    follow: bool,
    ignore: bool,
    dirs_exist_ok: bool,
    c: Config,
    r: Result<TreeCopy, Error>,
) -> bool {
    match copytree_check(src, dst, dirs_exist_ok) {
        Some(ev) => r matches Err(e) && e@ == ev,
        None => r matches Ok(t) && tree_started(t, src, dst, follow, ignore, c),
    }
}

/// What checking a batch of tree copies decides under policy `c`: under
/// `Ignore` every pair gets its own result; otherwise the batch stops at
/// the first pair that is refused and fails with its error.
pub open spec fn batch_tree_result(
    pairs: Seq<(PathInfo, PathInfo)>,
    follow: bool,
    ignore: bool,
    dirs_exist_ok: bool,
    c: Config,
    r: Result<Vec<Result<TreeCopy, Error>>, Error>,
) -> bool {
    if c.error_strategy == ErrorStrategy::Ignore {
        r matches Ok(v) && v@.len() == pairs.len() && forall|i: int| 0 <= i < pairs.len()
            ==> tree_result(pairs[i].0, pairs[i].1, follow, ignore, dirs_exist_ok, c, #[trigger] v@[i])
    } else {
        &&& (r is Ok <==> forall|i: int| 0 <= i < pairs.len()
            ==> (#[trigger] copytree_check(pairs[i].0, pairs[i].1, dirs_exist_ok)) is None)
        &&& (r matches Ok(v) ==> v@.len() == pairs.len() && forall|i: int| 0 <= i < pairs.len()
            ==> tree_result(pairs[i].0, pairs[i].1, follow, ignore, dirs_exist_ok, c, #[trigger] v@[i]))
        &&& (r matches Err(e) ==> exists|j: int| 0 <= j < pairs.len()
            && #[trigger] copytree_check(pairs[j].0, pairs[j].1, dirs_exist_ok) == Some(e@)
            && forall|i: int| 0 <= i < j ==> (#[trigger] copytree_check(pairs[i].0, pairs[i].1, dirs_exist_ok)) is None)
    }
}

impl TreeCopy {
    /// How entry `e` of the walk is carried out.
    pub fn plan_entry(&self, e: &PathEntry) -> (r: Result<EntryAction, Error>)
        requires
            config_valid(self.config),
        ensures
            entry_action_ok(*self, *e, r),
    {
        let src = join_paths(&self.source, &e.relative_path);
        let dst = join_paths(&self.destination, &e.relative_path);
        match e.kind {
            EntryKind::Directory => Ok(EntryAction::CreateDirectory(dst)),
            EntryKind::File => Ok(EntryAction::CopyFile(
                plan_file(src, dst, self.config.preserve_metadata, e.size, &self.config),
            )),
            EntryKind::Symlink => {
                if self.follow_symlinks && e.dangling {
                    if self.ignore_dangling_symlinks {
                        Ok(EntryAction::Skip)
                    } else {
                        Err(Error::FileNotFound(src))
                    }
                } else {
                    Ok(EntryAction::CreateSymlink { source: src, destination: dst })
                }
            },
        }
    }
}

/// How a carried-out action counts in a request's totals.
pub open spec fn completion_of(action: EntryAction, bytes: u64) -> Completed {
    match action {
        EntryAction::CopyFile(_) => Completed::File(bytes),
        EntryAction::CreateDirectory(_) => Completed::Directory,
        _ => Completed::Other,
    }
}

/// How a carried-out action counts in a request's totals: a copied file
/// with the `bytes` it moved, a created directory, and anything else (a
/// recreated link, a left-out entry) as neither.
pub fn completion(action: &EntryAction, bytes: u64) -> (r: Completed)
    ensures
        r == completion_of(*action, bytes),
{
    match action {
        EntryAction::CopyFile(_) => Completed::File(bytes),
        EntryAction::CreateDirectory(_) => Completed::Directory,
        _ => Completed::Other,
    }
}

/// Under a followed-links copy that ignores dangling links, a dangling link
/// is left out: no error, and once reported it adds no file and no byte to
/// the totals.
pub proof fn lemma_dangling_omitted(t: TreeCopy, e: PathEntry, r: Result<EntryAction, Error>, s: RunState, bytes: u64)
    requires
        t.follow_symlinks,
        t.ignore_dangling_symlinks,
        e.kind == EntryKind::Symlink,
        e.dangling,
        entry_action_ok(t, e, r),
    ensures
        r == Ok::<EntryAction, Error>(EntryAction::Skip),
        after_success(s, completion_of(EntryAction::Skip, bytes)).files == s.files,
        after_success(s, completion_of(EntryAction::Skip, bytes)).bytes == s.bytes,
        after_success(s, completion_of(EntryAction::Skip, bytes)).failed == s.failed,
{
}

/// An entry's action as Verus sees it.
pub enum ActionView {
    CreateDirectory(PathView),
    CopyFile { source: PathView, destination: PathView, preserve: bool, transfer: FileTransfer },
    CreateSymlink { source: PathView, destination: PathView },
    Skip,
    Fails(ErrorView),
}

pub open spec fn action_view(r: Result<EntryAction, Error>) -> ActionView {
    match r {
        Ok(EntryAction::CreateDirectory(d)) => ActionView::CreateDirectory(d@),
        Ok(EntryAction::CopyFile(p)) => ActionView::CopyFile {
            source: p.source@,
            destination: p.destination@,
            preserve: p.preserve_metadata,
            transfer: p.transfer,
        },
        Ok(EntryAction::CreateSymlink { source, destination }) =>
            ActionView::CreateSymlink { source: source@, destination: destination@ },
        Ok(EntryAction::Skip) => ActionView::Skip,
        Err(e) => ActionView::Fails(e@),
    }
}

/// Copying a tree again onto the destination that the first copy created
/// is accepted just as the first copy was, where existing directories are
/// accepted; and the two copies carry out every entry of the walk in the
/// same way, so they write the same content and move the same bytes.
pub proof fn lemma_copytree_repeatable(
    src: PathInfo,
    before: PathInfo,
    after: PathInfo,
    first: TreeCopy,
    second: TreeCopy,
    e: PathEntry,
    r1: Result<EntryAction, Error>,
    r2: Result<EntryAction, Error>,
)
    requires
        before.path@ == after.path@,
        before.kind == PathKind::Missing,
        after.kind == PathKind::Directory,
        first.source@ == second.source@,
        first.destination@ == second.destination@,
        first.follow_symlinks == second.follow_symlinks,
        first.ignore_dangling_symlinks == second.ignore_dangling_symlinks,
        first.config == second.config,
        entry_action_ok(first, e, r1),
        entry_action_ok(second, e, r2),
    ensures
        copytree_check(src, before, true) == copytree_check(src, after, true),
        action_view(r1) == action_view(r2),
{
}

/// The engine under the process-wide policy, where it is valid.
fn engine_of(global: &GlobalConfig) -> (r: Result<EACopy, Error>)
    ensures
        r is Ok <==> config_valid(global.current),
        r matches Ok(e) ==> e.config == global.current && e.wf(),
        r matches Err(e) ==> e@ is Configuration,
{
    EACopy::with_config(global_config(global))
}

/// `copyfile` under the process-wide policy.
pub fn copyfile(global: &GlobalConfig, src: &PathInfo, dst: &FsPath) -> (r: Result<FileCopyPlan, Error>)
    ensures
        !config_valid(global.current) ==> (r matches Err(e) && e@ is Configuration),
        config_valid(global.current) ==> copyfile_result(*src, dst@, global.current, r),
{
    let e = engine_of(global)?;
    e.copyfile(src, dst)
}

/// `copy` under the process-wide policy.
pub fn copy(global: &GlobalConfig, src: &PathInfo, dst: &PathInfo) -> (r: Result<FileCopyPlan, Error>)
    ensures
        !config_valid(global.current) ==> (r matches Err(e) && e@ is Configuration),
        config_valid(global.current) ==> copy_result(*src, *dst, false, global.current, r),
{
    let e = engine_of(global)?;
    e.copy(src, dst)
}

/// `copy2` under the process-wide policy.
pub fn copy2(global: &GlobalConfig, src: &PathInfo, dst: &PathInfo) -> (r: Result<FileCopyPlan, Error>)
    ensures
        !config_valid(global.current) ==> (r matches Err(e) && e@ is Configuration),
        config_valid(global.current) ==> copy_result(*src, *dst, true, global.current, r),
{
    let e = engine_of(global)?;
    e.copy2(src, dst)
}

/// `copytree` under the process-wide policy.
pub fn copytree(
    global: &GlobalConfig,
    src: &PathInfo,
    dst: &PathInfo,
    follow_symlinks: bool,
    ignore_dangling_symlinks: bool,
    dirs_exist_ok: bool,
) -> (r: Result<TreeCopy, Error>)
    ensures
        !config_valid(global.current) ==> (r matches Err(e) && e@ is Configuration),
        config_valid(global.current)
            ==> tree_result(*src, *dst, follow_symlinks, ignore_dangling_symlinks, dirs_exist_ok, global.current, r),
{
    let e = engine_of(global)?;
    e.copytree(src, dst, follow_symlinks, ignore_dangling_symlinks, dirs_exist_ok)
}

/// Whether `copy` refuses the pair `src`, `dst`.
pub open spec fn copy_fails(src: PathInfo, dst: PathInfo) -> bool {
    src.kind == PathKind::Missing || src.kind == PathKind::Directory
        || (dst.kind == PathKind::Directory && src.path@.1.len() == 0)
}

/// What planning a batch of file copies decides under policy `c`. Under
/// `Ignore` every pair gets its own result, whatever happened to the
/// others. Otherwise the batch stops at the first pair that is refused and
/// fails with its error; planning depends only on what was found at the
/// pair's paths, so a retry decides the same and `Retry` escalates as
/// `Raise` does.
pub open spec fn batch_result(
    pairs: Seq<(PathInfo, PathInfo)>,
    preserve: bool,
    c: Config,
    r: Result<Vec<Result<FileCopyPlan, Error>>, Error>,
) -> bool {
    if c.error_strategy == ErrorStrategy::Ignore {
        r matches Ok(v) && v@.len() == pairs.len() && forall|i: int| 0 <= i < pairs.len()
            ==> copy_result(pairs[i].0, pairs[i].1, preserve, c, #[trigger] v@[i])
    } else {
        &&& (r is Ok <==> forall|i: int| 0 <= i < pairs.len() ==> !#[trigger] copy_fails(pairs[i].0, pairs[i].1))
        &&& (r matches Ok(v) ==> v@.len() == pairs.len() && forall|i: int| 0 <= i < pairs.len()
            ==> copy_result(pairs[i].0, pairs[i].1, preserve, c, #[trigger] v@[i]))
        &&& (r matches Err(e) ==> exists|j: int| 0 <= j < pairs.len() && #[trigger] copy_fails(pairs[j].0, pairs[j].1)
            && (forall|i: int| 0 <= i < j ==> !#[trigger] copy_fails(pairs[i].0, pairs[i].1))
            && copy_result(pairs[j].0, pairs[j].1, preserve, c, Err(e)))
    }
}

/// Plans the copy of each pair in turn, under the engine's error strategy.
fn batch_plans(e: &EACopy, pairs: &Vec<(PathInfo, PathInfo)>, preserve: bool) -> (r: Result<Vec<Result<FileCopyPlan, Error>>, Error>)
    requires
        e.wf(),
    ensures
        batch_result(pairs@, preserve, e.config, r),
{
    let ignore = e.config.error_strategy == ErrorStrategy::Ignore;
    let mut out: Vec<Result<FileCopyPlan, Error>> = Vec::new();
    let mut i: usize = 0;
    while i < pairs.len()
        invariant
            e.wf(),
            ignore == (e.config.error_strategy == ErrorStrategy::Ignore),
            i <= pairs@.len(),
            out@.len() == i,
            forall|k: int| 0 <= k < i ==> copy_result(pairs@[k].0, pairs@[k].1, preserve, e.config, #[trigger] out@[k]),
            !ignore ==> forall|k: int| 0 <= k < i ==> !#[trigger] copy_fails(pairs@[k].0, pairs@[k].1),
        decreases pairs@.len() - i,
    {
        let pair = &pairs[i];
        let p = e.plan_copy(&pair.0, &pair.1, preserve);
        match p {
            Err(err) => {
                if !ignore {
                    assert(copy_fails(pairs@[i as int].0, pairs@[i as int].1));
                    return Err(err);
                }
                out.push(Err(err));
            },
            Ok(plan) => {
                out.push(Ok(plan));
            },
        }
        i = i + 1;
    }
    Ok(out)
}

impl EACopy {
    /// Plans the copy of several files, without metadata.
    pub fn batch_copy(&self, pairs: &Vec<(PathInfo, PathInfo)>) -> (r: Result<Vec<Result<FileCopyPlan, Error>>, Error>)
        requires
            self.wf(),
        ensures
            batch_result(pairs@, false, self.config, r),
    {
        batch_plans(self, pairs, false)
    }

    /// Plans the copy of several files, with metadata.
    pub fn batch_copy2(&self, pairs: &Vec<(PathInfo, PathInfo)>) -> (r: Result<Vec<Result<FileCopyPlan, Error>>, Error>)
        requires
            self.wf(),
        ensures
            batch_result(pairs@, true, self.config, r),
    {
        batch_plans(self, pairs, true)
    }
}

/// `batch_copy` under the process-wide policy.
pub fn batch_copy(global: &GlobalConfig, pairs: &Vec<(PathInfo, PathInfo)>) -> (r: Result<Vec<Result<FileCopyPlan, Error>>, Error>)
    ensures
        !config_valid(global.current) ==> (r matches Err(e) && e@ is Configuration),
        config_valid(global.current) ==> batch_result(pairs@, false, global.current, r),
{
    let e = engine_of(global)?;
    e.batch_copy(pairs)
}

/// `batch_copy2` under the process-wide policy.
pub fn batch_copy2(global: &GlobalConfig, pairs: &Vec<(PathInfo, PathInfo)>) -> (r: Result<Vec<Result<FileCopyPlan, Error>>, Error>)
    ensures
        !config_valid(global.current) ==> (r matches Err(e) && e@ is Configuration),
        config_valid(global.current) ==> batch_result(pairs@, true, global.current, r),
{
    let e = engine_of(global)?;
    e.batch_copy2(pairs)
}

/// `delta_copy` under the process-wide policy.
pub fn delta_copy(global: &GlobalConfig, src: &PathInfo, dst: &FsPath, reference: &PathInfo) -> (r: Result<DeltaPlan, Error>)
    ensures
        !config_valid(global.current) ==> (r matches Err(e) && e@ is Configuration),
        config_valid(global.current) ==> delta_result(*src, dst@, *reference, global.current, r),
{
    let e = engine_of(global)?;
    e.delta_copy(src, dst, reference)
}

/// The bytes that name a path on the wire: the UTF-8 encoding of its text.
pub open spec fn wire_path(p: PathView) -> Seq<u8> {
    encode_utf8(rendered(p))
}

/// The bytes that name `p` on the wire.
pub fn wire_path_of(p: &FsPath) -> (r: Vec<u8>)
    ensures
        r@ == wire_path(p@),
{
    let t = p.render();
    let b = t.as_str().as_bytes();
    let r = copy_bytes(b, 0, b.len());
    assert(b@.subrange(0, b@.len() as int) =~= b@);
    r
}

/// A copy through a server: one file, or a tree whose files each go
/// through a session of their own.
pub enum RemoteCopy {
    File { plan: FileCopyPlan, session: ClientSession },
    Tree(TreeCopy),
}

/// The session that fetches the file of `plan` from server `server`.
pub open spec fn fetches(s: ClientSession, plan: FileCopyPlan, server: Seq<char>, port: u16, level: u32, c: Config) -> bool {
    &&& s.wf()
    &&& s.command@ == (CommandView::ReadFile { path: wire_path(plan.source@), attributes: 0, expected_size: plan.transfer.size })
    &&& s.path@ == plan.source@
    &&& s.server@ == server
    &&& s.port == port
    &&& s.compression_level == level
    &&& s.retry_count == c.retry_count
    &&& s.retry_delay_ms == c.retry_delay_ms
    &&& s.state == crate::client::SessionState::Disconnected
    &&& s.busy_answers == 0
    &&& s.connect_failures == 0
    &&& s.compressed == (level > 0)
}

/// What checking a copy through a server decides: a missing source is not
/// found; a compression level above 9 is a configuration error; a port of 0
/// or an empty address is refused; a directory is walked as a tree copy
/// (existing directories accepted, links not followed); a file is fetched by
/// one fresh session, with the plan that `copy` makes for it.
pub open spec fn remote_copy_result(
    src: PathInfo,
    dst: PathInfo,
    server: Seq<char>,
    port: u16,
    level: u32,
    c: Config,
    r: Result<RemoteCopy, Error>,
) -> bool {
    if src.kind == PathKind::Missing {
        r matches Err(e) && e@ == ErrorView::FileNotFound(src.path@)
    } else if level > MAX_COMPRESSION_LEVEL {
        r matches Err(e) && e@ is Configuration
    } else if port == 0 || server.len() == 0 {
        r matches Err(e) && e@ is InvalidArgument
    } else if src.kind == PathKind::Directory {
        r matches Ok(RemoteCopy::Tree(t)) && t.source@ == src.path@ && t.destination@ == dst.path@
            && t.walker.wf() && t.walker.yielded@.len() == 0 && t.walker.pending@.len() == 0
            && t.walker.follow_symlinks == false && !t.follow_symlinks && !t.ignore_dangling_symlinks
            && t.config == c
    } else {
        (r matches Ok(RemoteCopy::File { plan, session }) && copy_result(src, dst, false, c, Ok(plan))
            && fetches(session, plan, server, port, level, c))
        || (r matches Err(e) && copy_result(src, dst, false, c, Err(e)))
    }
}

impl EACopy {
    /// A stopped server for `port`, with this engine's thread count.
    pub fn create_server(&self, port: u16) -> (r: Result<EACopyServer, Error>)
        requires
            self.wf(),
        ensures
            r matches Ok(s) && s.wf() && s.port == port && s.thread_count == self.config.thread_count && !s.running,
    {
        crate::server::create_server(port, self.config.thread_count)
    }

    /// The session that fetches the file of `plan` through a server.
    pub fn remote_file(&self, plan: &FileCopyPlan, server_addr: &String, port: u16, compression_level: u32) -> (r: ClientSession)
        requires
            self.wf(),
        ensures
            fetches(r, *plan, server_addr@, port, compression_level, self.config),
    {
        let command = Command::ReadFile {
            path: wire_path_of(&plan.source),
            attributes: 0,
            expected_size: plan.transfer.size,
        };
        ClientSession::new(
            command,
            plan.source.duplicate(),
            server_addr.clone(),
            port,
            compression_level,
            self.config.retry_count,
            self.config.retry_delay_ms,
        )
    }

    /// The session that asks a server for the listing of directory `dir`.
    pub fn remote_listing(&self, dir: &FsPath, server_addr: &String, port: u16) -> (r: ClientSession)
        requires
            self.wf(),
        ensures
            r.wf(),
            r.command@ == (CommandView::Enumerate { path: wire_path(dir@) }),
            r.path@ == dir@,
            r.server@ == server_addr@,
            r.port == port,
            r.compression_level == 0,
            r.retry_count == self.config.retry_count,
            r.retry_delay_ms == self.config.retry_delay_ms,
            r.state == crate::client::SessionState::Disconnected,
            r.busy_answers == 0,
            r.connect_failures == 0,
            !r.compressed,
    {
        let command = Command::Enumerate { path: wire_path_of(dir) };
        ClientSession::new(
            command,
            dir.duplicate(),
            server_addr.clone(),
            port,
            0,
            self.config.retry_count,
            self.config.retry_delay_ms,
        )
    }

    /// Checks a copy of `src` to `dst` through server `server_addr` on
    /// `port`: a file goes through one session, a directory is walked as a
    /// tree copy onto `dst` (existing directories accepted).
    pub fn copy_with_server(
        &self,
        src: &PathInfo,
        dst: &PathInfo,
        server_addr: &String,
        port: u16,
        compression_level: u32,
    ) -> (r: Result<RemoteCopy, Error>)
        requires
            self.wf(),
        ensures
            remote_copy_result(*src, *dst, server_addr@, port, compression_level, self.config, r),
    {
        if src.kind == PathKind::Missing {
            return Err(Error::FileNotFound(src.path.duplicate()));
        }
        if compression_level > MAX_COMPRESSION_LEVEL {
            return Err(Error::Configuration(String::from_str("compression level must be between 0 and 9")));
        }
        if port == 0 || server_addr.as_str().is_empty() {
            return Err(Error::InvalidArgument(String::from_str("a server address and a port are needed")));
        }
        if src.kind == PathKind::Directory {
            let t = TreeCopy {
                source: src.path.duplicate(),
                destination: dst.path.duplicate(),
                follow_symlinks: false,
                ignore_dangling_symlinks: false,
                config: self.config,
                walker: TreeWalker::new(false),
            };
            return Ok(RemoteCopy::Tree(t));
        }
        let plan = self.plan_copy(src, dst, false);
        match plan {
            Ok(p) => {
                let session = self.remote_file(&p, server_addr, port, compression_level);
                Ok(RemoteCopy::File { plan: p, session })
            },
            Err(e) => Err(e),
        }
    }

    /// Checks several tree copies under the engine's error strategy.
    pub fn batch_copytree(
        &self,
        pairs: &Vec<(PathInfo, PathInfo)>,
        follow_symlinks: bool,
        ignore_dangling_symlinks: bool,
        dirs_exist_ok: bool,
    ) -> (r: Result<Vec<Result<TreeCopy, Error>>, Error>)
        requires
            self.wf(),
        ensures
            batch_tree_result(pairs@, follow_symlinks, ignore_dangling_symlinks, dirs_exist_ok, self.config, r),
    {
        let ignore = self.config.error_strategy == ErrorStrategy::Ignore;
        let mut out: Vec<Result<TreeCopy, Error>> = Vec::new();
        let mut i: usize = 0;
        while i < pairs.len()
            invariant
                self.wf(),
                ignore == (self.config.error_strategy == ErrorStrategy::Ignore),
                i <= pairs@.len(),
                out@.len() == i,
                forall|k: int| 0 <= k < i ==> tree_result(pairs@[k].0, pairs@[k].1, follow_symlinks,
                    ignore_dangling_symlinks, dirs_exist_ok, self.config, #[trigger] out@[k]),
                !ignore ==> forall|k: int| 0 <= k < i
                    ==> (#[trigger] copytree_check(pairs@[k].0, pairs@[k].1, dirs_exist_ok)) is None,
            decreases pairs@.len() - i,
        {
            let pair = &pairs[i];
            let t = self.copytree(&pair.0, &pair.1, follow_symlinks, ignore_dangling_symlinks, dirs_exist_ok);
            match t {
                Err(err) => {
                    if !ignore {
                        assert(copytree_check(pairs@[i as int].0, pairs@[i as int].1, dirs_exist_ok) == Some(err@));
                        return Err(err);
                    }
                    out.push(Err(err));
                },
                Ok(tc) => {
                    out.push(Ok(tc));
                },
            }
            i = i + 1;
        }
        Ok(out)
    }
}

/// `copy_with_server` under the process-wide policy.
pub fn copy_with_server(
    global: &GlobalConfig,
    src: &PathInfo,
    dst: &PathInfo,
    server_addr: &String,
    port: u16,
    compression_level: u32,
) -> (r: Result<RemoteCopy, Error>)
    ensures
        !config_valid(global.current) ==> (r matches Err(e) && e@ is Configuration),
        config_valid(global.current)
            ==> remote_copy_result(*src, *dst, server_addr@, port, compression_level, global.current, r),
{
    let e = engine_of(global)?;
    e.copy_with_server(src, dst, server_addr, port, compression_level)
}

/// `batch_copytree` under the process-wide policy.
pub fn batch_copytree(
    global: &GlobalConfig,
    pairs: &Vec<(PathInfo, PathInfo)>,
    follow_symlinks: bool,
    ignore_dangling_symlinks: bool,
    dirs_exist_ok: bool,
) -> (r: Result<Vec<Result<TreeCopy, Error>>, Error>)
    ensures
        !config_valid(global.current) ==> (r matches Err(e) && e@ is Configuration),
        config_valid(global.current) ==> batch_tree_result(pairs@, follow_symlinks, ignore_dangling_symlinks,
            dirs_exist_ok, global.current, r),
{
    let e = engine_of(global)?;
    e.batch_copytree(pairs, follow_symlinks, ignore_dangling_symlinks, dirs_exist_ok)
}

/// The version of this engine.
pub fn get_version() -> (r: Result<String, Error>)
    ensures
        r matches Ok(v) && v@ == "1.0.0"@,
{
    Ok(String::from_str("1.0.0"))
}

} // verus!
