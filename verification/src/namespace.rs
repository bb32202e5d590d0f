//! What may be done with a path, given what stands there.

use vstd::prelude::*;

use crate::block_map::DeleteResult;
use crate::error::FsError;
use crate::master_filesystem::{FilesystemView, MasterFilesystem};
use crate::model::{
    BlockLocation, BlockMeta, ClientAddress, CommitBlock, ExtendedBlock, FileAllocOpts, FileBlocks,
    FileStatus, InodeFile, LocatedBlock, StorageType, WorkerAddress,
};
use crate::snapshot::FileRecord;
use crate::text::{count_char, same_text, text_is_under, PATH_SEPARATOR};
use crate::manager_model::ManagerView;
use crate::worker_manager::WorkerManager;

verus! {

#[derive(Clone, Copy, Debug, PartialEq, Eq, Structural)]
pub enum InodeKind {
    Dir,
    File,
}

/// A path with what the namespace holds at it.
pub struct ResolvedPath {
    pub path: String,
    pub parent_path: String,
    pub is_root: bool,
    /// The number of components, the root among them.
    pub components: usize,
    pub parent: Option<InodeKind>,
    pub last: Option<InodeKind>,
}

impl ResolvedPath {
    /// The parent exists and is a directory. The root always is.
    pub open spec fn has_parent(self) -> bool {
        self.components <= 2 || self.parent == Some(InodeKind::Dir)
    }
}

/// How a file is opened or created.
#[derive(Clone, Copy, Debug, PartialEq, Eq, Structural)]
pub struct OpenFlags {
    pub read_only: bool,
    pub create: bool,
    pub exclusive: bool,
    pub overwrite: bool,
    pub truncate: bool,
}

/// The properties of a new file that the master checks.
#[derive(Clone, Copy, Debug, PartialEq, Eq, Structural)]
pub struct CreateFileOpts {
    pub create_parent: bool,
    pub replicas: u16,
    pub block_size: i64,
}

#[derive(Clone, Copy, Debug, PartialEq, Eq, Structural)]
pub enum MkdirAction {
    /// The directory is there already: report it.
    Existing,
    /// Make the directory.
    Create,
}

#[derive(Clone, Copy, Debug, PartialEq, Eq, Structural)]
pub enum CreateAction {
    /// Empty the file that is there.
    Overwrite,
    /// Make a new file.
    Create,
}

#[derive(Clone, Copy, Debug, PartialEq, Eq, Structural)]
pub enum OpenAction {
    /// Report the file and its blocks.
    Read,
    /// Create the file.
    Create,
    /// Empty the file.
    Truncate,
    /// Continue the file: report it and its blocks.
    Append,
}

/// What a block is to be placed by.
pub struct ValidateAddBlock {
    pub replicas: u16,
    pub block_size: i64,
    pub storage_type: StorageType,
    pub client_host: String,
}

/// The locations on record for a block: those of the first entry for it.
pub open spec fn recorded(locs: Seq<(i64, Vec<BlockLocation>)>, id: i64) -> Option<
    Seq<BlockLocation>,
>
    decreases locs.len(),
{
    if locs.len() == 0 {
        None
    } else if locs[0].0 == id {
        Some(locs[0].1@)
    } else {
        recorded(locs.drop_first(), id)
    }
}

proof fn recorded_skips(locs: Seq<(i64, Vec<BlockLocation>)>, id: i64, i: int)
    requires
        0 <= i <= locs.len(),
        forall|j: int| 0 <= j < i ==> (#[trigger] locs[j]).0 != id,
    ensures
        recorded(locs, id) == recorded(locs.skip(i), id),
    decreases i,
{
    if i == 0 {
        assert(locs.skip(0) =~= locs);
    } else {
        recorded_skips(locs.drop_first(), id, i - 1);
        assert(locs.drop_first().skip(i - 1) =~= locs.skip(i));
    }
}

/// What stands in the way of locating one block of a file.
pub enum BlockFault {
    /// A block before the last is not full.
    Abnormal,
    /// No location is on record.
    Lost,
    /// No recorded worker is live.
    AllReplicasLost,
}

/// The fault of the file's block at `i`, if it has one.
pub open spec fn block_fault(
    m: ManagerView,
    file: InodeFile,
    locs: Seq<(i64, Vec<BlockLocation>)>,
    i: int,
) -> Option<BlockFault> {
    let meta = file.blocks@[i];
    if i + 1 < file.blocks@.len() && meta.len != file.block_size {
        Some(BlockFault::Abnormal)
    } else {
        match recorded(locs, meta.id) {
            None => Some(BlockFault::Lost),
            Some(l) => if l.len() > 0 && crate::placement::live_addresses(
                m.workers,
                l,
            ).len() == 0 {
                Some(BlockFault::AllReplicasLost)
            } else {
                None
            },
        }
    }
}

/// The error that reports a fault.
pub open spec fn is_fault_error(
    fault: BlockFault,
    path: Seq<char>,
    meta: BlockMeta,
    block_size: i64,
    e: FsError,
) -> bool {
    match fault {
        BlockFault::Abnormal => e == (FsError::BlockAbnormal {
            block_id: meta.id,
            block_len: meta.len,
            block_size,
        }),
        BlockFault::Lost => e matches FsError::BlockLost { path: p, block_id } && p@ == path
            && block_id == meta.id,
        BlockFault::AllReplicasLost => e matches FsError::AllReplicasLost { path: p, block_id }
            && p@ == path && block_id == meta.id,
    }
}

/// No block of the file is faulty, and `v` holds each with its live replicas.
pub open spec fn are_located(
    m: ManagerView,
    file: InodeFile,
    locs: Seq<(i64, Vec<BlockLocation>)>,
    v: Seq<LocatedBlock>,
) -> bool {
    v.len() == file.blocks@.len() && forall|i: int|
        0 <= i < v.len() ==> block_fault(m, file, locs, i) is None && (#[trigger] v[i])@
            == crate::placement::located(
            m.workers,
            file.extended(file.blocks@[i]),
            recorded(locs, file.blocks@[i].id)->0,
        )
}

/// The error reports the first faulty block of the file.
pub open spec fn is_locate_error(
    m: ManagerView,
    path: Seq<char>,
    file: InodeFile,
    locs: Seq<(i64, Vec<BlockLocation>)>,
    e: FsError,
) -> bool {
    exists|i: int|
        #![trigger file.blocks@[i]]
        0 <= i < file.blocks@.len() && (forall|j: int|
            0 <= j < i ==> #[trigger] block_fault(m, file, locs, j) is None) && block_fault(
            m,
            file,
            locs,
            i,
        ) is Some && is_fault_error(
            block_fault(m, file, locs, i)->0,
            path,
            file.blocks@[i],
            file.block_size,
            e,
        )
}

/// A failed lookup of a path or an inode id.
pub open spec fn is_not_found(e: FsError, path: Seq<char>, inode_id: Option<i64>) -> bool {
    e matches FsError::FileNotFound { path: p, inode_id: i } && p@ == path && i == inode_id
}

impl MasterFilesystem {
    /// The parent of a path must be a directory. A path directly below the
    /// root needs no check.
    pub fn check_parent(path: &ResolvedPath) -> (r: Result<(), FsError>)
        ensures
            match r {
                Ok(_) => path.has_parent(),
                Err(e) => path.components > 2 && match path.parent {
                    Some(_) => path.parent == Some(InodeKind::File) && (
                    e matches FsError::ParentNotDirectory { parent } && parent@
                        == path.parent_path@),
                    None => e matches FsError::ParentMissing { parent } && parent@
                        == path.parent_path@,
                },
            },
    {
        if path.components <= 2 {
            return Ok(());
        }
        match path.parent {
            Some(InodeKind::Dir) => Ok(()),
            Some(InodeKind::File) => Err(
                FsError::ParentNotDirectory { parent: path.parent_path.clone() },
            ),
            None => Err(FsError::ParentMissing { parent: path.parent_path.clone() }),
        }
    }

    /// Whether a directory may be made at the path. One that exists is fine
    /// where parents may be made too.
    pub fn mkdir_with_opts(path: &ResolvedPath, create_parent: bool) -> (r: Result<
        MkdirAction,
        FsError,
    >)
        ensures
            match r {
                Ok(MkdirAction::Existing) => !path.is_root && create_parent && path.last == Some(
                    InodeKind::Dir,
                ),
                Ok(MkdirAction::Create) => !path.is_root && path.last is None && (create_parent
                    || path.has_parent()),
                Err(FsError::RootExists { path: p }) => path.is_root && p@ == path.path@,
                Err(FsError::FileExists { path: p }) => !path.is_root && path.last is Some && !(
                create_parent && path.last == Some(InodeKind::Dir)) && p@ == path.path@,
                Err(FsError::ParentNotDirectory { parent }) => !path.is_root && path.last is None
                    && !create_parent && path.components > 2 && path.parent == Some(
                    InodeKind::File,
                ) && parent@ == path.parent_path@,
                Err(FsError::ParentMissing { parent }) => !path.is_root && path.last is None
                    && !create_parent && path.components > 2 && path.parent is None && parent@
                    == path.parent_path@,
                Err(_) => false,
            },
    {
        if path.is_root {
            return Err(FsError::RootExists { path: path.path.clone() });
        }
        match path.last {
            Some(kind) => {
                if create_parent && kind == InodeKind::Dir {
                    Ok(MkdirAction::Existing)
                } else {
                    Err(FsError::FileExists { path: path.path.clone() })
                }
            },
            None => {
                if !create_parent {
                    Self::check_parent(path)?;
                }
                Ok(MkdirAction::Create)
            },
        }
    }

    /// Whether `src` may be renamed to `dst`: `false` where there is nothing
    /// to do.
    pub fn rename(src_is_root: bool, src: &str, dst: &str, exchange: bool) -> (r: Result<
        bool,
        FsError,
    >)
        ensures
            match r {
                Ok(false) => !src_is_root && src@ == dst@,
                Ok(true) => !src_is_root && src@ != dst@ && !crate::text::is_under(dst@, src@) && !(
                exchange && crate::text::is_under(src@, dst@)),
                Err(FsError::RenameRoot) => src_is_root,
                Err(FsError::RenameIntoSelf { src: s, dst: d }) => !src_is_root && src@ != dst@
                    && crate::text::is_under(dst@, src@) && s@ == src@ && d@ == dst@,
                Err(FsError::ExchangeWithAncestor { src: s, dst: d }) => !src_is_root && src@
                    != dst@ && !crate::text::is_under(dst@, src@) && exchange
                    && crate::text::is_under(src@, dst@) && s@ == src@ && d@ == dst@,
                Err(_) => false,
            },
    {
        if src_is_root {
            return Err(FsError::RenameRoot);
        }
        if same_text(src, dst) {
            return Ok(false);
        }
        if text_is_under(dst, src) {
            return Err(FsError::RenameIntoSelf { src: src.to_owned(), dst: dst.to_owned() });
        }
        // An exchange would make a directory its own descendant the other way
        // round as well.
        if exchange && text_is_under(src, dst) {
            return Err(
                FsError::ExchangeWithAncestor { src: src.to_owned(), dst: dst.to_owned() },
            );
        }
        Ok(true)
    }

    /// The limits on a new path: its length in bytes, and its depth.
    pub fn check_path_length(&self, path: &str) -> (r: Result<(), FsError>)
        ensures
            r == self@.path_check(path@),
    {
        if path.as_bytes().len() > self.conf.max_path_len {
            return Err(FsError::PathTooLong { limit: self.conf.max_path_len });
        }
        let separators: usize = count_char(path, PATH_SEPARATOR);
        if separators >= self.conf.max_path_depth {
            return Err(FsError::PathTooDeep { limit: self.conf.max_path_depth });
        }
        Ok(())
    }

    /// Whether, and how, a file may be created. What is wrong with the request
    /// itself comes before what is wrong with the path.
    pub fn create_with_opts(
        &self,
        path: &str,
        opts: &CreateFileOpts,
        flags: &OpenFlags,
        resolved: Result<ResolvedPath, FsError>,
    ) -> (r: Result<CreateAction, FsError>)
        ensures
            match self@.create_request_error(path@, *opts, *flags) {
                Some(e) => r == Err::<CreateAction, FsError>(e),
                None => match resolved {
                    Err(e) => r == Err::<CreateAction, FsError>(e),
                    Ok(p) => match r {
                        Ok(CreateAction::Create) => p.last is None && (opts.create_parent
                            || p.has_parent()),
                        Ok(CreateAction::Overwrite) => p.last == Some(InodeKind::File)
                            && !flags.exclusive && flags.overwrite && (opts.create_parent
                            || p.has_parent()),
                        Err(FsError::ExistsAsDirectory { path: q }) => p.last == Some(
                            InodeKind::Dir,
                        ) && q@ == p.path@,
                        Err(FsError::FileExists { path: q }) => p.last == Some(InodeKind::File) && (
                        flags.exclusive || (!flags.overwrite && (opts.create_parent
                            || p.has_parent()))) && q@ == p.path@,
                        Err(FsError::ParentNotDirectory { parent }) => !opts.create_parent
                            && p.components > 2 && p.parent == Some(InodeKind::File) && !(p.last
                            == Some(InodeKind::Dir) || (p.last is Some && flags.exclusive))
                            && parent@ == p.parent_path@,
                        Err(FsError::ParentMissing { parent }) => !opts.create_parent
                            && p.components > 2 && p.parent is None && !(p.last == Some(
                            InodeKind::Dir,
                        ) || (p.last is Some && flags.exclusive)) && parent@ == p.parent_path@,
                        Err(_) => false,
                    },
                },
            },
    {
        if !flags.create {
            return Err(FsError::CreateFlagMissing);
        }
        self.check_path_length(path)?;
        if opts.replicas < self.conf.min_replication || opts.replicas
            >= self.conf.max_replication {
            return Err(
                FsError::ReplicasOutOfRange {
                    requested: opts.replicas,
                    min: self.conf.min_replication,
                    max: self.conf.max_replication,
                },
            );
        }
        if opts.block_size < self.conf.min_block_size || opts.block_size
            >= self.conf.max_block_size {
            return Err(
                FsError::BlockSizeOutOfRange {
                    min_size: self.conf.min_block_size,
                    max_size: self.conf.max_block_size,
                },
            );
        }
        let inp: ResolvedPath = match resolved {
            Ok(inp) => inp,
            Err(e) => return Err(e),
        };
        if let Some(kind) = inp.last {
            if kind == InodeKind::Dir {
                return Err(FsError::ExistsAsDirectory { path: inp.path });
            }
            if flags.exclusive {
                return Err(FsError::FileExists { path: inp.path });
            }
        }
        if !opts.create_parent {
            Self::check_parent(&inp)?;
        }
        if inp.last.is_some() {
            if flags.overwrite {
                Ok(CreateAction::Overwrite)
            } else {
                Err(FsError::FileExists { path: inp.path })
            }
        } else {
            Ok(CreateAction::Create)
        }
    }

    /// What opening a file comes to. A read-only handle can neither truncate
    /// nor create, whatever stands at the path.
    pub fn open_file(flags: &OpenFlags, resolved: Result<ResolvedPath, FsError>) -> (r: Result<
        OpenAction,
        FsError,
    >)
        ensures
            flags.read_only ==> r == (if flags.truncate {
                Err::<OpenAction, FsError>(FsError::ReadOnlyTruncate)
            } else if flags.create {
                Err(FsError::ReadOnlyCreate)
            } else {
                Ok(OpenAction::Read)
            }),
            !flags.read_only ==> match resolved {
                Err(e) => r == Err::<OpenAction, FsError>(e),
                Ok(p) => match r {
                    Ok(OpenAction::Read) => false,
                    Ok(OpenAction::Create) => p.last is None && flags.create,
                    Ok(OpenAction::Truncate) => p.last == Some(InodeKind::File) && flags.truncate,
                    Ok(OpenAction::Append) => p.last == Some(InodeKind::File) && !flags.truncate,
                    Err(FsError::FileNotFound { path, inode_id }) => p.last is None
                        && !flags.create && path@ == p.path@ && inode_id is None,
                    Err(FsError::IsDirectory { path }) => p.last == Some(InodeKind::Dir) && path@
                        == p.path@,
                    Err(_) => false,
                },
            },
    {
        if flags.read_only {
            if flags.truncate {
                return Err(FsError::ReadOnlyTruncate);
            }
            if flags.create {
                return Err(FsError::ReadOnlyCreate);
            }
            return Ok(OpenAction::Read);
        }
        let inp: ResolvedPath = match resolved {
            Ok(inp) => inp,
            Err(e) => return Err(e),
        };
        match inp.last {
            None => {
                if flags.create {
                    Ok(OpenAction::Create)
                } else {
                    Err(FsError::FileNotFound { path: inp.path, inode_id: None })
                }
            },
            Some(InodeKind::Dir) => Err(FsError::IsDirectory { path: inp.path }),
            Some(InodeKind::File) => {
                if flags.truncate {
                    Ok(OpenAction::Truncate)
                } else {
                    Ok(OpenAction::Append)
                }
            },
        }
    }

    /// The inode id that a request is to be resolved by, rather than by its
    /// path. Only a positive id counts.
    pub fn lookup_id(inode_id: Option<i64>) -> (r: Option<i64>)
        ensures
            r == id_in_request(inode_id),
    {
        match inode_id {
            Some(id) => if id > 0 {
                Some(id)
            } else {
                None
            },
            None => None,
        }
    }

    /// What was found for a request, by its inode id or by its path.
    pub fn resolve_file_inode<T>(path: &str, inode_id: Option<i64>, found: Option<T>) -> (r: Result<
        T,
        FsError,
    >)
        ensures
            match r {
                Ok(v) => found == Some(v),
                Err(e) => found is None && is_not_found(e, path@, id_in_request(inode_id)),
            },
    {
        match found {
            Some(v) => Ok(v),
            None => Err(
                FsError::FileNotFound {
                    path: path.to_owned(),
                    inode_id: Self::lookup_id(inode_id),
                },
            ),
        }
    }

    /// A pattern cannot be listed with options.
    pub fn list_options(path: &str, is_glob_pattern: bool) -> (r: Result<(), FsError>)
        ensures
            match r {
                Ok(_) => !is_glob_pattern,
                Err(e) => is_glob_pattern && (e matches FsError::GlobUnsupported { path: p } && p@
                    == path@),
            },
    {
        if is_glob_pattern {
            Err(FsError::GlobUnsupported { path: path.to_owned() })
        } else {
            Ok(())
        }
    }

    /// Whether the workers can take the growth of a file in all its replicas.
    /// A change of length alone needs no space.
    pub fn validate_alloc_capacity(
        current_len: i64,
        replicas: u8,
        opts: &FileAllocOpts,
        available: i64,
    ) -> (r: Result<(), FsError>)
        requires
            needs_space(current_len, *opts) ==> opts.len - current_len <= i64::MAX,
        ensures
            r == (if needs_space(current_len, *opts) && space_needed(current_len, replicas, *opts)
                > available {
                Err::<(), FsError>(
                    FsError::DiskOutOfSpace {
                        growth: (opts.len - current_len) as i64,
                        replicas,
                        available,
                    },
                )
            } else {
                Ok(())
            }),
    {
        if opts.truncate || opts.len <= current_len {
            return Ok(());
        }
        let growth: i64 = opts.len - current_len;
        proof {
            let g: int = growth as int;
            let n: int = replicas as int;
            assert(0 <= g * n <= i64::MAX * 255) by (nonlinear_arith)
                requires
                    0 <= g <= i64::MAX,
                    0 <= n <= 255,
            ;
        }
        let exact: i128 = growth as i128 * replicas as i128;
        let required: i64 = if exact > i64::MAX as i128 {
            i64::MAX
        } else {
            exact as i64
        };
        if required > available {
            return Err(FsError::DiskOutOfSpace { growth, replicas, available });
        }
        Ok(())
    }

    /// Whether a file may be resized. The check only rules out requests that
    /// no state of the workers could meet one by one; it reserves nothing.
    pub fn resize_by_id(&self, file: &InodeFile, opts: &FileAllocOpts) -> (r: Result<(), FsError>)
        requires
            needs_space(file.len, *opts) ==> opts.len - file.len <= i64::MAX,
        ensures
            r == (if opts.len < 0 {
                Err::<(), FsError>(FsError::NegativeLength { len: opts.len })
            } else if needs_space(file.len, *opts) && space_needed(file.len, file.replicas, *opts)
                > crate::worker_manager::capped(
                crate::worker_manager::available_sum(self@.manager.workers),
            ) {
                Err(
                    FsError::DiskOutOfSpace {
                        growth: (opts.len - file.len) as i64,
                        replicas: file.replicas,
                        available: crate::worker_manager::capped(
                            crate::worker_manager::available_sum(self@.manager.workers),
                        ),
                    },
                )
            } else {
                Ok(())
            }),
    {
        if opts.len < 0 {
            return Err(FsError::NegativeLength { len: opts.len });
        }
        let available: i64 = if opts.truncate {
            i64::MAX
        } else {
            self.worker_manager.available_bytes()
        };
        Self::validate_alloc_capacity(file.len, file.replicas, opts, available)
    }

    /// What the next block of a file is to be placed by. The block before it
    /// must have been committed in full.
    pub fn validate_add_block(
        file: &InodeFile,
        client_addr: &ClientAddress,
        previous: Option<&CommitBlock>,
    ) -> (r: Result<ValidateAddBlock, FsError>)
        ensures
            match r {
                Ok(v) => (previous matches Some(b) ==> b.block_len == file.block_size) && v.replicas
                    == file.replicas && v.block_size == file.block_size && v.storage_type
                    == file.storage_type && v.client_host@ == client_addr.hostname@,
                Err(e) => previous matches Some(b) && b.block_len != file.block_size && e == (
                FsError::CommitLengthMismatch {
                    block_size: file.block_size,
                    block_len: b.block_len,
                }),
            },
    {
        if let Some(block) = previous {
            if block.block_len != file.block_size {
                return Err(
                    FsError::CommitLengthMismatch {
                        block_size: file.block_size,
                        block_len: block.block_len,
                    },
                );
            }
        }
        Ok(
            ValidateAddBlock {
                replicas: file.replicas as u16,
                block_size: file.block_size,
                storage_type: file.storage_type,
                client_host: client_addr.hostname.clone(),
            },
        )
    }

    /// What becomes of the workers that the placement policy named for the
    /// next block of a file.
    pub fn choose_worker_for_file(
        file: &InodeFile,
        chosen: Result<Vec<WorkerAddress>, FsError>,
    ) -> (r: Result<Vec<WorkerAddress>, FsError>)
        ensures
            r == (match chosen {
                Err(e) => Err(e),
                Ok(w) => if w@.len() == 0 {
                    Err(FsError::NoAvailableWorker)
                } else if w@.len() > file.replicas {
                    Err(FsError::TooManyForReplicas)
                } else {
                    Ok(w)
                },
            }),
    {
        WorkerManager::choose_worker(file.replicas as u16, chosen)
    }

    /// The block behind `last_block` that another writer has had allocated
    /// already, if there is one: a new one is not allocated then.
    pub fn add_block(file: &InodeFile, last_block: Option<i64>) -> (r: Option<ExtendedBlock>)
        ensures
            r == (match crate::model::next_block(file.blocks@, last_block) {
                Some(meta) => Some(file.extended(meta)),
                None => None,
            }),
    {
        match file.search_next_block(last_block) {
            Some(next) => Some(file.extended_block(&next)),
            None => None,
        }
    }

    /// A block that was just allocated on the chosen workers.
    pub fn assign_worker(&self, block: ExtendedBlock, chosen: Vec<WorkerAddress>) -> (r:
        LocatedBlock)
        ensures
            r.block == block,
            r.locs == chosen,
            r.has_spdk == exists|i: int|
                0 <= i < chosen@.len() && crate::placement::has_spdk_storage(
                    self@.manager.workers,
                    (#[trigger] chosen@[i]).worker_id,
                ),
    {
        let has_spdk: bool = self.worker_manager.workers_have_spdk(&chosen);
        LocatedBlock { block, locs: chosen, has_spdk }
    }

    /// What completing a file answers: its blocks where a flush asks for
    /// them, and nothing otherwise.
    pub fn complete_file(
        &self,
        path: &str,
        only_flush: bool,
        return_file_blocks: bool,
        completed: (FileStatus, &FileRecord),
    ) -> (r: Result<Option<FileBlocks>, FsError>)
        ensures
            match r {
                Ok(None) => !(only_flush && return_file_blocks),
                Ok(Some(b)) => only_flush && return_file_blocks && are_blocks_of(
                    self@.manager,
                    path@,
                    completed.0,
                    *completed.1,
                    b,
                ),
                Err(e) => only_flush && return_file_blocks && is_locate_error(
                    self@.manager,
                    path@,
                    completed.1.file,
                    completed.1.locations@,
                    e,
                ),
            },
    {
        if only_flush && return_file_blocks {
            match self.file_blocks(path, completed.0, completed.1) {
                Ok(blocks) => Ok(Some(blocks)),
                Err(e) => Err(e),
            }
        } else {
            Ok(None)
        }
    }

    /// The status of the inode that a request names, under the path that the
    /// request gives: an inode found by its id may stand elsewhere by now.
    pub fn file_status_by_id(path: &str, inode_id: Option<i64>, found: Option<FileStatus>) -> (r:
        Result<FileStatus, FsError>)
        ensures
            match r {
                Ok(s) => found matches Some(f) && is_status_at(s, f, path@),
                Err(e) => found is None && is_not_found(e, path@, id_in_request(inode_id)),
            },
    {
        let status: FileStatus = match Self::resolve_file_inode(path, inode_id, found) {
            Ok(status) => status,
            Err(e) => return Err(e),
        };
        Ok(status_at(path, status))
    }

    /// A file that stands at a path, with the locations of its blocks.
    pub fn get_block_locations(&self, path: &str, found: Option<(FileStatus, &FileRecord)>) -> (r:
        Result<FileBlocks, FsError>)
        ensures
            match r {
                Ok(b) => found matches Some(f) && are_blocks_of(self@.manager, path@, f.0, *f.1, b),
                Err(e) => match found {
                    Some(f) => is_locate_error(
                        self@.manager,
                        path@,
                        f.1.file,
                        f.1.locations@,
                        e,
                    ),
                    None => is_not_found(e, path@, None),
                },
            },
    {
        match found {
            Some((status, record)) => self.file_blocks(path, status, record),
            None => Err(FsError::FileNotFound { path: path.to_owned(), inode_id: None }),
        }
    }

    fn file_blocks(&self, path: &str, status: FileStatus, record: &FileRecord) -> (r: Result<
        FileBlocks,
        FsError,
    >)
        ensures
            match r {
                Ok(b) => are_blocks_of(self@.manager, path@, status, *record, b),
                Err(e) => is_locate_error(
                    self@.manager,
                    path@,
                    record.file,
                    record.locations@,
                    e,
                ),
            },
    {
        match self.get_block_locs(path, &record.file, &record.locations) {
            Ok(block_locs) => Ok(FileBlocks { status: status_at(path, status), block_locs }),
            Err(e) => Err(e),
        }
    }

    /// The blocks of a file with their live locations. The first block that
    /// is faulty decides the error.
    pub fn get_block_locs(
        &self,
        path: &str,
        file: &InodeFile,
        file_locs: &Vec<(i64, Vec<BlockLocation>)>,
    ) -> (r: Result<Vec<LocatedBlock>, FsError>)
        ensures
            match r {
                Ok(v) => are_located(self@.manager, *file, file_locs@, v@),
                Err(e) => is_locate_error(self@.manager, path@, *file, file_locs@, e),
            },
    {
        let mut block_locs: Vec<LocatedBlock> = Vec::new();
        let mut i: usize = 0;
        while i < file.blocks.len()
            invariant
                i <= file.blocks.len(),
                block_locs@.len() == i,
                forall|j: int|
                    0 <= j < i ==> #[trigger] block_fault(
                        self@.manager,
                        *file,
                        file_locs@,
                        j,
                    ) is None,
                forall|j: int|
                    0 <= j < i ==> (#[trigger] block_locs@[j])@ == crate::placement::located(
                        self@.manager.workers,
                        file.extended(file.blocks@[j]),
                        recorded(file_locs@, file.blocks@[j].id)->0,
                    ),
            decreases file.blocks.len() - i,
        {
            let meta: BlockMeta = file.blocks[i];
            assert(meta == file.blocks@[i as int]);
            if i + 1 < file.blocks.len() && meta.len != file.block_size {
                return Err(
                    FsError::BlockAbnormal {
                        block_id: meta.id,
                        block_len: meta.len,
                        block_size: file.block_size,
                    },
                );
            }
            let found: Option<usize> = find_locations(file_locs, meta.id);
            match found {
                None => {
                    return Err(FsError::BlockLost { path: path.to_owned(), block_id: meta.id });
                },
                Some(at) => {
                    let located = self.worker_manager.create_locate_block(
                        path,
                        file.extended_block(&meta),
                        &file_locs[at].1,
                    );
                    match located {
                        Ok(block) => block_locs.push(block),
                        Err(e) => return Err(e),
                    }
                },
            }
            i += 1;
        }
        Ok(block_locs)
    }

    /// Queues the deletion of the blocks that an operation discarded, and
    /// returns the rest of its result.
    pub fn delete(&mut self, result: DeleteResult) -> (r: DeleteResult)
        ensures
            final(self)@ == old(self)@.with_deletes(result.replicas()),
            r.inodes == result.inodes,
            r.bytes == result.bytes,
            r.blocks@.len() == 0,
    {
        self.worker_manager.remove_blocks(&result);
        DeleteResult { inodes: result.inodes, bytes: result.bytes, blocks: Vec::new() }
    }
}

/// The same status but for the path.
pub open spec fn is_status_at(s: FileStatus, found: FileStatus, path: Seq<char>) -> bool {
    s.id == found.id && s.path@ == path && s.name == found.name && s.len == found.len && s.is_dir
        == found.is_dir
}

/// The file's status under `path`, and its blocks with their live locations.
pub open spec fn are_blocks_of(
    m: ManagerView,
    path: Seq<char>,
    status: FileStatus,
    record: FileRecord,
    b: FileBlocks,
) -> bool {
    is_status_at(b.status, status, path) && are_located(
        m,
        record.file,
        record.locations@,
        b.block_locs@,
    )
}

pub(crate) fn status_at(path: &str, status: FileStatus) -> (r: FileStatus)
    ensures
        is_status_at(r, status, path@),
{
    FileStatus {
        id: status.id,
        path: path.to_owned(),
        name: status.name,
        len: status.len,
        is_dir: status.is_dir,
    }
}

fn find_locations(locs: &Vec<(i64, Vec<BlockLocation>)>, id: i64) -> (r: Option<usize>)
    ensures
        match r {
            Some(i) => i < locs@.len() && recorded(locs@, id) == Some(locs@[i as int].1@),
            None => recorded(locs@, id) is None,
        },
{
    let mut i: usize = 0;
    while i < locs.len()
        invariant
            i <= locs.len(),
            forall|j: int| 0 <= j < i ==> (#[trigger] locs@[j]).0 != id,
        decreases locs.len() - i,
    {
        if locs[i].0 == id {
            proof {
                recorded_skips(locs@, id, i as int);
                assert(locs@.skip(i as int)[0] == locs@[i as int]);
            }
            return Some(i);
        }
        i += 1;
    }
    proof {
        recorded_skips(locs@, id, i as int);
        assert(locs@.skip(i as int).len() == 0);
    }
    None
}

/// The locations on other workers than the given one, in order.
pub open spec fn elsewhere(locs: Seq<BlockLocation>, worker_id: u32) -> Seq<BlockLocation>
    decreases locs.len(),
{
    if locs.len() == 0 {
        Seq::empty()
    } else if locs.last().worker_id == worker_id {
        elsewhere(locs.drop_last(), worker_id)
    } else {
        elsewhere(locs.drop_last(), worker_id).push(locs.last())
    }
}

/// The locations at which a discarded block is still to be deleted.
pub open spec fn left_over(
    locs: Seq<(i64, Vec<BlockLocation>)>,
    id: i64,
    lost_worker: Option<u32>,
) -> Seq<BlockLocation> {
    match (recorded(locs, id), lost_worker) {
        (Some(l), Some(w)) => elsewhere(l, w),
        (Some(l), None) => l,
        (None, _) => Seq::empty(),
    }
}

/// Discards the cached blocks of a file and returns them with the locations
/// at which they are to be deleted. A file that is overwritten becomes empty.
/// One that lost blocks with a worker keeps its length, and the locations on
/// that worker are gone already.
pub fn discard_cache(
    file: &mut InodeFile,
    locs: &Vec<(i64, Vec<BlockLocation>)>,
    worker_id: u32,
    overwrite: bool,
) -> (r: DeleteResult)
    ensures
        final(file).blocks@.len() == 0,
        final(file).len == (if overwrite {
            0
        } else {
            old(file).len
        }),
        *final(file) == (InodeFile {
            blocks: final(file).blocks,
            len: final(file).len,
            ..*old(file)
        }),
        r.inodes == 0,
        r.bytes == 0,
        r.blocks@.len() == old(file).blocks@.len(),
        forall|i: int|
            0 <= i < r.blocks@.len() ==> (#[trigger] r.blocks@[i]).0 == old(file).blocks@[i].id
                && r.blocks@[i].1@ == left_over(
                locs@,
                old(file).blocks@[i].id,
                if overwrite {
                    None
                } else {
                    Some(worker_id)
                },
            ),
{
    let mut blocks: Vec<(i64, Vec<BlockLocation>)> = Vec::new();
    let ghost lost_worker = if overwrite {
        None
    } else {
        Some(worker_id)
    };
    let mut i: usize = 0;
    while i < file.blocks.len()
        invariant
            *file == *old(file),
            i <= file.blocks.len(),
            blocks@.len() == i,
            lost_worker == (if overwrite {
                None
            } else {
                Some(worker_id)
            }),
            forall|j: int|
                0 <= j < i ==> (#[trigger] blocks@[j]).0 == file.blocks@[j].id && blocks@[j].1@
                    == left_over(locs@, file.blocks@[j].id, lost_worker),
        decreases file.blocks.len() - i,
    {
        let id: i64 = file.blocks[i].id;
        let mut kept: Vec<BlockLocation> = Vec::new();
        if let Some(at) = find_locations(locs, id) {
            let all: &Vec<BlockLocation> = &locs[at].1;
            let mut k: usize = 0;
            assert(kept@ =~= elsewhere(all@.take(0), worker_id));
            assert(kept@ =~= all@.take(0));
            while k < all.len()
                invariant
                    k <= all.len(),
                    kept@ == (if overwrite {
                        all@.take(k as int)
                    } else {
                        elsewhere(all@.take(k as int), worker_id)
                    }),
                decreases all.len() - k,
            {
                proof {
                    crate::ids::take_step(all@, k as int);
                }
                if overwrite || all[k].worker_id != worker_id {
                    kept.push(all[k]);
                }
                assert(overwrite ==> kept@ =~= all@.take(k + 1));
                k += 1;
            }
            assert(all@.take(all@.len() as int) =~= all@);
        }
        assert(kept@ =~= left_over(locs@, id, lost_worker));
        blocks.push((id, kept));
        i += 1;
    }
    file.blocks = Vec::new();
    if overwrite {
        file.len = 0;
    }
    DeleteResult { inodes: 0, bytes: 0, blocks }
}

/// The inode id that a request is resolved by.
pub open spec fn id_in_request(inode_id: Option<i64>) -> Option<i64> {
    match inode_id {
        Some(id) => if id > 0 {
            Some(id)
        } else {
            None
        },
        None => None,
    }
}

/// The request makes a file grow and wants space for it.
pub open spec fn needs_space(current_len: i64, opts: FileAllocOpts) -> bool {
    !opts.truncate && opts.len > current_len
}

/// The space that the growth takes in all replicas.
pub open spec fn space_needed(current_len: i64, replicas: u8, opts: FileAllocOpts) -> i64 {
    crate::worker_manager::capped((opts.len - current_len) * replicas)
}

impl FilesystemView {
    pub open spec fn with_deletes(self, replicas: Set<(u32, i64)>) -> FilesystemView {
        FilesystemView {
            manager: ManagerView {
                deletes: self.manager.deletes.union(replicas),
                ..self.manager
            },
            ..self
        }
    }

    /// The limits on a new path. Its length counts in bytes; its depth is the number of
    /// parts that separators divide it into.
    pub open spec fn path_check(self, path: Seq<char>) -> Result<(), FsError> {
        if vstd::utf8::encode_utf8(path).len() > self.conf.max_path_len {
            Err(FsError::PathTooLong { limit: self.conf.max_path_len })
        } else if crate::text::occurrences(path, PATH_SEPARATOR) + 1 > self.conf.max_path_depth {
            Err(FsError::PathTooDeep { limit: self.conf.max_path_depth })
        } else {
            Ok(())
        }
    }

    /// What is wrong with a request to create a file, whatever the path.
    pub open spec fn create_request_error(
        self,
        path: Seq<char>,
        opts: CreateFileOpts,
        flags: OpenFlags,
    ) -> Option<FsError> {
        if !flags.create {
            Some(FsError::CreateFlagMissing)
        } else if self.path_check(path) is Err {
            Some(self.path_check(path)->Err_0)
        } else if !(self.conf.min_replication <= opts.replicas < self.conf.max_replication) {
            Some(
                FsError::ReplicasOutOfRange {
                    requested: opts.replicas,
                    min: self.conf.min_replication,
                    max: self.conf.max_replication,
                },
            )
        } else if !(self.conf.min_block_size <= opts.block_size < self.conf.max_block_size) {
            Some(
                FsError::BlockSizeOutOfRange {
                    min_size: self.conf.min_block_size,
                    max_size: self.conf.max_block_size,
                },
            )
        } else {
            None
        }
    }
}

} // verus!
