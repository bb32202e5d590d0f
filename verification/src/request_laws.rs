//! What requests are answered.

use vstd::prelude::*;

use crate::block_map::WorkerCommand;
use crate::block_report::{BlockReportResult, FullBlockReconcileJob};
use crate::cleanup::{CurrentBlocks, InvalidationTask};
use crate::compatibility::{CompatibilityMode, CompatibilityPolicy};
use crate::delta::{
    CvMetadataChange, CvMetadataDeltaEntry, CvMetadataDeltaPage, DeltaStart, PathMap,
};
use crate::error::{ErrorKind, FsError};
use crate::filesystem_info::FilesystemInfo;
use crate::master_filesystem::MasterFilesystem;
use crate::master_handler::{MasterHandler, RetryStep, RpcCode};
use crate::model::{
    BlockLocation, ClientAddress, CommitBlock, ExtendedBlock, FileAllocOpts, FileBlocks,
    FileStatus, InodeFile, LocatedBlock, StorageType, WorkerAddress, WorkerStatus,
};
use crate::namespace::{
    CreateAction, CreateFileOpts, InodeKind, MkdirAction, OpenAction, OpenFlags, ResolvedPath,
    ValidateAddBlock,
};
use crate::snapshot::{CvMetadataSnapshotEntry, CvMetadataSnapshotPage, FileRecord};
use crate::worker_manager::WorkerManager;

verus! {

/// The parent of a path is there: it is the root, or a directory.
pub open spec fn is_housed(p: ResolvedPath) -> bool {
    p.components <= 2 || p.parent == Some(InodeKind::Dir)
}

/// A path whose parent is not there is refused with the path of the parent,
/// and with whether it is missing or no directory.
pub proof fn parents_have_to_be_there(path: ResolvedPath, r: Result<(), FsError>)
    requires
        call_ensures(MasterFilesystem::check_parent, (&path,), r),
    ensures
        r is Ok <==> is_housed(path),
        r matches Err(e) ==> {
            &&& path.parent is None <==> e is ParentMissing
            &&& path.parent is Some <==> e is ParentNotDirectory
            &&& e matches FsError::ParentMissing { parent } ==> parent@ == path.parent_path@
            &&& e matches FsError::ParentNotDirectory { parent } ==> parent@ == path.parent_path@
        },
{
}

/// A directory is made exactly where nothing stands at its path, which is not
/// the root, and its parent is there or is to be made as well; one that is
/// there already is reported where parents are to be made. Else the root, and
/// whatever stands there, is in the way, or the parent is missing.
pub proof fn directories_are_made_where_nothing_stands(
    path: ResolvedPath,
    create_parent: bool,
    r: Result<MkdirAction, FsError>,
)
    requires
        call_ensures(MasterFilesystem::mkdir_with_opts, (&path, create_parent), r),
    ensures
        r == Ok::<MkdirAction, FsError>(MkdirAction::Create) <==> !path.is_root && path.last is None
            && (create_parent || is_housed(path)),
        r == Ok::<MkdirAction, FsError>(MkdirAction::Existing) <==> !path.is_root && create_parent
            && path.last == Some(InodeKind::Dir),
        r matches Err(e) ==> {
            &&& e is RootExists <==> path.is_root
            &&& e is FileExists <==> !path.is_root && path.last is Some
            &&& e is ParentMissing <==> !path.is_root && path.last is None && path.parent is None
            &&& e is ParentNotDirectory <==> !path.is_root && path.last is None
                && path.parent is Some
        },
{
}

/// A path is moved unless it is the root or moves below itself; a path that
/// moves onto itself stays. Two paths change places in either direction or in
/// none.
pub proof fn paths_do_not_move_into_themselves(
    src: &str,
    dst: &str,
    exchange: bool,
    src_is_root: bool,
    r: Result<bool, FsError>,
    back: Result<bool, FsError>,
)
    requires
        call_ensures(MasterFilesystem::rename, (src_is_root, src, dst, exchange), r),
        call_ensures(MasterFilesystem::rename, (false, dst, src, exchange), back),
    ensures
        src_is_root <==> r == Err::<bool, FsError>(FsError::RenameRoot),
        !src_is_root && src@ == dst@ ==> r == Ok::<bool, FsError>(false),
        r == Ok::<bool, FsError>(false) ==> src@ == dst@,
        forall|rest: Seq<char>|
            !src_is_root && dst@ == #[trigger] (src@.push('/') + rest) ==> r is Err
                && r->Err_0 is RenameIntoSelf,
        r == Ok::<bool, FsError>(true) && !exchange ==> src@ != dst@
            && !crate::text::is_under(dst@, src@),
        exchange && !src_is_root ==> (r == Ok::<bool, FsError>(true) <==> back == Ok::<
            bool,
            FsError,
        >(true)),
        !src_is_root && r is Err ==> crate::text::is_under(dst@, src@) || exchange
            && crate::text::is_under(src@, dst@),
        r matches Err(FsError::RenameIntoSelf { src: s, dst: d }) ==> s@ == src@ && d@ == dst@,
        r matches Err(FsError::ExchangeWithAncestor { src: s, dst: d }) ==> s@ == src@ && d@
            == dst@,
{
    crate::path_laws::prefixes_are_beginnings(dst@, src@);
    assert forall|rest: Seq<char>|
        !src_is_root && dst@ == #[trigger] (src@.push('/') + rest) implies r is Err
        && r->Err_0 is RenameIntoSelf by {
        assert(crate::text::is_under(src@.push('/') + rest, src@));
        if dst@ == src@ {
            assert(dst@.len() > src@.len());
        }
    }
}

/// A file is made where nothing stands and emptied where a file stands that
/// may be overwritten; where a directory stands, or a file that may not be
/// overwritten, the path is taken. A parent has to be there unless it is to be
/// made.
pub proof fn files_are_made_or_overwritten(
    fs: MasterFilesystem,
    path: &str,
    opts: CreateFileOpts,
    flags: OpenFlags,
    p: ResolvedPath,
    r: Result<CreateAction, FsError>,
)
    requires
        call_ensures(
            MasterFilesystem::create_with_opts,
            (&fs, path, &opts, &flags, Ok::<ResolvedPath, FsError>(p)),
            r,
        ),
        fs@.create_request_error(path@, opts, flags) is None,
    ensures
        ({
            let room = opts.create_parent || is_housed(p);
            &&& r == Ok::<CreateAction, FsError>(CreateAction::Create) <==> p.last is None && room
            &&& r == Ok::<CreateAction, FsError>(CreateAction::Overwrite) <==> p.last == Some(
                InodeKind::File,
            ) && flags.overwrite && !flags.exclusive && room
            &&& p.last == Some(InodeKind::Dir) <==> (r matches Err(
                FsError::ExistsAsDirectory { path: q },
            ) && q@ == p.path@)
            &&& p.last == Some(InodeKind::File) && flags.exclusive ==> (r matches Err(
                FsError::FileExists { path: q },
            ) && q@ == p.path@)
            &&& p.last == Some(InodeKind::File) && !flags.overwrite && room ==> (r matches Err(
                FsError::FileExists { path: q },
            ) && q@ == p.path@)
        }),
{
}

/// A request that is not in order is refused for what is wrong with it, before
/// the path is looked at; and a path that cannot be resolved with its error.
pub proof fn creation_is_refused_for_its_reason(
    fs: MasterFilesystem,
    path: &str,
    opts: CreateFileOpts,
    flags: OpenFlags,
    resolved: Result<ResolvedPath, FsError>,
    r: Result<CreateAction, FsError>,
)
    requires
        call_ensures(
            MasterFilesystem::create_with_opts,
            (&fs, path, &opts, &flags, resolved),
            r,
        ),
    ensures
        ({
            let c = fs@.conf;
            let bytes = vstd::utf8::encode_utf8(path@).len();
            let depth = path@.filter(|x: char| x == '/').len() + 1;
            let named = bytes <= c.max_path_len && depth <= c.max_path_depth;
            let spread = c.min_replication <= opts.replicas && opts.replicas < c.max_replication;
            let sized = c.min_block_size <= opts.block_size && opts.block_size < c.max_block_size;
            &&& !flags.create ==> r == Err::<CreateAction, FsError>(FsError::CreateFlagMissing)
            &&& flags.create && bytes > c.max_path_len ==> r == Err::<CreateAction, FsError>(
                FsError::PathTooLong { limit: c.max_path_len },
            )
            &&& flags.create && bytes <= c.max_path_len && depth > c.max_path_depth ==> r == Err::<
                CreateAction,
                FsError,
            >(FsError::PathTooDeep { limit: c.max_path_depth })
            &&& flags.create && named && !spread ==> r == Err::<CreateAction, FsError>(
                FsError::ReplicasOutOfRange {
                    requested: opts.replicas,
                    min: c.min_replication,
                    max: c.max_replication,
                },
            )
            &&& flags.create && named && spread && !sized ==> r == Err::<CreateAction, FsError>(
                FsError::BlockSizeOutOfRange {
                    min_size: c.min_block_size,
                    max_size: c.max_block_size,
                },
            )
            &&& flags.create && named && spread && sized && resolved is Err ==> r == Err::<
                CreateAction,
                FsError,
            >(resolved->Err_0)
        }),
{
    crate::placement_laws::paths_are_bounded(fs@, path@);
    crate::placement_laws::creation_is_bounded(fs@, path@, opts, flags);
}

/// A file that is opened for writing is emptied or continued, or made where
/// nothing stands; opening for reading neither makes nor empties.
pub proof fn files_are_opened_as_asked(
    flags: OpenFlags,
    p: ResolvedPath,
    r: Result<OpenAction, FsError>,
)
    requires
        call_ensures(MasterFilesystem::open_file, (&flags, Ok::<ResolvedPath, FsError>(p)), r),
    ensures
        r == Ok::<OpenAction, FsError>(OpenAction::Read) <==> flags.read_only && !flags.truncate
            && !flags.create,
        r == Ok::<OpenAction, FsError>(OpenAction::Create) <==> !flags.read_only && p.last is None
            && flags.create,
        r == Ok::<OpenAction, FsError>(OpenAction::Truncate) <==> !flags.read_only && p.last == Some(
            InodeKind::File,
        ) && flags.truncate,
        r == Ok::<OpenAction, FsError>(OpenAction::Append) <==> !flags.read_only && p.last == Some(
            InodeKind::File,
        ) && !flags.truncate,
        flags.read_only && flags.truncate ==> r == Err::<OpenAction, FsError>(
            FsError::ReadOnlyTruncate,
        ),
        flags.read_only && !flags.truncate && flags.create ==> r == Err::<OpenAction, FsError>(
            FsError::ReadOnlyCreate,
        ),
        !flags.read_only && p.last is None && !flags.create ==> (r matches Err(
            FsError::FileNotFound { path, inode_id },
        ) && path@ == p.path@ && inode_id is None),
        !flags.read_only && p.last == Some(InodeKind::Dir) ==> (r matches Err(
            FsError::IsDirectory { path },
        ) && path@ == p.path@),
{
}

/// A file is looked up by an id where a positive one is given; one that is
/// found is what is handed out, and one that is not is missed under its path
/// and that id.
pub proof fn files_are_found_by_id(
    path: &str,
    inode_id: Option<i64>,
    found: Option<FileStatus>,
    by: Option<i64>,
    r: Result<FileStatus, FsError>,
)
    requires
        call_ensures(MasterFilesystem::lookup_id, (inode_id,), by),
        call_ensures(MasterFilesystem::file_status_by_id, (path, inode_id, found), r),
    ensures
        by is Some <==> inode_id is Some && inode_id->0 > 0,
        by is Some ==> by == inode_id,
        r is Ok <==> found is Some,
        r matches Ok(s) ==> {
            let f = found->0;
            &&& s.path@ == path@
            &&& s.id == f.id && s.len == f.len && s.is_dir == f.is_dir && s.name == f.name
        },
        r matches Err(e) ==> (e matches FsError::FileNotFound { path: q, inode_id: i } && q@ == path@
            && i == by),
{
}

/// A pattern cannot be listed with options, anything else can.
pub proof fn patterns_are_not_listed(path: &str, is_glob_pattern: bool, r: Result<(), FsError>)
    requires
        call_ensures(MasterFilesystem::list_options, (path, is_glob_pattern), r),
    ensures
        r is Ok <==> !is_glob_pattern,
        is_glob_pattern ==> (r matches Err(FsError::GlobUnsupported { path: p }) && p@ == path@),
{
}

/// A file may grow where its growth, once for each replica, is no more than
/// the space that is available; it may always shrink or be cut.
pub proof fn growth_is_bounded_by_space(
    current_len: i64,
    replicas: u8,
    opts: FileAllocOpts,
    available: i64,
    r: Result<(), FsError>,
)
    requires
        call_ensures(
            MasterFilesystem::validate_alloc_capacity,
            (current_len, replicas, &opts, available),
            r,
        ),
        opts.len - current_len <= i64::MAX,
    ensures
        opts.truncate || opts.len <= current_len ==> r is Ok,
        !opts.truncate && opts.len > current_len && available < i64::MAX ==> (r is Ok <==> (opts.len
            - current_len) * replicas <= available),
        !opts.truncate && opts.len > current_len && available == i64::MAX ==> r is Ok,
        r is Err ==> r == Err::<(), FsError>(
            FsError::DiskOutOfSpace {
                growth: (opts.len - current_len) as i64,
                replicas,
                available,
            },
        ),
{
    if opts.len > current_len {
        assert((opts.len - current_len) * replicas >= 0) by (nonlinear_arith)
            requires
                opts.len > current_len,
        ;
    }
}

/// A file may be resized where the workers together have the space for its
/// growth, and a length below zero is refused.
pub proof fn files_grow_into_the_common_space(
    fs: MasterFilesystem,
    file: InodeFile,
    opts: FileAllocOpts,
    bytes: i64,
    r: Result<(), FsError>,
)
    requires
        call_ensures(MasterFilesystem::resize_by_id, (&fs, &file, &opts), r),
        call_ensures(WorkerManager::available_bytes, (&fs.worker_manager,), bytes),
        opts.len - file.len <= i64::MAX,
    ensures
        opts.len < 0 ==> r == Err::<(), FsError>(FsError::NegativeLength { len: opts.len }),
        opts.len >= 0 && (opts.truncate || opts.len <= file.len) ==> r is Ok,
        opts.len >= 0 && !opts.truncate && opts.len > file.len && bytes < i64::MAX ==> (r is Ok <==> (
        opts.len - file.len) * file.replicas <= bytes),
        opts.len >= 0 && !opts.truncate && opts.len > file.len && bytes == i64::MAX ==> r is Ok,
        opts.len >= 0 && r is Err ==> r == Err::<(), FsError>(
            FsError::DiskOutOfSpace {
                growth: (opts.len - file.len) as i64,
                replicas: file.replicas,
                available: bytes,
            },
        ),
{
    if opts.len > file.len {
        assert((opts.len - file.len) * file.replicas >= 0) by (nonlinear_arith)
            requires
                opts.len > file.len,
        ;
    }
}

/// The available space of one worker more is that of the others and its own,
/// as long as the sum can be told.
pub proof fn one_worker_more_adds_its_space(
    a: WorkerManager,
    b: WorkerManager,
    id: u32,
    before: i64,
    after: i64,
)
    requires
        call_ensures(WorkerManager::available_bytes, (&a,), before),
        call_ensures(WorkerManager::available_bytes, (&b,), after),
        !a@.workers.contains_key(id),
        b@.workers.contains_key(id),
        b@.workers == a@.workers.insert(id, b@.workers[id]),
    ensures
        before >= 0,
        a@.workers == Map::<u32, crate::model::WorkerView>::empty() ==> before == 0,
        ({
            let own = if b@.workers[id].available > 0 {
                b@.workers[id].available as int
            } else {
                0
            };
            &&& before < i64::MAX && before + own <= i64::MAX ==> after == before + own
            &&& before + own > i64::MAX ==> after == i64::MAX
        }),
{
    crate::placement_laws::available_space_is_additive(a@.workers, id, b@.workers[id]);
    space_is_not_negative(a@.workers, crate::ids::workers_in_order(a@.workers.dom()));
}

proof fn space_is_not_negative(m: Map<u32, crate::model::WorkerView>, ids: Seq<u32>)
    ensures
        crate::worker_manager::available_over(m, ids) >= 0,
    decreases ids.len(),
{
    if ids.len() > 0 {
        space_is_not_negative(m, ids.drop_last());
    }
}

/// Another block may be added where the block before it is full; it is to be
/// placed as the file says and near the client.
pub proof fn blocks_follow_full_blocks(
    file: InodeFile,
    client: ClientAddress,
    previous: Option<&CommitBlock>,
    r: Result<ValidateAddBlock, FsError>,
)
    requires
        call_ensures(MasterFilesystem::validate_add_block, (&file, &client, previous), r),
    ensures
        r is Ok <==> previous is None || previous->0.block_len == file.block_size,
        r matches Ok(v) ==> v.replicas == file.replicas && v.block_size == file.block_size
            && v.storage_type == file.storage_type && v.client_host@ == client.hostname@,
        r is Err ==> r == Err::<ValidateAddBlock, FsError>(
            FsError::CommitLengthMismatch {
                block_size: file.block_size,
                block_len: previous->0.block_len,
            },
        ),
{
}

/// A choice of workers is taken as it is where it names some worker and not
/// more than were asked for.
pub proof fn choices_are_taken_within_bounds(
    file: InodeFile,
    replicas: u16,
    count: usize,
    chosen: Result<Vec<WorkerAddress>, FsError>,
    a: Result<Vec<WorkerAddress>, FsError>,
    b: Result<Vec<WorkerAddress>, FsError>,
    c: Result<Vec<WorkerAddress>, FsError>,
)
    requires
        call_ensures(MasterFilesystem::choose_worker_for_file, (&file, chosen), a),
        call_ensures(WorkerManager::choose_worker, (replicas, chosen), b),
        call_ensures(WorkerManager::choose_workers, (count, chosen), c),
    ensures
        chosen is Err ==> a == chosen && b == chosen && c == chosen,
        chosen matches Ok(w) ==> {
            let n = w@.len();
            &&& n == 0 ==> a == Err::<Vec<WorkerAddress>, FsError>(FsError::NoAvailableWorker) && b
                == a && c == a
            &&& 0 < n <= file.replicas ==> a == chosen
            &&& 0 < n <= replicas ==> b == chosen
            &&& 0 < n <= count ==> c == chosen
            &&& n > 0 && n > file.replicas ==> a == Err::<Vec<WorkerAddress>, FsError>(
                FsError::TooManyForReplicas,
            )
            &&& n > 0 && n > replicas ==> b == Err::<Vec<WorkerAddress>, FsError>(
                FsError::TooManyForReplicas,
            )
            &&& n > 0 && n > count ==> c == Err::<Vec<WorkerAddress>, FsError>(
                FsError::TooManyForCount,
            )
        },
{
}

/// A block that was handed out before is handed out again as it is on record:
/// the one behind the last that the client knows, or the first.
pub proof fn known_blocks_are_handed_out_again(
    file: InodeFile,
    last: Option<i64>,
    i: int,
    r: Option<ExtendedBlock>,
)
    requires
        call_ensures(MasterFilesystem::add_block, (&file, last), r),
    ensures
        last is None ==> (r is Some <==> file.blocks@.len() > 0),
        last is None && r is Some ==> r->0.id == file.blocks@[0].id && r->0.len
            == file.blocks@[0].len,
        last is Some && 0 <= i < file.blocks@.len() && file.blocks@[i].id == last->0 && (forall|j:
            int|
            0 <= j < i ==> (#[trigger] file.blocks@[j]).id != last->0) ==> (r is Some <==> i + 1
            < file.blocks@.len()) && (r is Some ==> r->0.id == file.blocks@[i + 1].id && r->0.len
            == file.blocks@[i + 1].len && r->0.alloc_opts == file.blocks@[i + 1].alloc_opts),
        last is Some && (forall|j: int|
            0 <= j < file.blocks@.len() ==> (#[trigger] file.blocks@[j]).id != last->0) ==> r is None,
        r matches Some(b) ==> b.storage_type == file.storage_type && b.file_type == file.file_type,
{
    if last is Some {
        crate::placement_laws::next_block_follows(file.blocks@, last->0);
    }
}

/// A block that is placed on chosen workers is located there, and is on a raw
/// device where one of them has one.
pub proof fn placed_blocks_are_where_they_were_placed(
    fs: MasterFilesystem,
    block: ExtendedBlock,
    chosen: Vec<WorkerAddress>,
    i: int,
    r: LocatedBlock,
)
    requires
        call_ensures(MasterFilesystem::assign_worker, (&fs, block, chosen), r),
    ensures
        r.block == block,
        r.locs@ == chosen@,
        0 <= i < chosen@.len() && crate::placement::has_spdk_storage(
            fs@.manager.workers,
            chosen@[i].worker_id,
        ) ==> r.has_spdk,
        r.has_spdk ==> exists|k: int|
            0 <= k < chosen@.len() && crate::placement::has_spdk_storage(
                fs@.manager.workers,
                (#[trigger] chosen@[k]).worker_id,
            ),
{
}

/// A block is located at every live worker on record for it, each by its
/// address and in the order of the record; it is lost where workers are on
/// record and none of them is live.
pub proof fn blocks_are_located_where_they_live(
    wm: WorkerManager,
    path: &str,
    block: ExtendedBlock,
    locs: Vec<BlockLocation>,
    i: int,
    r: Result<LocatedBlock, FsError>,
)
    requires
        call_ensures(WorkerManager::create_locate_block, (&wm, path, block, &locs), r),
    ensures
        ({
            let live = locs@.filter(|l: BlockLocation| wm@.workers.contains_key(l.worker_id));
            &&& r is Ok <==> locs@.len() == 0 || live.len() > 0
            &&& r matches Ok(b) ==> {
                &&& b.block == block
                &&& b@.locs.len() == live.len()
                &&& forall|k: int|
                    0 <= k < live.len() ==> #[trigger] b@.locs[k]
                        == wm@.workers[live[k].worker_id].address
                &&& 0 <= i < locs@.len() && wm@.workers.contains_key(locs@[i].worker_id)
                    ==> b@.locs.contains(wm@.workers[locs@[i].worker_id].address)
                &&& 0 <= i < locs@.len() && wm@.workers.contains_key(locs@[i].worker_id)
                    && locs@[i].storage_type == StorageType::SpdkDisk ==> b.has_spdk
                &&& b.has_spdk ==> exists|k: int|
                    0 <= k < locs@.len() && wm@.workers.contains_key(
                        (#[trigger] locs@[k]).worker_id,
                    ) && locs@[k].storage_type == StorageType::SpdkDisk
            }
            &&& r matches Err(e) ==> (e matches FsError::AllReplicasLost { path: p, block_id } && p@
                == path@ && block_id == block.id)
        }),
{
    crate::placement_laws::live_replicas_are_all_named(wm@.workers, locs@);
    if r is Ok {
        assert((r->Ok_0)@.block == (r->Ok_0).block);
    }
}

/// The blocks of a file are located one by one, in the order of the file.
pub proof fn file_blocks_are_located_in_order(
    fs: MasterFilesystem,
    path: &str,
    file: InodeFile,
    locs: Vec<(i64, Vec<BlockLocation>)>,
    i: int,
    r: Result<Vec<LocatedBlock>, FsError>,
)
    requires
        call_ensures(MasterFilesystem::get_block_locs, (&fs, path, &file, &locs), r),
        0 <= i < file.blocks@.len(),
    ensures
        r matches Ok(v) ==> {
            let meta = file.blocks@[i];
            let known = crate::namespace::recorded(locs@, meta.id);
            &&& v@.len() == file.blocks@.len()
            &&& v@[i].block.id == meta.id && v@[i].block.len == meta.len
            &&& v@[i].block.alloc_opts == meta.alloc_opts
            &&& v@[i].block.storage_type == file.storage_type && v@[i].block.file_type
                == file.file_type
            &&& known is Some
            &&& v@[i]@.locs == known->0.filter(
                |l: BlockLocation| fs@.manager.workers.contains_key(l.worker_id),
            ).map_values(|l: BlockLocation| fs@.manager.workers[l.worker_id].address)
        },
        r matches Err(e) ==> {
            ||| e is BlockAbnormal
            ||| (e matches FsError::BlockLost { path: p, block_id } && p@ == path@
                && crate::namespace::recorded(locs@, block_id) is None)
            ||| (e matches FsError::AllReplicasLost { path: p, block_id } && p@ == path@
                && crate::namespace::recorded(locs@, block_id) is Some)
        },
        r is Ok ==> !(i + 1 < file.blocks@.len() && file.blocks@[i].len != file.block_size),
{
    if r is Ok {
        let v = r->Ok_0;
        assert(v@[i]@ == crate::placement::located(
            fs@.manager.workers,
            file.extended(file.blocks@[i]),
            crate::namespace::recorded(locs@, file.blocks@[i].id)->0,
        ));
        assert(v@[i]@.block == v@[i].block);
        assert(crate::namespace::block_fault(fs@.manager, file, locs@, i) is None);
        crate::placement_laws::faults_are_told_apart(fs@.manager, file, locs@, i);
        crate::placement_laws::live_replicas_are_all_named(
            fs@.manager.workers,
            crate::namespace::recorded(locs@, file.blocks@[i].id)->0,
        );
    }
}

/// The file and its blocks are told of a file that is there, under the path
/// that was asked for; of no other file.
pub proof fn locations_are_told_of_files(
    fs: MasterFilesystem,
    path: &str,
    found: Option<(FileStatus, &FileRecord)>,
    r: Result<FileBlocks, FsError>,
)
    requires
        call_ensures(MasterFilesystem::get_block_locations, (&fs, path, found), r),
    ensures
        found is None ==> (r matches Err(FsError::FileNotFound { path: p, inode_id }) && p@ == path@
            && inode_id is None),
        r matches Ok(b) ==> {
            let (status, record) = found->0;
            &&& b.status.path@ == path@
            &&& b.status.id == status.id && b.status.len == status.len
            &&& b.block_locs@.len() == record.file.blocks@.len()
        },
{
}

/// A file that is flushed is answered with its blocks exactly where they are
/// asked for.
pub proof fn flushes_are_answered_where_asked(
    fs: MasterFilesystem,
    path: &str,
    only_flush: bool,
    return_file_blocks: bool,
    completed: (FileStatus, &FileRecord),
    r: Result<Option<FileBlocks>, FsError>,
)
    requires
        call_ensures(
            MasterFilesystem::complete_file,
            (&fs, path, only_flush, return_file_blocks, completed),
            r,
        ),
    ensures
        r == Ok::<Option<FileBlocks>, FsError>(None) <==> !only_flush || !return_file_blocks,
        r matches Ok(Some(b)) ==> b.status.path@ == path@ && b.status.id == completed.0.id
            && b.block_locs@.len() == completed.1.file.blocks@.len(),
{
}

/// A request that was carried out before is answered from what is there, one
/// that failed fails again, and a new one is carried out; reading is never
/// carried out twice.
pub proof fn repeated_requests_are_not_carried_out_again(
    cached: Option<Result<bool, FsError>>,
    read_only: bool,
    r: Result<RetryStep, FsError>,
    opened: Result<RetryStep, FsError>,
)
    requires
        call_ensures(MasterHandler::retry_step, (cached,), r),
        call_ensures(MasterHandler::open_file0, (read_only, cached), opened),
    ensures
        r == Ok::<RetryStep, FsError>(RetryStep::Replay) <==> cached == Some(
            Ok::<bool, FsError>(true),
        ),
        r == Ok::<RetryStep, FsError>(RetryStep::Execute) <==> cached is None || cached == Some(
            Ok::<bool, FsError>(false),
        ),
        cached matches Some(Err(e)) ==> r == Err::<RetryStep, FsError>(e),
        read_only ==> opened == Ok::<RetryStep, FsError>(RetryStep::Replay),
        !read_only ==> opened == r,
{
}

/// The root of a mount is not deleted, by a new request; anything else is.
pub proof fn mounts_are_not_deleted(
    cached: Option<Result<bool, FsError>>,
    path: &str,
    mount_root: Option<String>,
    r: Result<RetryStep, FsError>,
)
    requires
        call_ensures(MasterHandler::delete0, (cached, path, mount_root), r),
    ensures
        ({
            let new = cached is None || cached == Some(Ok::<bool, FsError>(false));
            let mounted = mount_root is Some && mount_root->0@ == path@;
            &&& r == Ok::<RetryStep, FsError>(RetryStep::Execute) <==> new && !mounted
            &&& r == Ok::<RetryStep, FsError>(RetryStep::Replay) <==> cached == Some(
                Ok::<bool, FsError>(true),
            )
            &&& new && mounted ==> (r matches Err(FsError::DeleteMountRoot { path: p }) && p@
                == path@)
            &&& cached matches Some(Err(e)) ==> r == Err::<RetryStep, FsError>(e)
        }),
{
}

/// The files of a batch have ids of their own, one after the other.
pub proof fn batches_are_numbered(req_id: i64, i: usize, j: usize, a: i64, b: i64)
    requires
        call_ensures(MasterHandler::batch_req_id, (req_id, i), a),
        call_ensures(MasterHandler::batch_req_id, (req_id, j), b),
    ensures
        i == 0 ==> a == req_id,
        b - a == j - i,
{
}

/// A flush goes without an answer exactly where it says that it wants none.
pub proof fn silent_flushes_ask_for_it(only_flush: bool, wanted: Option<bool>, r: bool)
    requires
        call_ensures(MasterHandler::complete_file0, (only_flush, wanted), r),
    ensures
        r <==> only_flush && wanted is Some && !wanted->0,
{
}

/// A listing has no limit below zero; a page has the size that was asked for,
/// or ten thousand entries.
pub proof fn limits_are_not_negative(
    limit: Option<i64>,
    size: Option<u32>,
    r: Result<(), FsError>,
    n: usize,
)
    requires
        call_ensures(MasterHandler::list_options, (limit,), r),
        call_ensures(MasterHandler::page_size, (size,), n),
    ensures
        r is Err <==> limit is Some && limit->0 < 0,
        r is Err ==> r == Err::<(), FsError>(FsError::NegativeListLimit { given: limit->0 }),
        size matches Some(k) ==> n == k,
        size is None ==> n == 10_000,
{
}

/// The traffic of the workers has threads of its own, and their heartbeats are
/// not recorded.
pub proof fn worker_traffic_is_kept_apart(code: RpcCode, own: bool, recorded: bool, sync: bool)
    requires
        call_ensures(MasterHandler::get_rt, (code,), own),
        call_ensures(MasterHandler::record_rpc_observability, (code,), recorded),
        call_ensures(MasterHandler::is_sync, (code,), sync),
    ensures
        own <==> code == RpcCode::WorkerHeartbeat || code == RpcCode::WorkerBlockReport || code
            == RpcCode::GetFilesystemInfo,
        recorded <==> code != RpcCode::WorkerHeartbeat,
        sync <==> !code.is_async(),
{
}

/// A block report is answered with one command to delete what no file needs,
/// if there is anything.
pub proof fn reports_are_answered_with_deletions(result: BlockReportResult, r: Vec<WorkerCommand>)
    requires
        call_ensures(MasterHandler::process_block_report, (result,), r),
    ensures
        r@.len() == 0 <==> result.delete_blocks@.len() == 0,
        r@.len() <= 1,
        r@.len() == 1 ==> (r@[0] matches WorkerCommand::DeleteBlock { blocks } && blocks@
            == result.delete_blocks@),
{
    let c = crate::block_map::commands_of(r@);
    assert(c.len() == r@.len());
    if r@.len() == 1 {
        match r@[0] {
            WorkerCommand::DeleteBlock { blocks } => {
                assert(c[0] == blocks@);
            },
        }
    }
}

/// Changes are told from an epoch up to the current one only; between equal
/// epochs there are none, and of a state that has passed a whole listing is
/// needed.
pub proof fn changes_reach_up_to_now(
    from: u64,
    target: Option<u64>,
    current: u64,
    page_size: usize,
    r: Result<DeltaStart, FsError>,
)
    requires
        call_ensures(
            MasterFilesystem::cv_metadata_delta_start,
            (from, target, current, page_size),
            r,
        ),
    ensures
        ({
            let to = if target is Some {
                target->0
            } else {
                current
            };
            &&& page_size == 0 <==> r == Err::<DeltaStart, FsError>(FsError::DeltaPageEmpty)
            &&& page_size > 0 && to > current ==> r == Err::<DeltaStart, FsError>(
                FsError::TargetEpochTooNew { target: to, current },
            )
            &&& page_size > 0 && to <= current && from > to ==> r == Err::<DeltaStart, FsError>(
                FsError::FromEpochTooNew { from, target: to },
            )
            &&& page_size > 0 && from < to && to == current ==> r == Ok::<DeltaStart, FsError>(
                DeltaStart::AskJournal { to_epoch: current },
            )
            &&& page_size > 0 && from <= to && to < current ==> (r matches Ok(
                DeltaStart::Answer(p),
            ) && p.full_snapshot_required && p.entries@.len() == 0 && p.next_page_token is None
                && p.from_epoch == from && p.to_epoch == to)
            &&& page_size > 0 && from == to && to == current ==> (r matches Ok(
                DeltaStart::Answer(p),
            ) && !p.full_snapshot_required && p.entries@.len() == 0 && p.next_page_token is None
                && p.from_epoch == from && p.to_epoch == to)
        }),
{
}

/// Where the changes are not on record a whole listing is needed.
pub proof fn unknown_changes_need_a_listing(from: u64, to: u64, r: CvMetadataDeltaPage)
    requires
        call_ensures(MasterFilesystem::cv_metadata_delta_unavailable, (from, to), r),
    ensures
        r.full_snapshot_required && r.entries@.len() == 0 && r.next_page_token is None,
        r.from_epoch == from && r.to_epoch == to,
{
}

/// The changed paths are exactly those of the changes, and the subtree of one
/// is changed exactly where some change of the path says so.
pub proof fn changed_paths_are_those_of_the_changes(
    changes: Vec<CvMetadataChange>,
    p: Seq<char>,
    r: PathMap<bool>,
)
    requires
        call_ensures(MasterFilesystem::cv_metadata_changed_paths, (changes,), r),
    ensures
        r@.contains_key(p) <==> exists|i: int|
            0 <= i < changes@.len() && (#[trigger] changes@[i]).path@ == p,
        r@.contains_key(p) ==> (r@[p] <==> exists|i: int|
            0 <= i < changes@.len() && (#[trigger] changes@[i]).path@ == p
                && changes@[i].include_subtree),
{
    crate::path_laws::changes_are_merged_by_path(changes@, p);
}

/// A page of changes holds the first of the entries after its token, as many
/// as fit, and names where to go on exactly where more are left.
pub proof fn change_pages_follow_their_token(
    entries: Vec<CvMetadataDeltaEntry>,
    token: Option<String>,
    page_size: usize,
    from: u64,
    to: u64,
    i: int,
    r: CvMetadataDeltaPage,
)
    requires
        call_ensures(
            MasterFilesystem::cv_metadata_delta_page,
            (entries, token, page_size, from, to),
            r,
        ),
        page_size > 0,
    ensures
        r.from_epoch == from && r.to_epoch == to && !r.full_snapshot_required,
        r.entries@.len() <= page_size,
        r.next_page_token is Some ==> r.entries@.len() == page_size && r.next_page_token->0@
            == r.entries@.last().path@,
        ({
            let started = token is Some && token->0@.len() > 0;
            &&& 0 <= i < r.entries@.len() && started ==> crate::text::before(
                token->0@,
                r.entries@[i].path@,
            )
            &&& 0 <= i < r.entries@.len() ==> entries@.contains(r.entries@[i])
            &&& r.next_page_token is None && 0 <= i < entries@.len() && (!started
                || crate::text::before(token->0@, entries@[i].path@)) ==> r.entries@.contains(
                entries@[i],
            )
            &&& !started && 0 <= i < r.entries@.len() ==> r.entries@[i] == entries@[i]
        }),
{
    let t = crate::snapshot::given_token(token);
    let k = choose|k: int|
        #![trigger entries@.skip(k)]
        {
            &&& 0 <= k <= entries@.len()
            &&& forall|j: int|
                0 <= j < entries@.len() ==> (k <= j <==> crate::snapshot::is_after(
                    (#[trigger] entries@[j]).path@,
                    t,
                ))
            &&& entries@.skip(k).len() <= page_size ==> r.entries@ == entries@.skip(k)
                && r.next_page_token is None
            &&& entries@.skip(k).len() > page_size ==> r.entries@ == entries@.skip(k).take(
                page_size as int,
            ) && (r.next_page_token matches Some(t) && t@ == entries@[k + page_size - 1].path@)
        };
    if 0 <= i < r.entries@.len() {
        assert(r.entries@[i] == entries@[k + i]);
        assert(crate::snapshot::is_after(entries@[k + i].path@, t));
    }
    if t is None && entries@.len() > 0 {
        assert(crate::snapshot::is_after(entries@[0].path@, t));
    }
    if r.next_page_token is None && 0 <= i < entries@.len() && crate::snapshot::is_after(
        entries@[i].path@,
        t,
    ) {
        assert(r.entries@[i - k] == entries@[i]);
    }
    if r.next_page_token is Some {
        assert(r.entries@[page_size - 1] == entries@[k + page_size - 1]);
    }
}

/// The workers are told with the time each was last heard of, each once and in
/// the order of the ids.
pub proof fn heartbeats_are_told_by_worker(wm: WorkerManager, r: Vec<(u32, u64)>, i: int)
    requires
        call_ensures(WorkerManager::get_last_heartbeat, (&wm,), r),
    ensures
        0 <= i < r@.len() ==> wm@.workers.contains_key(r@[i].0) && r@[i].1
            == wm@.workers[r@[i].0].last_update,
        0 <= i < r@.len() - 1 ==> r@[i].0 < r@[i + 1].0,
        forall|k: u32| #[trigger]
            wm@.workers.contains_key(k) ==> r@.contains((k, wm@.workers[k].last_update)),
{
    let ids = crate::ids::workers_in_order(wm@.workers.dom());
    crate::ids::workers_in_order_lists(wm@.workers.dom());
    if 0 <= i < r@.len() {
        assert(r@[i] == (ids[i], wm@.workers[ids[i]].last_update));
        assert(ids.to_set().contains(ids[i]));
    }
    if 0 <= i < r@.len() - 1 {
        assert(r@[i + 1] == (ids[i + 1], wm@.workers[ids[i + 1]].last_update));
        assert(ids[i] < ids[i + 1]);
    }
    assert forall|k: u32| #[trigger] wm@.workers.contains_key(k) implies r@.contains(
        (k, wm@.workers[k].last_update),
    ) by {
        assert(ids.to_set().contains(k));
        let j = choose|j: int| 0 <= j < ids.len() && ids[j] == k;
        assert(r@[j] == (k, wm@.workers[k].last_update));
    }
}

/// A recovering worker has reported everything once its report is complete,
/// which the report of another process or of one that ended does not make it.
pub proof fn completed_reports_are_of_the_process(
    wm: WorkerManager,
    id: u32,
    session: &str,
    r: bool,
)
    requires
        call_ensures(WorkerManager::worker_block_report_complete, (&wm, id, session), r),
    ensures
        r <==> wm@.recovering.contains_key(id) && wm@.recovering[id].report_complete
            && !wm@.recovering[id].ended && (session@.len() == 0 || session@
            == wm@.recovering[id].session_id),
{
}

/// The classes of the errors.
pub proof fn errors_have_their_class(e: FsError, r: ErrorKind)
    requires
        call_ensures(FsError::kind, (&e,), r),
    ensures
        r == ErrorKind::FileNotFound <==> e is FileNotFound,
        r == ErrorKind::FileExists <==> e is FileExists,
        r == ErrorKind::DiskOutOfSpace <==> e is DiskOutOfSpace,
        r == ErrorKind::InvalidArgument <==> e is RenameIntoSelf || e is ExchangeWithAncestor,
{
}

/// A peer is looked at where the policy is enforced or has bounds, or where
/// the peer says what it is.
pub proof fn peers_are_looked_at_where_it_matters(
    p: CompatibilityPolicy,
    has_info: bool,
    r: bool,
)
    requires
        call_ensures(CompatibilityPolicy::should_evaluate, (&p, has_info), r),
    ensures
        !r <==> p.mode == CompatibilityMode::Diagnose && !p.has_bounds && !has_info,
{
}

/// Of the blocks on record, those are stale that the newest inventory of the
/// worker does not hold; an outdated inventory says nothing.
pub proof fn stale_blocks_are_those_not_reported(
    fs: MasterFilesystem,
    worker_id: u32,
    job: FullBlockReconcileJob,
    existing: Vec<i64>,
    r: Option<Vec<i64>>,
)
    requires
        call_ensures(
            MasterFilesystem::reconcile_full_block_report,
            (&fs, worker_id, &job, existing),
            r,
        ),
    ensures
        r is Some <==> fs@.reconciles.contains_key(worker_id) && fs@.reconciles[worker_id].generation
            == job.generation,
        r matches Some(s) ==> s@ == existing@.filter(|id: i64| !job@.reported.contains(id)),
{
    crate::inventory_laws::stale_blocks_are_picked(existing@, job@.reported);
}

/// The blocks of a cleanup are looked at in turn, at most 4096 at a time.
pub proof fn cleanups_look_at_every_block(task: InvalidationTask, r: Option<Vec<i64>>, i: int)
    requires
        call_ensures(InvalidationTask::next_chunk, (&task,), r),
        task.inspected <= task.block_ids@.len(),
    ensures
        r is None <==> task.inspected == task.block_ids@.len(),
        r matches Some(c) ==> {
            &&& 0 < c@.len() <= 4096
            &&& 0 <= i < c@.len() ==> c@[i] == task.block_ids@[task.inspected + i]
            &&& c@.len() < 4096 ==> task.inspected + c@.len() == task.block_ids@.len()
        },
{
}

/// A block is discarded where the inode that it was made for does not hold it
/// any more.
pub proof fn unheld_blocks_are_discarded(
    ids: Vec<i64>,
    current: CurrentBlocks,
    r: Vec<i64>,
    i: int,
)
    requires
        call_ensures(MasterFilesystem::discarded_cleanup_blocks, (&ids, &current), r),
        ids@.len() == current.owners@.len(),
        0 <= i < ids@.len(),
    ensures
        !crate::inventory_laws::is_named(current.files@, current.owners@[i], ids@[i])
            ==> r@.contains(ids@[i]),
        r@.len() <= ids@.len(),
{
    let p = |k: int| !crate::inventory_laws::is_named(current.files@, current.owners@[k], ids@[k]);
    crate::inventory_laws::unheld_blocks_are_picked(ids@, current.owners@, current.files@);
    crate::inventory_laws::positions_are_all(ids@.len(), p);
    crate::inventory_laws::positions_are_few(ids@.len(), p);
    let at = crate::inventory_laws::positions(ids@.len(), p);
    if p(i) {
        let k = choose|k: int| 0 <= k < at.len() && at[k] == i;
        assert(r@[k] == ids@[i]);
    }
}

/// The names of the decommissioned workers are among those of all, and each
/// list names every such worker.
pub proof fn workers_are_named_for_decommission(
    wm: WorkerManager,
    dcm: Vec<String>,
    all: Vec<String>,
    k: u32,
)
    requires
        call_ensures(WorkerManager::get_dcm, (&wm,), dcm),
        call_ensures(WorkerManager::worker_list, (&wm,), all),
        wm@.workers.contains_key(k),
    ensures
        all@.len() == crate::ids::workers_in_order(wm@.workers.dom()).len(),
        crate::model::texts_of(all@).contains(wm@.workers[k].address.simple_text()),
        wm@.workers[k].status == WorkerStatus::Decommission ==> crate::model::texts_of(
            dcm@,
        ).contains(wm@.workers[k].address.simple_text()),
        dcm@.len() <= all@.len(),
{
    let m = wm@.workers;
    let ids = crate::ids::workers_in_order(m.dom());
    crate::ids::workers_in_order_lists(m.dom());
    assert(ids.to_set().contains(k));
    names_include(m, ids, true, k);
    names_include(m, ids, false, k);
    assert(crate::model::texts_of(all@).len() == all@.len());
    assert(crate::model::texts_of(dcm@).len() == dcm@.len());
}

proof fn names_include(
    m: Map<u32, crate::model::WorkerView>,
    ids: Seq<u32>,
    only_dcm: bool,
    k: u32,
)
    requires
        ids.contains(k),
    ensures
        !only_dcm || m[k].status == WorkerStatus::Decommission ==> crate::decommission::names_if(
            m,
            ids,
            only_dcm,
        ).contains(m[k].address.simple_text()),
        crate::decommission::names_if(m, ids, only_dcm).len() <= ids.len(),
        !only_dcm ==> crate::decommission::names_if(m, ids, only_dcm).len() == ids.len(),
    decreases ids.len(),
{
    let r = crate::decommission::names_if(m, ids, only_dcm);
    let rest = ids.drop_last();
    let before = crate::decommission::names_if(m, rest, only_dcm);
    names_are_few(m, rest, only_dcm);
    if ids.last() == k {
        if !only_dcm || m[k].status == WorkerStatus::Decommission {
            assert(r[r.len() - 1] == m[k].address.simple_text());
        }
    } else {
        let i = choose|i: int| 0 <= i < ids.len() && ids[i] == k;
        assert(rest[i] == k);
        names_include(m, rest, only_dcm, k);
        if !only_dcm || m[k].status == WorkerStatus::Decommission {
            let j = choose|j: int|
                0 <= j < before.len() && before[j] == m[k].address.simple_text();
            assert(r[j] == before[j]);
        }
    }
}

proof fn names_are_few(m: Map<u32, crate::model::WorkerView>, ids: Seq<u32>, only_dcm: bool)
    ensures
        crate::decommission::names_if(m, ids, only_dcm).len() <= ids.len(),
        !only_dcm ==> crate::decommission::names_if(m, ids, only_dcm).len() == ids.len(),
    decreases ids.len(),
{
    if ids.len() > 0 {
        names_are_few(m, ids.drop_last(), only_dcm);
    }
}

/// The state of the filesystem tells what it was given, and the workers each
/// under its status.
pub proof fn the_filesystem_is_told_as_it_is(
    fs: MasterFilesystem,
    master: &str,
    nodes: Vec<String>,
    dirs: i64,
    files: i64,
    r: FilesystemInfo,
)
    requires
        call_ensures(MasterFilesystem::filesystem_info, (&fs, master, &nodes, dirs, files), r),
    ensures
        r.active_master@ == master@,
        r.inode_dir_num == dirs && r.inode_file_num == files,
        r.totals@ == crate::placement_laws::totals(fs@.manager.workers),
        ({
            let m = fs@.manager.workers;
            let ids = crate::ids::workers_in_order(m.dom());
            let one = |k: u32| m[k];
            &&& crate::worker_map::workers_of(r.live_workers@) == ids.filter(
                |k: u32| m[k].status == WorkerStatus::Live,
            ).map_values(one)
            &&& crate::worker_map::workers_of(r.blacklist_workers@) == ids.filter(
                |k: u32| m[k].status == WorkerStatus::Blacklist,
            ).map_values(one)
            &&& crate::worker_map::workers_of(r.decommission_workers@) == ids.filter(
                |k: u32| m[k].status == WorkerStatus::Decommission,
            ).map_values(one)
            &&& r.lost_workers@.len() == crate::ids::workers_in_order(fs@.manager.lost.dom()).len()
            &&& forall|i: int|
                0 <= i < r.lost_workers@.len() ==> (#[trigger] r.lost_workers@[i])@
                    == fs@.manager.lost[crate::ids::workers_in_order(fs@.manager.lost.dom())[i]]
        }),
{
    let m = fs@.manager.workers;
    let ids = crate::ids::workers_in_order(m.dom());
    crate::placement_laws::workers_are_listed_by_status(m, ids, WorkerStatus::Live);
    crate::placement_laws::workers_are_listed_by_status(m, ids, WorkerStatus::Blacklist);
    crate::placement_laws::workers_are_listed_by_status(m, ids, WorkerStatus::Decommission);
    let gone = crate::worker_map::workers_of(r.lost_workers@);
    assert(gone.len() == r.lost_workers@.len());
    assert forall|i: int| 0 <= i < r.lost_workers@.len() implies (#[trigger] r.lost_workers@[i])@
        == fs@.manager.lost[crate::ids::workers_in_order(fs@.manager.lost.dom())[i]] by {
        assert(gone[i] == r.lost_workers@[i]@);
    }
}

/// A page of a listing holds the first entries, as many as fit, and names
/// where to go on exactly where more are left.
pub proof fn listing_pages_name_where_to_go_on(
    entries: Vec<CvMetadataSnapshotEntry>,
    page_size: usize,
    epoch: u64,
    r: CvMetadataSnapshotPage,
)
    requires
        call_ensures(MasterFilesystem::cv_metadata_snapshot_page, (entries, page_size, epoch), r),
        page_size > 0,
    ensures
        r.epoch == epoch,
        r.entries@.len() <= page_size && r.entries@.len() <= entries@.len(),
        r.entries@ == entries@.take(r.entries@.len() as int),
        r.next_page_token is Some <==> entries@.len() > page_size,
        r.next_page_token is None ==> r.entries@.len() == entries@.len(),
        r.next_page_token matches Some(t) ==> t@ == r.entries@.last().status.path@
            && r.entries@.len() == page_size,
{
    crate::path_laws::pages_name_where_to_go_on(r, entries@, page_size);
    assert(r.entries@ =~= entries@.take(r.entries@.len() as int));
}

/// A listing is planned with one inode more than its page holds, from behind
/// its token; a page has to hold something.
pub proof fn listings_are_planned_from_their_token(
    root: crate::snapshot::InodeNode,
    token: Option<String>,
    page_size: usize,
    i: int,
    r: Result<Vec<crate::snapshot::SnapshotVisit>, FsError>,
)
    requires
        call_ensures(
            MasterFilesystem::cv_metadata_snapshot_plan,
            (&root, token, page_size),
            r,
        ),
    ensures
        r is Err <==> page_size == 0,
        r is Err ==> r->Err_0 == FsError::SnapshotPageEmpty,
        r matches Ok(v) ==> {
            let all = crate::snapshot::visits(
                root,
                seq!['/'],
                crate::snapshot::given_token(token),
            );
            let shown = crate::snapshot::visits_of(v@).filter(
                |x: crate::snapshot::VisitView| x.emit,
            );
            &&& shown.len() <= page_size + 1
            &&& v@.len() <= all.len()
            &&& 0 <= i < v@.len() ==> v@[i]@ == all[i]
            &&& v@.len() < all.len() && page_size < usize::MAX ==> shown.len() == page_size + 1
        },
{
    if r is Ok {
        let v = crate::snapshot::visits_of(r->Ok_0@);
        let all = crate::snapshot::visits(
            root,
            crate::snapshot::root_path(),
            crate::snapshot::given_token(token),
        );
        assert(crate::snapshot::root_path() == seq!['/']);
        crate::path_laws::cut_uses_up_its_budget(all, crate::snapshot::page_budget(page_size));
        crate::path_laws::shown_inodes_are_counted(v);
        assert(v.len() == r->Ok_0@.len());
        if 0 <= i < v.len() {
            assert(v[i] == r->Ok_0@[i]@);
            assert(v[i] == all.take(v.len() as int)[i]);
        }
    }
}

/// What was found at a path is shown there; where nothing was found, nothing
/// is; and what could not be read is an error.
pub proof fn paths_show_what_was_found(
    fs: MasterFilesystem,
    path: &str,
    lookup: crate::delta::PathLookup,
    r: Result<Option<CvMetadataSnapshotEntry>, FsError>,
)
    requires
        call_ensures(MasterFilesystem::cv_metadata_entry_for_path, (&fs, path, lookup), r),
    ensures
        lookup is Unresolved || lookup is Missing ==> r == Ok::<
            Option<CvMetadataSnapshotEntry>,
            FsError,
        >(None),
        lookup matches crate::delta::PathLookup::Unreadable(e) ==> r == Err::<
            Option<CvMetadataSnapshotEntry>,
            FsError,
        >(e),
        lookup matches crate::delta::PathLookup::Found(f) ==> {
            &&& r matches Ok(e) ==> e is Some && e->0.status.path@ == path@ && e->0.status.id
                == f.status.id
            &&& f.record is None ==> r is Ok && (r->Ok_0)->0.blocks is None
            &&& r matches Err(e) ==> e is BlockAbnormal || e is BlockLost || e is AllReplicasLost
        },
{
    if lookup is Found && r is Err {
        let f = lookup->Found_0;
        let rec = f.record->0;
        let i = crate::placement_laws::first_fault_decides(
            fs@.manager,
            path@,
            rec.file,
            rec.locations@,
            r->Err_0,
        );
        crate::placement_laws::faults_are_told_apart(fs@.manager, rec.file, rec.locations@, i);
    }
}

/// A page stops at this inode with this error: it was not found, or it is to
/// be shown and has a faulty block.
pub open spec fn stops_at(
    m: crate::manager_model::ManagerView,
    v: crate::snapshot::VisitView,
    found: Result<crate::snapshot::FoundInode, FsError>,
    e: FsError,
) -> bool {
    match found {
        Err(x) => e == x,
        Ok(f) => v.emit && f.record is Some && (e is BlockAbnormal || e is BlockLost
            || e is AllReplicasLost) && !f.is_whole(m),
    }
}

/// The entries of a page are those of the shown inodes of its plan; all of its
/// inodes have to be found, and the shown ones to be whole.
pub proof fn pages_show_their_plan(
    fs: MasterFilesystem,
    plan: Vec<crate::snapshot::SnapshotVisit>,
    found: Vec<Result<crate::snapshot::FoundInode, FsError>>,
    k: int,
    r: Result<Vec<CvMetadataSnapshotEntry>, FsError>,
)
    requires
        call_ensures(MasterFilesystem::cv_metadata_snapshot_entries, (&fs, &plan, found), r),
        plan@.len() == found@.len(),
    ensures
        r matches Ok(s) ==> {
            let shown = crate::snapshot::visits_of(plan@).filter(
                |x: crate::snapshot::VisitView| x.emit,
            );
            &&& s@.len() == shown.len()
            &&& forall|i: int|
                0 <= i < s@.len() ==> (#[trigger] s@[i]).status.path@ == shown[i].path
        },
        r is Ok && 0 <= k < found@.len() ==> found@[k] is Ok,
        0 <= k < found@.len() && found@[k] is Err && (forall|j: int|
            0 <= j < k ==> crate::snapshot::is_passable(
                fs@.manager,
                plan@[j]@,
                #[trigger] found@[j],
            )) ==> r is Err,
        r matches Err(e) ==> exists|j: int|
            0 <= j < found@.len() && #[trigger] stops_at(fs@.manager, plan@[j]@, found@[j], e),
{
    if r is Err {
        let e = r->Err_0;
        let j = choose|j: int|
            #![trigger found@[j]]
            {
                &&& 0 <= j < plan@.len()
                &&& forall|i: int|
                    0 <= i < j ==> crate::snapshot::is_passable(
                        fs@.manager,
                        plan@[i]@,
                        #[trigger] found@[i],
                    )
                &&& !crate::snapshot::is_passable(fs@.manager, plan@[j]@, found@[j])
                &&& crate::snapshot::visit_fails(fs@.manager, plan@[j]@, found@[j], e)
            };
        if found@[j] is Ok {
            let f = found@[j]->Ok_0;
            let rec = f.record->0;
            let i = crate::placement_laws::first_fault_decides(
                fs@.manager,
                plan@[j]@.path,
                rec.file,
                rec.locations@,
                e,
            );
            crate::placement_laws::faults_are_told_apart(fs@.manager, rec.file, rec.locations@, i);
        }
        assert(stops_at(fs@.manager, plan@[j]@, found@[j], e));
    }
    if r is Ok {
        let s = r->Ok_0;
        crate::path_laws::entries_stand_for_shown_inodes(
            fs@.manager,
            crate::snapshot::visits_of(plan@),
            found@,
            s@,
        );
        assert(crate::snapshot::visits_of(plan@).len() == plan@.len());
    }
}

/// The next check is one interval after now, and at least a millisecond; a job
/// is current while its generation is.
pub proof fn comparisons_wait_for_the_next_check(
    fs: MasterFilesystem,
    now_ms: u64,
    at: u64,
    worker_id: u32,
    generation: u64,
    current: bool,
)
    requires
        call_ensures(MasterFilesystem::full_block_reconcile_retry_at, (&fs, now_ms), at),
        call_ensures(
            MasterFilesystem::is_full_block_reconcile_current,
            (&fs, worker_id, generation),
            current,
        ),
    ensures
        at == crate::inventory_laws::next_check(fs@.conf.worker_check_interval_ms, now_ms),
        now_ms < u64::MAX ==> at > now_ms,
        current <==> fs@.reconciles.contains_key(worker_id) && fs@.reconciles[worker_id].generation
            == generation,
{
}

/// The chunks of a report follow one another, none longer than 4096 blocks,
/// and only blocks that are there need their owner.
pub proof fn reports_come_in_chunks(
    task: crate::block_report::BlockReportTask,
    i: int,
    r: Option<Vec<crate::block_report::BlockReportInfo>>,
    b: crate::block_report::BlockReportInfo,
    needed: bool,
)
    requires
        call_ensures(crate::block_report::BlockReportTask::next_chunk, (&task,), r),
        call_ensures(crate::block_report::BlockReportInfo::needs_owner, (&b,), needed),
        task.applied <= task.blocks@.len(),
    ensures
        r is None <==> task.applied == task.blocks@.len(),
        r matches Some(c) ==> {
            &&& 0 < c@.len() <= 4096
            &&& 0 <= i < c@.len() ==> c@[i] == task.blocks@[task.applied + i]
            &&& c@.len() < 4096 ==> task.applied + c@.len() == task.blocks@.len()
        },
        needed <==> b.status != crate::block_report::BlockReportStatus::Deleted,
{
}

/// A start is valid in its own cluster, where its id is not live elsewhere and
/// its process was not replaced; else it is refused for the first of these
/// that applies.
pub proof fn starts_are_validated(
    wm: WorkerManager,
    cluster_id: &str,
    addr: WorkerAddress,
    session: &str,
    startup_ms: u64,
    r: Result<(), FsError>,
)
    requires
        call_ensures(
            WorkerManager::validate_worker_start,
            (&wm, cluster_id, &addr, session, startup_ms),
            r,
        ),
    ensures
        ({
            let id = addr.worker_id;
            let own = cluster_id@ == wm@.cluster_id;
            let elsewhere = wm@.workers.contains_key(id) && !(wm@.workers[id].address.hostname
                == addr.hostname@ && wm@.workers[id].address.rpc_port == addr.rpc_port);
            let replaced = session@.len() > 0 && wm@.retired.contains((id, session@));
            &&& r is Ok <==> own && !elsewhere && !replaced
            &&& !own <==> (r is Err && r->Err_0 is ClusterMismatch)
            &&& own && elsewhere ==> r == Err::<(), FsError>(
                FsError::WorkerIdConflict { worker_id: id },
            )
            &&& own && !elsewhere && replaced ==> (r matches Err(
                FsError::RetiredSession { address },
            ) && address@ == addr@)
        }),
{
}

/// A new worker is live, seen now, and has nothing yet.
pub proof fn new_workers_have_nothing(
    addr: WorkerAddress,
    weight: u32,
    now_ms: u64,
    w: crate::model::WorkerInfo,
)
    requires
        call_ensures(crate::model::WorkerInfo::new, (addr, weight, now_ms), w),
    ensures
        w@.address == addr@ && w@.weight == weight && w@.last_update == now_ms,
        w@.status == WorkerStatus::Live && w@.worker_session_id.len() == 0 && w@.startup_time_ms
            == 0,
        w@.storages.len() == 0 && w@.capacity == 0 && w@.available == 0 && w@.fs_used == 0
            && w@.non_fs_used == 0 && w@.reserved_bytes == 0 && w@.block_num == 0,
        w@.component_info is None && w@.software_version.len() == 0,
        !w@.transfer_capabilities.task_submit && !w@.transfer_capabilities.report_target
            && !w@.transfer_capabilities.query_task
            && !w@.transfer_capabilities.attempt_safe_output
            && !w@.transfer_capabilities.source_read_plan,
{
}

} // verus!
