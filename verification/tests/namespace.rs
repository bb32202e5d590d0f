//! What may be done with paths and files.

use curvine_master::block_map::DeleteResult;
use curvine_master::conf::MasterConf;
use curvine_master::error::{ErrorKind, FsError};
use curvine_master::filesystem_info::FilesystemInfo;
use curvine_master::master_filesystem::MasterFilesystem;
use curvine_master::model::{
    BlockLocation, BlockMeta, ClientAddress, CommitBlock, ExtendedBlock, FileAllocOpts, FileStatus,
    FileType, InodeFile, StorageInfo, StorageType, WorkerAddress, WorkerInfo, WorkerStatus,
};
use curvine_master::namespace::{
    CreateAction, CreateFileOpts, InodeKind, MkdirAction, OpenAction, OpenFlags, ResolvedPath,
};
use curvine_master::snapshot::FileRecord;
use curvine_master::worker_manager::WorkerManager;

fn test_fs() -> MasterFilesystem {
    MasterFilesystem::new(MasterConf::default(), WorkerManager::new("curvine", 600_000))
}

fn assert_file_not_found(err: &FsError) {
    assert!(matches!(err.kind(), ErrorKind::FileNotFound));
    assert!(matches!(err, FsError::FileNotFound { .. }));
}

#[test]
fn fallocate_rejects_growth_larger_than_available_capacity() {
    let opts = FileAllocOpts::with_alloc(200, 0);
    let err = MasterFilesystem::validate_alloc_capacity(20, 2, &opts, 359).unwrap_err();
    assert_eq!(err, FsError::DiskOutOfSpace { growth: 180, replicas: 2, available: 359 });
    assert_eq!(err.kind(), ErrorKind::DiskOutOfSpace);
    assert_eq!(
        err.message(),
        "fallocate requires 180 bytes for 2 replicas, but only 359 bytes are available"
    );
}

#[test]
fn fallocate_accepts_exact_available_capacity() {
    let opts = FileAllocOpts::with_alloc(200, 0);
    assert!(MasterFilesystem::validate_alloc_capacity(20, 2, &opts, 360).is_ok());
}

#[test]
fn truncate_growth_does_not_require_physical_capacity() {
    let opts = FileAllocOpts::with_truncate(200);
    assert!(MasterFilesystem::validate_alloc_capacity(20, 2, &opts, 0).is_ok());
}

#[test]
fn allocation_saturates_instead_of_overflowing() {
    let opts = FileAllocOpts::with_alloc(i64::MAX, 0);
    let err = MasterFilesystem::validate_alloc_capacity(0, 255, &opts, i64::MAX - 1);
    assert!(err.is_err());
    assert!(MasterFilesystem::validate_alloc_capacity(0, 255, &opts, i64::MAX).is_ok());
    // A file that does not grow needs nothing.
    assert!(MasterFilesystem::validate_alloc_capacity(i64::MAX, 255, &opts, 0).is_ok());
}

#[test]
fn resolve_file_inode_missing_inode_id_returns_file_not_found() {
    let missing_id = 9_999_999_i64;
    let err =
        MasterFilesystem::resolve_file_inode::<FileStatus>("/missing", Some(missing_id), None)
            .unwrap_err();
    assert_file_not_found(&err);
    let msg = err.message();
    assert!(msg.contains(&format!("inode_id={}", missing_id)), "got: {msg}");
}

#[test]
fn resolve_file_inode_unresolved_path_returns_file_not_found() {
    let path = "/does/not/exist";
    let err =
        MasterFilesystem::resolve_file_inode::<FileStatus>(path, None, None).unwrap_err();
    assert_file_not_found(&err);
    assert!(err.message().contains(path), "got: {}", err.message());
    assert_eq!(MasterFilesystem::lookup_id(Some(0)), None);
    assert_eq!(MasterFilesystem::lookup_id(Some(-1)), None);
    assert_eq!(MasterFilesystem::lookup_id(Some(5)), Some(5));
}

fn renamed(id: i64, path: &str, name: &str, len: i64) -> FileStatus {
    FileStatus { id, path: path.to_string(), name: name.to_string(), len, is_dir: false }
}

#[test]
fn file_status_by_id_after_rename_resolves_inode_keeps_request_path() {
    // By-id status resolves the inode (id/name) but keeps the request path.
    let moved = renamed(17, "/a/new.log", "new.log", 0);
    let status =
        MasterFilesystem::file_status_by_id("/a/old.log", Some(17), Some(moved.clone())).unwrap();
    assert_eq!(status.id, 17);
    assert_eq!(status.path, "/a/old.log");
    assert_eq!(status.name, "new.log");

    // Path-based status still requires the live path.
    let by_path =
        MasterFilesystem::file_status_by_id("/a/new.log", None, Some(moved)).unwrap();
    assert_eq!(by_path.id, 17);
    assert_eq!(by_path.path, "/a/new.log");

    // A resized file is answered for under the request path too.
    let fs = test_fs();
    let record = FileRecord { file: file(17, 128, vec![]), locations: vec![] };
    assert!(fs.resize_by_id(&record.file, &FileAllocOpts::with_truncate(128)).is_ok());
    let resized = renamed(17, "/a/new.log", "new.log", 128);
    let blocks = fs.get_block_locations("/a/old.log", Some((resized, &record))).unwrap();
    assert_eq!(blocks.status.id, 17);
    assert_eq!(blocks.status.path, "/a/old.log");
    assert_eq!(blocks.status.name, "new.log");
    assert_eq!(blocks.status.len, 128);
}

#[test]
fn file_status_by_id_missing_inode_returns_file_not_found() {
    let missing_id = 9_999_999_i64;
    let err = MasterFilesystem::file_status_by_id("/missing.log", Some(missing_id), None)
        .unwrap_err();
    assert_file_not_found(&err);
    assert!(err.message().contains(&format!("inode_id={}", missing_id)));
}

#[test]
fn complete_file_by_id_keeps_request_path() {
    let fs = test_fs();
    let record = FileRecord { file: file(21, 64, vec![]), locations: vec![] };
    let done = || (renamed(21, "/b/new.log", "new.log", 64), &record);
    let blocks = fs
        .complete_file("/b/old.log", true, true, done())
        .unwrap()
        .expect("only_flush should return FileBlocks");
    assert_eq!(blocks.status.id, 21);
    assert_eq!(blocks.status.path, "/b/old.log");
    assert_eq!(blocks.status.name, "new.log");
    assert!(fs.complete_file("/b/old.log", true, false, done()).unwrap().is_none());
    assert!(fs.complete_file("/b/old.log", false, true, done()).unwrap().is_none());
}

fn file(id: i64, len: i64, blocks: Vec<BlockMeta>) -> InodeFile {
    InodeFile {
        id,
        len,
        block_size: 128,
        replicas: 2,
        storage_type: StorageType::Disk,
        file_type: FileType::File,
        blocks,
    }
}

fn worker_with_status(
    id: u32,
    status: WorkerStatus,
    capacity: i64,
    available: i64,
) -> WorkerInfo {
    let address = WorkerAddress { worker_id: id, ..Default::default() };
    let mut worker = WorkerInfo::new(address, 1, 0);
    worker.status = status;
    worker.capacity = capacity;
    worker.available = available;
    worker
}

fn info_of(fs: &MasterFilesystem) -> FilesystemInfo {
    assert!(fs.totals_fit());
    fs.filesystem_info("master-0", &vec!["node-1".to_string()], 3, 5)
}

#[test]
fn filesystem_info_allocatable_only_counts_live_workers() {
    let mut fs = test_fs();
    fs.worker_manager.add_test_worker(worker_with_status(1, WorkerStatus::Live, 1000, 800));
    fs.worker_manager.add_test_worker(worker_with_status(2, WorkerStatus::Blacklist, 2000, 1500));
    fs.worker_manager.add_test_worker(worker_with_status(
        3,
        WorkerStatus::Decommission,
        3000,
        2500,
    ));

    let info = info_of(&fs);
    assert_eq!(info.totals.capacity, 6000, "total capacity should sum all workers");
    assert_eq!(info.totals.available, 4800, "total available should sum all workers");
    assert_eq!(info.live_workers.len(), 1);
    assert_eq!(info.blacklist_workers.len(), 1);
    assert_eq!(info.decommission_workers.len(), 1);
    assert_eq!(info.totals.allocatable_capacity, 1000);
    assert_eq!(info.totals.allocatable_available, 800);
    assert_eq!(info.active_master, "master-0");
    assert_eq!(info.journal_nodes, vec!["node-1".to_string()]);
    assert_eq!((info.inode_dir_num, info.inode_file_num), (3, 5));
}

#[test]
fn filesystem_info_allocatable_excludes_failed_storage_dirs() {
    let mut fs = test_fs();
    let mut worker =
        WorkerInfo::new(WorkerAddress { worker_id: 10, ..Default::default() }, 1, 0);
    worker.status = WorkerStatus::Live;
    worker.add_storage(StorageInfo {
        dir_id: 1,
        storage_id: "healthy".to_string(),
        failed: false,
        capacity: 1000,
        available: 800,
        ..Default::default()
    });
    worker.add_storage(StorageInfo {
        dir_id: 2,
        storage_id: "failed".to_string(),
        failed: true,
        capacity: 500,
        available: 400,
        ..Default::default()
    });
    fs.worker_manager.add_test_worker(worker);

    let info = info_of(&fs);
    assert_eq!(info.totals.capacity, 1000, "failed dir must not count toward total");
    assert_eq!(info.totals.available, 800);
    assert_eq!(info.totals.allocatable_capacity, 1000);
    assert_eq!(info.totals.allocatable_available, 800);
}

#[test]
fn filesystem_info_allocatable_excludes_lost_workers() {
    let mut fs = test_fs();
    fs.worker_manager.add_test_worker(worker_with_status(1, WorkerStatus::Live, 1000, 800));
    fs.worker_manager
        .worker_map
        .lost_workers
        .insert(99, worker_with_status(99, WorkerStatus::Lost, 9999, 9999));

    let info = info_of(&fs);
    assert_eq!(info.lost_workers.len(), 1);
    assert_eq!(info.totals.capacity, 1000);
    assert_eq!(info.totals.available, 800);
    assert_eq!(info.totals.allocatable_capacity, 1000);
    assert_eq!(info.totals.allocatable_available, 800);
}

#[test]
fn totals_that_do_not_fit_are_noticed() {
    let mut fs = test_fs();
    fs.worker_manager.add_test_worker(worker_with_status(1, WorkerStatus::Live, i64::MAX, 0));
    assert!(fs.totals_fit());
    fs.worker_manager.add_test_worker(worker_with_status(2, WorkerStatus::Live, 1, 0));
    assert!(!fs.totals_fit());
}

fn at(path: &str, parent: Option<InodeKind>, last: Option<InodeKind>) -> ResolvedPath {
    let cut = path.rfind('/').unwrap();
    let parent_path = if cut == 0 { "/" } else { &path[..cut] };
    ResolvedPath {
        path: path.to_string(),
        parent_path: parent_path.to_string(),
        is_root: path == "/",
        components: if path == "/" { 1 } else { path.matches('/').count() + 1 },
        parent,
        last,
    }
}

#[test]
fn parents_must_be_directories() {
    let dir = Some(InodeKind::Dir);
    let plain = Some(InodeKind::File);
    assert!(MasterFilesystem::check_parent(&at("/a/b", dir, None)).is_ok());
    assert!(MasterFilesystem::check_parent(&at("/a", None, None)).is_ok());
    assert_eq!(
        MasterFilesystem::check_parent(&at("/a/b", plain, None)),
        Err(FsError::ParentNotDirectory { parent: "/a".to_string() })
    );
    assert_eq!(
        MasterFilesystem::check_parent(&at("/a/b", None, None)),
        Err(FsError::ParentMissing { parent: "/a".to_string() })
    );
}

#[test]
fn directories_are_made_where_nothing_stands() {
    let dir = Some(InodeKind::Dir);
    let mkdir = MasterFilesystem::mkdir_with_opts;
    assert_eq!(mkdir(&at("/a/b", dir, None), false), Ok(MkdirAction::Create));
    assert_eq!(mkdir(&at("/a/b", None, None), true), Ok(MkdirAction::Create));
    assert_eq!(mkdir(&at("/a/b", dir, dir), true), Ok(MkdirAction::Existing));
    assert_eq!(
        mkdir(&at("/a/b", None, None), false),
        Err(FsError::ParentMissing { parent: "/a".to_string() })
    );
    assert_eq!(
        mkdir(&at("/a/b", dir, dir), false),
        Err(FsError::FileExists { path: "/a/b".to_string() })
    );
    assert_eq!(
        mkdir(&at("/a/b", dir, Some(InodeKind::File)), true),
        Err(FsError::FileExists { path: "/a/b".to_string() })
    );
    assert_eq!(
        mkdir(&at("/", None, dir), true),
        Err(FsError::RootExists { path: "/".to_string() })
    );
}

#[test]
fn renaming_keeps_the_tree_a_tree() {
    let rename = MasterFilesystem::rename;
    assert_eq!(rename(false, "/a", "/b", false), Ok(true));
    assert_eq!(rename(false, "/a", "/a", false), Ok(false));
    assert_eq!(rename(false, "/a", "/ab", false), Ok(true));
    assert_eq!(rename(true, "/", "/b", false), Err(FsError::RenameRoot));
    let below = rename(false, "/a", "/a/b", false).unwrap_err();
    assert_eq!(below.kind(), ErrorKind::InvalidArgument);
    assert_eq!(below.message(), "cannot rename /a to /a/b: destination is under source");
    assert_eq!(rename(false, "/a/b", "/a", false), Ok(true));
    let above = rename(false, "/a/b", "/a", true).unwrap_err();
    assert_eq!(above.kind(), ErrorKind::InvalidArgument);
    assert_eq!(above.message(), "cannot exchange /a/b with /a: source is under destination");
}

#[test]
fn new_paths_have_limits() {
    let conf = MasterConf { max_path_len: 6, max_path_depth: 3, ..MasterConf::default() };
    let fs = MasterFilesystem::new(conf, WorkerManager::new("curvine", 1));
    assert!(fs.check_path_length("/ab/cd").is_ok());
    assert_eq!(fs.check_path_length("/ab/cde"), Err(FsError::PathTooLong { limit: 6 }));
    // The length counts in bytes.
    assert_eq!(fs.check_path_length("/éééé"), Err(FsError::PathTooLong { limit: 6 }));
    assert_eq!(fs.check_path_length("/a/b/c"), Err(FsError::PathTooDeep { limit: 3 }));
    assert_eq!(
        fs.check_path_length("/a/b/c").unwrap_err().message(),
        "create: Path too long, limit 3 levels"
    );
}

fn flags() -> OpenFlags {
    OpenFlags {
        read_only: false,
        create: true,
        exclusive: false,
        overwrite: true,
        truncate: false,
    }
}

#[test]
fn files_are_created_or_overwritten() {
    let fs = test_fs();
    let opts = CreateFileOpts { create_parent: false, replicas: 1, block_size: 1 << 20 };
    let dir = Some(InodeKind::Dir);
    let plain = Some(InodeKind::File);
    let create = |o: &CreateFileOpts, f: &OpenFlags, p: ResolvedPath| {
        let path = p.path.clone();
        fs.create_with_opts(&path, o, f, Ok(p))
    };
    assert_eq!(create(&opts, &flags(), at("/a/b", dir, None)), Ok(CreateAction::Create));
    assert_eq!(create(&opts, &flags(), at("/a/b", dir, plain)), Ok(CreateAction::Overwrite));
    let exists = Err(FsError::FileExists { path: "/a/b".to_string() });
    let keep = OpenFlags { overwrite: false, ..flags() };
    assert_eq!(create(&opts, &keep, at("/a/b", dir, plain)), exists);
    let exclusive = OpenFlags { exclusive: true, ..flags() };
    assert!(create(&opts, &exclusive, at("/a/b", dir, plain)).is_err());
    assert_eq!(
        create(&opts, &flags(), at("/a/b", dir, dir)),
        Err(FsError::ExistsAsDirectory { path: "/a/b".to_string() })
    );
    assert_eq!(
        create(&opts, &flags(), at("/a/b", None, None)),
        Err(FsError::ParentMissing { parent: "/a".to_string() })
    );
    let deep = CreateFileOpts { create_parent: true, ..opts };
    assert_eq!(create(&deep, &flags(), at("/a/b", None, None)), Ok(CreateAction::Create));
    let no_create = OpenFlags { create: false, ..flags() };
    assert_eq!(
        create(&opts, &no_create, at("/a/b", dir, None)),
        Err(FsError::CreateFlagMissing)
    );
    let none = CreateFileOpts { replicas: 0, ..opts };
    assert_eq!(
        create(&none, &flags(), at("/a/b", dir, None)),
        Err(FsError::ReplicasOutOfRange { requested: 0, min: 1, max: 100 })
    );
    let small = CreateFileOpts { block_size: 1, ..opts };
    assert!(matches!(
        create(&small, &flags(), at("/a/b", dir, None)),
        Err(FsError::BlockSizeOutOfRange { .. })
    ));
    let broken = || FsError::Common { message: "store".to_string() };
    assert_eq!(fs.create_with_opts("/a", &opts, &flags(), Err(broken())), Err(broken()));
}

#[test]
fn opening_depends_on_what_stands_there() {
    let open = MasterFilesystem::open_file;
    let plain = || Ok(at("/f", None, Some(InodeKind::File)));
    let nothing = || Ok(at("/f", None, None));
    let read = OpenFlags { read_only: true, create: false, ..flags() };
    assert_eq!(open(&read, plain()), Ok(OpenAction::Read));
    assert_eq!(
        open(&OpenFlags { truncate: true, ..read }, plain()),
        Err(FsError::ReadOnlyTruncate)
    );
    assert_eq!(open(&OpenFlags { create: true, ..read }, plain()), Err(FsError::ReadOnlyCreate));
    assert_eq!(open(&flags(), nothing()), Ok(OpenAction::Create));
    assert_eq!(
        open(&OpenFlags { create: false, ..flags() }, nothing()),
        Err(FsError::FileNotFound { path: "/f".to_string(), inode_id: None })
    );
    assert_eq!(open(&flags(), plain()), Ok(OpenAction::Append));
    assert_eq!(
        open(&OpenFlags { truncate: true, ..flags() }, plain()),
        Ok(OpenAction::Truncate)
    );
    assert_eq!(
        open(&flags(), Ok(at("/d", None, Some(InodeKind::Dir)))),
        Err(FsError::IsDirectory { path: "/d".to_string() })
    );
}

#[test]
fn patterns_are_not_listed_with_options() {
    assert!(MasterFilesystem::list_options("/a", false).is_ok());
    let err = MasterFilesystem::list_options("/a*", true).unwrap_err();
    assert_eq!(err.message(), "list_options does not support glob pattern, path /a*");
}

#[test]
fn resizing_checks_the_request_against_the_workers() {
    let mut fs = test_fs();
    fs.worker_manager.add_test_worker(worker_with_status(1, WorkerStatus::Live, 500, 300));
    let f = file(1, 100, vec![]);
    assert!(fs.resize_by_id(&f, &FileAllocOpts::with_alloc(250, 0)).is_ok());
    assert_eq!(
        fs.resize_by_id(&f, &FileAllocOpts::with_alloc(251, 0)),
        Err(FsError::DiskOutOfSpace { growth: 151, replicas: 2, available: 300 })
    );
    assert!(fs.resize_by_id(&f, &FileAllocOpts::with_truncate(10_000)).is_ok());
    assert_eq!(
        fs.resize_by_id(&f, &FileAllocOpts::with_truncate(-1)),
        Err(FsError::NegativeLength { len: -1 })
    );
}

fn meta(id: i64, len: i64) -> BlockMeta {
    BlockMeta { id, len, alloc_opts: None }
}

#[test]
fn next_block_follows_the_last_one() {
    let f = file(1, 300, vec![meta(10, 128), meta(11, 128), meta(12, 44)]);
    let next = |last: Option<i64>| MasterFilesystem::add_block(&f, last).map(|b| b.id);
    assert_eq!(next(None), Some(10));
    assert_eq!(next(Some(10)), Some(11));
    assert_eq!(next(Some(12)), None);
    assert_eq!(MasterFilesystem::add_block(&file(2, 0, vec![]), None), None);
    let third = MasterFilesystem::add_block(&f, Some(11)).unwrap();
    assert_eq!((third.len, third.file_type), (44, FileType::File));
}

#[test]
fn previous_block_must_be_full() {
    let f = file(1, 128, vec![meta(10, 128)]);
    let client = ClientAddress { client_name: "c".to_string(), hostname: "h".to_string() };
    let full = CommitBlock { block_id: 10, block_len: 128, locations: vec![] };
    assert!(MasterFilesystem::validate_add_block(&f, &client, Some(&full)).is_ok());
    let short = CommitBlock { block_id: 10, block_len: 100, locations: vec![] };
    assert_eq!(
        MasterFilesystem::validate_add_block(&f, &client, Some(&short)).err(),
        Some(FsError::CommitLengthMismatch { block_size: 128, block_len: 100 })
    );
}

#[test]
fn chosen_workers_become_the_locations_of_a_block() {
    let fs = test_fs();
    let f = file(1, 0, vec![]);
    let w = |id: u32| WorkerAddress { worker_id: id, ..Default::default() };
    let chosen = MasterFilesystem::choose_worker_for_file(&f, Ok(vec![w(1), w(2)])).unwrap();
    assert_eq!(
        MasterFilesystem::choose_worker_for_file(&f, Ok(vec![w(1), w(2), w(3)])),
        Err(FsError::TooManyForReplicas)
    );
    let block = ExtendedBlock {
        id: 10,
        len: 0,
        storage_type: StorageType::Disk,
        file_type: FileType::File,
        alloc_opts: None,
    };
    let located = fs.assign_worker(block, chosen);
    assert_eq!(located.block.id, 10);
    assert_eq!(located.locs, vec![w(1), w(2)]);
    assert!(!located.has_spdk);
}

#[test]
fn blocks_of_a_file_must_be_full_and_located() {
    let mut fs = test_fs();
    fs.worker_manager.add_test_worker(worker_with_status(1, WorkerStatus::Live, 1, 1));
    let one = || vec![BlockLocation::with_id(1)];
    let record = |blocks: Vec<BlockMeta>, locations| FileRecord {
        file: file(1, 0, blocks),
        locations,
    };
    let locate = |r: &FileRecord| {
        fs.get_block_locations("/f", Some((renamed(1, "/f", "f", 0), r))).map(|b| b.block_locs)
    };
    let good = record(vec![meta(10, 128), meta(11, 5)], vec![(11, one()), (10, one())]);
    let ids: Vec<i64> = locate(&good).unwrap().iter().map(|b| b.block.id).collect();
    assert_eq!(ids, vec![10, 11]);
    let short = record(vec![meta(10, 100), meta(11, 5)], vec![(11, one()), (10, one())]);
    assert_eq!(
        locate(&short),
        Err(FsError::BlockAbnormal { block_id: 10, block_len: 100, block_size: 128 })
    );
    let lost = record(vec![meta(10, 128), meta(11, 5)], vec![(10, one())]);
    assert_eq!(
        locate(&lost),
        Err(FsError::BlockLost { path: "/f".to_string(), block_id: 11 })
    );
    let dead = record(vec![meta(10, 128)], vec![(10, vec![BlockLocation::with_id(2)])]);
    assert_eq!(
        locate(&dead),
        Err(FsError::AllReplicasLost { path: "/f".to_string(), block_id: 10 })
    );
    assert!(fs.get_block_locations("/g", None).is_err());
}

#[test]
fn deleted_blocks_are_queued_for_their_workers() {
    let mut fs = test_fs();
    let rest = fs.delete(DeleteResult {
        inodes: 2,
        bytes: 256,
        blocks: vec![(10, vec![BlockLocation::with_id(1), BlockLocation::with_id(2)])],
    });
    assert_eq!((rest.inodes, rest.bytes, rest.blocks.len()), (2, 256, 0));
    for worker in [1, 2] {
        assert_eq!(fs.worker_manager.block_map.handle_heartbeat(worker).len(), 1);
    }
    assert!(fs.worker_manager.block_map.handle_heartbeat(3).is_empty());
}

#[test]
fn errors_in_words() {
    let text = |e: FsError| e.message();
    assert_eq!(text(FsError::NoAvailableWorker), "No available worker found");
    assert_eq!(
        text(FsError::TooManyForReplicas),
        "The number of workers exceeds the number of replicas"
    );
    assert_eq!(
        text(FsError::TooManyForCount),
        "The number of workers exceeds the requested count"
    );
    assert_eq!(
        text(FsError::StaleReportSession { worker_id: 7 }),
        "block report from a stale worker session: 7"
    );
    assert_eq!(
        text(FsError::ReplicasOutOfRange { requested: 0, min: 1, max: 100 }),
        "The replica number 0 needs to be between 1 and 100"
    );
    assert_eq!(
        text(FsError::BlockAbnormal { block_id: 10, block_len: -1, block_size: 128 }),
        "block status abnormal, block id 10, block len -1, expected block size 128"
    );
    assert_eq!(
        text(FsError::BlockLost { path: "/f".to_string(), block_id: i64::MIN }),
        "File /f, block -9223372036854775808 Lost (no worker can read)"
    );
    assert_eq!(
        text(FsError::TargetEpochTooNew { target: u64::MAX, current: 3 }),
        "cv metadata delta target_epoch 18446744073709551615 is newer than current epoch 3"
    );
    assert_eq!(
        text(FsError::FromEpochTooNew { from: 9, target: 3 }),
        "cv metadata delta from_epoch 9 is newer than target epoch 3"
    );
    assert_eq!(
        text(FsError::ExistsAsDirectory { path: "/d".to_string() }),
        "/d  already exists as a dir"
    );
    assert_eq!(
        text(FsError::AllReplicasLost { path: "/f".to_string(), block_id: 4 }),
        "File /f block 4, all replicas has been lost"
    );
}
