//! The reasons for which the master refuses a request.

use vstd::prelude::*;

use crate::model::WorkerAddress;
use crate::text::{append_i64, append_u64};

verus! {

#[derive(Debug, PartialEq, Eq)]
pub enum FsError {
    /// A worker of another cluster tried to register.
    ClusterMismatch { expected: String, actual: String },
    /// The worker id is registered from another endpoint.
    WorkerIdConflict { worker_id: u32 },
    /// A replaced worker process tried to start again.
    RetiredSession { address: WorkerAddress },
    /// The placement policy found no worker.
    NoAvailableWorker,
    /// The placement policy named more workers than replicas are wanted.
    TooManyForReplicas,
    /// The placement policy named more workers than were asked for.
    TooManyForCount,
    /// No live worker holds the block.
    AllReplicasLost { path: String, block_id: i64 },
    /// A block report came from a process that is not the current one.
    StaleReportSession { worker_id: u32 },
    /// An allocation needs more space than the workers have.
    DiskOutOfSpace { growth: i64, replicas: u8, available: i64 },
    /// A length below zero was asked for.
    NegativeLength { len: i64 },
    /// The parent of a path is not a directory.
    ParentNotDirectory { parent: String },
    /// The parent of a path does not exist.
    ParentMissing { parent: String },
    /// The root directory cannot be created.
    RootExists { path: String },
    FileExists { path: String },
    /// No such path, or no inode with the id that was asked for.
    FileNotFound { path: String, inode_id: Option<i64> },
    /// A file was to be created where a directory stands.
    ExistsAsDirectory { path: String },
    /// A file was to be opened where a directory stands.
    IsDirectory { path: String },
    /// The root directory cannot be renamed.
    RenameRoot,
    /// A path cannot move below itself.
    RenameIntoSelf { src: String, dst: String },
    /// A path cannot change places with one above it.
    ExchangeWithAncestor { src: String, dst: String },
    /// A file was to be created without the create flag.
    CreateFlagMissing,
    ReplicasOutOfRange { requested: u16, min: u16, max: u16 },
    BlockSizeOutOfRange { min_size: i64, max_size: i64 },
    PathTooLong { limit: usize },
    PathTooDeep { limit: usize },
    /// A file cannot be truncated through a read-only handle.
    ReadOnlyTruncate,
    /// A file cannot be created through a read-only handle.
    ReadOnlyCreate,
    /// Listing with options does not expand patterns.
    GlobUnsupported { path: String },
    /// A block before the last was committed with another size.
    CommitLengthMismatch { block_size: i64, block_len: i64 },
    /// A block before the last is not full.
    BlockAbnormal { block_id: i64, block_len: i64, block_size: i64 },
    /// The block has no location on record.
    BlockLost { path: String, block_id: i64 },
    /// A page of a listing must hold something.
    SnapshotPageEmpty,
    DeltaPageEmpty,
    /// Changes were asked for up to a state that is still to come.
    TargetEpochTooNew { target: u64, current: u64 },
    /// Changes were asked for that begin after they end.
    FromEpochTooNew { from: u64, target: u64 },
    /// A peer is not compatible, and the policy is to refuse such peers.
    PeerRejected { peer: String, detail: String },
    /// A worker wants to return while its cleanup is under way.
    CleanupPending { address: WorkerAddress },
    /// A mount point cannot be deleted.
    DeleteMountRoot { path: String },
    /// A listing was asked for with a limit below zero.
    NegativeListLimit { given: i64 },
    /// Anything that a service outside the master reports.
    Common { message: String },
}

/// The class of an error, as clients tell errors apart.
#[derive(Clone, Copy, Debug, PartialEq, Eq, Structural)]
pub enum ErrorKind {
    FileNotFound,
    FileExists,
    DiskOutOfSpace,
    InvalidArgument,
    Common,
}

impl FsError {
    /// The class of the error.
    pub fn kind(&self) -> (r: ErrorKind)
        ensures
            r == (match self {
                FsError::FileNotFound { .. } => ErrorKind::FileNotFound,
                FsError::FileExists { .. } => ErrorKind::FileExists,
                FsError::DiskOutOfSpace { .. } => ErrorKind::DiskOutOfSpace,
                FsError::RenameIntoSelf { .. } => ErrorKind::InvalidArgument,
                FsError::ExchangeWithAncestor { .. } => ErrorKind::InvalidArgument,
                _ => ErrorKind::Common,
            }),
    {
        match self {
            FsError::FileNotFound { .. } => ErrorKind::FileNotFound,
            FsError::FileExists { .. } => ErrorKind::FileExists,
            FsError::DiskOutOfSpace { .. } => ErrorKind::DiskOutOfSpace,
            FsError::RenameIntoSelf { .. } => ErrorKind::InvalidArgument,
            FsError::ExchangeWithAncestor { .. } => ErrorKind::InvalidArgument,
            _ => ErrorKind::Common,
        }
    }

    /// The error in words.
    pub open spec fn text(self) -> Seq<char> {
        match self {
            FsError::ClusterMismatch { expected, actual } => {
                "Registered cluster_id mismatch, expected "@ + expected@ + ", actual: "@ + actual@
            },
            FsError::WorkerIdConflict { worker_id } => {
                "Worker id "@ + crate::text::decimal(worker_id as nat)
                    + " is registered from another address"@
            },
            FsError::RetiredSession { address } => {
                "Worker "@ + address@.text() + " Start uses a retired process session"@
            },
            FsError::NoAvailableWorker => "No available worker found"@,
            FsError::TooManyForReplicas => "The number of workers exceeds the number of replicas"@,
            FsError::TooManyForCount => "The number of workers exceeds the requested count"@,
            FsError::AllReplicasLost { path, block_id } => {
                "File "@ + path@ + " block "@ + crate::text::signed_decimal(block_id as int)
                    + ", all replicas has been lost"@
            },
            FsError::StaleReportSession { worker_id } => {
                "block report from a stale worker session: "@
                    + crate::text::decimal(worker_id as nat)
            },
            FsError::DiskOutOfSpace { growth, replicas, available } => {
                "fallocate requires "@ + crate::text::signed_decimal(growth as int)
                    + " bytes for "@ + crate::text::decimal(replicas as nat)
                    + " replicas, but only "@ + crate::text::signed_decimal(available as int)
                    + " bytes are available"@
            },
            FsError::NegativeLength { len } => {
                "length must not be negative: "@ + crate::text::signed_decimal(len as int)
            },
            FsError::ParentNotDirectory { parent } => {
                "Parent path is not a directory:: "@ + parent@
            },
            FsError::ParentMissing { parent } => "Parent directory doesn't exist: "@ + parent@,
            FsError::RootExists { path } => "Not allowed to create existing root path: "@ + path@,
            FsError::FileExists { path } => "File already exists: "@ + path@,
            FsError::FileNotFound { path, inode_id } => match inode_id {
                Some(id) => "File not found: "@ + path@ + ", inode_id="@
                    + crate::text::signed_decimal(id as int),
                None => "File not found: "@ + path@,
            },
            FsError::ExistsAsDirectory { path } => path@ + "  already exists as a dir"@,
            FsError::IsDirectory { path } => path@ + " is a directory"@,
            FsError::RenameRoot => "Cannot rename root path"@,
            FsError::RenameIntoSelf { src, dst } => {
                "cannot rename "@ + src@ + " to "@ + dst@ + ": destination is under source"@
            },
            FsError::ExchangeWithAncestor { src, dst } => {
                "cannot exchange "@ + src@ + " with "@ + dst@ + ": source is under destination"@
            },
            FsError::CreateFlagMissing => "create_with_opts requires O_CREAT flag"@,
            FsError::ReplicasOutOfRange { requested, min, max } => {
                "The replica number "@ + crate::text::decimal(requested as nat)
                    + " needs to be between "@ + crate::text::decimal(min as nat) + " and "@
                    + crate::text::decimal(max as nat)
            },
            FsError::BlockSizeOutOfRange { min_size, max_size } => {
                "Block size needs to be between "@ + crate::text::signed_decimal(min_size as int)
                    + " and "@ + crate::text::signed_decimal(max_size as int)
            },
            FsError::PathTooLong { limit } => {
                "create: Path too long, limit "@ + crate::text::decimal(limit as nat)
                    + " characters"@
            },
            FsError::PathTooDeep { limit } => {
                "create: Path too long, limit "@ + crate::text::decimal(limit as nat) + " levels"@
            },
            FsError::ReadOnlyTruncate => "cannot combine O_RDONLY with O_TRUNC"@,
            FsError::ReadOnlyCreate => "cannot combine O_RDONLY with O_CREAT"@,
            FsError::GlobUnsupported { path } => {
                "list_options does not support glob pattern, path "@ + path@
            },
            FsError::CommitLengthMismatch { block_size, block_len } => {
                "The block size is incorrect, block size: "@
                    + crate::text::signed_decimal(block_size as int) + ", commit block length: "@
                    + crate::text::signed_decimal(block_len as int)
            },
            FsError::BlockAbnormal { block_id, block_len, block_size } => {
                "block status abnormal, block id "@ + crate::text::signed_decimal(block_id as int)
                    + ", block len "@ + crate::text::signed_decimal(block_len as int)
                    + ", expected block size "@ + crate::text::signed_decimal(block_size as int)
            },
            FsError::BlockLost { path, block_id } => {
                "File "@ + path@ + ", block "@ + crate::text::signed_decimal(block_id as int)
                    + " Lost (no worker can read)"@
            },
            FsError::SnapshotPageEmpty => "cv metadata snapshot page_size must be greater than 0"@,
            FsError::DeltaPageEmpty => "cv metadata delta page_size must be greater than 0"@,
            FsError::TargetEpochTooNew { target, current } => {
                "cv metadata delta target_epoch "@ + crate::text::decimal(target as nat)
                    + " is newer than current epoch "@ + crate::text::decimal(current as nat)
            },
            FsError::FromEpochTooNew { from, target } => {
                "cv metadata delta from_epoch "@ + crate::text::decimal(from as nat)
                    + " is newer than target epoch "@ + crate::text::decimal(target as nat)
            },
            FsError::PeerRejected { peer, detail } => {
                peer@ + " rejected by compatibility policy: "@ + detail@ + "; upgrade the "@
                    + peer@ + " or set master.compatibility.mode = \"diagnose\" to allow it"@
            },
            FsError::CleanupPending { address } => {
                "Worker "@ + address@.text() + " cleanup is pending; retry heartbeat"@
            },
            FsError::DeleteMountRoot { path } => "cannot delete mount point root: "@ + path@,
            FsError::NegativeListLimit { .. } => "list options limit must be greater than 0"@,
            FsError::Common { message } => message@,
        }
    }

    /// The error in words.
    pub fn message(&self) -> (r: String)
        ensures
            r@ == self.text(),
    {
        let mut r: String = String::new();
        match self {
            FsError::ClusterMismatch { expected, actual } => {
                r.append("Registered cluster_id mismatch, expected ");
                r.append(expected.as_str());
                r.append(", actual: ");
                r.append(actual.as_str());
            },
            FsError::WorkerIdConflict { worker_id } => {
                r.append("Worker id ");
                append_u64(&mut r, *worker_id as u64);
                r.append(" is registered from another address");
            },
            FsError::RetiredSession { address } => {
                r.append("Worker ");
                address.append_to(&mut r);
                r.append(" Start uses a retired process session");
            },
            FsError::NoAvailableWorker => {
                r.append("No available worker found");
            },
            FsError::TooManyForReplicas => {
                r.append("The number of workers exceeds the number of replicas");
            },
            FsError::TooManyForCount => {
                r.append("The number of workers exceeds the requested count");
            },
            FsError::AllReplicasLost { path, block_id } => {
                r.append("File ");
                r.append(path.as_str());
                r.append(" block ");
                append_i64(&mut r, *block_id);
                r.append(", all replicas has been lost");
            },
            FsError::StaleReportSession { worker_id } => {
                r.append("block report from a stale worker session: ");
                append_u64(&mut r, *worker_id as u64);
            },
            FsError::DiskOutOfSpace { growth, replicas, available } => {
                r.append("fallocate requires ");
                append_i64(&mut r, *growth);
                r.append(" bytes for ");
                append_u64(&mut r, *replicas as u64);
                r.append(" replicas, but only ");
                append_i64(&mut r, *available);
                r.append(" bytes are available");
            },
            FsError::NegativeLength { len } => {
                r.append("length must not be negative: ");
                append_i64(&mut r, *len);
            },
            FsError::ParentNotDirectory { parent } => {
                r.append("Parent path is not a directory:: ");
                r.append(parent.as_str());
            },
            FsError::ParentMissing { parent } => {
                r.append("Parent directory doesn't exist: ");
                r.append(parent.as_str());
            },
            FsError::RootExists { path } => {
                r.append("Not allowed to create existing root path: ");
                r.append(path.as_str());
            },
            FsError::FileExists { path } => {
                r.append("File already exists: ");
                r.append(path.as_str());
            },
            FsError::FileNotFound { path, inode_id } => {
                r.append("File not found: ");
                r.append(path.as_str());
                if let Some(id) = inode_id {
                    r.append(", inode_id=");
                    append_i64(&mut r, *id);
                }
            },
            FsError::ExistsAsDirectory { path } => {
                r.append(path.as_str());
                r.append("  already exists as a dir");
            },
            FsError::IsDirectory { path } => {
                r.append(path.as_str());
                r.append(" is a directory");
            },
            FsError::RenameRoot => {
                r.append("Cannot rename root path");
            },
            FsError::RenameIntoSelf { src, dst } => {
                r.append("cannot rename ");
                r.append(src.as_str());
                r.append(" to ");
                r.append(dst.as_str());
                r.append(": destination is under source");
            },
            FsError::ExchangeWithAncestor { src, dst } => {
                r.append("cannot exchange ");
                r.append(src.as_str());
                r.append(" with ");
                r.append(dst.as_str());
                r.append(": source is under destination");
            },
            FsError::CreateFlagMissing => {
                r.append("create_with_opts requires O_CREAT flag");
            },
            FsError::ReplicasOutOfRange { requested, min, max } => {
                r.append("The replica number ");
                append_u64(&mut r, *requested as u64);
                r.append(" needs to be between ");
                append_u64(&mut r, *min as u64);
                r.append(" and ");
                append_u64(&mut r, *max as u64);
            },
            FsError::BlockSizeOutOfRange { min_size, max_size } => {
                r.append("Block size needs to be between ");
                append_i64(&mut r, *min_size);
                r.append(" and ");
                append_i64(&mut r, *max_size);
            },
            FsError::PathTooLong { limit } => {
                r.append("create: Path too long, limit ");
                append_u64(&mut r, *limit as u64);
                r.append(" characters");
            },
            FsError::PathTooDeep { limit } => {
                r.append("create: Path too long, limit ");
                append_u64(&mut r, *limit as u64);
                r.append(" levels");
            },
            FsError::ReadOnlyTruncate => {
                r.append("cannot combine O_RDONLY with O_TRUNC");
            },
            FsError::ReadOnlyCreate => {
                r.append("cannot combine O_RDONLY with O_CREAT");
            },
            FsError::GlobUnsupported { path } => {
                r.append("list_options does not support glob pattern, path ");
                r.append(path.as_str());
            },
            FsError::CommitLengthMismatch { block_size, block_len } => {
                r.append("The block size is incorrect, block size: ");
                append_i64(&mut r, *block_size);
                r.append(", commit block length: ");
                append_i64(&mut r, *block_len);
            },
            FsError::BlockAbnormal { block_id, block_len, block_size } => {
                r.append("block status abnormal, block id ");
                append_i64(&mut r, *block_id);
                r.append(", block len ");
                append_i64(&mut r, *block_len);
                r.append(", expected block size ");
                append_i64(&mut r, *block_size);
            },
            FsError::BlockLost { path, block_id } => {
                r.append("File ");
                r.append(path.as_str());
                r.append(", block ");
                append_i64(&mut r, *block_id);
                r.append(" Lost (no worker can read)");
            },
            FsError::SnapshotPageEmpty => {
                r.append("cv metadata snapshot page_size must be greater than 0");
            },
            FsError::DeltaPageEmpty => {
                r.append("cv metadata delta page_size must be greater than 0");
            },
            FsError::TargetEpochTooNew { target, current } => {
                r.append("cv metadata delta target_epoch ");
                append_u64(&mut r, *target as u64);
                r.append(" is newer than current epoch ");
                append_u64(&mut r, *current as u64);
            },
            FsError::FromEpochTooNew { from, target } => {
                r.append("cv metadata delta from_epoch ");
                append_u64(&mut r, *from as u64);
                r.append(" is newer than target epoch ");
                append_u64(&mut r, *target as u64);
            },
            FsError::PeerRejected { peer, detail } => {
                r.append(peer.as_str());
                r.append(" rejected by compatibility policy: ");
                r.append(detail.as_str());
                r.append("; upgrade the ");
                r.append(peer.as_str());
                r.append(" or set master.compatibility.mode = \"diagnose\" to allow it");
            },
            FsError::CleanupPending { address } => {
                r.append("Worker ");
                address.append_to(&mut r);
                r.append(" cleanup is pending; retry heartbeat");
            },
            FsError::DeleteMountRoot { path } => {
                r.append("cannot delete mount point root: ");
                r.append(path.as_str());
            },
            FsError::NegativeListLimit { .. } => {
                r.append("list options limit must be greater than 0");
            },
            FsError::Common { message } => {
                r.append(message.as_str());
            },
        }
        assert(r@ =~= self.text());
        r
    }
}

} // verus!
