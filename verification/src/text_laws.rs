//! What messages tell.

use vstd::prelude::*;

use crate::compatibility::{CompatibilityVerdict, VerdictView};
use crate::error::FsError;

verus! {

/// A text with one part inside.
pub open spec fn joined_one(a: Seq<char>, p: Seq<char>, b: Seq<char>) -> Seq<char> {
    a + p + b
}

/// A text with two parts inside, one after the other.
pub open spec fn joined_two(
    a: Seq<char>,
    p: Seq<char>,
    b: Seq<char>,
    q: Seq<char>,
    c: Seq<char>,
) -> Seq<char> {
    a + p + b + q + c
}

/// A text with three parts inside, one after the other.
pub open spec fn joined_three(
    a: Seq<char>,
    p: Seq<char>,
    b: Seq<char>,
    q: Seq<char>,
    c: Seq<char>,
    o: Seq<char>,
    d: Seq<char>,
) -> Seq<char> {
    a + p + b + q + c + o + d
}

/// The text tells `p`.
pub open spec fn tells_one(t: Seq<char>, p: Seq<char>) -> bool {
    exists|a: Seq<char>, b: Seq<char>| t == #[trigger] joined_one(a, p, b)
}

/// The text tells `p` and then `q`.
pub open spec fn tells_two(t: Seq<char>, p: Seq<char>, q: Seq<char>) -> bool {
    exists|a: Seq<char>, b: Seq<char>, c: Seq<char>| t == #[trigger] joined_two(a, p, b, q, c)
}

/// The text tells `p`, then `q` and then `o`.
pub open spec fn tells_three(t: Seq<char>, p: Seq<char>, q: Seq<char>, o: Seq<char>) -> bool {
    exists|a: Seq<char>, b: Seq<char>, c: Seq<char>, d: Seq<char>|
        t == #[trigger] joined_three(a, p, b, q, c, o, d)
}

/// The message of an error tells everything that the error knows, in a fixed
/// order.
pub proof fn errors_tell_what_they_know(e: FsError, r: String)
    requires
        call_ensures(FsError::message, (&e,), r),
    ensures
        e matches FsError::ClusterMismatch { expected, actual } ==> tells_two(
            r@,
            expected@,
            actual@,
        ),
        e matches FsError::WorkerIdConflict { worker_id } ==> tells_one(
            r@,
            crate::text::decimal(worker_id as nat),
        ),
        e matches FsError::RetiredSession { address } ==> tells_one(r@, address@.text()),
        e matches FsError::AllReplicasLost { path, block_id } ==> tells_two(
            r@,
            path@,
            crate::text::signed_decimal(block_id as int),
        ),
        e matches FsError::StaleReportSession { worker_id } ==> tells_one(
            r@,
            crate::text::decimal(worker_id as nat),
        ),
        e matches FsError::DiskOutOfSpace { growth, replicas, available } ==> tells_three(
            r@,
            crate::text::signed_decimal(growth as int),
            crate::text::decimal(replicas as nat),
            crate::text::signed_decimal(available as int),
        ),
        e matches FsError::NegativeLength { len } ==> tells_one(
            r@,
            crate::text::signed_decimal(len as int),
        ),
        e matches FsError::ParentNotDirectory { parent } ==> tells_one(r@, parent@),
        e matches FsError::ParentMissing { parent } ==> tells_one(r@, parent@),
        e matches FsError::RootExists { path } ==> tells_one(r@, path@),
        e matches FsError::FileExists { path } ==> tells_one(r@, path@),
        e matches FsError::ExistsAsDirectory { path } ==> tells_one(r@, path@),
        e matches FsError::IsDirectory { path } ==> tells_one(r@, path@),
        e matches FsError::RenameIntoSelf { src, dst } ==> tells_two(r@, src@, dst@),
        e matches FsError::ExchangeWithAncestor { src, dst } ==> tells_two(r@, src@, dst@),
        e matches FsError::ReplicasOutOfRange { requested, min, max } ==> tells_three(
            r@,
            crate::text::decimal(requested as nat),
            crate::text::decimal(min as nat),
            crate::text::decimal(max as nat),
        ),
        e matches FsError::BlockSizeOutOfRange { min_size, max_size } ==> tells_two(
            r@,
            crate::text::signed_decimal(min_size as int),
            crate::text::signed_decimal(max_size as int),
        ),
        e matches FsError::PathTooLong { limit } ==> tells_one(
            r@,
            crate::text::decimal(limit as nat),
        ),
        e matches FsError::PathTooDeep { limit } ==> tells_one(
            r@,
            crate::text::decimal(limit as nat),
        ),
        e matches FsError::GlobUnsupported { path } ==> tells_one(r@, path@),
        e matches FsError::CommitLengthMismatch { block_size, block_len } ==> tells_two(
            r@,
            crate::text::signed_decimal(block_size as int),
            crate::text::signed_decimal(block_len as int),
        ),
        e matches FsError::BlockAbnormal { block_id, block_len, block_size } ==> tells_three(
            r@,
            crate::text::signed_decimal(block_id as int),
            crate::text::signed_decimal(block_len as int),
            crate::text::signed_decimal(block_size as int),
        ),
        e matches FsError::BlockLost { path, block_id } ==> tells_two(
            r@,
            path@,
            crate::text::signed_decimal(block_id as int),
        ),
        e matches FsError::TargetEpochTooNew { target, current } ==> tells_two(
            r@,
            crate::text::decimal(target as nat),
            crate::text::decimal(current as nat),
        ),
        e matches FsError::FromEpochTooNew { from, target } ==> tells_two(
            r@,
            crate::text::decimal(from as nat),
            crate::text::decimal(target as nat),
        ),
        e matches FsError::PeerRejected { peer, detail } ==> tells_two(r@, peer@, detail@),
        e matches FsError::CleanupPending { address } ==> tells_one(r@, address@.text()),
        e matches FsError::DeleteMountRoot { path } ==> tells_one(r@, path@),
        e matches FsError::FileNotFound { path, inode_id } ==> tells_one(r@, path@) && (
        inode_id matches Some(id) ==> tells_two(
            r@,
            path@,
            crate::text::signed_decimal(id as int),
        )),
        e matches FsError::Common { message } ==> r@ == message@,
{
    match e {
        FsError::ClusterMismatch { expected, actual } => {
            assert(r@ =~= joined_two(
                "Registered cluster_id mismatch, expected "@,
                expected@,
                ", actual: "@,
                actual@,
                Seq::<char>::empty(),
            ));
        },
        FsError::WorkerIdConflict { worker_id } => {
            assert(r@ =~= joined_one(
                "Worker id "@,
                crate::text::decimal(worker_id as nat),
                " is registered from another address"@,
            ));
        },
        FsError::RetiredSession { address } => {
            assert(r@ =~= joined_one(
                "Worker "@,
                address@.text(),
                " Start uses a retired process session"@,
            ));
        },
        FsError::AllReplicasLost { path, block_id } => {
            assert(r@ =~= joined_two(
                "File "@,
                path@,
                " block "@,
                crate::text::signed_decimal(block_id as int),
                ", all replicas has been lost"@,
            ));
        },
        FsError::StaleReportSession { worker_id } => {
            assert(r@ =~= joined_one(
                "block report from a stale worker session: "@,
                crate::text::decimal(worker_id as nat),
                Seq::<char>::empty(),
            ));
        },
        FsError::DiskOutOfSpace { growth, replicas, available } => {
            assert(r@ =~= joined_three(
                "fallocate requires "@,
                crate::text::signed_decimal(growth as int),
                " bytes for "@,
                crate::text::decimal(replicas as nat),
                " replicas, but only "@,
                crate::text::signed_decimal(available as int),
                " bytes are available"@,
            ));
        },
        FsError::NegativeLength { len } => {
            assert(r@ =~= joined_one(
                "length must not be negative: "@,
                crate::text::signed_decimal(len as int),
                Seq::<char>::empty(),
            ));
        },
        FsError::ParentNotDirectory { parent } => {
            assert(r@ =~= joined_one(
                "Parent path is not a directory:: "@,
                parent@,
                Seq::<char>::empty(),
            ));
        },
        FsError::ParentMissing { parent } => {
            assert(r@ =~= joined_one(
                "Parent directory doesn't exist: "@,
                parent@,
                Seq::<char>::empty(),
            ));
        },
        FsError::RootExists { path } => {
            assert(r@ =~= joined_one(
                "Not allowed to create existing root path: "@,
                path@,
                Seq::<char>::empty(),
            ));
        },
        FsError::FileExists { path } => {
            assert(r@ =~= joined_one("File already exists: "@, path@, Seq::<char>::empty()));
        },
        FsError::ExistsAsDirectory { path } => {
            assert(r@ =~= joined_one(Seq::<char>::empty(), path@, "  already exists as a dir"@));
        },
        FsError::IsDirectory { path } => {
            assert(r@ =~= joined_one(Seq::<char>::empty(), path@, " is a directory"@));
        },
        FsError::RenameIntoSelf { src, dst } => {
            assert(r@ =~= joined_two(
                "cannot rename "@,
                src@,
                " to "@,
                dst@,
                ": destination is under source"@,
            ));
        },
        FsError::ExchangeWithAncestor { src, dst } => {
            assert(r@ =~= joined_two(
                "cannot exchange "@,
                src@,
                " with "@,
                dst@,
                ": source is under destination"@,
            ));
        },
        FsError::ReplicasOutOfRange { requested, min, max } => {
            assert(r@ =~= joined_three(
                "The replica number "@,
                crate::text::decimal(requested as nat),
                " needs to be between "@,
                crate::text::decimal(min as nat),
                " and "@,
                crate::text::decimal(max as nat),
                Seq::<char>::empty(),
            ));
        },
        FsError::BlockSizeOutOfRange { min_size, max_size } => {
            assert(r@ =~= joined_two(
                "Block size needs to be between "@,
                crate::text::signed_decimal(min_size as int),
                " and "@,
                crate::text::signed_decimal(max_size as int),
                Seq::<char>::empty(),
            ));
        },
        FsError::PathTooLong { limit } => {
            assert(r@ =~= joined_one(
                "create: Path too long, limit "@,
                crate::text::decimal(limit as nat),
                " characters"@,
            ));
        },
        FsError::PathTooDeep { limit } => {
            assert(r@ =~= joined_one(
                "create: Path too long, limit "@,
                crate::text::decimal(limit as nat),
                " levels"@,
            ));
        },
        FsError::GlobUnsupported { path } => {
            assert(r@ =~= joined_one(
                "list_options does not support glob pattern, path "@,
                path@,
                Seq::<char>::empty(),
            ));
        },
        FsError::CommitLengthMismatch { block_size, block_len } => {
            assert(r@ =~= joined_two(
                "The block size is incorrect, block size: "@,
                crate::text::signed_decimal(block_size as int),
                ", commit block length: "@,
                crate::text::signed_decimal(block_len as int),
                Seq::<char>::empty(),
            ));
        },
        FsError::BlockAbnormal { block_id, block_len, block_size } => {
            assert(r@ =~= joined_three(
                "block status abnormal, block id "@,
                crate::text::signed_decimal(block_id as int),
                ", block len "@,
                crate::text::signed_decimal(block_len as int),
                ", expected block size "@,
                crate::text::signed_decimal(block_size as int),
                Seq::<char>::empty(),
            ));
        },
        FsError::BlockLost { path, block_id } => {
            assert(r@ =~= joined_two(
                "File "@,
                path@,
                ", block "@,
                crate::text::signed_decimal(block_id as int),
                " Lost (no worker can read)"@,
            ));
        },
        FsError::TargetEpochTooNew { target, current } => {
            assert(r@ =~= joined_two(
                "cv metadata delta target_epoch "@,
                crate::text::decimal(target as nat),
                " is newer than current epoch "@,
                crate::text::decimal(current as nat),
                Seq::<char>::empty(),
            ));
        },
        FsError::FromEpochTooNew { from, target } => {
            assert(r@ =~= joined_two(
                "cv metadata delta from_epoch "@,
                crate::text::decimal(from as nat),
                " is newer than target epoch "@,
                crate::text::decimal(target as nat),
                Seq::<char>::empty(),
            ));
        },
        FsError::PeerRejected { peer, detail } => {
            assert(r@ =~= joined_two(
                Seq::<char>::empty(),
                peer@,
                " rejected by compatibility policy: "@,
                detail@,
                "; upgrade the "@ + peer@ + " or set master.compatibility.mode = \"diagnose\" to allow it"@,
            ));
        },
        FsError::CleanupPending { address } => {
            assert(r@ =~= joined_one(
                "Worker "@,
                address@.text(),
                " cleanup is pending; retry heartbeat"@,
            ));
        },
        FsError::DeleteMountRoot { path } => {
            assert(r@ =~= joined_one(
                "cannot delete mount point root: "@,
                path@,
                Seq::<char>::empty(),
            ));
        },
        FsError::FileNotFound { path, inode_id } => {
            match inode_id {
                Some(id) => {
                    assert(r@ =~= joined_two(
                        "File not found: "@,
                        path@,
                        ", inode_id="@,
                        crate::text::signed_decimal(id as int),
                        Seq::<char>::empty(),
                    ));
                    assert(r@ =~= joined_one(
                        "File not found: "@,
                        path@,
                        ", inode_id="@ + crate::text::signed_decimal(id as int),
                    ));
                },
                None => {
                    assert(r@ =~= joined_one("File not found: "@, path@, Seq::<char>::empty()));
                },
            }
        },
        _ => {},
    }
}

/// The description of a peer that is not compatible tells its version, or its
/// protocol and the bounds for it.
pub proof fn descriptions_tell_versions(v: CompatibilityVerdict, r: String)
    requires
        call_ensures(CompatibilityVerdict::describe, (&v,), r),
    ensures
        v@ matches VerdictView::Blocked { version } ==> tells_one(r@, version),
        v@ matches VerdictView::VersionUnknown { peer } ==> tells_one(r@, peer),
        v@ matches VerdictView::VersionTooOld { peer, min } ==> tells_two(r@, peer, min),
        v@ matches VerdictView::ProtocolMismatch { peer, min, max } ==> tells_three(
            r@,
            crate::text::decimal(peer as nat),
            crate::text::decimal(min as nat),
            crate::text::decimal(max as nat),
        ),
{
    match v@ {
        VerdictView::Blocked { version } => {
            assert(r@ =~= joined_one("version "@, version, " is blocked"@));
        },
        VerdictView::VersionUnknown { peer } => {
            assert(r@ =~= joined_one("version "@, peer, " cannot be compared"@));
        },
        VerdictView::VersionTooOld { peer, min } => {
            assert(r@ =~= joined_two(
                "version "@,
                peer,
                " is older than "@,
                min,
                Seq::<char>::empty(),
            ));
        },
        VerdictView::ProtocolMismatch { peer, min, max } => {
            assert(r@ =~= joined_three(
                "protocol version "@,
                crate::text::decimal(peer as nat),
                " is outside "@,
                crate::text::decimal(min as nat),
                ".."@,
                crate::text::decimal(max as nat),
                Seq::<char>::empty(),
            ));
        },
        _ => {},
    }
}

/// The lines on a report tell the worker and what they count; the lines on
/// blocks that wait tell the block, the worker and the reason.
pub proof fn report_lines_tell_counts(
    worker_id: u32,
    id: i64,
    missing: u64,
    non_file: u64,
    obsolete: u64,
)
    ensures
        tells_two(
            crate::report_diagnostics::deferred_line(
                worker_id,
                id,
                crate::block_report::BlockOwner::Missing,
            ),
            crate::text::signed_decimal(id as int),
            crate::text::decimal(worker_id as nat),
        ),
        tells_two(
            crate::report_diagnostics::deferred_line(
                worker_id,
                id,
                crate::block_report::BlockOwner::NotFile,
            ),
            crate::text::signed_decimal(id as int),
            crate::text::decimal(worker_id as nat),
        ),
        tells_one(
            crate::report_diagnostics::deferred_line(
                worker_id,
                id,
                crate::block_report::BlockOwner::Missing,
            ),
            "missing"@,
        ),
        tells_one(
            crate::report_diagnostics::deferred_line(
                worker_id,
                id,
                crate::block_report::BlockOwner::NotFile,
            ),
            "not a file"@,
        ),
        tells_three(
            crate::report_diagnostics::orphans_line(worker_id, missing, non_file),
            crate::text::decimal(missing as nat),
            crate::text::decimal(non_file as nat),
            crate::text::decimal(worker_id as nat),
        ),
        tells_two(
            crate::report_diagnostics::obsolete_line(worker_id, obsolete),
            crate::text::decimal(obsolete as nat),
            crate::text::decimal(worker_id as nat),
        ),
{
    let head = "block_report deferred deletion for writing block "@;
    let block = crate::text::signed_decimal(id as int);
    let worker = crate::text::decimal(worker_id as nat);
    let a = crate::report_diagnostics::deferred_line(
        worker_id,
        id,
        crate::block_report::BlockOwner::Missing,
    );
    let b = crate::report_diagnostics::deferred_line(
        worker_id,
        id,
        crate::block_report::BlockOwner::NotFile,
    );
    reveal_strlit(" because its inode is missing");
    reveal_strlit(" because its inode is not a file");
    reveal_strlit(" because its inode is ");
    reveal_strlit("missing");
    reveal_strlit("not a file");
    let because = " because its inode is "@;
    assert(a =~= joined_two(head, block, " on worker "@, worker, " because its inode is missing"@));
    assert(b =~= joined_two(
        head,
        block,
        " on worker "@,
        worker,
        " because its inode is not a file"@,
    ));
    assert(" because its inode is missing"@ =~= because + "missing"@);
    assert(" because its inode is not a file"@ =~= because + "not a file"@);
    assert(a =~= joined_one(
        head + block + " on worker "@ + worker + because,
        "missing"@,
        Seq::<char>::empty(),
    ));
    assert(b =~= joined_one(
        head + block + " on worker "@ + worker + because,
        "not a file"@,
        Seq::<char>::empty(),
    ));
    assert(crate::report_diagnostics::orphans_line(worker_id, missing, non_file) =~= joined_three(
        "block_report found "@,
        crate::text::decimal(missing as nat),
        " missing-inode and "@,
        crate::text::decimal(non_file as nat),
        " non-file-inode blocks for worker "@,
        worker,
        "; scheduling worker deletion"@,
    ));
    assert(crate::report_diagnostics::obsolete_line(worker_id, obsolete) =~= joined_two(
        "block_report found "@,
        crate::text::decimal(obsolete as nat),
        " obsolete blocks in existing files for worker "@,
        worker,
        "; scheduling worker deletion"@,
    ));
}

/// A report ends with a line on orphans where there are any, and then one on
/// obsolete blocks where there are any; the lines on blocks that wait, and the
/// one on the error that stopped it, come before them.
pub proof fn report_lines_come_in_order(
    d: crate::report_diagnostics::BlockReportDiagnostics,
    error_line: Option<String>,
    r: Vec<String>,
)
    requires
        call_ensures(
            crate::report_diagnostics::BlockReportDiagnostics::warnings,
            (d, error_line),
            r,
        ),
    ensures
        ({
            let n = d.deferred@.len() as int;
            let stopped = if error_line is Some {
                1int
            } else {
                0
            };
            let orphans = if d.missing > 0 || d.non_file > 0 {
                1int
            } else {
                0
            };
            let obsolete = if d.obsolete > 0 {
                1int
            } else {
                0
            };
            &&& r@.len() == n + stopped + orphans + obsolete
            &&& forall|i: int| 0 <= i < n ==> (#[trigger] r@[i])@ == d.deferred@[i]@
            &&& error_line matches Some(l) ==> r@[n]@ == l@
            &&& orphans == 1 ==> r@[n + stopped]@ == crate::report_diagnostics::orphans_line(
                d.worker_id,
                d.missing,
                d.non_file,
            )
            &&& obsolete == 1 ==> r@[n + stopped + orphans]@
                == crate::report_diagnostics::obsolete_line(d.worker_id, d.obsolete)
        }),
{
    let t = crate::report_diagnostics::texts(r@);
    let n = d.deferred@.len() as int;
    assert(t.len() == r@.len());
    assert(crate::report_diagnostics::texts(d.deferred@).len() == n);
    assert forall|i: int| 0 <= i < n implies (#[trigger] r@[i])@ == d.deferred@[i]@ by {
        assert(t[i] == crate::report_diagnostics::texts(d.deferred@)[i]);
    }
    let stopped = if error_line is Some {
        1int
    } else {
        0
    };
    let orphans = if d.missing > 0 || d.non_file > 0 {
        1int
    } else {
        0
    };
    if error_line is Some {
        assert(t[n] == r@[n]@);
    }
    if orphans == 1 {
        assert(t[n + stopped] == r@[n + stopped]@);
    }
    if d.obsolete > 0 {
        assert(t[n + stopped + orphans] == r@[n + stopped + orphans]@);
    }
}

} // verus!
