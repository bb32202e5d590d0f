//! Where the replicas of a block are, how much space there is, and what the
//! workers amount to together.

use vstd::prelude::*;

use crate::manager_model::ManagerView;
use crate::master_filesystem::FilesystemView;
use crate::model::{
    AddressView, BlockLocation, BlockMeta, ExtendedBlock, FileAllocOpts, InodeFile, StorageType,
    StorageView, WorkerStatus, WorkerView,
};
use crate::namespace::{BlockFault, CreateFileOpts, OpenFlags};
use crate::worker_map::RegistrationView;

verus! {

/// Some recorded location is of a live worker with this address.
pub open spec fn is_live_at(
    m: Map<u32, WorkerView>,
    locs: Seq<BlockLocation>,
    a: AddressView,
) -> bool {
    exists|i: int|
        0 <= i < locs.len() && m.contains_key((#[trigger] locs[i]).worker_id)
            && m[locs[i].worker_id].address == a
}

/// A located block names every live worker that is on record for it: the
/// recorded locations whose workers are live, each by the address of its
/// worker, in the order of the record and as often as it has them.
pub proof fn live_replicas_are_all_named(m: Map<u32, WorkerView>, locs: Seq<BlockLocation>)
    ensures
        crate::placement::live_addresses(m, locs) == locs.filter(
            |l: BlockLocation| m.contains_key(l.worker_id),
        ).map_values(|l: BlockLocation| m[l.worker_id].address),
        forall|i: int|
            0 <= i < locs.len() && m.contains_key((#[trigger] locs[i]).worker_id)
                ==> crate::placement::live_addresses(m, locs).contains(
                m[locs[i].worker_id].address,
            ),
        forall|a: AddressView| #[trigger]
            crate::placement::live_addresses(m, locs).contains(a) ==> is_live_at(m, locs, a),
        crate::placement::live_addresses(m, locs).len() == locs.filter(
            |l: BlockLocation| m.contains_key(l.worker_id),
        ).len(),
    decreases locs.len(),
{
    reveal(Seq::filter);
    let live = |l: BlockLocation| m.contains_key(l.worker_id);
    let f = |l: BlockLocation| m[l.worker_id].address;
    let r = crate::placement::live_addresses(m, locs);
    if locs.len() > 0 {
        let rest = locs.drop_last();
        live_replicas_are_all_named(m, rest);
        let before = crate::placement::live_addresses(m, rest);
        if live(locs.last()) {
            assert(locs.filter(live) == rest.filter(live).push(locs.last()));
            assert(rest.filter(live).push(locs.last()).map_values(f) =~= rest.filter(
                live,
            ).map_values(f).push(f(locs.last())));
            assert(r[r.len() - 1] == f(locs.last()));
        }
        assert forall|i: int|
            0 <= i < locs.len() && m.contains_key((#[trigger] locs[i]).worker_id) implies r.contains(
            m[locs[i].worker_id].address,
        ) by {
            if i < locs.len() - 1 {
                assert(rest[i] == locs[i]);
                let k = choose|k: int|
                    0 <= k < before.len() && before[k] == m[rest[i].worker_id].address;
                assert(r[k] == before[k]);
            }
        }
        assert forall|a: AddressView| #[trigger] r.contains(a) implies is_live_at(m, locs, a) by {
            let k = choose|k: int| 0 <= k < r.len() && r[k] == a;
            if k < before.len() {
                assert(before[k] == a);
                assert(before.contains(a));
                let i = choose|i: int|
                    0 <= i < rest.len() && m.contains_key((#[trigger] rest[i]).worker_id)
                        && m[rest[i].worker_id].address == a;
                assert(locs[i] == rest[i]);
            } else {
                assert(locs[locs.len() - 1] == locs.last());
            }
        }
    } else {
        assert(r =~= locs.filter(live).map_values(f));
        assert(r.len() == 0);
    }
}

/// The live locations of two records put together are those of the first
/// followed by those of the second.
pub proof fn live_replicas_add_up(
    m: Map<u32, WorkerView>,
    a: Seq<BlockLocation>,
    b: Seq<BlockLocation>,
)
    ensures
        crate::placement::live_addresses(m, a + b) == crate::placement::live_addresses(m, a)
            + crate::placement::live_addresses(m, b),
    decreases b.len(),
{
    if b.len() == 0 {
        assert(a + b =~= a);
        assert(crate::placement::live_addresses(m, a) + Seq::<AddressView>::empty()
            =~= crate::placement::live_addresses(m, a));
    } else {
        live_replicas_add_up(m, a, b.drop_last());
        assert((a + b).drop_last() =~= a + b.drop_last());
        assert((a + b).last() == b.last());
        assert(crate::placement::live_addresses(m, a + b) =~= crate::placement::live_addresses(m, a)
            + crate::placement::live_addresses(m, b));
    }
}

/// A located block is the block that was asked for, at its live locations; it
/// is on a raw device exactly where one of those locations is.
pub proof fn located_block_is_the_block(
    m: Map<u32, WorkerView>,
    block: ExtendedBlock,
    locs: Seq<BlockLocation>,
)
    ensures
        ({
            let r = crate::placement::located(m, block, locs);
            let live = locs.filter(|l: BlockLocation| m.contains_key(l.worker_id));
            &&& r.block == block
            &&& r.locs == live.map_values(|l: BlockLocation| m[l.worker_id].address)
            &&& r.has_spdk <==> exists|i: int|
                0 <= i < locs.len() && m.contains_key((#[trigger] locs[i]).worker_id)
                    && locs[i].storage_type == StorageType::SpdkDisk
        }),
{
    live_replicas_are_all_named(m, locs);
}

/// A worker can keep blocks on a raw device if one of its healthy storages is
/// one.
pub proof fn raw_devices_are_found(m: Map<u32, WorkerView>, worker_id: u32)
    ensures
        crate::placement::has_spdk_storage(m, worker_id) <==> m.contains_key(worker_id)
            && m[worker_id].storages.map_values(|s: StorageView| s.storage_type).contains(
            StorageType::SpdkDisk,
        ),
{
    let kinds = m[worker_id].storages.map_values(|s: StorageView| s.storage_type);
    if m.contains_key(worker_id) && kinds.contains(StorageType::SpdkDisk) {
        let k = choose|k: int| 0 <= k < kinds.len() && kinds[k] == StorageType::SpdkDisk;
        assert(m[worker_id].storages[k].storage_type == StorageType::SpdkDisk);
    }
    if crate::placement::has_spdk_storage(m, worker_id) {
        let k = choose|k: int|
            0 <= k < m[worker_id].storages.len() && (
            #[trigger] m[worker_id].storages[k]).storage_type == StorageType::SpdkDisk;
        assert(kinds[k] == StorageType::SpdkDisk);
    }
}

/// How many of the ids are below `x`, where they ascend.
proof fn place_among(q: Seq<u32>, x: u32) -> (k: int)
    requires
        crate::ids::ascending_workers(q),
        !q.contains(x),
    ensures
        0 <= k <= q.len(),
        forall|i: int| 0 <= i < k ==> #[trigger] q[i] < x,
        forall|i: int| k <= i < q.len() ==> #[trigger] q[i] > x,
    decreases q.len(),
{
    if q.len() == 0 {
        0
    } else {
        let rest = q.drop_last();
        assert(q.contains(q.last()));
        assert forall|i: int, j: int| 0 <= i < j < rest.len() implies rest[i] < rest[j] by {
            assert(q[i] < q[j]);
        }
        if rest.contains(x) {
            let i = choose|i: int| 0 <= i < rest.len() && rest[i] == x;
            assert(q[i] == x);
        }
        let k = place_among(rest, x);
        if q.last() < x {
            assert forall|i: int| 0 <= i < q.len() implies #[trigger] q[i] < x by {
                if i < q.len() - 1 {
                    assert(q[i] < q[q.len() - 1]);
                }
            }
            q.len() as int
        } else {
            assert forall|i: int| 0 <= i < k implies #[trigger] q[i] < x by {
                assert(rest[i] < x);
            }
            assert forall|i: int| k <= i < q.len() implies #[trigger] q[i] > x by {
                if i < q.len() - 1 {
                    assert(rest[i] > x);
                }
            }
            k
        }
    }
}

/// With one more id, the ascending listing is the old one with the new id put
/// in somewhere.
proof fn order_with_one_more(s: Set<u32>, x: u32) -> (k: int)
    requires
        !s.contains(x),
    ensures
        0 <= k <= crate::ids::workers_in_order(s).len(),
        crate::ids::workers_in_order(s.insert(x)) == crate::ids::workers_in_order(s).take(k).push(x)
            + crate::ids::workers_in_order(s).skip(k),
{
    crate::ids::workers_in_order_lists(s);
    crate::ids::workers_in_order_lists(s.insert(x));
    let q = crate::ids::workers_in_order(s);
    if q.contains(x) {
        assert(q.to_set().contains(x));
    }
    let k = place_among(q, x);
    let r = q.take(k).push(x) + q.skip(k);
    assert forall|i: int, j: int| 0 <= i < j < r.len() implies r[i] < r[j] by {
        if j < k {
            assert(r[i] == q[i] && r[j] == q[j]);
        } else if i > k {
            assert(r[i] == q[i - 1] && r[j] == q[j - 1]);
        } else if i == k {
            assert(r[j] == q[j - 1]);
        } else if j == k {
            assert(r[i] == q[i]);
        } else {
            assert(r[i] == q[i] && r[j] == q[j - 1]);
        }
    }
    assert forall|y: u32| r.contains(y) == (y == x || q.contains(y)) by {
        if r.contains(y) && y != x {
            let i = choose|i: int| 0 <= i < r.len() && r[i] == y;
            assert(q[if i < k {
                i
            } else {
                i - 1
            }] == y);
        }
        if q.contains(y) {
            let i = choose|i: int| 0 <= i < q.len() && q[i] == y;
            assert(r[if i < k {
                i
            } else {
                i + 1
            }] == y);
        }
        assert(r[k] == x);
    }
    assert(r.to_set() =~= s.insert(x)) by {
        assert forall|y: u32| r.to_set().contains(y) == s.insert(x).contains(y) by {
            assert(q.to_set().contains(y) == s.contains(y));
        }
    }
    crate::ids::ascending_workers_is_unique(r, crate::ids::workers_in_order(s.insert(x)));
    k
}

proof fn available_adds_up(m: Map<u32, WorkerView>, a: Seq<u32>, b: Seq<u32>)
    ensures
        crate::worker_manager::available_over(m, a + b) == crate::worker_manager::available_over(
            m,
            a,
        ) + crate::worker_manager::available_over(m, b),
    decreases b.len(),
{
    if b.len() == 0 {
        assert(a + b =~= a);
    } else {
        available_adds_up(m, a, b.drop_last());
        assert((a + b).drop_last() =~= a + b.drop_last());
        assert((a + b).last() == b.last());
    }
}

proof fn available_reads_its_ids(m: Map<u32, WorkerView>, n: Map<u32, WorkerView>, ids: Seq<u32>)
    requires
        forall|i: int| 0 <= i < ids.len() ==> m[#[trigger] ids[i]] == n[ids[i]],
    ensures
        crate::worker_manager::available_over(m, ids) == crate::worker_manager::available_over(
            n,
            ids,
        ),
    decreases ids.len(),
{
    if ids.len() > 0 {
        let rest = ids.drop_last();
        assert forall|i: int| 0 <= i < rest.len() implies m[#[trigger] rest[i]] == n[rest[i]] by {
            assert(rest[i] == ids[i]);
        }
        available_reads_its_ids(m, n, rest);
        assert(m[ids[ids.len() - 1]] == n[ids[ids.len() - 1]]);
    }
}

/// No workers have no space. A worker that joins adds the space that it has
/// available, or nothing where it is overdrawn, whoever else is there; so the
/// space of many is the sum of theirs.
pub proof fn available_space_is_additive(m: Map<u32, WorkerView>, id: u32, w: WorkerView)
    ensures
        crate::worker_manager::available_sum(Map::empty()) == 0,
        !m.contains_key(id) ==> crate::worker_manager::available_sum(m.insert(id, w))
            == crate::worker_manager::available_sum(m) + if w.available > 0 {
            w.available as int
        } else {
            0
        },
{
    let none = Map::<u32, WorkerView>::empty();
    crate::ids::workers_in_order_lists(none.dom());
    let q = crate::ids::workers_in_order(none.dom());
    if q.len() > 0 {
        assert(q.to_set().contains(q[0]));
    }
    if !m.contains_key(id) {
        let n = m.insert(id, w);
        let k = order_with_one_more(m.dom(), id);
        let q = crate::ids::workers_in_order(m.dom());
        crate::ids::workers_in_order_lists(m.dom());
        assert(n.dom() =~= m.dom().insert(id));
        assert(q =~= q.take(k) + q.skip(k));
        available_adds_up(n, q.take(k).push(id), q.skip(k));
        available_adds_up(m, q.take(k), q.skip(k));
        assert(q.take(k).push(id).drop_last() =~= q.take(k));
        assert forall|i: int| 0 <= i < q.len() implies m[#[trigger] q[i]] == n[q[i]] by {
            assert(q.to_set().contains(q[i]));
        }
        assert forall|i: int| 0 <= i < q.take(k).len() implies m[#[trigger] q.take(k)[i]] == n[q.take(
            k,
        )[i]] by {
            assert(q.take(k)[i] == q[i]);
        }
        assert forall|i: int| 0 <= i < q.skip(k).len() implies m[#[trigger] q.skip(k)[i]] == n[q.skip(
            k,
        )[i]] by {
            assert(q.skip(k)[i] == q[i + k]);
        }
        available_reads_its_ids(m, n, q.take(k));
        available_reads_its_ids(m, n, q.skip(k));
    }
}

/// Space is reported exactly as long as it fits, else as the largest amount.
pub proof fn space_is_reported_as_it_is(n: int)
    requires
        n >= i64::MIN,
    ensures
        n <= i64::MAX ==> crate::worker_manager::capped(n) == n,
        n > i64::MAX ==> crate::worker_manager::capped(n) == i64::MAX,
{
}

/// A file that grows needs its growth for each of its replicas; one that
/// shrinks, stays or is cut needs none.
pub proof fn growth_needs_space(current_len: i64, replicas: u8, opts: FileAllocOpts)
    requires
        current_len >= 0,
    ensures
        crate::namespace::needs_space(current_len, opts) <==> opts.len > current_len
            && !opts.truncate,
        opts.len > current_len && (opts.len - current_len) * replicas <= i64::MAX
            ==> crate::namespace::space_needed(current_len, replicas, opts) == (opts.len
            - current_len) * replicas,
        opts.len > current_len && (opts.len - current_len) * replicas > i64::MAX
            ==> crate::namespace::space_needed(current_len, replicas, opts) == i64::MAX,
{
    if opts.len > current_len {
        assert((opts.len - current_len) * replicas >= 0) by (nonlinear_arith)
            requires
                opts.len > current_len,
        ;
    }
}

/// What is on record for a block is what the first entry on it says.
pub proof fn first_record_counts(
    locs: Seq<(i64, Vec<BlockLocation>)>,
    id: i64,
)
    ensures
        crate::namespace::recorded(locs, id) is None <==> forall|i: int|
            0 <= i < locs.len() ==> (#[trigger] locs[i]).0 != id,
        forall|i: int|
            0 <= i < locs.len() && (#[trigger] locs[i]).0 == id && (forall|j: int|
                0 <= j < i ==> (#[trigger] locs[j]).0 != id) ==> crate::namespace::recorded(locs, id)
                == Some(locs[i].1@),
    decreases locs.len(),
{
    if locs.len() > 0 {
        let rest = locs.drop_first();
        first_record_counts(rest, id);
        assert forall|i: int|
            0 <= i < locs.len() && (#[trigger] locs[i]).0 == id && (forall|j: int|
                0 <= j < i ==> (#[trigger] locs[j]).0 != id) implies crate::namespace::recorded(
            locs,
            id,
        ) == Some(locs[i].1@) by {
            if i > 0 {
                assert(locs[0].0 != id);
                assert(rest[i - 1] == locs[i]);
                assert forall|j: int| 0 <= j < i - 1 implies (#[trigger] rest[j]).0 != id by {
                    assert(locs[j + 1].0 != id);
                }
            }
        }
        if forall|i: int| 0 <= i < locs.len() ==> (#[trigger] locs[i]).0 != id {
            assert(locs[0].0 != id);
            assert forall|j: int| 0 <= j < rest.len() implies (#[trigger] rest[j]).0 != id by {
                assert(locs[j + 1].0 != id);
            }
        }
        if crate::namespace::recorded(locs, id) is None {
            assert forall|i: int| 0 <= i < locs.len() implies (#[trigger] locs[i]).0 != id by {
                if i > 0 {
                    assert(rest[i - 1].0 != id);
                }
            }
        }
    }
}

/// A block of a file cannot be read where it is not full though others follow,
/// where nothing is on record for it, or where workers are on record and none
/// of them is live; the first of these that applies is what is wrong with it.
pub proof fn faults_are_told_apart(
    m: ManagerView,
    file: InodeFile,
    locs: Seq<(i64, Vec<BlockLocation>)>,
    i: int,
)
    requires
        0 <= i < file.blocks@.len(),
    ensures
        ({
            let meta = file.blocks@[i];
            let fault = crate::namespace::block_fault(m, file, locs, i);
            let short = i < file.blocks@.len() - 1 && meta.len != file.block_size;
            let known = crate::namespace::recorded(locs, meta.id);
            let all_lost = known is Some && known->0.len() > 0 && forall|k: int|
                0 <= k < known->0.len() ==> !m.workers.contains_key(
                    (#[trigger] (known->0)[k]).worker_id,
                );
            &&& fault == Some(BlockFault::Abnormal) <==> short
            &&& fault == Some(BlockFault::Lost) <==> !short && known is None
            &&& fault == Some(BlockFault::AllReplicasLost) <==> !short && all_lost
            &&& fault is None <==> !short && known is Some && !all_lost
        }),
{
    let known = crate::namespace::recorded(locs, file.blocks@[i].id);
    if known is Some {
        let l = known->0;
        live_replicas_are_all_named(m.workers, l);
        let live = crate::placement::live_addresses(m.workers, l);
        if live.len() > 0 {
            assert(live.contains(live[0]));
        }
    }
}

/// Locating a file fails on the first of its blocks that cannot be read, and
/// the error tells of that block.
pub proof fn first_fault_decides(
    m: ManagerView,
    path: Seq<char>,
    file: InodeFile,
    locs: Seq<(i64, Vec<BlockLocation>)>,
    e: crate::error::FsError,
) -> (i: int)
    requires
        crate::namespace::is_locate_error(m, path, file, locs, e),
    ensures
        0 <= i < file.blocks@.len(),
        forall|j: int|
            0 <= j < i ==> #[trigger] crate::namespace::block_fault(m, file, locs, j) is None,
        ({
            let meta = file.blocks@[i];
            let fault = crate::namespace::block_fault(m, file, locs, i);
            &&& fault == Some(BlockFault::Abnormal) <==> e == (
            crate::error::FsError::BlockAbnormal {
                block_id: meta.id,
                block_len: meta.len,
                block_size: file.block_size,
            })
            &&& fault == Some(BlockFault::Lost) <==> e is BlockLost
            &&& fault == Some(BlockFault::AllReplicasLost) <==> e is AllReplicasLost
            &&& e matches crate::error::FsError::BlockLost { path: p, block_id } ==> p@ == path
                && block_id == meta.id
            &&& e matches crate::error::FsError::AllReplicasLost { path: p, block_id } ==> p@ == path
                && block_id == meta.id
        }),
{
    let i = choose|i: int|
        #![trigger file.blocks@[i]]
        0 <= i < file.blocks@.len() && (forall|j: int|
            0 <= j < i ==> #[trigger] crate::namespace::block_fault(m, file, locs, j) is None)
            && crate::namespace::block_fault(m, file, locs, i) is Some
            && crate::namespace::is_fault_error(
            crate::namespace::block_fault(m, file, locs, i)->0,
            path,
            file.blocks@[i],
            file.block_size,
            e,
        );
    i
}

/// A block on record of a file is described by its own length and options and
/// by the storage and the type of its file.
pub proof fn blocks_are_described(file: InodeFile, meta: BlockMeta)
    ensures
        file.extended(meta).id == meta.id,
        file.extended(meta).len == meta.len,
        file.extended(meta).alloc_opts == meta.alloc_opts,
        file.extended(meta).storage_type == file.storage_type,
        file.extended(meta).file_type == file.file_type,
{
}

/// The block behind a block is the one that follows its first occurrence; none
/// follows the last one, or a block that is not there. Without a block to
/// start from, the first is next.
pub proof fn next_block_follows(blocks: Seq<BlockMeta>, id: i64)
    ensures
        crate::model::next_block(blocks, None) == if blocks.len() > 0 {
            Some(blocks[0])
        } else {
            None
        },
        (forall|i: int| 0 <= i < blocks.len() ==> (#[trigger] blocks[i]).id != id)
            ==> crate::model::next_block(blocks, Some(id)) is None,
        forall|i: int|
            0 <= i < blocks.len() && (#[trigger] blocks[i]).id == id && (forall|j: int|
                0 <= j < i ==> (#[trigger] blocks[j]).id != id) ==> crate::model::next_block(
                blocks,
                Some(id),
            ) == if i + 1 < blocks.len() {
                Some(blocks[i + 1])
            } else {
                None
            },
    decreases blocks.len(),
{
    if blocks.len() > 0 {
        let rest = blocks.drop_first();
        next_block_follows(rest, id);
        assert forall|i: int|
            0 <= i < blocks.len() && (#[trigger] blocks[i]).id == id && (forall|j: int|
                0 <= j < i ==> (#[trigger] blocks[j]).id != id) implies crate::model::next_block(
            blocks,
            Some(id),
        ) == if i + 1 < blocks.len() {
            Some(blocks[i + 1])
        } else {
            None
        } by {
            if i > 0 {
                assert(blocks[0].id != id);
                assert(rest[i - 1] == blocks[i]);
                assert forall|j: int| 0 <= j < i - 1 implies (#[trigger] rest[j]).id != id by {
                    assert(blocks[j + 1].id != id);
                }
            }
        }
        if forall|i: int| 0 <= i < blocks.len() ==> (#[trigger] blocks[i]).id != id {
            assert(blocks[0].id != id);
            assert forall|j: int| 0 <= j < rest.len() implies (#[trigger] rest[j]).id != id by {
                assert(blocks[j + 1].id != id);
            }
        }
    }
}

/// Where a worker is lost, the locations that are left of a block are those on
/// other workers, in their order; where none is lost, all of them.
pub proof fn other_locations_are_left(
    locs: Seq<(i64, Vec<BlockLocation>)>,
    id: i64,
    all: Seq<BlockLocation>,
    worker_id: u32,
)
    ensures
        crate::namespace::elsewhere(all, worker_id) == all.filter(
            |l: BlockLocation| l.worker_id != worker_id,
        ),
        crate::namespace::recorded(locs, id) is None ==> crate::namespace::left_over(
            locs,
            id,
            Some(worker_id),
        ).len() == 0 && crate::namespace::left_over(locs, id, None).len() == 0,
        crate::namespace::recorded(locs, id) is Some ==> {
            let l = crate::namespace::recorded(locs, id)->0;
            &&& crate::namespace::left_over(locs, id, None) == l
            &&& crate::namespace::left_over(locs, id, Some(worker_id)) == l.filter(
                |x: BlockLocation| x.worker_id != worker_id,
            )
        },
{
    filtered_elsewhere(all, worker_id);
    if crate::namespace::recorded(locs, id) is Some {
        filtered_elsewhere(crate::namespace::recorded(locs, id)->0, worker_id);
    }
}

proof fn filtered_elsewhere(all: Seq<BlockLocation>, worker_id: u32)
    ensures
        crate::namespace::elsewhere(all, worker_id) == all.filter(
            |l: BlockLocation| l.worker_id != worker_id,
        ),
    decreases all.len(),
{
    reveal(Seq::filter);
    if all.len() > 0 {
        filtered_elsewhere(all.drop_last(), worker_id);
    }
}

/// The character is found as often as it stands in the text: texts put
/// together have it as often as both.
pub proof fn occurrences_add_up(a: Seq<char>, b: Seq<char>, c: char)
    ensures
        crate::text::occurrences(Seq::empty(), c) == 0,
        crate::text::occurrences(seq![c], c) == 1,
        forall|d: char|
            d != c ==> #[trigger] crate::text::occurrences(Seq::empty().push(d), c) == 0,
        crate::text::occurrences(a + b, c) == crate::text::occurrences(a, c)
            + crate::text::occurrences(b, c),
    decreases b.len(),
{
    assert(seq![c].drop_last() =~= Seq::empty());
    assert(crate::text::occurrences(Seq::empty(), c) == 0);
    assert forall|d: char| d != c implies #[trigger] crate::text::occurrences(
        Seq::empty().push(d),
        c,
    ) == 0 by {
        assert(Seq::<char>::empty().push(d).drop_last() =~= Seq::empty());
        assert(Seq::<char>::empty().push(d).last() == d);
    }
    if b.len() == 0 {
        assert(a + b =~= a);
    } else {
        occurrences_add_up(a, b.drop_last(), c);
        assert((a + b).drop_last() =~= a + b.drop_last());
        assert((a + b).last() == b.last());
    }
}

/// A path is refused for its length in bytes first, then for its depth: one
/// more than the separators in it.
pub proof fn paths_are_bounded(s: FilesystemView, path: Seq<char>)
    ensures
        ({
            let long = vstd::utf8::encode_utf8(path).len() > s.conf.max_path_len;
            let deep = path.filter(|c: char| c == '/').len() >= s.conf.max_path_depth;
            &&& s.path_check(path) is Ok <==> !long && !deep
            &&& long ==> s.path_check(path) == Err::<(), crate::error::FsError>(
                crate::error::FsError::PathTooLong { limit: s.conf.max_path_len },
            )
            &&& !long && deep ==> s.path_check(path) == Err::<(), crate::error::FsError>(
                crate::error::FsError::PathTooDeep { limit: s.conf.max_path_depth },
            )
        }),
{
    separators_counted(path);
}

proof fn separators_counted(path: Seq<char>)
    ensures
        crate::text::occurrences(path, '/') == path.filter(|c: char| c == '/').len(),
    decreases path.len(),
{
    reveal(Seq::filter);
    if path.len() > 0 {
        separators_counted(path.drop_last());
    }
}

/// A request to create a file is in order exactly where it asks for creation,
/// its path is in order and its replicas and block size are within bounds, the
/// upper bounds excluded.
pub proof fn creation_is_bounded(
    s: FilesystemView,
    path: Seq<char>,
    opts: CreateFileOpts,
    flags: OpenFlags,
)
    ensures
        s.create_request_error(path, opts, flags) is None <==> {
            &&& flags.create
            &&& s.path_check(path) is Ok
            &&& s.conf.min_replication <= opts.replicas
            &&& opts.replicas < s.conf.max_replication
            &&& s.conf.min_block_size <= opts.block_size
            &&& opts.block_size < s.conf.max_block_size
        },
{
}

/// Deleting files queues their replicas, each on the worker that has it, and
/// changes nothing else.
pub proof fn deletions_are_queued(
    s: FilesystemView,
    replicas: Set<(u32, i64)>,
    w: u32,
    id: i64,
)
    ensures
        ({
            let t = s.with_deletes(replicas);
            &&& t == (FilesystemView { manager: t.manager, ..s })
            &&& t.manager == (ManagerView { deletes: t.manager.deletes, ..s.manager })
            &&& t.manager.deletes.contains((w, id)) <==> s.manager.deletes.contains((w, id))
                || replicas.contains((w, id))
        }),
{
}

/// What a deletion lists for a block, it lists for each worker that has it.
pub proof fn listed_replicas_are_queued(
    d: crate::block_map::DeleteResult,
    i: int,
    j: int,
    p: (u32, i64),
)
    ensures
        0 <= i < d.blocks@.len() && 0 <= j < d.blocks@[i].1@.len() ==> d.replicas().contains(
            (d.blocks@[i].1@[j].worker_id, d.blocks@[i].0),
        ),
        d.replicas().contains(p) ==> exists|i: int, j: int|
            0 <= i < d.blocks@.len() && 0 <= j < d.blocks@[i].1@.len() && d.blocks@[i].0 == p.1
                && (#[trigger] d.blocks@[i].1@[j]).worker_id == p.0,
{
    if 0 <= i < d.blocks@.len() && 0 <= j < d.blocks@[i].1@.len() {
        assert(d.blocks@[i].1@[j].worker_id == d.blocks@[i].1@[j].worker_id);
    }
}

/// The worker record grows by what one more storage has, clamped to the range
/// of the numbers; a failed storage is left out. The healthy storages are kept
/// in their order.
pub proof fn storages_add_up(w: WorkerView, s: Seq<StorageView>, x: StorageView)
    ensures
        w.with_storages(Seq::empty()) == w,
        x.failed ==> w.with_storages(s.push(x)) == w.with_storages(s),
        !x.failed ==> {
            let a = w.with_storages(s);
            let b = w.with_storages(s.push(x));
            &&& is_clamped(b.capacity, a.capacity + x.capacity)
            &&& is_clamped(b.available, a.available + x.available)
            &&& is_clamped(b.fs_used, a.fs_used + x.fs_used)
            &&& is_clamped(b.non_fs_used, a.non_fs_used + x.non_fs_used)
            &&& is_clamped(b.reserved_bytes, a.reserved_bytes + x.reserved_bytes)
            &&& is_clamped(b.block_num, a.block_num + x.block_num)
            &&& b.storages == a.storages.push(x)
        },
        w.with_storages(s).storages == w.storages + s.filter(|x: StorageView| !x.failed),
        w.with_storages(s).status == w.status,
        w.with_storages(s).last_update == w.last_update,
        w.with_storages(s).address == w.address,
{
    assert(s.push(x).drop_last() =~= s);
    healthy_storages_are_kept(w, s);
    crate::worker_map::storages_keep_identity(w, s);
}

/// The number is the exact one where that fits, and else the nearest that does.
pub open spec fn is_clamped(got: i64, exact: int) -> bool {
    &&& i64::MIN <= exact <= i64::MAX ==> got == exact
    &&& exact > i64::MAX ==> got == i64::MAX
    &&& exact < i64::MIN ==> got == i64::MIN
}

proof fn healthy_storages_are_kept(w: WorkerView, s: Seq<StorageView>)
    ensures
        w.with_storages(s).storages == w.storages + s.filter(|x: StorageView| !x.failed),
    decreases s.len(),
{
    reveal(Seq::filter);
    let p = |x: StorageView| !x.failed;
    if s.len() > 0 {
        healthy_storages_are_kept(w, s.drop_last());
        assert((w.storages + s.drop_last().filter(p)).push(s.last()) =~= w.storages
            + s.drop_last().filter(p).push(s.last()));
    } else {
        assert(w.storages + s.filter(p) =~= w.storages);
    }
}

/// A worker starts out with what its registration says of its storages and
/// nothing besides.
pub proof fn registration_brings_its_storages(
    reg: RegistrationView,
    now_ms: u64,
    status: WorkerStatus,
)
    ensures
        ({
            let w = reg.worker(now_ms, status);
            let healthy = reg.storages.filter(|x: StorageView| !x.failed);
            &&& w.storages == healthy
            &&& healthy.len() == 0 ==> w.capacity == 0 && w.available == 0 && w.fs_used == 0
                && w.non_fs_used == 0 && w.reserved_bytes == 0 && w.block_num == 0
            &&& reg.storages.len() == 1 && healthy.len() == 1 ==> {
                let x = reg.storages[0];
                &&& w.capacity == x.capacity && w.available == x.available && w.fs_used
                    == x.fs_used
                &&& w.non_fs_used == x.non_fs_used && w.reserved_bytes == x.reserved_bytes
                    && w.block_num == x.block_num
            }
        }),
{
    let bare = WorkerView {
        worker_session_id: reg.worker_session_id,
        startup_time_ms: reg.startup_time_ms,
        software_version: reg.software_version,
        transfer_capabilities: reg.transfer_capabilities,
        component_info: reg.component_info,
        status,
        ..WorkerView::fresh(reg.address, reg.weight, now_ms)
    };
    let healthy = reg.storages.filter(|x: StorageView| !x.failed);
    healthy_storages_are_kept(bare, reg.storages);
    assert(bare.storages + healthy =~= healthy);
    if healthy.len() == 0 {
        failed_storages_add_nothing(bare, reg.storages);
    }
    if reg.storages.len() == 1 && healthy.len() == 1 {
        assert(reg.storages.drop_last() =~= Seq::empty());
        failed_storages_add_nothing(bare, reg.storages.drop_last());
        if reg.storages[0].failed {
            reveal(Seq::filter);
            assert(healthy =~= Seq::empty());
        }
    }
}

proof fn failed_storages_add_nothing(w: WorkerView, s: Seq<StorageView>)
    requires
        s.filter(|x: StorageView| !x.failed).len() == 0,
    ensures
        w.with_storages(s) == w,
    decreases s.len(),
{
    reveal(Seq::filter);
    if s.len() > 0 {
        failed_storages_add_nothing(w, s.drop_last());
    }
}

/// The totals without workers are zero, and a worker that joins adds what it
/// has to each of them; to what can be allocated it adds only while it is
/// live.
pub proof fn totals_are_additive(m: Map<u32, WorkerView>, id: u32, w: WorkerView)
    requires
        !m.contains_key(id),
    ensures
        ({
            let none = totals(Map::empty());
            let a = totals(m);
            let b = totals(m.insert(id, w));
            let live = w.status == WorkerStatus::Live;
            &&& none.capacity == 0 && none.available == 0 && none.fs_used == 0
            &&& none.non_fs_used == 0 && none.reserved_bytes == 0 && none.block_num == 0
            &&& none.allocatable_capacity == 0 && none.allocatable_available == 0
            &&& b.capacity == a.capacity + w.capacity
            &&& b.available == a.available + w.available
            &&& b.fs_used == a.fs_used + w.fs_used
            &&& b.non_fs_used == a.non_fs_used + w.non_fs_used
            &&& b.reserved_bytes == a.reserved_bytes + w.reserved_bytes
            &&& b.block_num == a.block_num + w.block_num
            &&& live ==> b.allocatable_capacity == a.allocatable_capacity + w.capacity
                && b.allocatable_available == a.allocatable_available + w.available
            &&& !live ==> b.allocatable_capacity == a.allocatable_capacity
                && b.allocatable_available == a.allocatable_available
        }),
{
    let none = Map::<u32, WorkerView>::empty();
    crate::ids::workers_in_order_lists(none.dom());
    let q0 = crate::ids::workers_in_order(none.dom());
    if q0.len() > 0 {
        assert(q0.to_set().contains(q0[0]));
    }
    let n = m.insert(id, w);
    let k = order_with_one_more(m.dom(), id);
    let q = crate::ids::workers_in_order(m.dom());
    crate::ids::workers_in_order_lists(m.dom());
    assert(n.dom() =~= m.dom().insert(id));
    assert(q =~= q.take(k) + q.skip(k));
    totals_add_up(n, q.take(k).push(id), q.skip(k));
    totals_add_up(m, q.take(k), q.skip(k));
    assert(q.take(k).push(id).drop_last() =~= q.take(k));
    assert forall|i: int| 0 <= i < q.len() implies m[#[trigger] q[i]] == n[q[i]] by {
        assert(q.to_set().contains(q[i]));
    }
    assert forall|i: int| 0 <= i < q.take(k).len() implies m[#[trigger] q.take(k)[i]] == n[q.take(
        k,
    )[i]] by {
        assert(q.take(k)[i] == q[i]);
    }
    assert forall|i: int| 0 <= i < q.skip(k).len() implies m[#[trigger] q.skip(k)[i]] == n[q.skip(
        k,
    )[i]] by {
        assert(q.skip(k)[i] == q[i + k]);
    }
    totals_read_their_ids(m, n, q.take(k));
    totals_read_their_ids(m, n, q.skip(k));
}

/// The totals can be told where none of them leaves the range of the numbers,
/// whichever of the first workers are counted.
pub proof fn totals_have_to_fit(m: Map<u32, WorkerView>, n: int)
    requires
        crate::filesystem_info::totals_fit(m),
        0 <= n <= crate::ids::workers_in_order(m.dom()).len(),
    ensures
        ({
            let t = crate::filesystem_info::totals_over(
                m,
                crate::ids::workers_in_order(m.dom()).take(n),
            );
            &&& i64::MIN <= t.capacity <= i64::MAX && i64::MIN <= t.available <= i64::MAX
            &&& i64::MIN <= t.fs_used <= i64::MAX && i64::MIN <= t.non_fs_used <= i64::MAX
            &&& i64::MIN <= t.reserved_bytes <= i64::MAX && i64::MIN <= t.block_num <= i64::MAX
            &&& i64::MIN <= t.allocatable_capacity <= i64::MAX
            &&& i64::MIN <= t.allocatable_available <= i64::MAX
        }),
{
}

/// The totals of all workers.
pub open spec fn totals(m: Map<u32, WorkerView>) -> crate::filesystem_info::TotalsView {
    crate::filesystem_info::totals_over(m, crate::ids::workers_in_order(m.dom()))
}

proof fn totals_add_up(m: Map<u32, WorkerView>, a: Seq<u32>, b: Seq<u32>)
    ensures
        ({
            let x = crate::filesystem_info::totals_over(m, a);
            let y = crate::filesystem_info::totals_over(m, b);
            let z = crate::filesystem_info::totals_over(m, a + b);
            &&& z.capacity == x.capacity + y.capacity
            &&& z.available == x.available + y.available
            &&& z.fs_used == x.fs_used + y.fs_used
            &&& z.non_fs_used == x.non_fs_used + y.non_fs_used
            &&& z.reserved_bytes == x.reserved_bytes + y.reserved_bytes
            &&& z.block_num == x.block_num + y.block_num
            &&& z.allocatable_capacity == x.allocatable_capacity + y.allocatable_capacity
            &&& z.allocatable_available == x.allocatable_available + y.allocatable_available
        }),
    decreases b.len(),
{
    if b.len() == 0 {
        assert(a + b =~= a);
    } else {
        totals_add_up(m, a, b.drop_last());
        assert((a + b).drop_last() =~= a + b.drop_last());
        assert((a + b).last() == b.last());
    }
}

proof fn totals_read_their_ids(m: Map<u32, WorkerView>, n: Map<u32, WorkerView>, ids: Seq<u32>)
    requires
        forall|i: int| 0 <= i < ids.len() ==> m[#[trigger] ids[i]] == n[ids[i]],
    ensures
        crate::filesystem_info::totals_over(m, ids) == crate::filesystem_info::totals_over(n, ids),
    decreases ids.len(),
{
    if ids.len() > 0 {
        let rest = ids.drop_last();
        assert forall|i: int| 0 <= i < rest.len() implies m[#[trigger] rest[i]] == n[rest[i]] by {
            assert(rest[i] == ids[i]);
        }
        totals_read_their_ids(m, n, rest);
        assert(m[ids[ids.len() - 1]] == n[ids[ids.len() - 1]]);
    }
}

/// Every worker is listed under its own status, once and in the order of the
/// ids.
pub proof fn workers_are_listed_by_status(
    m: Map<u32, WorkerView>,
    ids: Seq<u32>,
    status: WorkerStatus,
)
    ensures
        crate::filesystem_info::with_status(m, ids, status) == ids.filter(
            |k: u32| m[k].status == status,
        ).map_values(|k: u32| m[k]),
    decreases ids.len(),
{
    reveal(Seq::filter);
    let p = |k: u32| m[k].status == status;
    let f = |k: u32| m[k];
    if ids.len() > 0 {
        let rest = ids.drop_last();
        workers_are_listed_by_status(m, rest, status);
        if p(ids.last()) {
            assert(rest.filter(p).push(ids.last()).map_values(f) =~= rest.filter(p).map_values(
                f,
            ).push(f(ids.last())));
        }
    } else {
        assert(ids.filter(p).map_values(f) =~= Seq::empty());
    }
}

/// The workers on the named hosts are listed by name, in the order of the ids;
/// and so are those that are decommissioned, or all.
pub proof fn workers_are_listed_by_name(
    m: Map<u32, WorkerView>,
    ids: Seq<u32>,
    hosts: Seq<Seq<char>>,
    only_dcm: bool,
)
    ensures
        crate::decommission::names_on(m, ids, hosts) == ids.filter(
            |k: u32|
                exists|i: int|
                    0 <= i < hosts.len() && #[trigger] hosts[i] == m[k].address.hostname,
        ).map_values(|k: u32| m[k].address.simple_text()),
        crate::decommission::names_if(m, ids, only_dcm) == ids.filter(
            |k: u32| only_dcm ==> m[k].status == WorkerStatus::Decommission,
        ).map_values(|k: u32| m[k].address.simple_text()),
    decreases ids.len(),
{
    reveal(Seq::filter);
    let p = |k: u32|
        exists|i: int| 0 <= i < hosts.len() && #[trigger] hosts[i] == m[k].address.hostname;
    let q = |k: u32| only_dcm ==> m[k].status == WorkerStatus::Decommission;
    let f = |k: u32| m[k].address.simple_text();
    if ids.len() > 0 {
        let rest = ids.drop_last();
        workers_are_listed_by_name(m, rest, hosts, only_dcm);
        assert(rest.filter(p).push(ids.last()).map_values(f) =~= rest.filter(p).map_values(f).push(
            f(ids.last()),
        ));
        assert(rest.filter(q).push(ids.last()).map_values(f) =~= rest.filter(q).map_values(f).push(
            f(ids.last()),
        ));
        assert(p(ids.last()) == hosts.contains(m[ids.last()].address.hostname));
        assert(ids.filter(p) == if p(ids.last()) {
            rest.filter(p).push(ids.last())
        } else {
            rest.filter(p)
        });
        assert(ids.filter(q) == if q(ids.last()) {
            rest.filter(q).push(ids.last())
        } else {
            rest.filter(q)
        });
    } else {
        assert(ids.filter(p).map_values(f) =~= Seq::empty());
        assert(ids.filter(q).map_values(f) =~= Seq::empty());
    }
}

} // verus!
