//! Where blocks go, and where they are.

use vstd::prelude::*;

use crate::error::FsError;
use crate::model::{
    AddressView, BlockLocation, ExtendedBlock, LocatedBlock, StorageType, WorkerAddress, WorkerView,
};
use crate::worker_manager::WorkerManager;

verus! {

impl WorkerManager {
    /// What becomes of the workers that the placement policy named for a
    /// block: at least one, and no more than the wanted replicas.
    pub fn choose_worker(replicas: u16, chosen: Result<Vec<WorkerAddress>, FsError>) -> (r: Result<
        Vec<WorkerAddress>,
        FsError,
    >)
        ensures
            r == (match chosen {
                Err(e) => Err(e),
                Ok(w) => if w@.len() == 0 {
                    Err(FsError::NoAvailableWorker)
                } else if w@.len() > replicas {
                    Err(FsError::TooManyForReplicas)
                } else {
                    Ok(w)
                },
            }),
    {
        let workers = match chosen {
            Ok(workers) => workers,
            Err(e) => return Err(e),
        };
        if workers.len() == 0 {
            Err(FsError::NoAvailableWorker)
        } else if workers.len() > replicas as usize {
            Err(FsError::TooManyForReplicas)
        } else {
            Ok(workers)
        }
    }

    /// What becomes of the workers that the placement policy named without
    /// regard to a block: at least one, and no more than `count`.
    pub fn choose_workers(count: usize, chosen: Result<Vec<WorkerAddress>, FsError>) -> (r: Result<
        Vec<WorkerAddress>,
        FsError,
    >)
        ensures
            r == (match chosen {
                Err(e) => Err(e),
                Ok(w) => if w@.len() == 0 {
                    Err(FsError::NoAvailableWorker)
                } else if w@.len() > count {
                    Err(FsError::TooManyForCount)
                } else {
                    Ok(w)
                },
            }),
    {
        let workers = match chosen {
            Ok(workers) => workers,
            Err(e) => return Err(e),
        };
        if workers.len() == 0 {
            Err(FsError::NoAvailableWorker)
        } else if workers.len() > count {
            Err(FsError::TooManyForCount)
        } else {
            Ok(workers)
        }
    }

    /// The block with those of its locations whose workers are live. A block
    /// with locations of which none is live is refused.
    pub fn create_locate_block(&self, path: &str, block: ExtendedBlock, locs: &Vec<BlockLocation>) -> (r:
        Result<LocatedBlock, FsError>)
        ensures
            match r {
                Ok(b) => b@ == located(self@.workers, block, locs@) && (locs@.len() == 0
                    || b@.locs.len() > 0),
                Err(e) => locs@.len() > 0 && live_addresses(self@.workers, locs@).len() == 0
                    && (e matches FsError::AllReplicasLost { path: p, block_id } && p@ == path@
                    && block_id == block.id),
            },
    {
        let mut addrs: Vec<WorkerAddress> = Vec::new();
        let mut has_spdk: bool = false;
        let mut i: usize = 0;
        while i < locs.len()
            invariant
                i <= locs.len(),
                crate::model::addresses_of(addrs@) == live_addresses(
                    self@.workers,
                    locs@.take(i as int),
                ),
                has_spdk == live_on_spdk(self@.workers, locs@.take(i as int)),
            decreases locs.len() - i,
        {
            let loc: BlockLocation = locs[i];
            proof {
                let next = locs@.take(i + 1);
                assert(next.drop_last() =~= locs@.take(i as int));
                assert(next.last() == loc);
                spdk_step(self@.workers, locs@, i as int);
            }
            let ghost before = addrs@;
            if let Some(info) = self.get_worker(loc.worker_id) {
                addrs.push(info.address.clone());
                assert(crate::model::addresses_of(addrs@) =~= crate::model::addresses_of(
                    before,
                ).push(self@.workers[loc.worker_id].address));
                if loc.storage_type == StorageType::SpdkDisk {
                    has_spdk = true;
                }
            }
            i += 1;
        }
        assert(locs@.take(locs@.len() as int) =~= locs@);
        assert(crate::model::addresses_of(addrs@).len() == addrs@.len());
        if addrs.len() == 0 && locs.len() > 0 {
            return Err(FsError::AllReplicasLost { path: path.to_owned(), block_id: block.id });
        }
        Ok(LocatedBlock { block, locs: addrs, has_spdk })
    }

    /// Whether one of the workers is live and has an SPDK storage.
    pub fn workers_have_spdk(&self, addrs: &Vec<WorkerAddress>) -> (r: bool)
        ensures
            r == exists|i: int|
                0 <= i < addrs@.len() && has_spdk_storage(
                    self@.workers,
                    (#[trigger] addrs@[i]).worker_id,
                ),
    {
        let mut i: usize = 0;
        while i < addrs.len()
            invariant
                i <= addrs.len(),
                forall|j: int|
                    0 <= j < i ==> !has_spdk_storage(
                        self@.workers,
                        (#[trigger] addrs@[j]).worker_id,
                    ),
            decreases addrs.len() - i,
        {
            if let Some(info) = self.get_worker(addrs[i].worker_id) {
                let mut k: usize = 0;
                while k < info.storages.len()
                    invariant
                        i < addrs.len(),
                        k <= info.storages.len(),
                        self@.workers.contains_key(addrs@[i as int].worker_id),
                        info@ == self@.workers[addrs@[i as int].worker_id],
                        forall|j: int|
                            0 <= j < k ==> (#[trigger] info@.storages[j]).storage_type
                                != StorageType::SpdkDisk,
                    decreases info.storages.len() - k,
                {
                    assert(info@.storages[k as int] == info.storages@[k as int]@);
                    if info.storages[k].storage_type == StorageType::SpdkDisk {
                        assert(has_spdk_storage(self@.workers, addrs@[i as int].worker_id));
                        return true;
                    }
                    k += 1;
                }
            }
            i += 1;
        }
        false
    }
}

/// The addresses of those locations whose workers are live, in order.
pub open spec fn live_addresses(m: Map<u32, WorkerView>, locs: Seq<BlockLocation>) -> Seq<
    AddressView,
>
    decreases locs.len(),
{
    if locs.len() == 0 {
        Seq::empty()
    } else if m.contains_key(locs.last().worker_id) {
        live_addresses(m, locs.drop_last()).push(m[locs.last().worker_id].address)
    } else {
        live_addresses(m, locs.drop_last())
    }
}

/// A live replica lies on an SPDK storage.
pub open spec fn live_on_spdk(m: Map<u32, WorkerView>, locs: Seq<BlockLocation>) -> bool {
    exists|i: int|
        0 <= i < locs.len() && m.contains_key((#[trigger] locs[i]).worker_id)
            && locs[i].storage_type == StorageType::SpdkDisk
}

/// The block with its live replicas.
pub open spec fn located(
    m: Map<u32, WorkerView>,
    block: ExtendedBlock,
    locs: Seq<BlockLocation>,
) -> crate::model::LocatedView {
    crate::model::LocatedView {
        block,
        locs: live_addresses(m, locs),
        has_spdk: live_on_spdk(m, locs),
    }
}

proof fn spdk_step(m: Map<u32, WorkerView>, locs: Seq<BlockLocation>, i: int)
    requires
        0 <= i < locs.len(),
    ensures
        live_on_spdk(m, locs.take(i + 1)) == (live_on_spdk(m, locs.take(i)) || (m.contains_key(
            locs[i].worker_id,
        ) && locs[i].storage_type == StorageType::SpdkDisk)),
{
    let t0 = locs.take(i);
    let t1 = locs.take(i + 1);
    assert(t1[i] == locs[i]);
    if live_on_spdk(m, t0) {
        let j = choose|j: int|
            0 <= j < t0.len() && m.contains_key((#[trigger] t0[j]).worker_id)
                && t0[j].storage_type == StorageType::SpdkDisk;
        assert(t1[j] == t0[j]);
    }
    if live_on_spdk(m, t1) {
        let j = choose|j: int|
            0 <= j < t1.len() && m.contains_key((#[trigger] t1[j]).worker_id)
                && t1[j].storage_type == StorageType::SpdkDisk;
        if j < i {
            assert(t0[j] == t1[j]);
        }
    }
}

/// The worker is live and has an SPDK storage.
pub open spec fn has_spdk_storage(m: Map<u32, WorkerView>, worker_id: u32) -> bool {
    m.contains_key(worker_id) && exists|k: int|
        0 <= k < m[worker_id].storages.len() && (#[trigger] m[worker_id].storages[k]).storage_type
            == StorageType::SpdkDisk
}

} // verus!
