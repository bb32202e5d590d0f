//! The state of the cluster at a glance.

use vstd::prelude::*;

use crate::ids::IdMap;
use crate::master_filesystem::MasterFilesystem;
use crate::model::{copy_texts, WorkerInfo, WorkerStatus, WorkerView};

verus! {

/// Space and blocks over a number of workers.
#[derive(Clone, Copy, Debug, PartialEq, Eq, Structural)]
pub struct WorkerTotals {
    pub capacity: i64,
    pub available: i64,
    pub fs_used: i64,
    pub non_fs_used: i64,
    pub reserved_bytes: i64,
    pub block_num: i64,
    /// The capacity of workers that take new blocks.
    pub allocatable_capacity: i64,
    /// The available space of workers that take new blocks.
    pub allocatable_available: i64,
}

/// Exact sums of what [`WorkerTotals`] holds.
#[verifier::ext_equal]
pub struct TotalsView {
    pub capacity: int,
    pub available: int,
    pub fs_used: int,
    pub non_fs_used: int,
    pub reserved_bytes: int,
    pub block_num: int,
    pub allocatable_capacity: int,
    pub allocatable_available: int,
}

impl View for WorkerTotals {
    type V = TotalsView;

    open spec fn view(&self) -> TotalsView {
        TotalsView {
            capacity: self.capacity as int,
            available: self.available as int,
            fs_used: self.fs_used as int,
            non_fs_used: self.non_fs_used as int,
            reserved_bytes: self.reserved_bytes as int,
            block_num: self.block_num as int,
            allocatable_capacity: self.allocatable_capacity as int,
            allocatable_available: self.allocatable_available as int,
        }
    }
}

/// `n` is in the range of `i64`.
pub open spec fn fits(n: int) -> bool {
    i64::MIN <= n <= i64::MAX
}

impl TotalsView {
    pub open spec fn zero() -> TotalsView {
        TotalsView {
            capacity: 0,
            available: 0,
            fs_used: 0,
            non_fs_used: 0,
            reserved_bytes: 0,
            block_num: 0,
            allocatable_capacity: 0,
            allocatable_available: 0,
        }
    }

    /// One more worker. Only a live one takes new blocks.
    pub open spec fn plus(self, w: WorkerView) -> TotalsView {
        TotalsView {
            capacity: self.capacity + w.capacity,
            available: self.available + w.available,
            fs_used: self.fs_used + w.fs_used,
            non_fs_used: self.non_fs_used + w.non_fs_used,
            reserved_bytes: self.reserved_bytes + w.reserved_bytes,
            block_num: self.block_num + w.block_num,
            allocatable_capacity: self.allocatable_capacity + if w.status == WorkerStatus::Live {
                w.capacity as int
            } else {
                0
            },
            allocatable_available: self.allocatable_available + if w.status == WorkerStatus::Live {
                w.available as int
            } else {
                0
            },
        }
    }

    pub open spec fn all_fit(self) -> bool {
        fits(self.capacity) && fits(self.available) && fits(self.fs_used) && fits(
            self.non_fs_used,
        ) && fits(self.reserved_bytes) && fits(self.block_num) && fits(self.allocatable_capacity)
            && fits(self.allocatable_available)
    }
}

/// The sums over the workers `ids`.
pub open spec fn totals_over(m: Map<u32, WorkerView>, ids: Seq<u32>) -> TotalsView
    decreases ids.len(),
{
    if ids.len() == 0 {
        TotalsView::zero()
    } else {
        totals_over(m, ids.drop_last()).plus(m[ids.last()])
    }
}

/// Every partial sum over the workers, by increasing id, can be represented.
pub open spec fn totals_fit(m: Map<u32, WorkerView>) -> bool {
    forall|n: int|
        0 <= n <= crate::ids::workers_in_order(m.dom()).len() ==> (#[trigger] totals_over(
            m,
            crate::ids::workers_in_order(m.dom()).take(n),
        )).all_fit()
}

/// The workers of `ids` with the status, in order.
pub open spec fn with_status(m: Map<u32, WorkerView>, ids: Seq<u32>, status: WorkerStatus) -> Seq<
    WorkerView,
>
    decreases ids.len(),
{
    if ids.len() == 0 {
        Seq::empty()
    } else if m[ids.last()].status == status {
        with_status(m, ids.drop_last(), status).push(m[ids.last()])
    } else {
        with_status(m, ids.drop_last(), status)
    }
}

pub struct FilesystemInfo {
    pub active_master: String,
    pub journal_nodes: Vec<String>,
    pub inode_dir_num: i64,
    pub inode_file_num: i64,
    pub totals: WorkerTotals,
    pub live_workers: Vec<WorkerInfo>,
    pub blacklist_workers: Vec<WorkerInfo>,
    pub decommission_workers: Vec<WorkerInfo>,
    pub lost_workers: Vec<WorkerInfo>,
}

fn plus_fits(a: i64, b: i64) -> (r: bool)
    ensures
        r == fits(a + b),
{
    let sum: i128 = a as i128 + b as i128;
    i64::MIN as i128 <= sum && sum <= i64::MAX as i128
}

impl WorkerTotals {
    pub fn zero() -> (r: Self)
        ensures
            r@ == TotalsView::zero(),
    {
        WorkerTotals {
            capacity: 0,
            available: 0,
            fs_used: 0,
            non_fs_used: 0,
            reserved_bytes: 0,
            block_num: 0,
            allocatable_capacity: 0,
            allocatable_available: 0,
        }
    }

    /// Whether one more worker can be counted.
    pub fn can_count(&self, w: &WorkerInfo) -> (r: bool)
        ensures
            r == self@.plus(w@).all_fit(),
    {
        let live: bool = w.status == WorkerStatus::Live;
        plus_fits(self.capacity, w.capacity) && plus_fits(self.available, w.available)
            && plus_fits(self.fs_used, w.fs_used) && plus_fits(self.non_fs_used, w.non_fs_used)
            && plus_fits(self.reserved_bytes, w.reserved_bytes) && plus_fits(
            self.block_num,
            w.block_num,
        ) && (!live || (plus_fits(self.allocatable_capacity, w.capacity) && plus_fits(
            self.allocatable_available,
            w.available,
        )))
    }

    /// Counts one more worker.
    pub fn count(&mut self, w: &WorkerInfo)
        requires
            old(self)@.plus(w@).all_fit(),
        ensures
            final(self)@ == old(self)@.plus(w@),
    {
        self.capacity = self.capacity + w.capacity;
        self.available = self.available + w.available;
        self.fs_used = self.fs_used + w.fs_used;
        self.non_fs_used = self.non_fs_used + w.non_fs_used;
        self.reserved_bytes = self.reserved_bytes + w.reserved_bytes;
        self.block_num = self.block_num + w.block_num;
        if w.status == WorkerStatus::Live {
            self.allocatable_capacity = self.allocatable_capacity + w.capacity;
            self.allocatable_available = self.allocatable_available + w.available;
        }
    }
}

fn list_workers(workers: &IdMap<WorkerInfo>, status: Option<WorkerStatus>) -> (r: Vec<WorkerInfo>)
    ensures
        crate::worker_map::workers_of(r@) == (match status {
            Some(s) => with_status(
                workers@,
                crate::ids::workers_in_order(workers@.dom()),
                s,
            ),
            None => crate::worker_map::pick(
                workers@,
                crate::ids::workers_in_order(workers@.dom()),
            ),
        }),
{
    let ids: Vec<u32> = workers.ids();
    let mut r: Vec<WorkerInfo> = Vec::new();
    let mut i: usize = 0;
    assert(crate::worker_map::workers_of(r@) =~= Seq::<WorkerView>::empty());
    assert(crate::worker_map::pick(workers@, ids@.take(0)) =~= Seq::<WorkerView>::empty());
    while i < ids.len()
        invariant
            i <= ids.len(),
            ids@.to_set() == workers@.dom(),
            crate::worker_map::workers_of(r@) == (match status {
                Some(s) => with_status(workers@, ids@.take(i as int), s),
                None => crate::worker_map::pick(workers@, ids@.take(i as int)),
            }),
        decreases ids.len() - i,
    {
        let ghost before = r@;
        let id: u32 = ids[i];
        proof {
            assert(ids@.to_set().contains(id));
            crate::ids::take_step(ids@, i as int);
        }
        if let Some(worker) = workers.get(id) {
            let wanted: bool = match status {
                Some(s) => worker.status == s,
                None => true,
            };
            if wanted {
                r.push(worker.clone());
                assert(crate::worker_map::workers_of(r@) =~= crate::worker_map::workers_of(
                    before,
                ).push(workers@[id]));
            }
        }
        assert(crate::worker_map::pick(workers@, ids@.take(i + 1)) =~= crate::worker_map::pick(
            workers@,
            ids@.take(i as int),
        ).push(workers@[id]));
        i += 1;
    }
    assert(ids@.take(ids@.len() as int) =~= ids@);
    r
}

impl MasterFilesystem {
    /// Whether the sums over the live workers can be represented.
    pub fn totals_fit(&self) -> (r: bool)
        ensures
            r == totals_fit(self@.manager.workers),
    {
        let ids: Vec<u32> = self.worker_manager.worker_map.workers.ids();
        let ghost m = self@.manager.workers;
        let mut totals: WorkerTotals = WorkerTotals::zero();
        let mut i: usize = 0;
        while i < ids.len()
            invariant
                i <= ids.len(),
                m == self@.manager.workers,
                ids@ == crate::ids::workers_in_order(m.dom()),
                ids@.to_set() == m.dom(),
                totals@ == totals_over(m, ids@.take(i as int)),
                forall|n: int| 0 <= n <= i ==> (#[trigger] totals_over(m, ids@.take(n))).all_fit(),
            decreases ids.len() - i,
        {
            proof {
                assert(ids@.to_set().contains(ids@[i as int]));
                crate::ids::take_step(ids@, i as int);
            }
            if let Some(worker) = self.worker_manager.get_worker(ids[i]) {
                if !totals.can_count(worker) {
                    assert(!totals_over(m, ids@.take(i + 1)).all_fit());
                    return false;
                }
                totals.count(worker);
            }
            i += 1;
        }
        true
    }

    /// The cluster at a glance: sums over the workers that are not lost, and
    /// the workers by status. Only live workers count as allocatable.
    pub fn filesystem_info(
        &self,
        active_master: &str,
        journal_nodes: &Vec<String>,
        inode_dir_num: i64,
        inode_file_num: i64,
    ) -> (r: FilesystemInfo)
        requires
            totals_fit(self@.manager.workers),
        ensures
            r.active_master@ == active_master@,
            crate::model::texts_of(r.journal_nodes@) == crate::model::texts_of(journal_nodes@),
            r.inode_dir_num == inode_dir_num,
            r.inode_file_num == inode_file_num,
            ({
                let m = self@.manager;
                let ids = crate::ids::workers_in_order(m.workers.dom());
                &&& r.totals@ == totals_over(m.workers, ids)
                &&& crate::worker_map::workers_of(r.live_workers@) == with_status(
                    m.workers,
                    ids,
                    WorkerStatus::Live,
                )
                &&& crate::worker_map::workers_of(r.blacklist_workers@) == with_status(
                    m.workers,
                    ids,
                    WorkerStatus::Blacklist,
                )
                &&& crate::worker_map::workers_of(r.decommission_workers@) == with_status(
                    m.workers,
                    ids,
                    WorkerStatus::Decommission,
                )
                &&& crate::worker_map::workers_of(r.lost_workers@) == crate::worker_map::pick(
                    m.lost,
                    crate::ids::workers_in_order(m.lost.dom()),
                )
            }),
    {
        let workers: &IdMap<WorkerInfo> = &self.worker_manager.worker_map.workers;
        let ids: Vec<u32> = workers.ids();
        let ghost m = self@.manager.workers;
        let mut totals: WorkerTotals = WorkerTotals::zero();
        let mut i: usize = 0;
        while i < ids.len()
            invariant
                i <= ids.len(),
                m == workers@,
                ids@ == crate::ids::workers_in_order(m.dom()),
                ids@.to_set() == m.dom(),
                totals_fit(m),
                totals@ == totals_over(m, ids@.take(i as int)),
            decreases ids.len() - i,
        {
            proof {
                assert(ids@.to_set().contains(ids@[i as int]));
                crate::ids::take_step(ids@, i as int);
                assert(totals_over(m, ids@.take(i + 1)).all_fit());
            }
            if let Some(worker) = workers.get(ids[i]) {
                totals.count(worker);
            }
            i += 1;
        }
        assert(ids@.take(ids@.len() as int) =~= ids@);
        FilesystemInfo {
            active_master: active_master.to_owned(),
            journal_nodes: copy_texts(journal_nodes),
            inode_dir_num,
            inode_file_num,
            totals,
            live_workers: list_workers(workers, Some(WorkerStatus::Live)),
            blacklist_workers: list_workers(workers, Some(WorkerStatus::Blacklist)),
            decommission_workers: list_workers(workers, Some(WorkerStatus::Decommission)),
            lost_workers: list_workers(&self.worker_manager.worker_map.lost_workers, None),
        }
    }
}

/// What can be allocated is part of what there is, where no worker reports a
/// negative amount.
pub proof fn allocatable_is_part_of_total(m: Map<u32, WorkerView>, ids: Seq<u32>)
    requires
        forall|i: int|
            0 <= i < ids.len() ==> m[#[trigger] ids[i]].capacity >= 0 && m[ids[i]].available >= 0,
    ensures
        0 <= totals_over(m, ids).allocatable_capacity <= totals_over(m, ids).capacity,
        0 <= totals_over(m, ids).allocatable_available <= totals_over(m, ids).available,
    decreases ids.len(),
{
    if ids.len() > 0 {
        let shorter = ids.drop_last();
        assert forall|i: int| 0 <= i < shorter.len() implies m[#[trigger] shorter[i]].capacity >= 0
            && m[shorter[i]].available >= 0 by {
            assert(shorter[i] == ids[i]);
        }
        allocatable_is_part_of_total(m, shorter);
        assert(ids.last() == ids[ids.len() - 1]);
    }
}

/// Where every worker is live, everything is allocatable; where none is,
/// nothing is.
pub proof fn only_live_workers_are_allocatable(m: Map<u32, WorkerView>, ids: Seq<u32>)
    ensures
        (forall|i: int|
            0 <= i < ids.len() ==> m[#[trigger] ids[i]].status == WorkerStatus::Live) ==> (
        totals_over(m, ids).allocatable_capacity == totals_over(m, ids).capacity && totals_over(
            m,
            ids,
        ).allocatable_available == totals_over(m, ids).available),
        (forall|i: int|
            0 <= i < ids.len() ==> m[#[trigger] ids[i]].status != WorkerStatus::Live) ==> (
        totals_over(m, ids).allocatable_capacity == 0 && totals_over(m, ids).allocatable_available
            == 0),
    decreases ids.len(),
{
    if ids.len() > 0 {
        let shorter = ids.drop_last();
        only_live_workers_are_allocatable(m, shorter);
        assert(ids.last() == ids[ids.len() - 1]);
        assert(forall|i: int| 0 <= i < shorter.len() ==> #[trigger] shorter[i] == ids[i]);
    }
}

} // verus!
