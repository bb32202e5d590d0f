//! Registered workers, live and lost.

use vstd::prelude::*;

use crate::error::FsError;
use crate::ids::IdMap;
use crate::model::{
    AddressView, ComponentInfo, ComponentView, StorageInfo, StorageView,
    TransferWorkerCapabilities, WorkerAddress, WorkerInfo, WorkerStatus, WorkerView,
};

verus! {

/// What a worker says of itself in a heartbeat.
pub struct Registration {
    pub address: WorkerAddress,
    pub weight: u32,
    pub worker_session_id: String,
    pub transfer_capabilities: TransferWorkerCapabilities,
    pub software_version: String,
    pub startup_time_ms: u64,
    pub storages: Vec<StorageInfo>,
    pub component_info: Option<ComponentInfo>,
}

#[verifier::ext_equal]
pub struct RegistrationView {
    pub address: AddressView,
    pub weight: u32,
    pub worker_session_id: Seq<char>,
    pub transfer_capabilities: TransferWorkerCapabilities,
    pub software_version: Seq<char>,
    pub startup_time_ms: u64,
    pub storages: Seq<StorageView>,
    pub component_info: Option<ComponentView>,
}

impl View for Registration {
    type V = RegistrationView;

    open spec fn view(&self) -> RegistrationView {
        RegistrationView {
            address: self.address@,
            weight: self.weight,
            worker_session_id: self.worker_session_id@,
            transfer_capabilities: self.transfer_capabilities,
            software_version: self.software_version@,
            startup_time_ms: self.startup_time_ms,
            storages: crate::model::storages_of(self.storages@),
            component_info: crate::model::component_of(self.component_info),
        }
    }
}

impl RegistrationView {
    /// The worker that the registration describes, seen at `now_ms`.
    pub open spec fn worker(self, now_ms: u64, status: WorkerStatus) -> WorkerView {
        (WorkerView {
            worker_session_id: self.worker_session_id,
            startup_time_ms: self.startup_time_ms,
            software_version: self.software_version,
            transfer_capabilities: self.transfer_capabilities,
            component_info: self.component_info,
            status,
            ..WorkerView::fresh(self.address, self.weight, now_ms)
        }).with_storages(self.storages)
    }
}

/// Adding storages leaves the identity of a worker alone.
pub proof fn storages_keep_identity(w: WorkerView, s: Seq<StorageView>)
    ensures
        w.with_storages(s).address == w.address,
        w.with_storages(s).worker_session_id == w.worker_session_id,
        w.with_storages(s).startup_time_ms == w.startup_time_ms,
        w.with_storages(s).software_version == w.software_version,
        w.with_storages(s).last_update == w.last_update,
        w.with_storages(s).status == w.status,
        w.with_storages(s).component_info == w.component_info,
        w.with_storages(s).transfer_capabilities == w.transfer_capabilities,
        w.with_storages(s).weight == w.weight,
    decreases s.len(),
{
    if s.len() > 0 {
        storages_keep_identity(w, s.drop_last());
    }
}

impl Registration {
    /// The worker that the registration describes, seen at `now_ms`.
    pub fn into_worker(self, now_ms: u64, status: WorkerStatus) -> (r: WorkerInfo)
        ensures
            r@ == self@.worker(now_ms, status),
    {
        let mut worker: WorkerInfo = WorkerInfo::new(self.address, self.weight, now_ms);
        worker.worker_session_id = self.worker_session_id;
        worker.startup_time_ms = self.startup_time_ms;
        worker.software_version = self.software_version;
        worker.transfer_capabilities = self.transfer_capabilities;
        worker.component_info = self.component_info;
        worker.status = status;
        worker.add_storages(self.storages);
        worker
    }
}

/// The live workers and the workers that left, by worker id.
pub struct WorkerMap {
    pub workers: IdMap<WorkerInfo>,
    pub lost_workers: IdMap<WorkerInfo>,
}

#[verifier::ext_equal]
pub struct WorkerMapView {
    pub workers: Map<u32, WorkerView>,
    pub lost: Map<u32, WorkerView>,
}

impl View for WorkerMap {
    type V = WorkerMapView;

    open spec fn view(&self) -> WorkerMapView {
        WorkerMapView { workers: self.workers@, lost: self.lost_workers@ }
    }
}

/// Every worker stands under its own id.
pub open spec fn keyed_by_id(m: Map<u32, WorkerView>) -> bool {
    forall|k: u32| #[trigger] m.contains_key(k) ==> m[k].address.worker_id == k
}

impl WorkerMapView {
    pub open spec fn wf(self) -> bool {
        keyed_by_id(self.workers) && keyed_by_id(self.lost)
    }

    /// The id is live at another endpoint than `address`.
    pub open spec fn id_conflict(self, address: AddressView) -> bool {
        self.workers.contains_key(address.worker_id)
            && !self.workers[address.worker_id].address.same_endpoint(address)
    }

    /// The live workers that stand at the endpoint of `address` under another
    /// id.
    pub open spec fn displaced(self, address: AddressView) -> Set<u32> {
        Set::new(
            |k: u32|
                self.workers.contains_key(k) && k != address.worker_id
                    && self.workers[k].address.same_endpoint(address),
        )
    }

    /// The live workers of `ids` become lost.
    pub open spec fn move_to_lost(self, ids: Set<u32>) -> WorkerMapView {
        WorkerMapView {
            workers: self.workers.remove_keys(ids),
            lost: Map::new(
                |k: u32| self.lost.contains_key(k) || (ids.contains(k) && self.workers.contains_key(k)),
                |k: u32|
                    if ids.contains(k) && self.workers.contains_key(k) {
                        self.workers[k].with_status(WorkerStatus::Lost)
                    } else {
                        self.lost[k]
                    },
            ),
        }
    }

    /// A decommissioned worker stays so; any other becomes live.
    pub open spec fn status_on_insert(self, worker_id: u32) -> WorkerStatus {
        if self.workers.contains_key(worker_id) && self.workers[worker_id].status
            == WorkerStatus::Decommission {
            WorkerStatus::Decommission
        } else {
            WorkerStatus::Live
        }
    }

    /// The registration becomes the live worker of its id.
    pub open spec fn register(self, reg: RegistrationView, now_ms: u64) -> WorkerMapView {
        let id = reg.address.worker_id;
        WorkerMapView {
            workers: self.workers.insert(id, reg.worker(now_ms, self.status_on_insert(id))),
            lost: self.lost.remove(id),
        }
    }
}

/// The workers of `m` under `ids`, in that order.
pub open spec fn pick(m: Map<u32, WorkerView>, ids: Seq<u32>) -> Seq<WorkerView> {
    ids.map_values(|k: u32| m[k])
}

/// The views of a list of workers.
pub open spec fn workers_of(s: Seq<WorkerInfo>) -> Seq<WorkerView> {
    s.map_values(|w: WorkerInfo| w@)
}

impl WorkerMap {
    pub fn new() -> (r: Self)
        ensures
            r@.workers == Map::<u32, WorkerView>::empty(),
            r@.lost == Map::<u32, WorkerView>::empty(),
            r@.wf(),
    {
        WorkerMap { workers: IdMap::new(), lost_workers: IdMap::new() }
    }

    /// Refuses an address whose worker id is live at another endpoint.
    pub fn ensure_worker_id_addr(&self, address: &WorkerAddress) -> (r: Result<(), FsError>)
        ensures
            r == (if self@.id_conflict(address@) {
                Err(FsError::WorkerIdConflict { worker_id: address.worker_id })
            } else {
                Ok(())
            }),
    {
        match self.workers.get(address.worker_id) {
            Some(worker) => {
                if worker.address.same_endpoint(address) {
                    Ok(())
                } else {
                    Err(FsError::WorkerIdConflict { worker_id: address.worker_id })
                }
            },
            None => Ok(()),
        }
    }

    /// Moves one worker from the live to the lost workers and returns it.
    pub fn remove_offline(&mut self, id: u32) -> (r: Option<WorkerInfo>)
        ensures
            final(self)@ == old(self)@.move_to_lost(set![id]),
            r is Some == old(self)@.workers.contains_key(id),
            r matches Some(w) ==> w@ == old(self)@.workers[id].with_status(WorkerStatus::Lost),
    {
        let r = match self.workers.remove(id) {
            Some(mut worker) => {
                worker.status = WorkerStatus::Lost;
                self.lost_workers.insert(id, worker.clone());
                Some(worker)
            },
            None => None,
        };
        assert(self@ =~= old(self)@.move_to_lost(set![id]));
        r
    }

    /// Moves every other live worker at the same endpoint to the lost workers
    /// and returns them by increasing id.
    pub fn remove_same_endpoint(&mut self, address: &WorkerAddress) -> (r: Vec<WorkerInfo>)
        requires
            old(self)@.wf(),
        ensures
            final(self)@ == old(self)@.move_to_lost(old(self)@.displaced(address@)),
            final(self)@.wf(),
            workers_of(r@) == pick(
                final(self)@.lost,
                crate::ids::workers_in_order(old(self)@.displaced(address@)),
            ),
            crate::ids::ascending_workers(
                crate::ids::workers_in_order(old(self)@.displaced(address@)),
            ),
            crate::ids::workers_in_order(old(self)@.displaced(address@)).to_set() == old(
                self,
            )@.displaced(address@),
    {
        let ids: Vec<u32> = self.workers.ids();
        let mut r: Vec<WorkerInfo> = Vec::new();
        let ghost all = self@.displaced(address@);
        let ghost mut done = Seq::<u32>::empty();
        let mut i: usize = 0;
        while i < ids.len()
            invariant
                i <= ids.len(),
                all == old(self)@.displaced(address@),
                old(self)@.wf(),
                crate::ids::ascending_workers(ids@),
                ids@.to_set() == old(self)@.workers.dom(),
                self@ == old(self)@.move_to_lost(done.to_set()),
                crate::ids::ascending_workers(done),
                forall|k: u32| #[trigger]
                    done.contains(k) <==> all.contains(k) && ids@.take(i as int).contains(k),
                r@.len() == done.len(),
                forall|j: int|
                    0 <= j < r@.len() ==> (#[trigger] r@[j])@
                        == old(self)@.workers[done[j]].with_status(WorkerStatus::Lost),
            decreases ids.len() - i,
        {
            let id: u32 = ids[i];
            let ghost prev = done;
            let ghost state = self@;
            proof {
                assert(ids@.contains(id));
                assert(ids@.to_set().contains(id));
                assert(!prev.contains(id)) by {
                    if prev.contains(id) {
                        let t = ids@.take(i as int);
                        let j = choose|j: int| 0 <= j < t.len() && t[j] == id;
                        assert(ids@[j] == id);
                    }
                }
            }
            assert(!prev.to_set().contains(id));
            assert(state.workers.contains_key(id) && state.workers[id] == old(self)@.workers[id]);
            let matches_endpoint: bool = match self.workers.get(id) {
                Some(worker) => worker.address.same_endpoint(address),
                None => false,
            };
            if id != address.worker_id && matches_endpoint {
                if let Some(worker) = self.remove_offline(id) {
                    r.push(worker);
                }
                proof {
                    done = done.push(id);
                    assert(done.to_set() =~= prev.to_set().insert(id)) by {
                        assert forall|k: u32| done.contains(k) == (prev.contains(k) || k == id) by {
                            assert(done[done.len() - 1] == id);
                            if prev.contains(k) {
                                let j = choose|j: int| 0 <= j < prev.len() && prev[j] == k;
                                assert(done[j] == k);
                            }
                        }
                    }
                    assert(self@ =~= old(self)@.move_to_lost(done.to_set()));
                    assert forall|a: int, b: int| 0 <= a < b < done.len() implies done[a]
                        < done[b] by {
                        if b == prev.len() {
                            assert(prev.contains(prev[a]));
                            let t = ids@.take(i as int);
                            let j = choose|j: int| 0 <= j < t.len() && t[j] == prev[a];
                            assert(ids@[j] == prev[a]);
                        }
                    }
                }
            }
            proof {
                assert(all.contains(id) == (done.len() > prev.len()));
                assert(done.len() > prev.len() ==> done == prev.push(id));
                let t0 = ids@.take(i as int);
                let t1 = ids@.take(i + 1);
                assert forall|k: u32| #[trigger] done.contains(k) <==> all.contains(k)
                    && t1.contains(k) by {
                    assert(t1[i as int] == id);
                    if t0.contains(k) {
                        let j = choose|j: int| 0 <= j < t0.len() && t0[j] == k;
                        assert(t1[j] == k);
                    }
                    if t1.contains(k) && k != id {
                        let j = choose|j: int| 0 <= j < t1.len() && t1[j] == k;
                        assert(t0[j] == k);
                    }
                    if done.contains(k) && k != id {
                        let j = choose|j: int| 0 <= j < done.len() && done[j] == k;
                        assert(prev[j] == k);
                    }
                    if prev.contains(k) {
                        let j = choose|j: int| 0 <= j < prev.len() && prev[j] == k;
                        assert(done[j] == k);
                    }
                    if all.contains(id) {
                        assert(done[prev.len() as int] == id);
                    }
                }
            }
            i += 1;
        }
        proof {
            assert(ids@.take(ids@.len() as int) =~= ids@);
            assert forall|k: u32| done.to_set().contains(k) == all.contains(k) by {
                if all.contains(k) {
                    assert(ids@.to_set().contains(k));
                }
            }
            assert(done.to_set() =~= all);
            crate::ids::ascending_workers_is_unique(done, crate::ids::workers_in_order(all));
            assert forall|j: int| 0 <= j < done.len() implies #[trigger] self@.lost[done[j]]
                == r@[j]@ by {
                assert(done.contains(done[j]));
                assert(all.contains(done[j]));
            }
            assert(workers_of(r@) =~= pick(self@.lost, done));
        }
        r
    }

    /// Makes the registration the live worker of its id.
    pub fn insert(&mut self, reg: Registration, now_ms: u64) -> (r: Result<(), FsError>)
        requires
            old(self)@.wf(),
        ensures
            final(self)@.wf(),
            r == (if old(self)@.id_conflict(reg@.address) {
                Err(FsError::WorkerIdConflict { worker_id: reg@.address.worker_id })
            } else {
                Ok(())
            }),
            final(self)@ == (if old(self)@.id_conflict(reg@.address) {
                old(self)@
            } else {
                old(self)@.register(reg@, now_ms)
            }),
    {
        let checked = self.ensure_worker_id_addr(&reg.address);
        if checked.is_err() {
            return checked;
        }
        let id: u32 = reg.address.worker_id;
        let status: WorkerStatus = match self.workers.get(id) {
            Some(worker) => if worker.status == WorkerStatus::Decommission {
                WorkerStatus::Decommission
            } else {
                WorkerStatus::Live
            },
            None => WorkerStatus::Live,
        };
        let worker: WorkerInfo = reg.into_worker(now_ms, status);
        proof {
            let plain = WorkerView {
                worker_session_id: reg@.worker_session_id,
                startup_time_ms: reg@.startup_time_ms,
                software_version: reg@.software_version,
                transfer_capabilities: reg@.transfer_capabilities,
                component_info: reg@.component_info,
                status,
                ..WorkerView::fresh(reg@.address, reg@.weight, now_ms)
            };
            storages_keep_identity(plain, reg@.storages);
        }
        self.workers.insert(id, worker);
        self.lost_workers.remove(id);
        Ok(())
    }
}

} // verus!
