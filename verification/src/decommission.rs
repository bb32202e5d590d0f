//! Workers by host: taking them out of service and putting them back.

use vstd::hash_set::StringHashSet;
use vstd::prelude::*;

use crate::manager_model::ManagerView;
use crate::model::{WorkerStatus, WorkerView};
use crate::worker_manager::WorkerManager;

verus! {

impl WorkerManager {
    /// Gives every live worker on one of the hosts the status, and names
    /// those workers by increasing id.
    fn set_status_on_hosts(&mut self, hosts: &Vec<String>, status: WorkerStatus) -> (r: Vec<String>)
        requires
            old(self)@.wf(),
        ensures
            final(self)@.wf(),
            final(self)@ == old(self)@.with_status_on(crate::model::texts_of(hosts@), status),
            crate::model::texts_of(r@) == names_on(
                old(self)@.workers,
                crate::ids::workers_in_order(old(self)@.workers.dom()),
                crate::model::texts_of(hosts@),
            ),
    {
        let set: StringHashSet = host_set(hosts);
        let ghost wanted = crate::model::texts_of(hosts@);
        let ids: Vec<u32> = self.worker_map.workers.ids();
        let mut r: Vec<String> = Vec::new();
        let mut i: usize = 0;
        while i < ids.len()
            invariant
                i <= ids.len(),
                old(self)@.wf(),
                set@ == wanted.to_set(),
                crate::ids::ascending_workers(ids@),
                ids@.to_set() == old(self)@.workers.dom(),
                self@ == (ManagerView { workers: self@.workers, ..old(self)@ }),
                self@.workers.dom() == old(self)@.workers.dom(),
                forall|k: u32| #[trigger]
                    self@.workers.contains_key(k) ==> self@.workers[k] == (if ids@.take(
                        i as int,
                    ).contains(k) && wanted.contains(old(self)@.workers[k].address.hostname) {
                        old(self)@.workers[k].with_status(status)
                    } else {
                        old(self)@.workers[k]
                    }),
                crate::model::texts_of(r@) == names_on(
                    old(self)@.workers,
                    ids@.take(i as int),
                    wanted,
                ),
            decreases ids.len() - i,
        {
            let id: u32 = ids[i];
            let ghost before = self@.workers;
            let ghost names = r@;
            proof {
                assert(ids@.to_set().contains(id));
                assert(before.contains_key(id));
                let t0 = ids@.take(i as int);
                assert(!t0.contains(id)) by {
                    if t0.contains(id) {
                        let j = choose|j: int| 0 <= j < t0.len() && t0[j] == id;
                        assert(ids@[j] == id);
                    }
                }
            }
            if let Some(mut worker) = self.worker_map.workers.remove(id) {
                if set.contains(worker.address.hostname.as_str()) {
                    worker.status = status;
                    r.push(worker.simple_string());
                    assert(crate::model::texts_of(r@) =~= crate::model::texts_of(names).push(
                        old(self)@.workers[id].address.simple_text(),
                    ));
                }
                self.worker_map.workers.insert(id, worker);
            }
            proof {
                let t0 = ids@.take(i as int);
                let t1 = ids@.take(i + 1);
                assert(t1.drop_last() =~= t0);
                assert(t1.last() == id);
                assert(self@.workers.dom() =~= before.dom());
                assert forall|k: u32| t1.contains(k) == (t0.contains(k) || k == id) by {
                    assert(t1[i as int] == id);
                    if t0.contains(k) {
                        let j = choose|j: int| 0 <= j < t0.len() && t0[j] == k;
                        assert(t1[j] == k);
                    }
                    if t1.contains(k) && k != id {
                        let j = choose|j: int| 0 <= j < t1.len() && t1[j] == k;
                        assert(t0[j] == k);
                    }
                }
            }
            i += 1;
        }
        proof {
            assert(ids@.take(ids@.len() as int) =~= ids@);
            assert forall|k: u32| #[trigger] self@.workers.contains_key(k) implies ids@.contains(
                k,
            ) by {
                assert(ids@.to_set().contains(k));
            }
            assert(self@.workers =~= old(self)@.with_status_on(wanted, status).workers);
        }
        r
    }

    /// Decommissions the live workers on the hosts and names them.
    pub fn add_dcm(&mut self, list: Vec<String>) -> (r: Vec<String>)
        requires
            old(self)@.wf(),
        ensures
            final(self)@.wf(),
            final(self)@ == old(self)@.with_status_on(
                crate::model::texts_of(list@),
                WorkerStatus::Decommission,
            ),
            crate::model::texts_of(r@) == names_on(
                old(self)@.workers,
                crate::ids::workers_in_order(old(self)@.workers.dom()),
                crate::model::texts_of(list@),
            ),
    {
        self.set_status_on_hosts(&list, WorkerStatus::Decommission)
    }

    /// Makes the workers on the hosts live again and names them.
    pub fn remove_dcm(&mut self, list: Vec<String>) -> (r: Vec<String>)
        requires
            old(self)@.wf(),
        ensures
            final(self)@.wf(),
            final(self)@ == old(self)@.with_status_on(
                crate::model::texts_of(list@),
                WorkerStatus::Live,
            ),
            crate::model::texts_of(r@) == names_on(
                old(self)@.workers,
                crate::ids::workers_in_order(old(self)@.workers.dom()),
                crate::model::texts_of(list@),
            ),
    {
        self.set_status_on_hosts(&list, WorkerStatus::Live)
    }

    /// The decommissioned workers, by increasing id.
    pub fn get_dcm(&self) -> (r: Vec<String>)
        ensures
            crate::model::texts_of(r@) == names_if(
                self@.workers,
                crate::ids::workers_in_order(self@.workers.dom()),
                true,
            ),
    {
        self.names(true)
    }

    /// All live workers, by increasing id.
    pub fn worker_list(&self) -> (r: Vec<String>)
        ensures
            crate::model::texts_of(r@) == names_if(
                self@.workers,
                crate::ids::workers_in_order(self@.workers.dom()),
                false,
            ),
    {
        self.names(false)
    }

    fn names(&self, only_dcm: bool) -> (r: Vec<String>)
        ensures
            crate::model::texts_of(r@) == names_if(
                self@.workers,
                crate::ids::workers_in_order(self@.workers.dom()),
                only_dcm,
            ),
    {
        let ids: Vec<u32> = self.worker_map.workers.ids();
        let mut r: Vec<String> = Vec::new();
        let mut i: usize = 0;
        while i < ids.len()
            invariant
                i <= ids.len(),
                ids@.to_set() == self@.workers.dom(),
                crate::model::texts_of(r@) == names_if(
                    self@.workers,
                    ids@.take(i as int),
                    only_dcm,
                ),
            decreases ids.len() - i,
        {
            let id: u32 = ids[i];
            let ghost names = r@;
            proof {
                assert(ids@.to_set().contains(id));
                assert(ids@.take(i + 1).drop_last() =~= ids@.take(i as int));
            }
            if let Some(worker) = self.get_worker(id) {
                if !only_dcm || worker.status == WorkerStatus::Decommission {
                    r.push(worker.simple_string());
                    assert(crate::model::texts_of(r@) =~= crate::model::texts_of(names).push(
                        self@.workers[id].address.simple_text(),
                    ));
                }
            }
            i += 1;
        }
        assert(ids@.take(ids@.len() as int) =~= ids@);
        r
    }
}

fn host_set(hosts: &Vec<String>) -> (r: StringHashSet)
    ensures
        r@ == crate::model::texts_of(hosts@).to_set(),
{
    let mut set: StringHashSet = StringHashSet::new();
    let ghost all = crate::model::texts_of(hosts@);
    let mut i: usize = 0;
    while i < hosts.len()
        invariant
            i <= hosts.len(),
            all == crate::model::texts_of(hosts@),
            forall|t: Seq<char>| #[trigger] set@.contains(t) == all.take(i as int).contains(t),
        decreases hosts.len() - i,
    {
        let ghost before = set@;
        set.insert(hosts[i].clone());
        proof {
            let t0 = all.take(i as int);
            let t1 = all.take(i + 1);
            assert(t1[i as int] == hosts@[i as int]@);
            assert forall|t: Seq<char>| #[trigger] set@.contains(t) == t1.contains(t) by {
                assert(before.contains(t) == t0.contains(t));
                if t0.contains(t) {
                    let j = choose|j: int| 0 <= j < t0.len() && t0[j] == t;
                    assert(t1[j] == t);
                }
                if t1.contains(t) && t != hosts@[i as int]@ {
                    let j = choose|j: int| 0 <= j < t1.len() && t1[j] == t;
                    assert(t0[j] == t);
                }
            }
        }
        i += 1;
    }
    assert(all.take(all.len() as int) =~= all);
    assert(set@ =~= all.to_set());
    set
}

/// The names of the workers of `ids` on one of the hosts, in order.
pub open spec fn names_on(m: Map<u32, WorkerView>, ids: Seq<u32>, hosts: Seq<Seq<char>>) -> Seq<
    Seq<char>,
>
    decreases ids.len(),
{
    if ids.len() == 0 {
        Seq::empty()
    } else if hosts.contains(m[ids.last()].address.hostname) {
        names_on(m, ids.drop_last(), hosts).push(m[ids.last()].address.simple_text())
    } else {
        names_on(m, ids.drop_last(), hosts)
    }
}

/// The names of the workers of `ids`, or of the decommissioned among them.
pub open spec fn names_if(m: Map<u32, WorkerView>, ids: Seq<u32>, only_dcm: bool) -> Seq<Seq<char>>
    decreases ids.len(),
{
    if ids.len() == 0 {
        Seq::empty()
    } else if !only_dcm || m[ids.last()].status == WorkerStatus::Decommission {
        names_if(m, ids.drop_last(), only_dcm).push(m[ids.last()].address.simple_text())
    } else {
        names_if(m, ids.drop_last(), only_dcm)
    }
}

} // verus!
