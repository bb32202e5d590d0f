//! The reconciliation of a complete inventory with the recorded locations.
//!
//! The caller serializes the work on one worker, reads and writes locations,
//! and hands back what came of it; the decisions are made here.

use vstd::prelude::*;

use crate::block_report::{
    FullBlockReconcileJob, FullBlockReconcileState, JobView, ReconcileView,
};
use crate::error::FsError;
use crate::master_filesystem::{FilesystemView, MasterFilesystem};

verus! {

/// What a reconciliation does next.
pub enum ReconcileStep {
    /// Nothing waits any more.
    Done,
    /// The inventory is outdated: look for a newer one.
    Skip,
    /// Compare this inventory with the recorded locations.
    Run(FullBlockReconcileJob),
}

/// How a reconciliation that succeeded ends.
pub enum ReconcileEnd {
    /// A newer inventory arrived meanwhile: look for it.
    Superseded,
    /// The worker's blocks are known; these blocks lost a replica and are to
    /// be replicated.
    Completed { replicate: Vec<i64> },
}

/// What follows a job.
pub enum ReconcileNext {
    /// Take up the inventory that arrived meanwhile.
    Again,
    /// Report these blocks as short of replicas, and stop.
    Report(Vec<i64>),
    Stop,
}

impl FilesystemView {
    /// A reconciliation could not be started: it is tried again later.
    pub open spec fn spawn_failed(self, worker_id: u32, now_ms: u64) -> FilesystemView {
        FilesystemView {
            reconciles: if self.reconciles.contains_key(worker_id) {
                self.reconciles.insert(
                    worker_id,
                    ReconcileView {
                        running: false,
                        retry_at_ms: self.retry_at(now_ms),
                        ..self.reconciles[worker_id]
                    },
                )
            } else {
                self.reconciles
            },
            ..self
        }
    }

    /// The workers with a queued inventory that nobody works on and whose
    /// time has come.
    pub open spec fn reconciles_due(self, now_ms: u64) -> Set<u32> {
        Set::new(
            |k: u32|
                self.reconciles.contains_key(k) && !self.reconciles[k].running
                    && self.reconciles[k].pending is Some && now_ms
                    >= self.reconciles[k].retry_at_ms,
        )
    }

    pub open spec fn mark_running(self, ids: Set<u32>) -> FilesystemView {
        FilesystemView {
            reconciles: Map::new(
                |k: u32| self.reconciles.contains_key(k),
                |k: u32|
                    if ids.contains(k) {
                        ReconcileView { running: true, ..self.reconciles[k] }
                    } else {
                        self.reconciles[k]
                    },
            ),
            ..self
        }
    }

    /// The state after the queued inventory of a worker is taken up. Where
    /// none waits, the reconciliation ends.
    pub open spec fn take_job(self, worker_id: u32) -> FilesystemView {
        FilesystemView {
            reconciles: if self.reconciles.contains_key(worker_id) {
                if self.reconciles[worker_id].pending is Some {
                    self.reconciles.insert(
                        worker_id,
                        ReconcileView { pending: None, ..self.reconciles[worker_id] },
                    )
                } else {
                    self.reconciles.remove(worker_id)
                }
            } else {
                self.reconciles
            },
            ..self
        }
    }

    /// A job may run: it is for the newest inventory, and the worker's current
    /// process sent it.
    pub open spec fn may_run(self, worker_id: u32, job: JobView) -> bool {
        self.is_current(worker_id, job.generation) && self.manager.accepts_report(
            worker_id,
            job.session,
        )
    }

    /// The job succeeded: the worker's process has reported all of its blocks,
    /// and nothing of the reconciliation is left. Without effect where a newer
    /// inventory arrived meanwhile.
    pub open spec fn complete_job(self, worker_id: u32, job: JobView) -> FilesystemView {
        if self.is_current(worker_id, job.generation) {
            FilesystemView {
                manager: self.manager.complete_report(worker_id, job.session),
                reconciles: self.reconciles.remove(worker_id),
                ..self
            }
        } else {
            self
        }
    }

    /// The job failed: it waits for a retry, unless a newer inventory has
    /// taken its place.
    pub open spec fn fail_job(self, worker_id: u32, job: JobView, now_ms: u64) -> FilesystemView {
        FilesystemView {
            reconciles: if self.reconciles.contains_key(worker_id) {
                let state = self.reconciles[worker_id];
                self.reconciles.insert(
                    worker_id,
                    if state.generation == job.generation && state.pending is None {
                        ReconcileView {
                            running: false,
                            pending: Some(job),
                            retry_at_ms: self.retry_at(now_ms),
                            ..state
                        }
                    } else {
                        ReconcileView { running: false, ..state }
                    },
                )
            } else {
                self.reconciles
            },
            ..self
        }
    }
}

/// The blocks of `existing` that the inventory does not hold, in order.
pub open spec fn not_reported(existing: Seq<i64>, reported: Set<i64>) -> Seq<i64>
    decreases existing.len(),
{
    if existing.len() == 0 {
        Seq::empty()
    } else if reported.contains(existing.last()) {
        not_reported(existing.drop_last(), reported)
    } else {
        not_reported(existing.drop_last(), reported).push(existing.last())
    }
}

impl MasterFilesystem {
    /// Takes in that a reconciliation could not be started. The queued
    /// inventory, which may be a newer one by now, stays for a retry.
    pub fn spawn_full_block_reconcile_failed(&mut self, worker_id: u32, now_ms: u64)
        ensures
            final(self)@ == old(self)@.spawn_failed(worker_id, now_ms),
    {
        let retry_at_ms: u64 = self.full_block_reconcile_retry_at(now_ms);
        if let Some(mut state) = self.full_block_reconciles.remove(worker_id) {
            state.running = false;
            state.retry_at_ms = retry_at_ms;
            self.full_block_reconciles.insert(worker_id, state);
        }
        assert(self@ =~= old(self)@.spawn_failed(worker_id, now_ms));
    }

    /// The workers whose queued inventory is due, by increasing id. They count
    /// as running from now on.
    pub fn retry_full_block_reconciles(&mut self, now_ms: u64) -> (r: Vec<u32>)
        ensures
            final(self)@ == old(self)@.mark_running(old(self)@.reconciles_due(now_ms)),
            r@ == crate::ids::workers_in_order(old(self)@.reconciles_due(now_ms)),
            r@.to_set() == old(self)@.reconciles_due(now_ms),
            crate::ids::ascending_workers(r@),
    {
        let ids: Vec<u32> = self.full_block_reconciles.ids();
        let ghost due = self@.reconciles_due(now_ms);
        let mut r: Vec<u32> = Vec::new();
        assert(self@ =~= self@.mark_running(r@.to_set()));
        let mut i: usize = 0;
        while i < ids.len()
            invariant
                i <= ids.len(),
                due == old(self)@.reconciles_due(now_ms),
                crate::ids::ascending_workers(ids@),
                ids@.to_set() == old(self)@.reconciles.dom(),
                crate::ids::ascending_workers(r@),
                forall|k: u32| #[trigger]
                    r@.contains(k) <==> due.contains(k) && ids@.take(i as int).contains(k),
                self@ == old(self)@.mark_running(r@.to_set()),
            decreases ids.len() - i,
        {
            let id: u32 = ids[i];
            let ghost prev = r@;
            proof {
                assert(ids@.to_set().contains(id));
                crate::ids::step_members(ids@, i as int, due, prev);
                crate::ids::push_extends(prev, id);
                assert(!prev.to_set().contains(id));
            }
            if let Some(mut state) = self.full_block_reconciles.remove(id) {
                if !state.running && state.pending.is_some() && now_ms >= state.retry_at_ms {
                    state.running = true;
                    r.push(id);
                }
                self.full_block_reconciles.insert(id, state);
            }
            proof {
                assert(due.contains(id) == (r@.len() > prev.len()));
                assert(self@ =~= old(self)@.mark_running(r@.to_set()));
            }
            i += 1;
        }
        proof {
            crate::ids::all_members(ids@, due, r@);
        }
        r
    }

    /// Takes up the queued inventory of the worker.
    pub fn run_full_block_reconcile(&mut self, worker_id: u32) -> (r: ReconcileStep)
        ensures
            final(self)@ == old(self)@.take_job(worker_id),
            match r {
                ReconcileStep::Done => old(self)@.reconcile_of(worker_id).pending is None,
                ReconcileStep::Skip => old(self)@.reconcile_of(worker_id).pending is Some
                    && !old(self)@.may_run(
                    worker_id,
                    old(self)@.reconcile_of(worker_id).pending->0,
                ),
                ReconcileStep::Run(job) => old(self)@.reconcile_of(worker_id).pending == Some(job@)
                    && old(self)@.may_run(worker_id, job@),
            },
    {
        let mut state: FullBlockReconcileState = match self.full_block_reconciles.remove(
            worker_id,
        ) {
            Some(state) => state,
            None => {
                assert(self@ =~= old(self)@);
                return ReconcileStep::Done;
            },
        };
        let job: FullBlockReconcileJob = match state.pending.take() {
            Some(job) => job,
            None => {
                assert(self@ =~= old(self)@.take_job(worker_id));
                return ReconcileStep::Done;
            },
        };
        let current: bool = state.generation == job.generation;
        self.full_block_reconciles.insert(worker_id, state);
        assert(self@ =~= old(self)@.take_job(worker_id));
        if current && self.worker_manager.block_report_session_matches(
            worker_id,
            job.worker_session_id.as_str(),
        ) {
            ReconcileStep::Run(job)
        } else {
            ReconcileStep::Skip
        }
    }

    /// The recorded locations that the inventory does not confirm, or nothing
    /// where a newer inventory arrived meanwhile.
    pub fn reconcile_full_block_report(
        &self,
        worker_id: u32,
        job: &FullBlockReconcileJob,
        existing_blocks: Vec<i64>,
    ) -> (r: Option<Vec<i64>>)
        ensures
            match r {
                Some(stale) => self@.is_current(worker_id, job@.generation) && stale@
                    == not_reported(existing_blocks@, job@.reported),
                None => !self@.is_current(worker_id, job@.generation),
            },
    {
        if !self.is_full_block_reconcile_current(worker_id, job.generation) {
            return None;
        }
        let mut stale: Vec<i64> = Vec::new();
        let mut i: usize = 0;
        while i < existing_blocks.len()
            invariant
                i <= existing_blocks.len(),
                stale@ == not_reported(existing_blocks@.take(i as int), job@.reported),
            decreases existing_blocks.len() - i,
        {
            proof {
                crate::ids::take_step(existing_blocks@, i as int);
            }
            if !job.reported_blocks.contains(existing_blocks[i]) {
                stale.push(existing_blocks[i]);
            }
            i += 1;
        }
        assert(existing_blocks@.take(existing_blocks@.len() as int) =~= existing_blocks@);
        Some(stale)
    }

    /// Ends a job whose cleanup succeeded. The worker becomes ready, and its
    /// reconciliation is retired before another report can mistake it for
    /// work that is still under way.
    pub fn complete_full_block_reconcile(
        &mut self,
        worker_id: u32,
        job: FullBlockReconcileJob,
        replication_block_ids: Vec<i64>,
    ) -> (r: ReconcileEnd)
        ensures
            final(self)@ == old(self)@.complete_job(worker_id, job@),
            match r {
                ReconcileEnd::Superseded => !old(self)@.is_current(worker_id, job@.generation),
                ReconcileEnd::Completed { replicate } => old(self)@.is_current(
                    worker_id,
                    job@.generation,
                ) && replicate@ == (if job@.replicate {
                    replication_block_ids@
                } else {
                    Seq::empty()
                }),
            },
    {
        if !self.is_full_block_reconcile_current(worker_id, job.generation) {
            return ReconcileEnd::Superseded;
        }
        self.worker_manager.complete_worker_block_report(
            worker_id,
            job.worker_session_id.as_str(),
        );
        self.full_block_reconciles.remove(worker_id);
        if job.replicate {
            ReconcileEnd::Completed { replicate: replication_block_ids }
        } else {
            ReconcileEnd::Completed { replicate: Vec::new() }
        }
    }

    /// Ends a job that failed. It never takes the place of an inventory that
    /// was submitted after it.
    pub fn fail_full_block_reconcile(
        &mut self,
        worker_id: u32,
        job: FullBlockReconcileJob,
        now_ms: u64,
    )
        ensures
            final(self)@ == old(self)@.fail_job(worker_id, job@, now_ms),
    {
        let retry_at_ms: u64 = self.full_block_reconcile_retry_at(now_ms);
        if let Some(mut state) = self.full_block_reconciles.remove(worker_id) {
            if state.generation == job.generation && state.pending.is_none() {
                state.pending = Some(job);
                state.retry_at_ms = retry_at_ms;
            }
            state.running = false;
            self.full_block_reconciles.insert(worker_id, state);
        }
        assert(self@ =~= old(self)@.fail_job(worker_id, job@, now_ms));
    }

    /// Takes in what came of a job: the blocks that are to be replicated, or
    /// why it failed. Blocks are reported only for a job that asks for it and
    /// is still current, and only where there are any.
    pub fn full_block_reconcile_ended(
        &mut self,
        worker_id: u32,
        job: FullBlockReconcileJob,
        outcome: Result<Vec<i64>, FsError>,
        now_ms: u64,
    ) -> (r: ReconcileNext)
        ensures
            match outcome {
                Ok(ids) => final(self)@ == old(self)@.complete_job(worker_id, job@) && match r {
                    ReconcileNext::Again => !old(self)@.is_current(worker_id, job@.generation),
                    ReconcileNext::Report(report) => old(self)@.is_current(
                        worker_id,
                        job@.generation,
                    ) && job@.replicate && ids@.len() > 0 && report@ == ids@,
                    ReconcileNext::Stop => old(self)@.is_current(worker_id, job@.generation) && !(
                    job@.replicate && ids@.len() > 0),
                },
                Err(_) => r is Stop && final(self)@ == old(self)@.fail_job(
                    worker_id,
                    job@,
                    now_ms,
                ),
            },
    {
        match outcome {
            Ok(ids) => match self.complete_full_block_reconcile(worker_id, job, ids) {
                ReconcileEnd::Superseded => ReconcileNext::Again,
                ReconcileEnd::Completed { replicate } => if replicate.len() > 0 {
                    ReconcileNext::Report(replicate)
                } else {
                    ReconcileNext::Stop
                },
            },
            Err(_) => {
                self.fail_full_block_reconcile(worker_id, job, now_ms);
                ReconcileNext::Stop
            },
        }
    }
}

} // verus!
