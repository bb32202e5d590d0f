//! Points at which a reconciliation that has just completed can be held, so
//! that what happens right behind its end can be observed.

use vstd::prelude::*;

use crate::ids::IdMap;

verus! {

/// A hold on the next reconciliation of a worker to complete.
#[derive(Clone, Copy, Debug, PartialEq, Eq, Structural)]
pub struct ReconcileCompletionHook {
    /// By this number whoever installed the hold recognizes it.
    pub ticket: u64,
}

impl View for ReconcileCompletionHook {
    type V = u64;

    open spec fn view(&self) -> u64 {
        self.ticket
    }
}

/// The holds in place, at most one for each worker.
pub struct ReconcileCompletionHooks {
    pub hooks: IdMap<ReconcileCompletionHook>,
}

/// No holds.
pub fn reconcile_completion_hooks() -> (r: ReconcileCompletionHooks)
    ensures
        r.hooks@ == Map::<u32, u64>::empty(),
{
    ReconcileCompletionHooks { hooks: IdMap::new() }
}

/// Takes the hold that applies to a reconciliation that has just completed.
/// It is out of the way of other workers before anyone waits on it.
pub fn pause_completed_reconcile_for_test(
    hooks: &mut ReconcileCompletionHooks,
    worker_id: u32,
) -> (r: Option<ReconcileCompletionHook>)
    ensures
        final(hooks).hooks@ == old(hooks).hooks@.remove(worker_id),
        match r {
            Some(hook) => old(hooks).hooks@.contains_key(worker_id) && hook.ticket == old(
                hooks,
            ).hooks@[worker_id],
            None => !old(hooks).hooks@.contains_key(worker_id),
        },
{
    hooks.hooks.remove(worker_id)
}

/// A hold that was installed and has to be released.
pub struct ReconcileCompletionPause {
    pub worker_id: u32,
    pub ticket: u64,
}

impl ReconcileCompletionPause {
    /// Holds the next reconciliation of the worker to complete. None may be
    /// held already.
    pub fn install(hooks: &mut ReconcileCompletionHooks, worker_id: u32, ticket: u64) -> (r: Self)
        requires
            !old(hooks).hooks@.contains_key(worker_id),
        ensures
            final(hooks).hooks@ == old(hooks).hooks@.insert(worker_id, ticket),
            r.worker_id == worker_id,
            r.ticket == ticket,
    {
        hooks.hooks.insert(worker_id, ReconcileCompletionHook { ticket });
        ReconcileCompletionPause { worker_id, ticket }
    }

    /// Lets the worker's reconciliations complete again.
    pub fn release(self, hooks: &mut ReconcileCompletionHooks)
        ensures
            final(hooks).hooks@ == old(hooks).hooks@.remove(self.worker_id),
    {
        hooks.hooks.remove(self.worker_id);
    }
}

/// A hold applies to one completion only.
pub proof fn hold_applies_once(hooks: Map<u32, u64>, worker_id: u32, ticket: u64)
    requires
        !hooks.contains_key(worker_id),
    ensures
        hooks.insert(worker_id, ticket).remove(worker_id) == hooks,
{
    assert(hooks.insert(worker_id, ticket).remove(worker_id) =~= hooks);
}

} // verus!
