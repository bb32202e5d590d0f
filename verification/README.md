# curvine_master

The decision core of a distributed cache master, written in Verus. It keeps
track of the workers of a cluster, of the blocks that they hold, and of what
has to be cleaned up when they leave.

- `src/` is the verified library. Time, the namespace store, placement policy
  and retry cache come in as plain values; the contracts say what follows from
  them.
  - `worker_manager`, `manager_model`, `worker_map`, `sessions`, `block_map`:
    registration, session fencing, grace periods and queued deletions.
  - `placement`, `decommission`: where blocks go, and workers by host.
  - `block_report`, `report_diagnostics`, `reconcile`, `cleanup`: inventories
    of workers, their comparison with the recorded locations, and the removal
    of locations and cached files, step by step.
  - `heartbeat_checker`: the periodic check for silent workers.
  - `namespace`, `filesystem_info`: rules for paths and files, and the cluster
    at a glance.
  - `snapshot`, `delta`: pages of the metadata listing and of its changes.
  - `compatibility`, `master_handler`: peer versions, routing and retries.
  - `worker_laws`, `report_laws`, `paging_laws`, `listing_laws`: what holds
    across operations.
- `tests/` runs the library, with a small namespace in memory.
- `app/` is the running master around it: locks, executors and the request
  surface.
