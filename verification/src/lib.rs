//! The decision core of a distributed cache master: worker registration and
//! session fencing, block-report reconciliation, lost-worker cleanup,
//! metadata paging and request routing, each with a proved contract.

pub mod block_map;
pub mod block_report;
pub mod cleanup;
pub mod compatibility;
pub mod completion_hooks;
pub mod conf;
pub mod decommission;
pub mod delta;
pub mod effect_laws;
pub mod error;
pub mod filesystem_info;
pub mod heartbeat_checker;
pub mod heartbeat_laws;
pub mod ids;
pub mod inventory_laws;
pub mod listing_laws;
pub mod manager_model;
pub mod master_filesystem;
pub mod master_handler;
pub mod master_laws;
pub mod model;
pub mod namespace;
pub mod paging_laws;
pub mod path_laws;
pub mod placement;
pub mod placement_laws;
pub mod reconcile;
pub mod report_diagnostics;
pub mod report_laws;
pub mod request_laws;
pub mod sessions;
pub mod snapshot;
pub mod text;
pub mod text_laws;
pub mod view_laws;
pub mod worker_laws;
pub mod worker_manager;
pub mod worker_map;
