//! The settings that the master's decisions depend on.

use vstd::prelude::*;

verus! {

#[derive(Clone, Copy, Debug, PartialEq, Eq, Structural)]
pub struct MasterConf {
    pub min_replication: u16,
    pub max_replication: u16,
    pub min_block_size: i64,
    pub max_block_size: i64,
    pub max_path_len: usize,
    pub max_path_depth: usize,
    pub worker_check_interval_ms: u64,
    pub worker_blacklist_interval_ms: u64,
    pub worker_lost_interval_ms: u64,
}

impl Default for MasterConf {
    fn default() -> (r: Self)
        ensures
            r == (MasterConf {
                min_replication: 1,
                max_replication: 100,
                min_block_size: 1_048_576,
                max_block_size: 107_374_182_400,
                max_path_len: 8000,
                max_path_depth: 1000,
                worker_check_interval_ms: 10_000,
                worker_blacklist_interval_ms: 30_000,
                worker_lost_interval_ms: 600_000,
            }),
    {
        MasterConf {
            min_replication: 1,
            max_replication: 100,
            min_block_size: 1_048_576,
            max_block_size: 107_374_182_400,
            max_path_len: 8000,
            max_path_depth: 1000,
            worker_check_interval_ms: 10_000,
            worker_blacklist_interval_ms: 30_000,
            worker_lost_interval_ms: 600_000,
        }
    }
}

} // verus!
