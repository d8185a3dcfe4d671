//! Node metrics. This build records nothing: every recording method is a
//! no-op, so observability has no effect on node behavior.
use vstd::prelude::*;
use core::time::Duration;

verus! {

/// The metrics handle. It holds no state.
pub struct Metrics;

impl Metrics {
    pub fn new() -> (r: Result<Metrics, ()>)
        ensures
            r is Ok,
    {
        Ok(Metrics)
    }

    pub fn record_block(&self, _height: u64, _tx_count: usize, _gas_used: u64, _processing_time: Duration) {
    }

    pub fn update_mempool_size(&self, _size: usize) {
    }

    pub fn update_mempool_bytes(&self, _bytes: usize) {
    }

    pub fn record_mempool_admission(&self) {
    }

    pub fn record_mempool_rejection(&self, _reason: &str) {
    }

    pub fn record_mempool_eviction(&self, _reason: &str) {
    }

    pub fn update_mempool_min_gas_price(&self, _gas_price: u64) {
    }

    pub fn record_gossip_duplicate(&self) {
    }

    pub fn record_transaction(&self, _processing_time: Duration) {
    }

    pub fn record_oracle_update(&self, _latency: Duration) {
    }

    pub fn record_oracle_submission(&self, _status: &str) {
    }

    pub fn update_emission_apply(&self, _height: u64, _pending_udrt_total: u128, _ts: u64) {
    }

    pub fn update_current_block_gas(&self, _gas: u64) {
    }
}

} // verus!
