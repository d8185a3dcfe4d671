use dytallix_fast_node::metrics::Metrics;
use std::time::Duration;

#[test]
fn metrics_methods_are_no_ops() {
    let metrics = Metrics::new().expect("Should create no-op metrics");
    metrics.record_block(1, 5, 100, Duration::from_millis(250));
    metrics.update_mempool_size(25);
    metrics.record_oracle_update(Duration::from_millis(150));
    metrics.update_mempool_bytes(1);
    metrics.record_mempool_admission();
    metrics.record_mempool_rejection("nonce_gap");
    metrics.record_mempool_eviction("capacity");
    metrics.update_mempool_min_gas_price(1000);
    metrics.record_gossip_duplicate();
    metrics.record_transaction(Duration::from_millis(1));
    metrics.record_oracle_submission("ok");
    metrics.update_emission_apply(1, 2, 3);
    metrics.update_current_block_gas(4);
}
