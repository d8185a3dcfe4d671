//! Deterministic admission, metering and settlement rules of a Dytallix node.
mod bytes;
pub mod record_keys;
pub mod text;
pub mod ordinary_meter;
pub mod block_meter;
pub mod transaction_meter;
pub mod governance_v3_meter;
pub mod genesis;
pub mod governance_v3_fee_settlement;
pub mod governance_signed_admission;
pub mod mempool;
pub mod metrics;
pub mod ordinary_logical;
pub mod laws;
pub mod ordinary_fee_settlement;
pub mod ordinary_authority;
pub mod mempool_queue;
pub mod ordinary_reservation;
pub mod ordinary_execution;
pub mod ordinary_admission;
pub mod ordinary_planning;
pub mod ordinary_actions;
pub mod ordinary_run;
