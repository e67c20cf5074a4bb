//! Retry policies and the decision logic of a transaction executor that keeps
//! re-submitting a transaction until one of its attempts lands.

pub mod arith;
pub mod tip_policy;
pub mod signature_watch;
pub mod transaction_executor_config;
pub mod transaction_executor_builder;
pub mod transaction_executor;
pub mod priority_fee_policy;
