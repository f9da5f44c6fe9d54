//! Partitioned processing of account transactions.
//!
//! An ordered stream of deposits, withdrawals, disputes, resolves and
//! chargebacks is routed to a fixed pool of workers by account id, and each
//! worker applies its share, in arrival order, to the accounts it owns.
//!
//! The contracts of this library are proved by Verus. The few functions
//! that call into `rust_decimal` and `num_cpus` state what they rely on.

pub mod amount;
pub mod client;
pub mod csv_ingestor;
pub mod dispatcher;
pub mod error;
pub mod worker;
