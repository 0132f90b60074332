//! A ledger-processing engine: a fixed set of accounts, the operations
//! that workers apply to them, the text that ledger entries are read
//! from, and the queue and pool bookkeeping around the workers.

pub mod bank;
pub mod laws;
pub mod ledger;
pub mod model;
pub mod pool;
pub mod queue;
pub mod text;
pub mod worker;
