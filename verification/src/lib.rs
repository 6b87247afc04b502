//! A staged escrow: a payer locks a deposit in a record bound to
//! (payer, worker, contract id), and the worker draws it in three installments.
//!
//! Every function here is a pure transition over plain account values; the
//! ledger host that stores the accounts is outside this crate.

pub mod error;
pub mod address;
pub mod wire;
pub mod instruction;
pub mod account;
pub mod record;
pub mod guard;
pub mod release;
pub mod creator;
pub mod processor;
pub mod laws;
