//! An in-memory replica of a rollup ledger's verified account state, kept
//! current by replaying the operations of newly verified blocks, for a node
//! that waits to take the lead.
//!
//! - [`account`]: the leaf that the account tree stores for one account.
//! - [`tree`]: the account tree, a sparse map from account identifiers to
//!   leaves within a fixed address space.
//! - [`operation`]: the ledger's operations and what each does to the
//!   leaves.
//! - [`replay`]: operations applied to a tree.
//! - [`observer`]: the observed state, its initial load and the replay of
//!   whole blocks.
//! - [`sync`]: the synchronizer, which decides what observer mode does next.
//! - [`laws`], [`progress`]: what holds of every load, replay and run.

pub mod account;
pub mod laws;
pub mod observer;
pub mod operation;
pub mod progress;
pub mod replay;
pub mod sync;
pub mod tree;
