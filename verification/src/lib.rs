//! Witness preparation for a rollup prover pipeline.
//!
//! The library replays committed blocks of ledger operations against a
//! sparse Merkle account tree, producing the structured witness input a
//! proof generator consumes (`ProverData`), and maintains a pool of
//! per-block-size queues of committed blocks awaiting witness preparation.

pub mod account;
pub mod hashing;
pub mod tree;
pub mod ops;
pub mod store;
pub mod witness;
pub mod replay;
pub mod pool;
pub mod laws;
