//! A deterministic state-transition kernel: an account ledger, per-account
//! nonces and a block counter, and a content-claim registry, composed into a
//! runtime that executes blocks of extrinsics.

pub mod keyed;
pub mod support;
pub mod types;
pub mod balances;
pub mod system;
pub mod proof_of_existence;
pub mod runtime;
