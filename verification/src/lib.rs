//! Core of a replicated-ledger payment system: signed transactions whose
//! economic content is bound to an Ed25519 signature, conditional spending
//! plans with a total-payout check, and a parallel batch verifier.

pub mod crypto;
pub mod plan;
pub mod codec;
pub mod transaction;
