//! An append-only ledger of transactions grouped into blocks that are chained
//! by cryptographic hash. Block admission is gated by a proof-of-work puzzle,
//! and each block carries a Merkle root over its transactions so that a
//! transaction's presence can be proved by a short path of sibling hashes.
pub mod block;
pub mod digest;
pub mod ledger;
pub mod merkle;
pub mod text;
pub mod transaction;
