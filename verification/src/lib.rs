//! A single-node, append-only ledger: blocks linked by SHA-256, sealed by a
//! fixed-difficulty proof of work, with a pool of pending transactions.
//!
//! - `digest`: SHA-256 digests and their hexadecimal form.
//! - `pow`: the proof-of-work puzzle, its check and its search.
//! - `clock`: points in time and the wall clock.
//! - `canon`, `transaction`, `block`: the data of the ledger and its
//!   canonical text, from which hashes are derived.
//! - `node`: the ledger itself, with the two halves of mining.
//! - `laws`: what holds of every ledger.
//!
//! The ledger is a plain value; whoever shares it between threads guards it
//! with one lock, and searches for proofs while not holding that lock.

pub mod block;
pub mod canon;
pub mod clock;
pub mod digest;
pub mod laws;
pub mod node;
pub mod pow;
pub mod transaction;

pub use block::Block;
pub use clock::{ClockError, Timestamp};
pub use node::Node;
pub use pow::{proof_of_work, valid_proof};
pub use transaction::Transaction;
