//! A verified core for a chunked-upload pipeline over a ledger-style network.
//!
//! A byte payload is split into fixed-size, offset-tagged chunks; each chunk is
//! wrapped in an independently signed transaction; all chunks are submitted and
//! then driven to a confirmed state through batched status polling and bounded
//! re-signing rounds. The decision logic — chunking, status classification,
//! batching, the retry state machine, and progress reporting — is verified;
//! the ledger SDK calls that build and sign transactions, and the network I/O
//! that submits them, sit behind a small trusted boundary.

pub mod chunks;
pub mod builders;
pub mod sdk;
pub mod session;
pub mod errors;
pub mod files;
pub mod status;
