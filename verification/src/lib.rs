//! Verified core of a ledger-indexing pipeline for an on-chain voting
//! program: envelope decoding, mapping-key derivation, idempotent state
//! projection, and a resumable feed session.

pub mod cursor;
pub mod decode;
pub mod entities;
pub mod envelope;
pub mod errors;
pub mod fetch;
pub mod gateway;
pub mod json;
pub mod keys;
pub mod models;
pub mod numtext;
pub mod projector;
pub mod records;
pub mod session;
pub mod store;
pub mod sync;
pub mod wire;

pub use store::StrTable;
pub use store::U64Table;
