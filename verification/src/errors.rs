//! Error taxonomy of the pipeline.  Transport faults are retryable;
//! protocol and shape mismatches are fatal for the record or session that
//! raised them; an absent mapping slot is not an error at all.

use vstd::prelude::*;

verus! {

/// Failure of one node mapping-lookup request.
#[derive(Clone, Copy, Debug, PartialEq, Eq)]
pub enum FetchError {
    /// The slot does not exist; legitimate for not-yet-created entities.
    NotFound,
    /// The node was unreachable or answered with a failure status.
    Transport,
    /// The response body did not have the declared value shape.
    Decode,
}

/// Failure to decode a block-scoped envelope or its binary payload.
#[derive(Clone, Copy, Debug, PartialEq, Eq)]
pub enum DecodeError {
    /// The output's module name was not the subscribed module.
    ProtocolMismatch,
    /// The payload was a set of incremental store deltas, not a bulk map
    /// output.
    StoreDeltas,
    /// The binary payload or a field inside it was malformed.
    Malformed,
}

/// Failure to project one execution record.
#[derive(Clone, Copy, Debug, PartialEq, Eq)]
pub enum ProjectionError {
    /// The record lacks a finalize argument the operation needs, or holds
    /// one that does not parse.
    MalformedRecord,
    /// A mapping fetch failed; any sub-steps already applied stay applied.
    Fetch(FetchError),
}

/// Failure of a key-addressed store write.
#[derive(Clone, Copy, Debug, PartialEq, Eq)]
pub enum PersistenceError {
    /// The write lacks a part its row's schema requires.
    MissingField,
}

/// Failure to derive a mapping slot key.
#[derive(Clone, Copy, Debug, PartialEq, Eq)]
pub enum KeyError {
    /// No identities, too many identities, or an empty identity string.
    BadIdentity,
    /// An identity did not parse as a field element.
    BadFieldLiteral,
}

} // verus!
