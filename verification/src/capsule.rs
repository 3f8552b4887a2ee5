//! The record type of the store, its creation payload, and the one
//! business error.

use vstd::prelude::*;

verus! {

/// A stored record: an ID assigned by the store, a free-form text payload,
/// and the timestamp at which the capsule is meant to unlock.
pub struct TimeCapsule {
    pub id: u64,
    pub content: String,
    pub unlock_date: u64,
}

/// The input to creation: a capsule without an ID.
pub struct TimeCapsulePayload {
    pub content: String,
    pub unlock_date: u64,
}

/// The sole business error: an operation named an ID that is absent from
/// the store. The message names the ID and the operation that failed.
pub enum Error {
    NotFound { msg: String },
}

/// The message carried by an error.
pub open spec fn error_msg(e: Error) -> Seq<char> {
    match e {
        Error::NotFound { msg } => msg@,
    }
}

/// The mathematical value of a capsule: its ID, the characters of its
/// content, and its unlock timestamp.
pub open spec fn capsule_view(c: TimeCapsule) -> (u64, Seq<char>, u64) {
    (c.id, c.content@, c.unlock_date)
}

/// The values of a sequence of capsules.
pub open spec fn views_of(s: Seq<TimeCapsule>) -> Seq<(u64, Seq<char>, u64)> {
    s.map_values(|c: TimeCapsule| capsule_view(c))
}

} // verus!
