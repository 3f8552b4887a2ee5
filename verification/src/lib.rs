//! A persistent record store for time capsules: free-form text plus an
//! unlock timestamp, keyed by an auto-incrementing 64-bit ID.
//!
//! The store keeps its records in a durable ordered map and a durable
//! counter cell from `ic_stable_structures`, with each record held as its
//! candid encoding; the logic around those collaborators — ID allocation,
//! lookup, update, delete, scans and counts — is verified against a map
//! model of the stored records.

pub mod capsule;
pub mod codec;
pub mod durable;
pub mod handlers;
pub mod laws;
pub mod store;
pub mod text;

pub use capsule::Error;
pub use capsule::TimeCapsule;
pub use capsule::TimeCapsulePayload;
pub use store::Store;
