//! The core data model: identifiers, entries, observations, fingerprints and
//! the entry store.

pub mod entry;
pub mod fingerprint;
pub mod ids;
pub mod observation;
pub mod store;
