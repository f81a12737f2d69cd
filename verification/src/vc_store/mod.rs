//! Credential storage: the persisted envelope types and an in-memory store.

pub mod in_memory;
pub mod keyed;
pub mod keys;
pub mod laws;
pub mod order;
pub mod types;

pub use types::{StoredVc, StoredVcView, VcMetadata, VcMetadataView, VcOpening, VcOpeningView};
