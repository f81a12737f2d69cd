//! Verified core of a Midnight credential wallet: the credential store,
//! the OID4VCI issuance decisions and the decoding of wire credentials,
//! and the pure helpers behind the digital-passport credential view.

pub mod codec;
pub mod telemetry;
pub mod text;
pub mod vc_store;
pub mod vc_views;
pub mod oid4vci_client;
