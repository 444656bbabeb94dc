//! Relying-party core of a passkey (WebAuthn-style) challenge-response
//! authentication protocol: it issues registration and authentication
//! challenges, validates the structure of client responses, and verifies
//! ECDSA P-256 assertion signatures against a registry of stored public
//! keys.

pub mod authenticator;
pub mod base64;
pub mod bytes;
pub mod client_data;
pub mod crypto;
pub mod origin;
pub mod registry;
pub mod service;
