//! Keystore certificate post-processing: attestation certificate chains are replaced, and
//! attestation keys provisioned, by a backend.
//!
//! The two operations are [`KeystoreCertificatePostProcessor`]'s. Each is a sequence of steps: a
//! step says what is to be done next with the keystore or the backend, and is told what came of
//! it. The modules [`overwrite`] and [`provision`] hold the steps of the operations, [`keystore`]
//! those towards the key that stands for the device, [`request`], [`rpc`] and [`retry`] those of a
//! request to the backend. The other modules hold what the steps compute with: the encodings
//! ([`der`], [`grpc`], [`identity`]), the encrypted reply ([`response`]), certificate chains
//! ([`chain`]) and key parameters ([`keys`]).

pub mod bytes;
pub mod chain;
pub mod crypto;
pub mod der;
pub mod grpc;
pub mod identity;
pub mod keys;
pub mod keystore;
pub mod overwrite;
pub mod provision;
pub mod request;
pub mod request_id;
pub mod response;
pub mod retry;
pub mod rpc;
pub mod text;
pub mod types;
pub mod x509;

pub use grpc::USE_BACKEND_PROXY;

use vstd::prelude::*;

verus! {

/// Enables verbose diagnostics.
pub const INTENSIVE_LOGS_ENABLED: bool = false;

/// Replaces attestation certificate chains and provisions attestation keys.
pub struct KeystoreCertificatePostProcessor;

} // verus!
