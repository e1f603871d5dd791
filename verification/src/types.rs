//! The values that pass between the library and the services around it.

use vstd::prelude::*;

verus! {

/// A certificate and the concatenated DER certificates above it.
#[derive(Debug)]
pub struct CertificateChain {
    pub leaf_certificate: Vec<u8>,
    pub remaining_chain: Vec<u8>,
}

/// An attestation key as the caller receives it.
#[derive(Debug)]
pub struct ProvisionedAttestationKey {
    pub secure_key_wrapper: Vec<u8>,
    pub leaf_certificate: Vec<u8>,
    pub remaining_chain: Vec<u8>,
}

/// An encrypted reply of the backend.
#[derive(Debug)]
pub struct EncryptedResponse {
    pub encrypted_response: Vec<u8>,
    pub response_nonce: Vec<u8>,
    pub response_ephemeral_public_key: Vec<u8>,
}

/// What the encrypted reply to an overwrite request holds.
#[derive(Debug)]
pub struct OverwriteAttestationResponsePlaintext {
    pub leaf_certificate: Vec<u8>,
    pub remaining_chain: Vec<u8>,
    pub reprovision_attestation_key: bool,
}

/// What the encrypted reply to a provisioning request holds.
#[derive(Debug)]
pub struct ProvisionAttestationKeyResponsePlaintext {
    pub secure_key_wrapper: Vec<u8>,
    pub leaf_certificate: Vec<u8>,
    pub remaining_chain: Vec<u8>,
}

/// What the caller asks the certificate of a new attestation key to say.
#[derive(Debug)]
pub struct AttestationKeyCertificateProfile {
    pub subject_der: Vec<u8>,
    pub serial_number: Vec<u8>,
    pub not_before_ms: i64,
    pub not_after_ms: i64,
    pub attestation_challenge: Vec<u8>,
    pub attestation_application_id: Vec<u8>,
}

/// What the backend is asked to let the certificate of a new attestation key say.
#[derive(Debug)]
pub struct WireAttestationKeyCertificateProfile {
    pub subject_der: Vec<u8>,
    pub serial_number: Vec<u8>,
    pub not_before_ms: i64,
    pub not_after_ms: i64,
    pub attestation_challenge: Vec<u8>,
    pub attestation_application_id: Vec<u8>,
}

/// A request for a replacement of an attestation certificate chain.
#[derive(Debug)]
pub struct OverwriteAttestationRequest {
    pub leaf_certificate: Vec<u8>,
    pub remaining_chain: Vec<u8>,
    pub request_id: String,
    pub device_attestation_chain: Vec<Vec<u8>>,
    pub response_encryption_key_chain: Vec<Vec<u8>>,
    pub untrusted_device_serial: String,
    pub protocol_version: u32,
    pub device_identity_signature: Vec<u8>,
}

/// A request for an attestation key.
#[derive(Debug)]
pub struct ProvisionAttestationKeyRequest {
    pub request_id: String,
    pub device_attestation_chain: Vec<Vec<u8>>,
    pub response_encryption_key_chain: Vec<Vec<u8>>,
    pub untrusted_device_serial: String,
    pub certificate_profile: Option<WireAttestationKeyCertificateProfile>,
    pub wrapping_key_chain: Vec<Vec<u8>>,
    pub device_identity_signature: Vec<u8>,
}

/// A failure that is reported to the caller: a service-specific code and a message.
#[derive(Debug)]
pub struct ServiceError {
    pub code: i32,
    pub message: String,
}

/// Why one attempt at a request failed.
#[derive(Debug)]
pub enum OverwriteAttemptError {
    InvalidArgument(String),
    EmptyResponse,
    Retryable(String),
    Fatal(String),
}

/// Why a request failed in the end.
#[derive(Debug)]
pub enum OverwriteRequestError {
    InvalidArgument(String),
    Backend(String),
}

/// Why one attempt at a request failed, as a mathematical value.
pub enum AttemptFailure {
    InvalidArgument(Seq<char>),
    EmptyResponse,
    Retryable(Seq<char>),
    Fatal(Seq<char>),
}

/// Why a request failed in the end, as a mathematical value.
pub enum RequestFailure {
    InvalidArgument(Seq<char>),
    Backend(Seq<char>),
}

impl View for OverwriteAttemptError {
    type V = AttemptFailure;

    open spec fn view(&self) -> AttemptFailure {
        match *self {
            OverwriteAttemptError::InvalidArgument(message) => AttemptFailure::InvalidArgument(
                message@,
            ),
            OverwriteAttemptError::EmptyResponse => AttemptFailure::EmptyResponse,
            OverwriteAttemptError::Retryable(message) => AttemptFailure::Retryable(message@),
            OverwriteAttemptError::Fatal(message) => AttemptFailure::Fatal(message@),
        }
    }
}

impl View for OverwriteRequestError {
    type V = RequestFailure;

    open spec fn view(&self) -> RequestFailure {
        match *self {
            OverwriteRequestError::InvalidArgument(message) => RequestFailure::InvalidArgument(
                message@,
            ),
            OverwriteRequestError::Backend(message) => RequestFailure::Backend(message@),
        }
    }
}

/// The request to the server could not be made or was refused.
pub const ERROR_SERVER_REQUEST: i32 = -2;

/// The reply of the server cannot be used.
pub const ERROR_SERVER_RESPONSE: i32 = -3;

/// The attestation key has to be provisioned anew.
pub const ERROR_REPROVISION_ATTESTATION_KEY: i32 = -4;

/// `error` has this code and this message.
pub open spec fn is_service_error(error: ServiceError, code: i32, message: Seq<char>) -> bool {
    error.code == code && error.message@ == message
}

/// A failure with this code and this message.
pub fn service_error(code: i32, message: &str) -> (error: ServiceError)
    ensures
        is_service_error(error, code, message@),
{
    ServiceError { code, message: message.to_owned() }
}

/// The view of a failure keeps its kind and its text.
pub proof fn law_failure_views(message: String)
    ensures
        OverwriteAttemptError::InvalidArgument(message)@ == AttemptFailure::InvalidArgument(
            message@,
        ),
        OverwriteAttemptError::EmptyResponse@ == AttemptFailure::EmptyResponse,
        OverwriteAttemptError::Retryable(message)@ == AttemptFailure::Retryable(message@),
        OverwriteAttemptError::Fatal(message)@ == AttemptFailure::Fatal(message@),
        OverwriteRequestError::InvalidArgument(message)@ == RequestFailure::InvalidArgument(
            message@,
        ),
        OverwriteRequestError::Backend(message)@ == RequestFailure::Backend(message@),
{
}

/// A failure is known by its code and its whole message.
pub proof fn law_service_error(error: ServiceError, code: i32, message: Seq<char>)
    ensures
        is_service_error(error, code, message) <==> error.code == code && error.message@ == message,
{
}

} // verus!
