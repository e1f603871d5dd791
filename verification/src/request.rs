//! What is sent to the backend: requests, what is signed of them, and their frames.

use vstd::prelude::*;
use vstd::slice::slice_to_vec;

use crate::bytes::{chain_view, copy_chain, joined, slices_view};
use crate::crypto::sha256_digest;
use crate::der::{
    certificates_of, is_der_sequence, law_split_partitions, split_concatenated_der_certificates,
};
use crate::grpc::{encode_grpc_frame, grpc_frame, GRPC_MAX_MESSAGE_BYTES, REQUEST_TOO_LARGE};
use crate::identity::{
    canonical_overwrite, canonical_provision, overwrite_device_identity_digest,
    provision_device_identity_digest, ATTESTATION_PROTOCOL_VERSION,
};
use crate::keystore::DeviceIdentityKey;
use crate::text::{join2, join3};
use crate::types::{
    AttestationKeyCertificateProfile, OverwriteAttestationRequest, OverwriteRequestError,
    ProvisionAttestationKeyRequest, RequestFailure, WireAttestationKeyCertificateProfile,
};

verus! {

pub const WRAPPING_LEAF_NOT_ALONE: &'static str =
    "wrapping-key leaf field must contain exactly one certificate";

pub const REQUEST_ENCODE_FAILED: &'static str = " request encode failed: ";

pub const REQUEST_FRAME_FAILED: &'static str = " request frame failed: ";

pub const CLIENT_FAILED: &'static str = "attestation overwrite HTTP client failed: ";

/// An overwrite request that waits for the signature on its digest.
#[derive(Debug)]
pub struct UnsignedOverwrite {
    pub request: OverwriteAttestationRequest,
    pub digest: Vec<u8>,
}

/// A provisioning request that waits for the signature on its digest.
#[derive(Debug)]
pub struct UnsignedProvision {
    pub request: ProvisionAttestationKeyRequest,
    pub digest: Vec<u8>,
}

/// Begins a request for a replacement of a certificate chain.
pub fn request_overwrite(
    request_id: &str,
    leaf_certificate: &[u8],
    remaining_chain: &[u8],
    device_identity: &DeviceIdentityKey,
    response_key_chain: &Vec<Vec<u8>>,
) -> (unsigned: UnsignedOverwrite)
    ensures
        unsigned.request.leaf_certificate@ == leaf_certificate@,
        unsigned.request.remaining_chain@ == remaining_chain@,
        unsigned.request.request_id@ == request_id@,
        chain_view(unsigned.request.device_attestation_chain@) == chain_view(
            device_identity.certificate_chain@,
        ),
        chain_view(unsigned.request.response_encryption_key_chain@) == chain_view(
            response_key_chain@,
        ),
        unsigned.request.untrusted_device_serial@ == device_identity.untrusted_device_serial@,
        unsigned.request.protocol_version == ATTESTATION_PROTOCOL_VERSION,
        unsigned.request.device_identity_signature@.len() == 0,
        unsigned.digest@ == sha256_digest(canonical_overwrite(unsigned.request)),
        unsigned.digest@.len() == 32,
{
    let request = OverwriteAttestationRequest {
        leaf_certificate: slice_to_vec(leaf_certificate),
        remaining_chain: slice_to_vec(remaining_chain),
        request_id: request_id.to_owned(),
        device_attestation_chain: copy_chain(&device_identity.certificate_chain),
        response_encryption_key_chain: copy_chain(response_key_chain),
        untrusted_device_serial: device_identity.untrusted_device_serial.clone(),
        protocol_version: ATTESTATION_PROTOCOL_VERSION,
        device_identity_signature: Vec::new(),
    };
    let digest = overwrite_device_identity_digest(&request);
    UnsignedOverwrite { request, digest }
}

impl UnsignedOverwrite {
    /// The request with its signature. `signature` is what signing the digest came to.
    pub fn signed(self, signature: Result<Vec<u8>, String>) -> (request: Result<
        OverwriteAttestationRequest,
        OverwriteRequestError,
    >)
        ensures
            match signature {
                Ok(bytes) => request == Ok::<OverwriteAttestationRequest, OverwriteRequestError>(
                    (OverwriteAttestationRequest {
                        device_identity_signature: bytes,
                        ..self.request
                    }),
                ),
                Err(reason) => request == Err::<OverwriteAttestationRequest, OverwriteRequestError>(
                    OverwriteRequestError::Backend(reason),
                ),
            },
    {
        let mut request = self.request;
        match signature {
            Ok(bytes) => {
                request.device_identity_signature = bytes;
                Ok(request)
            },
            Err(reason) => Err(OverwriteRequestError::Backend(reason)),
        }
    }
}

/// What the caller asks a certificate to say, as the backend is asked.
pub fn wire_attestation_key_profile(profile: &AttestationKeyCertificateProfile) -> (wire:
    WireAttestationKeyCertificateProfile)
    ensures
        is_wire_form(wire, *profile),
{
    WireAttestationKeyCertificateProfile {
        subject_der: slice_to_vec(profile.subject_der.as_slice()),
        serial_number: slice_to_vec(profile.serial_number.as_slice()),
        not_before_ms: profile.not_before_ms,
        not_after_ms: profile.not_after_ms,
        attestation_challenge: slice_to_vec(profile.attestation_challenge.as_slice()),
        attestation_application_id: slice_to_vec(profile.attestation_application_id.as_slice()),
    }
}

/// `wire` asks for what `profile` asks for.
pub open spec fn is_wire_form(
    wire: WireAttestationKeyCertificateProfile,
    profile: AttestationKeyCertificateProfile,
) -> bool {
    &&& wire.subject_der@ == profile.subject_der@
    &&& wire.serial_number@ == profile.serial_number@
    &&& wire.not_before_ms == profile.not_before_ms
    &&& wire.not_after_ms == profile.not_after_ms
    &&& wire.attestation_challenge@ == profile.attestation_challenge@
    &&& wire.attestation_application_id@ == profile.attestation_application_id@
}

/// The certificates of a wrapping key: its own, which has to be one, and those above it.
pub open spec fn wrapping_certificates(leaf_certificate: Seq<u8>, remaining_chain: Seq<u8>) -> Result<
    Seq<Seq<u8>>,
    Seq<char>,
> {
    match certificates_of(leaf_certificate) {
        Err(reason) => Err(reason),
        Ok(leaf) => if leaf.len() != 1 {
            Err(WRAPPING_LEAF_NOT_ALONE@)
        } else {
            match certificates_of(remaining_chain) {
                Err(reason) => Err(reason),
                Ok(chain) => Ok(leaf + chain),
            }
        },
    }
}

/// The certificates of a wrapping key: its own, which has to be one, and those above it.
fn wrapping_key_chain(leaf_certificate: &[u8], remaining_chain: &[u8]) -> (chain: Result<
    Vec<Vec<u8>>,
    String,
>)
    ensures
        match wrapping_certificates(leaf_certificate@, remaining_chain@) {
            Ok(certificates) => chain matches Ok(copies) && chain_view(copies@) == certificates,
            Err(reason) => chain matches Err(message) && message@ == reason,
        },
{
    let wrapping_leaf = match split_concatenated_der_certificates(leaf_certificate) {
        Ok(certificates) => certificates,
        Err(message) => return Err(message),
    };
    if wrapping_leaf.len() != 1 {
        return Err(WRAPPING_LEAF_NOT_ALONE.to_owned());
    }
    let wrapping_chain = match split_concatenated_der_certificates(remaining_chain) {
        Ok(certificates) => certificates,
        Err(message) => return Err(message),
    };
    let ghost leaf_views = slices_view(wrapping_leaf@);
    let ghost chain_views = slices_view(wrapping_chain@);
    let mut copies: Vec<Vec<u8>> = Vec::new();
    copies.push(slice_to_vec(wrapping_leaf[0]));
    proof {
        assert(leaf_views[0] == wrapping_leaf@[0]@);
        assert(chain_view(copies@) =~= leaf_views + chain_views.take(0));
    }
    let mut i: usize = 0;
    while i < wrapping_chain.len()
        invariant
            i <= wrapping_chain@.len(),
            chain_views == slices_view(wrapping_chain@),
            chain_view(copies@) == leaf_views + chain_views.take(i as int),
        decreases wrapping_chain@.len() - i,
    {
        let ghost before = copies@;
        copies.push(slice_to_vec(wrapping_chain[i]));
        proof {
            assert(chain_views[i as int] == wrapping_chain@[i as int]@);
            assert(chain_view(copies@) =~= chain_view(before).push(chain_views[i as int]));
            assert(chain_views.take(i + 1) =~= chain_views.take(i as int).push(
                chain_views[i as int],
            ));
            assert(chain_view(copies@) =~= leaf_views + chain_views.take(i + 1));
        }
        i += 1;
    }
    assert(chain_views.take(i as int) =~= chain_views);
    Ok(copies)
}

/// `request` asks for an attestation key with these particulars, and is not signed.
pub open spec fn is_provision_request(
    request: ProvisionAttestationKeyRequest,
    request_id: Seq<char>,
    device_identity: DeviceIdentityKey,
    response_key_chain: Seq<Seq<u8>>,
    profile: AttestationKeyCertificateProfile,
    wrapping_key_chain: Seq<Seq<u8>>,
) -> bool {
    &&& request.request_id@ == request_id
    &&& chain_view(request.device_attestation_chain@) == chain_view(
        device_identity.certificate_chain@,
    )
    &&& chain_view(request.response_encryption_key_chain@) == response_key_chain
    &&& request.untrusted_device_serial@ == device_identity.untrusted_device_serial@
    &&& request.certificate_profile matches Some(wire)
    &&& is_wire_form(wire, profile)
    &&& chain_view(request.wrapping_key_chain@) == wrapping_key_chain
    &&& request.device_identity_signature@.len() == 0
}

/// Begins a request for an attestation key. The certificates of the wrapping key have to be
/// concatenated DER.
pub fn request_provision(
    request_id: &str,
    device_identity: &DeviceIdentityKey,
    response_key_chain: &Vec<Vec<u8>>,
    certificate_profile: &AttestationKeyCertificateProfile,
    wrapping_key_leaf_certificate: &[u8],
    wrapping_key_remaining_chain: &[u8],
) -> (begun: Result<UnsignedProvision, OverwriteRequestError>)
    ensures
        match wrapping_certificates(
            wrapping_key_leaf_certificate@,
            wrapping_key_remaining_chain@,
        ) {
            Ok(certificates) => {
                &&& begun matches Ok(unsigned)
                &&& is_provision_request(
                    unsigned.request,
                    request_id@,
                    *device_identity,
                    chain_view(response_key_chain@),
                    *certificate_profile,
                    certificates,
                )
                &&& unsigned.digest@ == sha256_digest(canonical_provision(unsigned.request))
                &&& unsigned.digest@.len() == 32
            },
            Err(reason) => begun matches Err(error) && error@ == RequestFailure::Backend(reason),
        },
{
    let wrapping_key_chain = match wrapping_key_chain(
        wrapping_key_leaf_certificate,
        wrapping_key_remaining_chain,
    ) {
        Ok(certificates) => certificates,
        Err(message) => return Err(OverwriteRequestError::Backend(message)),
    };
    let request = ProvisionAttestationKeyRequest {
        request_id: request_id.to_owned(),
        device_attestation_chain: copy_chain(&device_identity.certificate_chain),
        response_encryption_key_chain: copy_chain(response_key_chain),
        untrusted_device_serial: device_identity.untrusted_device_serial.clone(),
        certificate_profile: Some(wire_attestation_key_profile(certificate_profile)),
        wrapping_key_chain,
        device_identity_signature: Vec::new(),
    };
    let digest = provision_device_identity_digest(&request);
    Ok(UnsignedProvision { request, digest })
}

impl UnsignedProvision {
    /// The request with its signature. `signature` is what signing the digest came to.
    pub fn signed(self, signature: Result<Vec<u8>, String>) -> (request: Result<
        ProvisionAttestationKeyRequest,
        OverwriteRequestError,
    >)
        ensures
            match signature {
                Ok(bytes) => request == Ok::<ProvisionAttestationKeyRequest, OverwriteRequestError>(
                    (ProvisionAttestationKeyRequest {
                        device_identity_signature: bytes,
                        ..self.request
                    }),
                ),
                Err(reason) => request == Err::<
                    ProvisionAttestationKeyRequest,
                    OverwriteRequestError,
                >(OverwriteRequestError::Backend(reason)),
            },
    {
        let mut request = self.request;
        match signature {
            Ok(bytes) => {
                request.device_identity_signature = bytes;
                Ok(request)
            },
            Err(reason) => Err(OverwriteRequestError::Backend(reason)),
        }
    }
}

/// The frame of an encoded request. `encoded` is what encoding it came to.
pub fn request_frame(operation: &str, encoded: Result<Vec<u8>, String>) -> (frame: Result<
    Vec<u8>,
    OverwriteRequestError,
>)
    ensures
        match encoded {
            Err(reason) => frame matches Err(error) && error@ == RequestFailure::Backend(
                operation@ + REQUEST_ENCODE_FAILED@ + reason@,
            ),
            Ok(bytes) => if bytes@.len() > GRPC_MAX_MESSAGE_BYTES {
                frame matches Err(error) && error@ == RequestFailure::Backend(
                    operation@ + REQUEST_FRAME_FAILED@ + REQUEST_TOO_LARGE@,
                )
            } else {
                frame matches Ok(framed) && framed@ == grpc_frame(bytes@)
            },
        },
{
    let bytes = match encoded {
        Ok(bytes) => bytes,
        Err(reason) => {
            let message = join3(operation, REQUEST_ENCODE_FAILED, reason.as_str());
            return Err(OverwriteRequestError::Backend(message));
        },
    };
    match encode_grpc_frame(bytes.as_slice()) {
        Ok(framed) => Ok(framed),
        Err(reason) => {
            let message = join3(operation, REQUEST_FRAME_FAILED, reason.as_str());
            Err(OverwriteRequestError::Backend(message))
        },
    }
}

/// What the lack of an HTTP client is reported as, to every request.
pub fn client_failure(reason: &str) -> (error: OverwriteRequestError)
    ensures
        error@ == RequestFailure::Backend(CLIENT_FAILED@ + reason@),
{
    OverwriteRequestError::Backend(join2(CLIENT_FAILED, reason))
}

/// What is signed is what is sent: a request and the same request with any signature in it encode
/// alike for signing.
pub proof fn law_signature_covers_the_request(
    overwrite: OverwriteAttestationRequest,
    provision: ProvisionAttestationKeyRequest,
    signature: Vec<u8>,
)
    ensures
        canonical_overwrite(
            (OverwriteAttestationRequest { device_identity_signature: signature, ..overwrite }),
        ) == canonical_overwrite(overwrite),
        canonical_provision(
            (ProvisionAttestationKeyRequest { device_identity_signature: signature, ..provision }),
        ) == canonical_provision(provision),
{
}

/// The certificates of a wrapping key are passed on whole: end to end, they are the bytes that
/// were given.
pub proof fn law_wrapping_key_chain_is_whole(leaf_certificate: Seq<u8>, remaining_chain: Seq<u8>)
    ensures
        wrapping_certificates(leaf_certificate, remaining_chain) matches Ok(certificates) ==> {
            &&& certificates.len() >= 2
            &&& certificates[0] == leaf_certificate
            &&& joined(certificates.drop_first()) == remaining_chain
        },
{
    law_split_partitions(leaf_certificate);
    law_split_partitions(remaining_chain);
    if let Ok(certificates) = wrapping_certificates(leaf_certificate, remaining_chain) {
        let leaf = certificates_of(leaf_certificate)->Ok_0;
        let chain = certificates_of(remaining_chain)->Ok_0;
        assert(joined(leaf.drop_first()) =~= Seq::<u8>::empty());
        assert(joined(leaf) =~= leaf[0]);
        assert(certificates.drop_first() =~= chain);
    }
}

/// The profile that is sent says what was asked for, part by part.
pub proof fn law_wire_form(
    wire: WireAttestationKeyCertificateProfile,
    profile: AttestationKeyCertificateProfile,
)
    ensures
        is_wire_form(wire, profile) <==> wire.subject_der@ == profile.subject_der@
            && wire.serial_number@ == profile.serial_number@ && wire.not_before_ms
            == profile.not_before_ms && wire.not_after_ms == profile.not_after_ms
            && wire.attestation_challenge@ == profile.attestation_challenge@
            && wire.attestation_application_id@ == profile.attestation_application_id@,
{
}

/// The certificates of a wrapping key are sent in order, its own first: any one DER SEQUENCE for
/// the key and any one to sixteen above it. What is refused is refused for the leaf first.
pub proof fn law_wrapping_certificates(
    leaf: Seq<u8>,
    chain: Seq<Seq<u8>>,
    leaf_field: Seq<u8>,
    chain_field: Seq<u8>,
)
    ensures
        is_der_sequence(leaf) && 1 <= chain.len() <= 16 && (forall|i: int|
            0 <= i < chain.len() ==> is_der_sequence(#[trigger] chain[i]))
            ==> wrapping_certificates(leaf, joined(chain)) == Ok::<Seq<Seq<u8>>, Seq<char>>(
            seq![leaf] + chain,
        ),
        certificates_of(leaf_field) matches Err(reason) ==> wrapping_certificates(
            leaf_field,
            chain_field,
        ) == Err::<Seq<Seq<u8>>, Seq<char>>(reason),
        (certificates_of(leaf_field) matches Ok(parts) && parts.len() > 1)
            ==> wrapping_certificates(
            leaf_field,
            chain_field,
        ) == Err::<Seq<Seq<u8>>, Seq<char>>(
            "wrapping-key leaf field must contain exactly one certificate"@,
        ),
        is_der_sequence(leaf) ==> (certificates_of(chain_field) matches Err(reason)
            ==> wrapping_certificates(leaf, chain_field) == Err::<Seq<Seq<u8>>, Seq<char>>(reason)),
{
    if is_der_sequence(leaf) {
        let alone = seq![leaf];
        crate::der::law_split_undoes_join(alone);
        crate::bytes::law_joined_concatenates(alone, Seq::empty(), leaf);
        if 1 <= chain.len() <= 16 && (forall|i: int|
            0 <= i < chain.len() ==> is_der_sequence(#[trigger] chain[i])) {
            crate::der::law_split_undoes_join(chain);
        }
    }
}

/// A request for an attestation key holds, part by part, what it was begun with.
pub proof fn law_provision_request(
    request: ProvisionAttestationKeyRequest,
    request_id: Seq<char>,
    device_identity: DeviceIdentityKey,
    response_key_chain: Seq<Seq<u8>>,
    profile: AttestationKeyCertificateProfile,
    wrapping_key_chain: Seq<Seq<u8>>,
    i: int,
)
    requires
        is_provision_request(
            request,
            request_id,
            device_identity,
            response_key_chain,
            profile,
            wrapping_key_chain,
        ),
    ensures
        request.request_id@ == request_id,
        request.device_attestation_chain@.len() == device_identity.certificate_chain@.len(),
        0 <= i < request.device_attestation_chain@.len() ==> request.device_attestation_chain@[i]@
            == device_identity.certificate_chain@[i]@,
        request.response_encryption_key_chain@.len() == response_key_chain.len(),
        0 <= i < response_key_chain.len() ==> request.response_encryption_key_chain@[i]@
            == response_key_chain[i],
        request.untrusted_device_serial@ == device_identity.untrusted_device_serial@,
        request.certificate_profile is Some,
        is_wire_form(request.certificate_profile->0, profile),
        request.wrapping_key_chain@.len() == wrapping_key_chain.len(),
        0 <= i < wrapping_key_chain.len() ==> request.wrapping_key_chain@[i]@
            == wrapping_key_chain[i],
        request.device_identity_signature@.len() == 0,
{
    assert(chain_view(request.device_attestation_chain@).len()
        == request.device_attestation_chain@.len());
    assert(chain_view(device_identity.certificate_chain@).len()
        == device_identity.certificate_chain@.len());
    if 0 <= i < request.device_attestation_chain@.len() {
        assert(chain_view(request.device_attestation_chain@)[i]
            == request.device_attestation_chain@[i]@);
        assert(chain_view(device_identity.certificate_chain@)[i]
            == device_identity.certificate_chain@[i]@);
    }
    if 0 <= i < response_key_chain.len() {
        assert(chain_view(request.response_encryption_key_chain@)[i]
            == request.response_encryption_key_chain@[i]@);
    }
    if 0 <= i < wrapping_key_chain.len() {
        assert(chain_view(request.wrapping_key_chain@)[i] == request.wrapping_key_chain@[i]@);
    }
}

} // verus!
