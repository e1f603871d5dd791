use droidfoodattestation::identity::{
    overwrite_device_identity_digest, provision_device_identity_digest,
};
use droidfoodattestation::keys::{Domain, KeyDescriptor};
use droidfoodattestation::keystore::DeviceIdentityKey;
use droidfoodattestation::request::{
    client_failure, request_frame, request_overwrite, request_provision,
    wire_attestation_key_profile, UnsignedProvision,
};
use droidfoodattestation::request_id::new_request_id;
use droidfoodattestation::rpc::{OVERWRITE_OPERATION, PROVISION_OPERATION};
use droidfoodattestation::types::{AttestationKeyCertificateProfile, OverwriteRequestError};

fn identity() -> DeviceIdentityKey {
    DeviceIdentityKey {
        descriptor: KeyDescriptor { domain: Domain::App, nspace: -1, alias: None, blob: None },
        certificate_chain: vec![vec![1], vec![2, 3]],
        untrusted_device_serial: "S1".to_owned(),
    }
}

fn profile() -> AttestationKeyCertificateProfile {
    AttestationKeyCertificateProfile {
        subject_der: vec![1],
        serial_number: vec![2],
        not_before_ms: -3,
        not_after_ms: 4,
        attestation_challenge: vec![5],
        attestation_application_id: vec![6],
    }
}

fn provision(leaf: &[u8], chain: &[u8]) -> Result<UnsignedProvision, OverwriteRequestError> {
    request_provision("request-1", &identity(), &vec![vec![7]], &profile(), leaf, chain)
}

fn backend_error<T>(result: Result<T, OverwriteRequestError>) -> String {
    match result {
        Err(OverwriteRequestError::Backend(message)) => message,
        _ => panic!("no backend error"),
    }
}

#[test]
fn request_ids_are_random_uuids() {
    let id = new_request_id();
    assert_eq!(id.len(), 36);
    for (i, c) in id.chars().enumerate() {
        match i {
            8 | 13 | 18 | 23 => assert_eq!(c, '-'),
            14 => assert_eq!(c, '4'),
            19 => assert!("89ab".contains(c)),
            _ => assert!("0123456789abcdef".contains(c)),
        }
    }
    assert_ne!(id, new_request_id());
}

#[test]
fn overwrite_request_holds_what_was_given() {
    let unsigned =
        request_overwrite("request-1", b"leaf", b"chain", &identity(), &vec![vec![7]]);
    let request = &unsigned.request;
    assert_eq!(request.request_id, "request-1");
    assert_eq!(request.leaf_certificate, b"leaf");
    assert_eq!(request.remaining_chain, b"chain");
    assert_eq!(request.device_attestation_chain, vec![vec![1], vec![2, 3]]);
    assert_eq!(request.response_encryption_key_chain, vec![vec![7]]);
    assert_eq!(request.untrusted_device_serial, "S1");
    assert_eq!(request.protocol_version, 2);
    assert!(request.device_identity_signature.is_empty());
    assert_eq!(unsigned.digest, overwrite_device_identity_digest(request));
}

#[test]
fn signed_overwrite_request_carries_the_signature() {
    let unsigned = || request_overwrite("request-1", b"leaf", b"chain", &identity(), &vec![]);
    let digest = unsigned().digest;
    let request = unsigned().signed(Ok(vec![8, 9])).unwrap();
    assert_eq!(request.device_identity_signature, vec![8, 9]);
    assert_eq!(request.leaf_certificate, b"leaf");
    assert_eq!(overwrite_device_identity_digest(&request), digest);
    assert_eq!(backend_error(unsigned().signed(Err("no key".to_owned()))), "no key");
}

#[test]
fn profile_is_passed_on() {
    let wire = wire_attestation_key_profile(&profile());
    assert_eq!(wire.subject_der, vec![1]);
    assert_eq!(wire.serial_number, vec![2]);
    assert_eq!(wire.not_before_ms, -3);
    assert_eq!(wire.not_after_ms, 4);
    assert_eq!(wire.attestation_challenge, vec![5]);
    assert_eq!(wire.attestation_application_id, vec![6]);
}

#[test]
fn provision_request_splits_the_wrapping_chain() {
    let unsigned = provision(&[0x30, 1, 1], &[0x30, 1, 2, 0x30, 0]).unwrap();
    let request = &unsigned.request;
    assert_eq!(request.request_id, "request-1");
    assert_eq!(request.device_attestation_chain, vec![vec![1], vec![2, 3]]);
    assert_eq!(request.response_encryption_key_chain, vec![vec![7]]);
    assert_eq!(request.untrusted_device_serial, "S1");
    assert_eq!(request.certificate_profile.as_ref().unwrap().not_before_ms, -3);
    assert_eq!(
        request.wrapping_key_chain,
        vec![vec![0x30, 1, 1], vec![0x30, 1, 2], vec![0x30, 0]]
    );
    assert!(request.device_identity_signature.is_empty());
    assert_eq!(unsigned.digest, provision_device_identity_digest(request));
    let request = unsigned.signed(Ok(vec![8])).unwrap();
    assert_eq!(request.device_identity_signature, vec![8]);
}

#[test]
fn wrapping_certificates_have_to_be_readable() {
    assert_eq!(
        backend_error(provision(&[0x30, 0, 0x30, 0], &[0x30, 0])),
        "wrapping-key leaf field must contain exactly one certificate"
    );
    assert_eq!(
        backend_error(provision(&[], &[0x30, 0])),
        "provisioned certificate chain is empty"
    );
    assert_eq!(
        backend_error(provision(&[0x30, 0], &[0x30, 1])),
        "provisioned certificate is truncated"
    );
    assert_eq!(
        backend_error(provision(&[0x30, 0], &[])),
        "provisioned certificate chain is empty"
    );
}

#[test]
fn unsigned_provision_request_is_not_sent() {
    let unsigned = provision(&[0x30, 0], &[0x30, 0]).unwrap();
    assert_eq!(backend_error(unsigned.signed(Err("no key".to_owned()))), "no key");
}

#[test]
fn encoded_request_is_framed() {
    let frame = request_frame(OVERWRITE_OPERATION, Ok(b"hi".to_vec())).unwrap();
    assert_eq!(frame, b"\0\0\0\0\x02hi");
    assert_eq!(
        backend_error(request_frame(OVERWRITE_OPERATION, Err("proto".to_owned()))),
        "attestation overwrite request encode failed: proto"
    );
    assert_eq!(
        backend_error(request_frame(PROVISION_OPERATION, Ok(vec![0; 1_048_577]))),
        "attestation-key provisioning request frame failed: \
         request payload exceeds the gRPC message size limit"
    );
}

#[test]
fn lack_of_a_client_is_reported() {
    assert_eq!(
        backend_error::<()>(Err(client_failure("no tls"))),
        "attestation overwrite HTTP client failed: no tls"
    );
}
