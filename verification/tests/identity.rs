use droidfoodattestation::identity::{
    overwrite_device_identity_digest, provision_device_identity_digest, push_identity_field,
    push_identity_fields, push_identity_u32,
};
use droidfoodattestation::types::{
    OverwriteAttestationRequest, ProvisionAttestationKeyRequest,
    WireAttestationKeyCertificateProfile,
};

fn hex(bytes: &[u8]) -> String {
    bytes.iter().map(|byte| format!("{byte:02x}")).collect()
}

fn overwrite() -> OverwriteAttestationRequest {
    OverwriteAttestationRequest {
        leaf_certificate: b"leaf".to_vec(),
        remaining_chain: b"chain".to_vec(),
        request_id: "request-1".to_owned(),
        device_attestation_chain: vec![b"device".to_vec(), b"root".to_vec()],
        response_encryption_key_chain: vec![b"response".to_vec()],
        untrusted_device_serial: "SERIAL".to_owned(),
        protocol_version: 2,
        device_identity_signature: vec![],
    }
}

fn profile() -> WireAttestationKeyCertificateProfile {
    WireAttestationKeyCertificateProfile {
        subject_der: b"subject".to_vec(),
        serial_number: vec![1, 2],
        not_before_ms: -1,
        not_after_ms: 2_461_449_600_000,
        attestation_challenge: b"challenge".to_vec(),
        attestation_application_id: b"app".to_vec(),
    }
}

fn provision() -> ProvisionAttestationKeyRequest {
    ProvisionAttestationKeyRequest {
        request_id: "request-1".to_owned(),
        device_attestation_chain: vec![b"device".to_vec(), b"root".to_vec()],
        response_encryption_key_chain: vec![b"response".to_vec()],
        untrusted_device_serial: "SERIAL".to_owned(),
        certificate_profile: Some(profile()),
        wrapping_key_chain: vec![b"wrapping".to_vec()],
        device_identity_signature: vec![],
    }
}

#[test]
fn numbers_take_four_bytes() {
    let mut out = vec![9];
    push_identity_u32(&mut out, 0x0102_03ff);
    assert_eq!(out, [9, 1, 2, 3, 0xff]);
}

#[test]
fn fields_have_their_length_before_them() {
    let mut out = Vec::new();
    push_identity_field(&mut out, b"ab");
    assert_eq!(out, b"\0\0\0\0\0\0\0\x02ab");
    let mut out = Vec::new();
    push_identity_fields(&mut out, &[b"a".to_vec(), vec![]]);
    assert_eq!(out, b"\0\0\0\x02\0\0\0\0\0\0\0\x01a\0\0\0\0\0\0\0\0");
}

#[test]
fn overwrite_digest_known_answer() {
    assert_eq!(
        hex(&overwrite_device_identity_digest(&overwrite())),
        "dbdb2d078e93cec8c00a90a1a0c2f7cdba8da59f83c4520ad40115237d0ed3e2"
    );
}

#[test]
fn provision_digest_known_answers() {
    assert_eq!(
        hex(&provision_device_identity_digest(&provision())),
        "0586e0bed5696a743f468afe187df16018e6e6d34d453aef2ddb83c3ad147322"
    );
    let plain = ProvisionAttestationKeyRequest { certificate_profile: None, ..provision() };
    assert_eq!(
        hex(&provision_device_identity_digest(&plain)),
        "09415b1f3ea4b379488f34d267bb03a867969584d62a57282a847f0f5f0c1db3"
    );
}

#[test]
fn white_space_around_texts_is_not_signed() {
    let spaced = OverwriteAttestationRequest {
        request_id: " \u{a0}request-1\t\n".to_owned(),
        untrusted_device_serial: "\u{3000}SERIAL ".to_owned(),
        ..overwrite()
    };
    assert_eq!(
        overwrite_device_identity_digest(&spaced),
        overwrite_device_identity_digest(&overwrite())
    );
    let inside =
        OverwriteAttestationRequest { request_id: "request -1".to_owned(), ..overwrite() };
    assert_ne!(
        overwrite_device_identity_digest(&inside),
        overwrite_device_identity_digest(&overwrite())
    );
}

#[test]
fn signature_is_not_signed() {
    let signed = OverwriteAttestationRequest {
        device_identity_signature: vec![1, 2, 3],
        ..overwrite()
    };
    assert_eq!(
        overwrite_device_identity_digest(&signed),
        overwrite_device_identity_digest(&overwrite())
    );
    let signed =
        ProvisionAttestationKeyRequest { device_identity_signature: vec![1], ..provision() };
    assert_eq!(
        provision_device_identity_digest(&signed),
        provision_device_identity_digest(&provision())
    );
}

#[test]
fn everything_else_is_signed() {
    let changed = [
        OverwriteAttestationRequest { leaf_certificate: b"lea".to_vec(), ..overwrite() },
        OverwriteAttestationRequest { remaining_chain: b"fchain".to_vec(), ..overwrite() },
        OverwriteAttestationRequest { request_id: "request-2".to_owned(), ..overwrite() },
        OverwriteAttestationRequest {
            device_attestation_chain: vec![b"deviceroot".to_vec()],
            ..overwrite()
        },
        OverwriteAttestationRequest {
            response_encryption_key_chain: vec![b"response".to_vec(), vec![]],
            ..overwrite()
        },
        OverwriteAttestationRequest { untrusted_device_serial: String::new(), ..overwrite() },
        OverwriteAttestationRequest { protocol_version: 3, ..overwrite() },
    ];
    let unchanged = overwrite_device_identity_digest(&overwrite());
    for request in changed {
        assert_ne!(overwrite_device_identity_digest(&request), unchanged);
    }
    let changed = [
        ProvisionAttestationKeyRequest { certificate_profile: None, ..provision() },
        ProvisionAttestationKeyRequest { wrapping_key_chain: vec![], ..provision() },
        ProvisionAttestationKeyRequest {
            certificate_profile: Some(WireAttestationKeyCertificateProfile {
                not_before_ms: 1,
                ..profile()
            }),
            ..provision()
        },
    ];
    let unchanged = provision_device_identity_digest(&provision());
    for request in changed {
        assert_ne!(provision_device_identity_digest(&request), unchanged);
    }
}

#[test]
fn bytes_do_not_move_between_fields() {
    let moved = OverwriteAttestationRequest {
        leaf_certificate: b"leafc".to_vec(),
        remaining_chain: b"hain".to_vec(),
        ..overwrite()
    };
    assert_ne!(
        overwrite_device_identity_digest(&moved),
        overwrite_device_identity_digest(&overwrite())
    );
}

#[test]
fn list_shows_where_it_ends() {
    let encoded = |values: &[Vec<u8>], behind: &[u8]| {
        let mut out = Vec::new();
        push_identity_fields(&mut out, values);
        out.extend_from_slice(behind);
        out
    };
    let field_of_a = b"\0\0\0\0\0\0\0\x01a";
    assert_ne!(encoded(&[b"a".to_vec()], b""), encoded(&[], field_of_a));
    assert_ne!(encoded(&[vec![], vec![]], b""), encoded(&[vec![]], &[0; 8]));
}
