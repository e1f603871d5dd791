use droidfoodattestation::keys::{Domain, KeyDescriptor};
use droidfoodattestation::keystore::{DeviceIdentityKey, ResponseKey};
use droidfoodattestation::overwrite::{
    begin_overwrite, is_same_chain, OverwriteFinished, OverwriteStep,
};
use droidfoodattestation::provision::{
    begin_provision, ProvisionFinished, ProvisionParameters, ProvisionStep,
};
use droidfoodattestation::response::{derive_response_aes_key, response_key_challenge};
use droidfoodattestation::types::{
    service_error, AttestationKeyCertificateProfile, CertificateChain, EncryptedResponse,
    OverwriteAttestationResponsePlaintext, OverwriteRequestError,
    ProvisionAttestationKeyResponsePlaintext,
};
use droidfoodattestation::{KeystoreCertificatePostProcessor, INTENSIVE_LOGS_ENABLED};
use openssl::asn1::Asn1Time;
use openssl::ec::{EcGroup, EcKey};
use openssl::hash::MessageDigest;
use openssl::nid::Nid;
use openssl::pkey::{PKey, Private};
use openssl::symm::{encrypt_aead, Cipher};
use openssl::x509::{X509Name, X509NameBuilder, X509};

fn key() -> PKey<Private> {
    let group = EcGroup::from_curve_name(Nid::X9_62_PRIME256V1).unwrap();
    PKey::from_ec_key(EcKey::generate(&group).unwrap()).unwrap()
}

fn name(common_name: &str) -> X509Name {
    let mut builder = X509NameBuilder::new().unwrap();
    builder.append_entry_by_text("CN", common_name).unwrap();
    builder.build()
}

fn issue(subject: &str, key: &PKey<Private>, issuer: &str, signer: &PKey<Private>) -> Vec<u8> {
    let mut builder = X509::builder().unwrap();
    builder.set_subject_name(&name(subject)).unwrap();
    builder.set_issuer_name(&name(issuer)).unwrap();
    builder.set_not_before(&Asn1Time::days_from_now(0).unwrap()).unwrap();
    builder.set_not_after(&Asn1Time::days_from_now(1).unwrap()).unwrap();
    builder.set_pubkey(key).unwrap();
    builder.sign(signer, MessageDigest::sha256()).unwrap();
    builder.build().to_der().unwrap()
}

fn signed_chain() -> CertificateChain {
    let (leaf_key, root_key) = (key(), key());
    CertificateChain {
        leaf_certificate: issue("leaf", &leaf_key, "root", &root_key),
        remaining_chain: issue("root", &root_key, "root", &root_key),
    }
}

fn descriptor(alias: &str) -> KeyDescriptor {
    KeyDescriptor {
        domain: Domain::App,
        nspace: -1,
        alias: Some(alias.to_owned()),
        blob: None,
    }
}

fn identity() -> DeviceIdentityKey {
    DeviceIdentityKey {
        descriptor: descriptor("identity"),
        certificate_chain: vec![vec![1]],
        untrusted_device_serial: String::new(),
    }
}

fn response_key() -> ResponseKey {
    ResponseKey { descriptor: descriptor("response"), certificate_chain: vec![vec![2]] }
}

fn sealed(info: &str, aad_prefix: &str, plain: &[u8]) -> EncryptedResponse {
    let aes_key = derive_response_aes_key("request-1", b"secret", info.as_bytes()).unwrap();
    let mut tag = [0u8; 16];
    let mut encrypted = encrypt_aead(
        Cipher::aes_256_gcm(),
        &aes_key,
        Some(&[3; 12]),
        format!("{aad_prefix}request-1").as_bytes(),
        plain,
        &mut tag,
    )
    .unwrap();
    encrypted.extend_from_slice(&tag);
    EncryptedResponse {
        encrypted_response: encrypted,
        response_nonce: vec![3; 12],
        response_ephemeral_public_key: b"peer".to_vec(),
    }
}

fn overwrite_reply() -> EncryptedResponse {
    sealed(
        "MysticAttestation overwrite response v1",
        "MysticAttestation overwrite response aad v1:",
        b"overwrite plaintext",
    )
}

fn provision_reply() -> EncryptedResponse {
    sealed(
        "MysticAttestation provision response v1",
        "MysticAttestation provision response aad v1:",
        b"provision plaintext",
    )
}

fn overwrite_finished(step: OverwriteStep) -> OverwriteFinished {
    match step {
        OverwriteStep::Finished(finished) => finished,
        other => panic!("{other:?}"),
    }
}

fn overwrite_error(step: OverwriteStep, released: Option<&str>) -> (i32, String) {
    let finished = overwrite_finished(step);
    let release = finished.release.map(|key| key.alias.unwrap());
    assert_eq!(release.as_deref(), released);
    let error = finished.result.unwrap_err();
    (error.code, error.message)
}

fn failure(code: i32, message: &str) -> (i32, String) {
    (code, message.to_owned())
}

fn overwrite_keyed() -> OverwriteStep {
    let step = begin_overwrite(signed_chain(), "request-1".to_owned());
    let OverwriteStep::ObtainIdentity(begun) = step else { panic!("not begun") };
    let step = begun.identity_obtained(Ok(identity()));
    let OverwriteStep::GenerateResponseKey(identified) = step else { panic!("no identity") };
    identified.response_key_generated(Ok(response_key()))
}

fn overwrite_after_reply(reply: Result<EncryptedResponse, OverwriteRequestError>) -> OverwriteStep {
    let OverwriteStep::SendRequest(keyed) = overwrite_keyed() else { panic!("no key") };
    keyed.reply_received(reply)
}

fn overwrite_after_secret(secret: Result<Vec<u8>, String>) -> OverwriteStep {
    let step = overwrite_after_reply(Ok(overwrite_reply()));
    let OverwriteStep::AgreeOnSecret(replied) = step else { panic!("no reply") };
    replied.secret_agreed(secret)
}

fn overwrite_after_decoding(
    decoded: Result<OverwriteAttestationResponsePlaintext, String>,
) -> OverwriteStep {
    let step = overwrite_after_secret(Ok(b"secret".to_vec()));
    let OverwriteStep::DecodePlaintext(opened) = step else { panic!("not opened") };
    opened.plaintext_decoded(decoded)
}

fn overwrite_plaintext() -> OverwriteAttestationResponsePlaintext {
    OverwriteAttestationResponsePlaintext {
        leaf_certificate: b"new leaf".to_vec(),
        remaining_chain: b"new chain".to_vec(),
        reprovision_attestation_key: false,
    }
}

#[test]
fn diagnostics_are_off() {
    assert!(!INTENSIVE_LOGS_ENABLED);
}

#[test]
fn internal_certificates_are_kept() {
    let internal = [b"x".to_vec(), response_key_challenge("any"), b"y".to_vec()].concat();
    let chain =
        CertificateChain { leaf_certificate: internal.clone(), remaining_chain: vec![1, 2] };
    let step = KeystoreCertificatePostProcessor.processKeystoreCertificates(chain);
    let finished = overwrite_finished(step);
    assert!(finished.release.is_none());
    let kept = finished.result.unwrap();
    assert_eq!(kept.leaf_certificate, internal);
    assert_eq!(kept.remaining_chain, vec![1, 2]);
}

#[test]
fn unsigned_leaf_asks_for_reprovisioning() {
    let chain = CertificateChain {
        leaf_certificate: signed_chain().leaf_certificate,
        remaining_chain: signed_chain().remaining_chain,
    };
    assert_eq!(
        overwrite_error(begin_overwrite(chain, "request-1".to_owned()), None),
        failure(-4, "Supplied attestation key does not sign the generated certificate.")
    );
    let alone = CertificateChain {
        leaf_certificate: signed_chain().leaf_certificate,
        remaining_chain: vec![],
    };
    assert_eq!(overwrite_error(begin_overwrite(alone, "request-1".to_owned()), None).0, -4);
}

#[test]
fn unreadable_leaf_is_refused() {
    let chain = CertificateChain { leaf_certificate: vec![0], remaining_chain: vec![] };
    let step = begin_overwrite(chain, "request-1".to_owned());
    let (code, message) = overwrite_error(step, None);
    assert_eq!(code, -2);
    assert!(message.starts_with("attestation leaf certificate is invalid: "), "{message}");
}

#[test]
fn refused_leaf_ends_the_operation() {
    let chain = CertificateChain {
        leaf_certificate: signed_chain().leaf_certificate,
        remaining_chain: vec![],
    };
    let step = KeystoreCertificatePostProcessor.processKeystoreCertificates(chain);
    assert_eq!(overwrite_error(step, None).0, -4);
    let junk = CertificateChain { leaf_certificate: vec![0], remaining_chain: vec![] };
    let step = KeystoreCertificatePostProcessor.processKeystoreCertificates(junk);
    assert_eq!(overwrite_error(step, None).0, -2);
}

#[test]
fn same_chain_is_recognised() {
    let chain = |leaf: &[u8], remaining: &[u8]| CertificateChain {
        leaf_certificate: leaf.to_vec(),
        remaining_chain: remaining.to_vec(),
    };
    assert!(is_same_chain(&chain(b"leaf", b"chain"), &chain(b"leaf", b"chain")));
    assert!(!is_same_chain(&chain(b"leaf", b"chain"), &chain(b"leaf", b"other")));
    assert!(!is_same_chain(&chain(b"leaf", b"chain"), &chain(b"lea", b"chain")));
    assert!(!is_same_chain(&chain(b"leaf", b"chain"), &chain(b"leafc", b"hain")));
}

#[test]
fn signed_leaf_is_sent_under_a_new_name() {
    let request_id = || {
        let step = KeystoreCertificatePostProcessor.processKeystoreCertificates(signed_chain());
        let OverwriteStep::ObtainIdentity(begun) = step else { panic!("not begun") };
        begun.request_id
    };
    assert_eq!(request_id().len(), 36);
    assert_ne!(request_id(), request_id());
}

#[test]
fn overwrite_request_is_made_of_what_was_obtained() {
    let OverwriteStep::SendRequest(keyed) = overwrite_keyed() else { panic!("no key") };
    assert_eq!(keyed.request_id, "request-1");
    assert_eq!(keyed.device_identity.certificate_chain, vec![vec![1]]);
    assert_eq!(keyed.response_key.certificate_chain, vec![vec![2]]);
}

#[test]
fn failed_keys_end_the_overwrite() {
    let begin = || match begin_overwrite(signed_chain(), "request-1".to_owned()) {
        OverwriteStep::ObtainIdentity(begun) => begun,
        other => panic!("{other:?}"),
    };
    let step = begin().identity_obtained(Err(service_error(-2, "no identity")));
    assert_eq!(overwrite_error(step, None), failure(-2, "no identity"));
    let step = begin().identity_obtained(Ok(identity()));
    let OverwriteStep::GenerateResponseKey(identified) = step else { panic!("no identity") };
    let step = identified.response_key_generated(Err(service_error(-2, "no response key")));
    assert_eq!(overwrite_error(step, None), failure(-2, "no response key"));
}

#[test]
fn refused_overwrite_releases_the_key() {
    let refused = Err(OverwriteRequestError::InvalidArgument("bad chain".to_owned()));
    assert_eq!(
        overwrite_error(overwrite_after_reply(refused), Some("response")),
        failure(-2, "bad chain")
    );
    let failed = Err(OverwriteRequestError::Backend("down".to_owned()));
    assert_eq!(
        overwrite_error(overwrite_after_reply(failed), Some("response")),
        failure(-2, "down")
    );
    let incomplete = EncryptedResponse { response_nonce: vec![], ..overwrite_reply() };
    assert_eq!(
        overwrite_error(overwrite_after_reply(Ok(incomplete)), Some("response")),
        failure(-3, "server returned an incomplete encrypted response")
    );
}

#[test]
fn overwrite_secret_is_agreed_with_the_peer() {
    let step = overwrite_after_reply(Ok(overwrite_reply()));
    let OverwriteStep::AgreeOnSecret(replied) = step else { panic!("no reply") };
    assert_eq!(replied.response_key.alias.as_deref(), Some("response"));
    assert_eq!(replied.response.response_ephemeral_public_key, b"peer");
}

#[test]
fn unopened_overwrite_reply_releases_the_key() {
    assert_eq!(
        overwrite_error(overwrite_after_secret(Err("no secret".to_owned())), Some("response")),
        failure(-3, "no secret")
    );
    let step = overwrite_after_secret(Ok(b"wrong".to_vec()));
    let (code, message) = overwrite_error(step, Some("response"));
    assert_eq!(code, -3);
    assert!(message.starts_with("response decrypt verify failed: "), "{message}");
}

#[test]
fn overwrite_reply_is_opened() {
    let step = overwrite_after_secret(Ok(b"secret".to_vec()));
    let OverwriteStep::DecodePlaintext(opened) = step else { panic!("not opened") };
    assert_eq!(opened.plaintext, b"overwrite plaintext");
}

#[test]
fn overwrite_yields_the_new_chain() {
    let finished = overwrite_finished(overwrite_after_decoding(Ok(overwrite_plaintext())));
    assert_eq!(finished.release.unwrap().alias.as_deref(), Some("response"));
    let chain = finished.result.unwrap();
    assert_eq!(chain.leaf_certificate, b"new leaf");
    assert_eq!(chain.remaining_chain, b"new chain");
}

#[test]
fn overwrite_reply_can_still_fail() {
    let fails = |decoded| overwrite_error(overwrite_after_decoding(decoded), Some("response"));
    assert_eq!(
        fails(Err("wire".to_owned())),
        failure(-3, "response payload decode failed: wire")
    );
    let reprovision = OverwriteAttestationResponsePlaintext {
        leaf_certificate: vec![],
        reprovision_attestation_key: true,
        ..overwrite_plaintext()
    };
    assert_eq!(
        fails(Ok(reprovision)),
        failure(-4, "Backend requested attestation-key reprovisioning.")
    );
    let incomplete = "Server returned an incomplete certificate chain.";
    let no_leaf =
        OverwriteAttestationResponsePlaintext { leaf_certificate: vec![], ..overwrite_plaintext() };
    assert_eq!(fails(Ok(no_leaf)), failure(-3, incomplete));
    let no_chain =
        OverwriteAttestationResponsePlaintext { remaining_chain: vec![], ..overwrite_plaintext() };
    assert_eq!(fails(Ok(no_chain)), failure(-3, incomplete));
}

fn profile() -> AttestationKeyCertificateProfile {
    AttestationKeyCertificateProfile {
        subject_der: vec![1],
        serial_number: vec![2],
        not_before_ms: 3,
        not_after_ms: 4,
        attestation_challenge: vec![5],
        attestation_application_id: vec![6],
    }
}

fn provision_finished(step: ProvisionStep) -> ProvisionFinished {
    match step {
        ProvisionStep::Finished(finished) => finished,
        other => panic!("{other:?}"),
    }
}

fn provision_error(step: ProvisionStep, released: Option<&str>) -> (i32, String) {
    let finished = provision_finished(step);
    let release = finished.release.map(|key| key.alias.unwrap());
    assert_eq!(release.as_deref(), released);
    let error = finished.result.unwrap_err();
    (error.code, error.message)
}

fn provision_begun() -> droidfoodattestation::provision::ProvisionBegun {
    let parameters = ProvisionParameters {
        certificate_profile: profile(),
        wrapping_key_leaf_certificate: vec![0x30, 0],
        wrapping_key_remaining_chain: vec![0x30, 1, 1],
    };
    match begin_provision(parameters, "request-1".to_owned()) {
        ProvisionStep::ObtainIdentity(begun) => begun,
        other => panic!("{other:?}"),
    }
}

fn provision_after_reply(reply: Result<EncryptedResponse, OverwriteRequestError>) -> ProvisionStep {
    let step = provision_begun().identity_obtained(Ok(identity()));
    let ProvisionStep::GenerateResponseKey(identified) = step else { panic!("no identity") };
    let step = identified.response_key_generated(Ok(response_key()));
    let ProvisionStep::SendRequest(keyed) = step else { panic!("no key") };
    assert_eq!(keyed.request_id, "request-1");
    assert_eq!(keyed.parameters.wrapping_key_remaining_chain, vec![0x30, 1, 1]);
    keyed.reply_received(reply)
}

fn provision_after_secret(secret: Result<Vec<u8>, String>) -> ProvisionStep {
    let step = provision_after_reply(Ok(provision_reply()));
    let ProvisionStep::AgreeOnSecret(replied) = step else { panic!("no reply") };
    replied.secret_agreed(secret)
}

fn provision_after_decoding(
    decoded: Result<ProvisionAttestationKeyResponsePlaintext, String>,
) -> ProvisionStep {
    let step = provision_after_secret(Ok(b"secret".to_vec()));
    let ProvisionStep::DecodePlaintext(opened) = step else { panic!("not opened") };
    assert_eq!(opened.plaintext, b"provision plaintext");
    opened.plaintext_decoded(decoded)
}

#[test]
fn provisioning_begins_under_a_new_name() {
    let step = KeystoreCertificatePostProcessor.provisionAttestationKey(
        profile(),
        vec![0x30, 0],
        vec![0x30, 1, 1],
    );
    let ProvisionStep::ObtainIdentity(begun) = step else { panic!("not begun") };
    assert_eq!(begun.request_id.len(), 36);
    assert_eq!(begun.parameters.certificate_profile.not_after_ms, 4);
    assert_eq!(begun.parameters.wrapping_key_leaf_certificate, vec![0x30, 0]);
}

#[test]
fn failed_keys_end_the_provisioning() {
    let step = provision_begun().identity_obtained(Err(service_error(-2, "no identity")));
    assert_eq!(provision_error(step, None), failure(-2, "no identity"));
    let step = provision_begun().identity_obtained(Ok(identity()));
    let ProvisionStep::GenerateResponseKey(identified) = step else { panic!("no identity") };
    let step = identified.response_key_generated(Err(service_error(-2, "no response key")));
    assert_eq!(provision_error(step, None), failure(-2, "no response key"));
}

#[test]
fn refused_provisioning_releases_the_key() {
    let refused = Err(OverwriteRequestError::InvalidArgument("bad profile".to_owned()));
    assert_eq!(
        provision_error(provision_after_reply(refused), Some("response")),
        failure(-2, "bad profile")
    );
    let failed = Err(OverwriteRequestError::Backend("down".to_owned()));
    assert_eq!(
        provision_error(provision_after_reply(failed), Some("response")),
        failure(-2, "down")
    );
    let incomplete = EncryptedResponse { encrypted_response: vec![], ..provision_reply() };
    assert_eq!(
        provision_error(provision_after_reply(Ok(incomplete)), Some("response")),
        failure(-3, "server returned an incomplete encrypted response")
    );
    assert_eq!(
        provision_error(provision_after_secret(Err("no secret".to_owned())), Some("response")),
        failure(-3, "no secret")
    );
}

#[test]
fn overwrite_reply_does_not_open_as_provisioning() {
    let step = provision_after_reply(Ok(overwrite_reply()));
    let ProvisionStep::AgreeOnSecret(replied) = step else { panic!("no reply") };
    let step = replied.secret_agreed(Ok(b"secret".to_vec()));
    let (code, message) = provision_error(step, Some("response"));
    assert_eq!(code, -3);
    assert!(message.starts_with("response decrypt verify failed: "), "{message}");
}

#[test]
fn provisioning_yields_sound_material() {
    let chain = signed_chain();
    let decoded = ProvisionAttestationKeyResponsePlaintext {
        secure_key_wrapper: vec![7],
        leaf_certificate: chain.leaf_certificate.clone(),
        remaining_chain: chain.remaining_chain.clone(),
    };
    let finished = provision_finished(provision_after_decoding(Ok(decoded)));
    assert_eq!(finished.release.unwrap().alias.as_deref(), Some("response"));
    let key = finished.result.unwrap();
    assert_eq!(key.secure_key_wrapper, vec![7]);
    assert_eq!(key.leaf_certificate, chain.leaf_certificate);
    assert_eq!(key.remaining_chain, chain.remaining_chain);
}

#[test]
fn unsound_material_is_refused() {
    let fails = |decoded| provision_error(provision_after_decoding(decoded), Some("response"));
    assert_eq!(
        fails(Err("wire".to_owned())),
        failure(-3, "provisioning response payload decode failed: wire")
    );
    let incomplete = ProvisionAttestationKeyResponsePlaintext {
        secure_key_wrapper: vec![],
        leaf_certificate: vec![1],
        remaining_chain: vec![1],
    };
    assert_eq!(
        fails(Ok(incomplete)),
        failure(-3, "server returned incomplete attestation-key material")
    );
    let unrelated = ProvisionAttestationKeyResponsePlaintext {
        secure_key_wrapper: vec![7],
        leaf_certificate: signed_chain().leaf_certificate,
        remaining_chain: signed_chain().remaining_chain,
    };
    assert_eq!(
        fails(Ok(unrelated)),
        failure(-3, "leaf is not signed by its parent certificate")
    );
}
