use droidfoodattestation::keys::{
    Domain, KeyDescriptor, KeyMetadata, KeyParameter, KeyParameterValue, SystemProperties, Tag,
};
use droidfoodattestation::keystore::{
    agreement_operation, derive_keymint_secret, generate_fallback_device_identity,
    generate_response_key, identity_discarded, identity_generated, identity_level_opened,
    load_device_identity, load_or_generate_device_identity, response_key_generation,
    sign_device_identity, signing_operation, DeviceIdentityKey, DiscardStage, GenerationStage,
    IdentityAlias, IdentityStep, KeyGeneration, KeyGenerationOutcome, KeyOperationOutcome,
    LookupOutcome, OpenOutcome,
};
use droidfoodattestation::types::ServiceError;

fn properties(serial: &str) -> SystemProperties {
    SystemProperties {
        entries: vec![
            ("ro.product.brand".to_owned(), b"brand".to_vec()),
            ("ro.serialno".to_owned(), serial.as_bytes().to_vec()),
        ],
    }
}

fn metadata(certificate: Option<Vec<u8>>) -> KeyMetadata {
    KeyMetadata {
        key: KeyDescriptor {
            domain: Domain::Other(4),
            nspace: 77,
            alias: None,
            blob: Some(vec![5]),
        },
        certificate,
        certificate_chain: Some(vec![9, 9]),
    }
}

fn tags(params: &[KeyParameter]) -> Vec<Tag> {
    params.iter().map(|param| param.tag).collect()
}

fn alias_of(descriptor: &KeyDescriptor) -> &str {
    assert_eq!(descriptor.domain, Domain::App);
    descriptor.alias.as_deref().unwrap()
}

fn looked_up(step: IdentityStep) -> (IdentityAlias, String) {
    match step {
        IdentityStep::Lookup { alias, descriptor } => (alias, alias_of(&descriptor).to_owned()),
        other => panic!("{other:?}"),
    }
}

fn generated(step: IdentityStep) -> (GenerationStage, KeyGeneration) {
    match step {
        IdentityStep::Generate { stage, generation } => (stage, generation),
        other => panic!("{other:?}"),
    }
}

fn deleted(step: IdentityStep) -> (DiscardStage, String) {
    match step {
        IdentityStep::Delete { after, descriptor } => (after, alias_of(&descriptor).to_owned()),
        other => panic!("{other:?}"),
    }
}

fn identity(step: IdentityStep) -> DeviceIdentityKey {
    match step {
        IdentityStep::Finished(Ok(identity)) => identity,
        other => panic!("{other:?}"),
    }
}

fn error(step: IdentityStep) -> String {
    match step {
        IdentityStep::Finished(Err(ServiceError { code: -2, message })) => message,
        other => panic!("{other:?}"),
    }
}

#[test]
fn agreement_is_with_the_peer() {
    let operation = agreement_operation(b"peer");
    assert_eq!(
        format!("{:?}", operation.params),
        "[KeyParameter { tag: Purpose, value: KeyPurpose(AgreeKey) }]"
    );
    assert!(!operation.forced);
    assert_eq!(operation.input, b"peer");
}

#[test]
fn agreement_yields_the_secret() {
    let secret = derive_keymint_secret(KeyOperationOutcome::Output(vec![1, 2]));
    assert_eq!(secret.unwrap(), vec![1, 2]);
}

#[test]
fn failed_agreement_says_where() {
    let message = |outcome| derive_keymint_secret(outcome).unwrap_err();
    let text = || "why".to_owned();
    assert_eq!(message(KeyOperationOutcome::ConnectFailed(text())), "keystore connect failed: why");
    assert_eq!(
        message(KeyOperationOutcome::LevelFailed(text())),
        "keystore security level failed: why"
    );
    assert_eq!(
        message(KeyOperationOutcome::CreateFailed(text())),
        "response key operation failed: why"
    );
    assert_eq!(message(KeyOperationOutcome::Missing), "response key operation missing");
    assert_eq!(
        message(KeyOperationOutcome::FinishFailed(text())),
        "response key agreement failed: why"
    );
    assert_eq!(
        message(KeyOperationOutcome::NoOutput),
        "response key agreement returned no secret"
    );
}

#[test]
fn digest_of_32_bytes_is_signed() {
    let operation = signing_operation(&[7; 32]).unwrap();
    assert_eq!(
        format!("{:?}", operation.params),
        "[KeyParameter { tag: Purpose, value: KeyPurpose(Sign) }, \
         KeyParameter { tag: Digest, value: Digest(Sha2_256) }]"
    );
    assert!(!operation.forced);
    assert_eq!(operation.input, [7; 32]);
    for length in [0, 31, 33] {
        assert_eq!(
            signing_operation(&vec![7; length]).unwrap_err(),
            "device identity request digest must be 32 bytes"
        );
    }
}

#[test]
fn failed_signature_says_where() {
    let message = |outcome| sign_device_identity(outcome).unwrap_err();
    let text = || "why".to_owned();
    assert_eq!(message(KeyOperationOutcome::ConnectFailed(text())), "keystore connect failed: why");
    assert_eq!(
        message(KeyOperationOutcome::LevelFailed(text())),
        "keystore security level failed: why"
    );
    assert_eq!(
        message(KeyOperationOutcome::CreateFailed(text())),
        "device identity signing operation failed: why"
    );
    assert_eq!(
        message(KeyOperationOutcome::Missing),
        "device identity signing operation missing"
    );
    assert_eq!(
        message(KeyOperationOutcome::FinishFailed(text())),
        "device identity signing failed: why"
    );
    assert_eq!(
        message(KeyOperationOutcome::NoOutput),
        "device identity signing returned no signature"
    );
    assert_eq!(sign_device_identity(KeyOperationOutcome::Output(vec![3])).unwrap(), vec![3]);
}

#[test]
fn response_key_is_named_after_its_request() {
    let generation = response_key_generation("request-1");
    assert_eq!(alias_of(&generation.descriptor), "mystic_response_request-1");
    assert_eq!(generation.flags, 0);
    assert_eq!(generation.entropy, b"MysticAttestation");
    assert_eq!(generation.params.len(), 8);
    match &generation.params[5].value {
        KeyParameterValue::Blob(challenge) => {
            assert_eq!(challenge, b"MysticAttestation response key v1:request-1");
        }
        other => panic!("{other:?}"),
    }
}

#[test]
fn response_key_has_its_certificates() {
    let outcome = KeyGenerationOutcome::Generated(metadata(Some(vec![1])));
    let key = generate_response_key(outcome).unwrap();
    assert_eq!(key.descriptor.nspace, 77);
    assert_eq!(key.certificate_chain, vec![vec![1], vec![9, 9]]);
}

#[test]
fn failed_response_key_says_where() {
    let message = |outcome| {
        let error = generate_response_key(outcome).unwrap_err();
        assert_eq!(error.code, -2);
        error.message
    };
    let text = || "why".to_owned();
    assert_eq!(
        message(KeyGenerationOutcome::ConnectFailed(text())),
        "keystore connect failed: why"
    );
    assert_eq!(
        message(KeyGenerationOutcome::LevelFailed(text())),
        "keystore security level failed: why"
    );
    assert_eq!(
        message(KeyGenerationOutcome::GenerationFailed(text())),
        "response key generation failed: why"
    );
    assert_eq!(
        message(KeyGenerationOutcome::Generated(metadata(None))),
        "response key returned no certificate"
    );
}

#[test]
fn stored_trusted_key_comes_first() {
    let (alias, name) = looked_up(load_or_generate_device_identity());
    assert_eq!(alias, IdentityAlias::Trusted);
    assert_eq!(name, "mystic_device_identity_v2");
    let found = LookupOutcome::Found(metadata(Some(vec![1])));
    let identity = identity(load_device_identity(alias, found, &properties("S1")));
    assert_eq!(identity.descriptor.nspace, 77);
    assert_eq!(identity.certificate_chain, vec![vec![1], vec![9, 9]]);
    assert_eq!(identity.untrusted_device_serial, "");
}

#[test]
fn stored_fallback_key_comes_with_the_serial() {
    let properties = properties(" S1\n");
    let next = load_device_identity(IdentityAlias::Trusted, LookupOutcome::NotFound, &properties);
    let (alias, name) = looked_up(next);
    assert_eq!(alias, IdentityAlias::Fallback);
    assert_eq!(name, "mystic_device_identity_fallback_v2");
    let found = LookupOutcome::Found(metadata(Some(vec![1])));
    let identity = identity(load_device_identity(alias, found, &properties));
    assert_eq!(identity.untrusted_device_serial, "S1");
}

#[test]
fn broken_stored_keys_are_errors() {
    let load = |alias, outcome, serial| error(load_device_identity(alias, outcome, &properties(serial)));
    let found = |certificate| LookupOutcome::Found(metadata(certificate));
    let no_certificate = "stored device identity returned no certificate";
    assert_eq!(load(IdentityAlias::Trusted, found(None), "S1"), no_certificate);
    assert_eq!(load(IdentityAlias::Fallback, found(None), ""), no_certificate);
    assert_eq!(
        load(IdentityAlias::Fallback, found(Some(vec![1])), " "),
        "hardware serial attestation failed and ro.serialno is empty"
    );
    assert_eq!(
        load(IdentityAlias::Trusted, LookupOutcome::ConnectFailed("why".to_owned()), "S1"),
        "keystore connect failed: why"
    );
}

#[test]
fn trusted_environment_has_to_open() {
    let properties = properties("S1");
    let next = load_device_identity(IdentityAlias::Fallback, LookupOutcome::NotFound, &properties);
    assert!(matches!(next, IdentityStep::OpenLevel));
    let failed = |outcome| error(identity_level_opened(outcome, &properties));
    assert_eq!(
        failed(OpenOutcome::ConnectFailed("why".to_owned())),
        "keystore connect failed: why"
    );
    assert_eq!(
        failed(OpenOutcome::LevelFailed("why".to_owned())),
        "keystore security level failed: why"
    );
}

#[test]
fn generation_falls_back_in_order() {
    let properties = properties("S1");
    let (stage, generation) = generated(identity_level_opened(OpenOutcome::Opened, &properties));
    assert!(matches!(stage, GenerationStage::Full));
    assert_eq!(alias_of(&generation.descriptor), "mystic_device_identity_v2");
    assert_eq!(generation.entropy, b"MysticAttestation");
    assert_eq!(
        tags(&generation.params)[8..],
        [Tag::AttestationIdBrand, Tag::AttestationIdSerial]
    );

    let (stage, name) = deleted(identity_generated(stage, Err("refused".to_owned())));
    assert_eq!((stage, name.as_str()), (DiscardStage::Full, "mystic_device_identity_v2"));
    let (stage, generation) = generated(identity_discarded(stage, &properties));
    assert!(matches!(stage, GenerationStage::Serial));
    assert_eq!(alias_of(&generation.descriptor), "mystic_device_identity_v2");
    assert_eq!(tags(&generation.params)[8..], [Tag::AttestationIdSerial]);

    let (stage, name) = deleted(identity_generated(stage, Err("refused".to_owned())));
    assert_eq!((stage, name.as_str()), (DiscardStage::Serial, "mystic_device_identity_v2"));
    let (stage, generation) = generated(identity_discarded(stage, &properties));
    assert!(matches!(&stage, GenerationStage::Fallback(serial) if serial == "S1"));
    assert_eq!(alias_of(&generation.descriptor), "mystic_device_identity_fallback_v2");
    assert_eq!(generation.params.len(), 8);

    let identity = identity(identity_generated(stage, Ok(metadata(Some(vec![1])))));
    assert_eq!(identity.untrusted_device_serial, "S1");
}

#[test]
fn generated_trusted_key_has_no_serial() {
    for stage in [GenerationStage::Full, GenerationStage::Serial] {
        let identity = identity(identity_generated(stage, Ok(metadata(Some(vec![1])))));
        assert_eq!(identity.untrusted_device_serial, "");
        assert_eq!(identity.certificate_chain, vec![vec![1], vec![9, 9]]);
    }
}

#[test]
fn failed_generation_says_which() {
    assert_eq!(
        error(identity_generated(GenerationStage::Full, Ok(metadata(None)))),
        "device identity returned no certificate"
    );
    let fallback = || GenerationStage::Fallback("S1".to_owned());
    assert_eq!(
        error(identity_generated(fallback(), Ok(metadata(None)))),
        "fallback device identity returned no certificate"
    );
    assert_eq!(
        error(identity_generated(fallback(), Err("why".to_owned()))),
        "fallback device identity generation failed: why"
    );
    assert_eq!(
        error(generate_fallback_device_identity(&properties(""))),
        "hardware serial attestation failed and ro.serialno is empty"
    );
}
