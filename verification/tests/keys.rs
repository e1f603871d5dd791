use droidfoodattestation::keys::{
    app_key_descriptor, certificate_chain_from_metadata, device_attestation_params,
    device_identity_params, fallback_device_serial, get_attest_id_value, get_system_prop,
    key_param, response_key_params, system_property_names, Domain, KeyParameter,
    KeyParameterValue, ResponseIdentity, SystemProperties, Tag,
};

fn properties(entries: &[(&str, &[u8])]) -> SystemProperties {
    SystemProperties {
        entries: entries.iter().map(|(name, value)| (name.to_string(), value.to_vec())).collect(),
    }
}

fn device() -> SystemProperties {
    properties(&[
        ("ro.product.brand", b"brand"),
        ("ro.product.vendor.device", b"vendor device"),
        ("ro.product.device", b"device"),
        ("ro.product.name_for_attestation", b"attested name"),
        ("ro.product.vendor.name", b"vendor name"),
        ("ro.product.name", b"name"),
        ("ro.serialno", b"S1"),
        ("ro.product.manufacturer", b""),
        ("ro.product.model", b"model"),
    ])
}

fn blobs(params: &[KeyParameter]) -> Vec<(Tag, Vec<u8>)> {
    params
        .iter()
        .filter_map(|param| match &param.value {
            KeyParameterValue::Blob(bytes) => Some((param.tag, bytes.clone())),
            _ => None,
        })
        .collect()
}

#[test]
fn descriptor_names_an_app_key() {
    let descriptor = app_key_descriptor("alias");
    assert_eq!(descriptor.domain, Domain::App);
    assert_eq!(descriptor.nspace, -1);
    assert_eq!(descriptor.alias.as_deref(), Some("alias"));
    assert!(descriptor.blob.is_none());
}

#[test]
fn parameter_keeps_tag_and_value() {
    let param = key_param(Tag::CertificateNotAfter, KeyParameterValue::DateTime(7));
    assert_eq!(param.tag, Tag::CertificateNotAfter);
    assert!(matches!(param.value, KeyParameterValue::DateTime(7)));
}

#[test]
fn chain_starts_with_the_certificate() {
    let chain = |certificate, remaining| {
        certificate_chain_from_metadata(certificate, remaining, "some key").unwrap()
    };
    assert_eq!(chain(Some(vec![1]), Some(vec![2, 3])), vec![vec![1], vec![2, 3]]);
    assert_eq!(chain(Some(vec![1]), Some(vec![])), vec![vec![1]]);
    assert_eq!(chain(Some(vec![1]), None), vec![vec![1]]);
    assert_eq!(chain(Some(vec![]), None), vec![Vec::<u8>::new()]);
}

#[test]
fn chain_needs_a_certificate() {
    let error = certificate_chain_from_metadata(None, Some(vec![2]), "some key").unwrap_err();
    assert_eq!(error.code, -2);
    assert_eq!(error.message, "some key returned no certificate");
}

#[test]
fn absent_property_is_empty() {
    assert_eq!(get_system_prop(&device(), "ro.serialno"), b"S1");
    assert_eq!(get_system_prop(&device(), "ro.serial"), b"");
    assert_eq!(get_system_prop(&properties(&[]), "ro.serialno"), b"");
}

#[test]
fn first_entry_of_a_property_counts() {
    let twice = properties(&[("a", b"first"), ("a", b"second")]);
    assert_eq!(get_system_prop(&twice, "a"), b"first");
}

#[test]
fn serial_is_trimmed_text() {
    let serial = |value: &[u8]| fallback_device_serial(&properties(&[("ro.serialno", value)]));
    assert_eq!(serial(b" \tS 1\n").unwrap(), "S 1");
    assert_eq!(serial(b"a\xffb").unwrap(), "a\u{fffd}b");
    assert_eq!(serial("\u{2003}\u{e9}\u{85}".as_bytes()).unwrap(), "\u{e9}");
}

#[test]
fn blank_serial_is_an_error() {
    for value in [&b""[..], b" \n\t"] {
        let error = fallback_device_serial(&properties(&[("ro.serialno", value)])).unwrap_err();
        assert_eq!(error.code, -2);
        assert_eq!(
            error.message,
            "hardware serial attestation failed and ro.serialno is empty"
        );
    }
    assert!(fallback_device_serial(&properties(&[])).is_err());
}

#[test]
fn attested_value_prefers_the_attestation_property() {
    let value = |tag, name| get_attest_id_value(&device(), tag, name);
    assert_eq!(value(Tag::AttestationIdProduct, "name"), b"attested name");
    assert_eq!(value(Tag::AttestationIdDevice, "device"), b"vendor device");
    assert_eq!(value(Tag::AttestationIdBrand, "brand"), b"brand");
    assert_eq!(value(Tag::AttestationIdManufacturer, "manufacturer"), b"");
    assert_eq!(value(Tag::AttestationIdSerial, "serialno"), b"S1");
    assert_eq!(value(Tag::AttestationIdModel, "serialno"), b"");
}

#[test]
fn full_identity_attests_what_is_there() {
    let params = device_attestation_params(&device(), ResponseIdentity::Full);
    assert_eq!(
        blobs(&params),
        vec![
            (Tag::AttestationIdBrand, b"brand".to_vec()),
            (Tag::AttestationIdDevice, b"vendor device".to_vec()),
            (Tag::AttestationIdProduct, b"attested name".to_vec()),
            (Tag::AttestationIdSerial, b"S1".to_vec()),
            (Tag::AttestationIdModel, b"model".to_vec()),
        ]
    );
    assert_eq!(params.len(), 5);
}

#[test]
fn smaller_identities_attest_less() {
    let serial = device_attestation_params(&device(), ResponseIdentity::Serial);
    assert_eq!(blobs(&serial), vec![(Tag::AttestationIdSerial, b"S1".to_vec())]);
    assert!(device_attestation_params(&device(), ResponseIdentity::Omitted).is_empty());
    assert!(device_attestation_params(&properties(&[]), ResponseIdentity::Full).is_empty());
}

#[test]
fn response_key_agrees() {
    let params = response_key_params(&device(), "request-1", ResponseIdentity::Omitted);
    assert_eq!(
        format!("{params:?}"),
        format!(
            "[KeyParameter {{ tag: Algorithm, value: Algorithm(Ec) }}, \
             KeyParameter {{ tag: EcCurve, value: EcCurve(P256) }}, \
             KeyParameter {{ tag: Purpose, value: KeyPurpose(AgreeKey) }}, \
             KeyParameter {{ tag: Digest, value: Digest(Sha2_256) }}, \
             KeyParameter {{ tag: NoAuthRequired, value: BoolValue(true) }}, \
             KeyParameter {{ tag: AttestationChallenge, value: Blob({:?}) }}, \
             KeyParameter {{ tag: CertificateNotAfter, value: DateTime(2461449600000) }}, \
             KeyParameter {{ tag: CertificateSerial, value: Blob([1]) }}]",
            b"MysticAttestation response key v1:request-1"
        )
    );
}

#[test]
fn device_identity_signs() {
    let params = device_identity_params(&device(), ResponseIdentity::Serial);
    assert_eq!(params.len(), 9);
    assert_eq!(
        format!("{:?}", params[2]),
        "KeyParameter { tag: Purpose, value: KeyPurpose(Sign) }"
    );
    assert_eq!(
        blobs(&params)[1..],
        [
            (Tag::CertificateSerial, vec![2]),
            (Tag::AttestationIdSerial, b"S1".to_vec()),
        ]
    );
}

#[test]
fn all_property_names_are_listed() {
    let names = system_property_names();
    assert_eq!(names.len(), 16);
    for name in [
        "ro.serialno",
        "ro.product.brand_for_attestation",
        "ro.product.vendor.device",
        "ro.product.model",
    ] {
        assert!(names.iter().any(|listed| listed == name), "{name}");
    }
    let listed = SystemProperties {
        entries: device().entries.into_iter().filter(|(name, _)| names.contains(name)).collect(),
    };
    assert_eq!(
        format!("{:?}", device_identity_params(&listed, ResponseIdentity::Full)),
        format!("{:?}", device_identity_params(&device(), ResponseIdentity::Full))
    );
}
