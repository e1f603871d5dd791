use droidfoodattestation::chain::{
    leaf_is_signed_by_first_issuer, validate_provisioned_attestation_key,
    verify_certificate_signature,
};
use droidfoodattestation::types::ProvisionAttestationKeyResponsePlaintext;
use openssl::asn1::Asn1Time;
use openssl::bn::BigNum;
use openssl::ec::{EcGroup, EcKey};
use openssl::hash::MessageDigest;
use openssl::nid::Nid;
use openssl::pkey::{PKey, Private};
use openssl::x509::{X509Name, X509NameBuilder, X509};

fn key() -> PKey<Private> {
    let group = EcGroup::from_curve_name(Nid::X9_62_PRIME256V1).unwrap();
    PKey::from_ec_key(EcKey::generate(&group).unwrap()).unwrap()
}

fn name(common_name: &str) -> X509Name {
    let mut builder = X509NameBuilder::new().unwrap();
    builder.append_entry_by_text("CN", common_name).unwrap();
    builder.build()
}

fn issue(subject: &str, key: &PKey<Private>, issuer: &str, signer: &PKey<Private>) -> X509 {
    let mut builder = X509::builder().unwrap();
    builder.set_version(2).unwrap();
    let serial = BigNum::from_u32(1).unwrap().to_asn1_integer().unwrap();
    builder.set_serial_number(&serial).unwrap();
    builder.set_subject_name(&name(subject)).unwrap();
    builder.set_issuer_name(&name(issuer)).unwrap();
    builder.set_not_before(&Asn1Time::days_from_now(0).unwrap()).unwrap();
    builder.set_not_after(&Asn1Time::days_from_now(1).unwrap()).unwrap();
    builder.set_pubkey(key).unwrap();
    builder.sign(signer, MessageDigest::sha256()).unwrap();
    builder.build()
}

struct Chain {
    leaf: X509,
    middle: X509,
    root: X509,
}

fn chain() -> Chain {
    let (leaf_key, middle_key, root_key) = (key(), key(), key());
    Chain {
        leaf: issue("leaf", &leaf_key, "middle", &middle_key),
        middle: issue("middle", &middle_key, "root", &root_key),
        root: issue("root", &root_key, "root", &root_key),
    }
}

fn der(certificates: &[&X509]) -> Vec<u8> {
    certificates.iter().flat_map(|certificate| certificate.to_der().unwrap()).collect()
}

fn material(leaf: Vec<u8>, chain: Vec<u8>) -> ProvisionAttestationKeyResponsePlaintext {
    ProvisionAttestationKeyResponsePlaintext {
        secure_key_wrapper: vec![1, 2, 3],
        leaf_certificate: leaf,
        remaining_chain: chain,
    }
}

fn material_error(leaf: Vec<u8>, chain: Vec<u8>) -> String {
    validate_provisioned_attestation_key(&material(leaf, chain)).unwrap_err()
}

#[test]
fn issued_certificate_verifies() {
    let chain = chain();
    assert!(verify_certificate_signature(&chain.leaf, &chain.middle, "leaf").is_ok());
    assert!(verify_certificate_signature(&chain.root, &chain.root, "root").is_ok());
}

#[test]
fn wrong_issuer_name_is_reported() {
    let chain = chain();
    assert_eq!(
        verify_certificate_signature(&chain.leaf, &chain.root, "this one").unwrap_err(),
        "this one issuer does not match its parent subject"
    );
}

#[test]
fn wrong_signature_is_reported() {
    let chain = chain();
    let impostor_key = key();
    let impostor = issue("middle", &impostor_key, "root", &impostor_key);
    assert_eq!(
        verify_certificate_signature(&chain.leaf, &impostor, "this one").unwrap_err(),
        "this one is not signed by its parent certificate"
    );
}

#[test]
fn first_issuer_is_recognised() {
    let chain = chain();
    let leaf = der(&[&chain.leaf]);
    let signed = |remaining: &[u8]| leaf_is_signed_by_first_issuer(&leaf, remaining).unwrap();
    assert!(signed(&der(&[&chain.middle])));
    assert!(signed(&der(&[&chain.middle, &chain.root])));
    assert!(!signed(&der(&[&chain.root, &chain.middle])));
    assert!(!signed(&der(&[&chain.leaf])));
}

#[test]
fn unreadable_chain_signs_nothing() {
    let chain = chain();
    let leaf = der(&[&chain.leaf]);
    let signed = |remaining: &[u8]| leaf_is_signed_by_first_issuer(&leaf, remaining).unwrap();
    assert!(!signed(b""));
    assert!(!signed(b"not a chain"));
    assert!(!signed(&[0x30, 0x01, 0x00]));
    let mut trailing = der(&[&chain.middle]);
    trailing.push(0);
    assert!(!signed(&trailing));
}

#[test]
fn issuer_name_does_not_matter_for_the_first_issuer() {
    let (leaf_key, issuer_key) = (key(), key());
    let leaf = issue("leaf", &leaf_key, "somebody", &issuer_key);
    let issuer = issue("another", &issuer_key, "another", &issuer_key);
    assert!(leaf_is_signed_by_first_issuer(&der(&[&leaf]), &der(&[&issuer])).unwrap());
}

#[test]
fn unreadable_leaf_is_an_error() {
    let chain = chain();
    let message =
        leaf_is_signed_by_first_issuer(b"junk", &der(&[&chain.middle])).unwrap_err();
    assert!(message.starts_with("attestation leaf certificate is invalid: "), "{message}");
    assert!(message.len() > "attestation leaf certificate is invalid: ".len());
}

#[test]
fn sound_material_passes() {
    let chain = chain();
    let whole = material(der(&[&chain.leaf]), der(&[&chain.middle, &chain.root]));
    assert!(validate_provisioned_attestation_key(&whole).is_ok());
    let short = material(der(&[&chain.leaf]), der(&[&chain.middle]));
    assert!(validate_provisioned_attestation_key(&short).is_ok());
}

#[test]
fn incomplete_material_is_refused() {
    let chain = chain();
    let message = "server returned incomplete attestation-key material";
    assert_eq!(material_error(vec![], der(&[&chain.middle])), message);
    assert_eq!(material_error(der(&[&chain.leaf]), vec![]), message);
    let unwrapped = ProvisionAttestationKeyResponsePlaintext {
        secure_key_wrapper: vec![],
        ..material(der(&[&chain.leaf]), der(&[&chain.middle]))
    };
    assert_eq!(validate_provisioned_attestation_key(&unwrapped).unwrap_err(), message);
}

#[test]
fn leaf_field_holds_one_certificate() {
    let chain = chain();
    assert_eq!(
        material_error(der(&[&chain.leaf, &chain.middle]), der(&[&chain.root])),
        "provisioned leaf field contains more than one certificate"
    );
    assert_eq!(
        material_error(vec![1, 2, 3], der(&[&chain.middle])),
        "provisioned certificate chain is not concatenated DER"
    );
    let message = material_error(vec![0x30, 0], der(&[&chain.middle]));
    assert!(message.starts_with("provisioned leaf certificate is invalid: "), "{message}");
}

#[test]
fn chain_field_holds_certificates() {
    let chain = chain();
    assert_eq!(
        material_error(der(&[&chain.leaf]), vec![0x30, 5]),
        "provisioned certificate is truncated"
    );
    let mut second_broken = der(&[&chain.middle]);
    second_broken.extend_from_slice(&[0x30, 0]);
    let message = material_error(der(&[&chain.leaf]), second_broken);
    assert!(message.starts_with("provisioned certificate 1 is invalid: "), "{message}");
}

#[test]
fn repeated_certificates_are_refused() {
    let chain = chain();
    let message = |index: usize| {
        format!("provisioned certificate chain contains duplicate certificate {index}")
    };
    let leaf = || der(&[&chain.leaf]);
    assert_eq!(material_error(leaf(), leaf()), message(0));
    assert_eq!(material_error(leaf(), der(&[&chain.middle, &chain.middle])), message(1));
    assert_eq!(
        material_error(leaf(), der(&[&chain.middle, &chain.root, &chain.middle])),
        message(2)
    );
}

#[test]
fn first_fault_of_the_chain_is_reported() {
    let chain = chain();
    let message = material_error(der(&[&chain.leaf]), vec![0x30, 0, 0x30, 0]);
    assert!(message.starts_with("provisioned certificate 0 is invalid: "), "{message}");
}

#[test]
fn broken_links_are_reported() {
    let chain = chain();
    assert_eq!(
        material_error(der(&[&chain.leaf]), der(&[&chain.root])),
        "leaf issuer does not match its parent subject"
    );
    let other = key();
    let other_root = issue("root", &other, "root", &other);
    assert_eq!(
        material_error(der(&[&chain.leaf]), der(&[&chain.middle, &other_root])),
        "chain certificate 0 is not signed by its parent certificate"
    );
    let stranger = issue("stranger", &other, "stranger", &other);
    assert_eq!(
        material_error(der(&[&chain.leaf]), der(&[&chain.middle, &chain.root, &stranger])),
        "chain certificate 1 issuer does not match its parent subject"
    );
}
