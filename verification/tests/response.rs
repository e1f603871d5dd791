use droidfoodattestation::response::{
    aes_gcm_decrypt, check_response_envelope, decrypt_provision_response, decrypt_response,
    decrypt_response_envelope, derive_response_aes_key, device_identity_challenge,
    is_internal_identity_certificate, response_aad, response_key_challenge,
    PROVISION_RESPONSE_AAD_PREFIX, PROVISION_RESPONSE_HKDF_INFO, RESPONSE_AAD_PREFIX,
    RESPONSE_HKDF_INFO,
};
use droidfoodattestation::types::EncryptedResponse;
use openssl::symm::{encrypt_aead, Cipher};

const OVERWRITE_KEY: &str = "829d3a0a7a70172e766327d556d284d9d6f2f6739480c9e7e6bed819694bfc37";

const PROVISION_KEY: &str = "e6e988e5cfb5bc4e76aefbd85d9cc79f127416f54d9d0dd53dc4fa41a7b6d53b";

fn hex(bytes: &[u8]) -> String {
    bytes.iter().map(|byte| format!("{byte:02x}")).collect()
}

fn unhex(text: &str) -> Vec<u8> {
    (0..text.len() / 2)
        .map(|i| u8::from_str_radix(&text[2 * i..2 * i + 2], 16).unwrap())
        .collect()
}

fn sealed(key: &[u8], nonce: &[u8], aad: &[u8], plain: &[u8]) -> Vec<u8> {
    let mut tag = [0u8; 16];
    let mut bytes =
        encrypt_aead(Cipher::aes_256_gcm(), key, Some(nonce), aad, plain, &mut tag).unwrap();
    bytes.extend_from_slice(&tag);
    bytes
}

fn reply(key: &str, aad: &str, plain: &[u8]) -> EncryptedResponse {
    EncryptedResponse {
        encrypted_response: sealed(&unhex(key), b"twelve bytes", aad.as_bytes(), plain),
        response_nonce: b"twelve bytes".to_vec(),
        response_ephemeral_public_key: vec![4],
    }
}

#[test]
fn response_key_challenge_names_the_request() {
    assert_eq!(
        response_key_challenge("request-1"),
        b"MysticAttestation response key v1:request-1"
    );
    assert_ne!(response_key_challenge("a"), response_key_challenge("b"));
}

#[test]
fn device_identity_challenge_is_a_digest() {
    assert_eq!(
        hex(&device_identity_challenge()),
        "10cacb7848f8240a2a78bcc29edf8cd678766071058396cba24b9a68dd0c48a0"
    );
    assert_eq!(device_identity_challenge().len(), 32);
}

#[test]
fn own_certificates_are_internal() {
    let around = |challenge: &[u8]| [b"before".to_vec(), challenge.to_vec(), vec![0]].concat();
    assert!(is_internal_identity_certificate(&around(&response_key_challenge("any"))));
    assert!(is_internal_identity_certificate(&around(&device_identity_challenge())));
    assert!(is_internal_identity_certificate(&device_identity_challenge()));
}

#[test]
fn other_certificates_are_not_internal() {
    assert!(!is_internal_identity_certificate(b""));
    assert!(!is_internal_identity_certificate(b"MysticAttestation response key v1"));
    assert!(!is_internal_identity_certificate(&device_identity_challenge()[1..]));
    assert!(!is_internal_identity_certificate(&[0x30, 0x82, 1, 2, 3]));
}

#[test]
fn aad_is_prefix_and_request() {
    assert_eq!(
        response_aad(RESPONSE_AAD_PREFIX, "request-1"),
        "MysticAttestation overwrite response aad v1:request-1"
    );
    assert_eq!(
        response_aad(PROVISION_RESPONSE_AAD_PREFIX, "x"),
        "MysticAttestation provision response aad v1:x"
    );
}

#[test]
fn aes_key_is_derived_with_hkdf() {
    let overwrite =
        derive_response_aes_key("request-1", b"shared secret", RESPONSE_HKDF_INFO.as_bytes());
    assert_eq!(hex(&overwrite.unwrap()), OVERWRITE_KEY);
    let provision = derive_response_aes_key(
        "request-1",
        b"shared secret",
        PROVISION_RESPONSE_HKDF_INFO.as_bytes(),
    );
    assert_eq!(hex(&provision.unwrap()), PROVISION_KEY);
}

#[test]
fn gcm_decrypts_what_was_encrypted() {
    let key = [7u8; 32];
    for length in [0usize, 1, 15, 16, 17, 1000] {
        let plain = vec![0x42u8; length];
        let encrypted = sealed(&key, &[9u8; 12], b"aad", &plain);
        assert_eq!(encrypted.len(), length + 16);
        assert_eq!(aes_gcm_decrypt(&key, &[9u8; 12], &encrypted, b"aad").unwrap(), plain);
    }
    let encrypted = sealed(&key, &[9u8; 16], b"", b"longer nonce");
    assert_eq!(aes_gcm_decrypt(&key, &[9u8; 16], &encrypted, b"").unwrap(), b"longer nonce");
}

#[test]
fn gcm_known_answer() {
    let encrypted = unhex("cea7403d4d606b6e074ec5d3baf39d18d0d1c8a799996bf0265b98b5d48ab919");
    assert_eq!(aes_gcm_decrypt(&[0; 32], &[0; 12], &encrypted, b"").unwrap(), vec![0u8; 16]);
}

#[test]
fn gcm_refuses_what_was_changed() {
    let key = [7u8; 32];
    let nonce = [9u8; 12];
    let encrypted = sealed(&key, &nonce, b"aad", b"plain");
    let refused = |key: &[u8], nonce: &[u8], encrypted: &[u8], aad: &[u8]| {
        let message = aes_gcm_decrypt(key, nonce, encrypted, aad).unwrap_err();
        assert!(message.starts_with("response decrypt verify failed: "), "{message}");
    };
    let mut ciphertext = encrypted.clone();
    ciphertext[0] ^= 1;
    refused(&key, &nonce, &ciphertext, b"aad");
    let mut tag = encrypted.clone();
    tag[20] ^= 1;
    refused(&key, &nonce, &tag, b"aad");
    refused(&key, &nonce, &encrypted, b"AAD");
    refused(&[8; 32], &nonce, &encrypted, b"aad");
    refused(&key, &[8; 12], &encrypted, b"aad");
}

#[test]
fn gcm_refuses_short_input() {
    assert_eq!(
        aes_gcm_decrypt(&[0; 32], &[0; 12], &[0; 15], b"").unwrap_err(),
        "encrypted response is too short"
    );
}

#[test]
fn gcm_refuses_bad_key_and_nonce() {
    let message = aes_gcm_decrypt(&[0; 31], &[0; 12], &[0; 16], b"").unwrap_err();
    assert!(message.starts_with("response decrypt init failed: "), "{message}");
    let message = aes_gcm_decrypt(&[0; 32], &[], &[0; 16], b"").unwrap_err();
    assert!(message.starts_with("response decrypt init failed: "), "{message}");
}

#[test]
fn incomplete_replies_are_refused() {
    let complete = || reply(OVERWRITE_KEY, "aad", b"plain");
    assert!(check_response_envelope(&complete()).is_ok());
    let broken = [
        EncryptedResponse { encrypted_response: vec![], ..complete() },
        EncryptedResponse { response_nonce: vec![], ..complete() },
        EncryptedResponse { response_ephemeral_public_key: vec![], ..complete() },
    ];
    for response in broken {
        let message = "server returned an incomplete encrypted response";
        assert_eq!(check_response_envelope(&response).unwrap_err(), message);
        let secret = Err("not asked for".to_owned());
        assert_eq!(decrypt_response("request-1", secret, &response).unwrap_err(), message);
    }
}

#[test]
fn overwrite_reply_opens() {
    let aad = "MysticAttestation overwrite response aad v1:request-1";
    let response = reply(OVERWRITE_KEY, aad, b"the reply");
    let opened = decrypt_response("request-1", Ok(b"shared secret".to_vec()), &response);
    assert_eq!(opened.unwrap(), b"the reply");
}

#[test]
fn provision_reply_opens() {
    let aad = "MysticAttestation provision response aad v1:request-1";
    let response = reply(PROVISION_KEY, aad, b"the reply");
    let opened = decrypt_provision_response("request-1", Ok(b"shared secret".to_vec()), &response);
    assert_eq!(opened.unwrap(), b"the reply");
}

#[test]
fn reply_opens_for_its_own_request_only() {
    let aad = "MysticAttestation overwrite response aad v1:request-1";
    let response = reply(OVERWRITE_KEY, aad, b"the reply");
    let secret = || Ok(b"shared secret".to_vec());
    let refused = |opened: Result<Vec<u8>, String>| {
        let message = opened.unwrap_err();
        assert!(message.starts_with("response decrypt verify failed: "), "{message}");
    };
    refused(decrypt_response("request-2", secret(), &response));
    refused(decrypt_provision_response("request-1", secret(), &response));
    refused(decrypt_response("request-1", Ok(b"another".to_vec()), &response));
    refused(decrypt_response_envelope(
        "request-1",
        secret(),
        &response,
        RESPONSE_HKDF_INFO,
        PROVISION_RESPONSE_AAD_PREFIX,
    ));
}

#[test]
fn failed_agreement_is_reported() {
    let response = reply(OVERWRITE_KEY, "aad", b"plain");
    let opened = decrypt_response("request-1", Err("no secret".to_owned()), &response);
    assert_eq!(opened.unwrap_err(), "no secret");
}
