//! The encrypted reply of the backend: which key opens it, and what is authenticated with it.

use vstd::prelude::*;
use vstd::utf8::{encode_utf8, is_ascii_chars_encode_utf8};

use crate::bytes::{contains_bytes, lemma_occurs_prefix, occurs_in};
use crate::crypto::{
    failure, gcm_aad_update, gcm_accepts_aad, gcm_accepts_key, gcm_accepts_tag, gcm_block_size,
    gcm_decrypter, gcm_final_output, gcm_finalize, gcm_pad, gcm_set_tag, gcm_update,
    gcm_update_output, hkdf_sha256, hkdf_sha256_output, reports_openssl, sha256_digest,
};
use crate::grpc::GRPC_MAX_MESSAGE_BYTES;
use crate::request_id::{is_hex_digit, is_random_uuid};
use crate::text::{join2, lemma_utf8_concat};
use crate::types::EncryptedResponse;

verus! {

pub const RESPONSE_KEY_CHALLENGE_PREFIX: &'static str = "MysticAttestation response key v1:";

pub const DEVICE_IDENTITY_CHALLENGE_DOMAIN: &'static str =
    "MysticAttestation persistent device identity v2";

pub const RESPONSE_HKDF_INFO: &'static str = "MysticAttestation overwrite response v1";

pub const RESPONSE_AAD_PREFIX: &'static str = "MysticAttestation overwrite response aad v1:";

pub const PROVISION_RESPONSE_HKDF_INFO: &'static str = "MysticAttestation provision response v1";

pub const PROVISION_RESPONSE_AAD_PREFIX: &'static str =
    "MysticAttestation provision response aad v1:";

/// The length of an AES-GCM tag, which ends the encrypted reply.
pub const GCM_TAG_LEN: usize = 16;

pub const RESPONSE_INCOMPLETE: &'static str = "server returned an incomplete encrypted response";

pub const KEY_DERIVATION_FAILED: &'static str = "response key derivation failed: ";

pub const RESPONSE_TOO_SHORT: &'static str = "encrypted response is too short";

pub const DECRYPT_INIT_FAILED: &'static str = "response decrypt init failed: ";

pub const DECRYPT_AAD_FAILED: &'static str = "response decrypt aad failed: ";

pub const DECRYPT_TAG_FAILED: &'static str = "response decrypt tag failed: ";

pub const DECRYPT_UPDATE_FAILED: &'static str = "response decrypt update failed: ";

pub const DECRYPT_VERIFY_FAILED: &'static str = "response decrypt verify failed: ";

/// The attestation challenge of the response key of a request.
pub open spec fn challenge_for(request_id: Seq<char>) -> Seq<u8> {
    encode_utf8(RESPONSE_KEY_CHALLENGE_PREFIX@ + request_id)
}

/// The attestation challenge of the response key of a request.
pub fn response_key_challenge(request_id: &str) -> (challenge: Vec<u8>)
    ensures
        challenge@ == challenge_for(request_id@),
{
    join2(RESPONSE_KEY_CHALLENGE_PREFIX, request_id).as_str().as_bytes_vec()
}

/// The attestation challenge of the device identity.
pub open spec fn identity_challenge() -> Seq<u8> {
    sha256_digest(encode_utf8(DEVICE_IDENTITY_CHALLENGE_DOMAIN@))
}

/// The attestation challenge of the device identity.
pub fn device_identity_challenge() -> (challenge: Vec<u8>)
    ensures
        challenge@ == identity_challenge(),
        challenge@.len() == 32,
{
    let digest = openssl::sha::sha256(DEVICE_IDENTITY_CHALLENGE_DOMAIN.as_bytes());
    vstd::slice::slice_to_vec(&digest)
}

/// A certificate that attests one of the library's own keys: a challenge of theirs stands in it.
pub open spec fn is_internal(leaf_certificate: Seq<u8>) -> bool {
    ||| occurs_in(leaf_certificate, encode_utf8(RESPONSE_KEY_CHALLENGE_PREFIX@))
    ||| occurs_in(leaf_certificate, identity_challenge())
}

/// Whether a certificate attests one of the library's own keys. One that is shorter than both
/// challenges does not.
pub fn is_internal_identity_certificate(leaf_certificate: &[u8]) -> (internal: bool)
    ensures
        internal == is_internal(leaf_certificate@),
        leaf_certificate@.len() < 32 ==> !internal,
{
    let identity_challenge = device_identity_challenge();
    proof {
        reveal_strlit("MysticAttestation response key v1:");
        is_ascii_chars_encode_utf8(RESPONSE_KEY_CHALLENGE_PREFIX@);
    }
    contains_bytes(leaf_certificate, RESPONSE_KEY_CHALLENGE_PREFIX.as_bytes()) || contains_bytes(
        leaf_certificate,
        identity_challenge.as_slice(),
    )
}

/// The data that is authenticated along with the reply to a request.
pub fn response_aad(prefix: &str, request_id: &str) -> (aad: String)
    ensures
        aad@ == prefix@ + request_id@,
{
    join2(prefix, request_id)
}

/// The AES key of the reply to a request: HKDF over the agreed secret, salted with the digest of
/// the response key's challenge.
pub open spec fn response_aes_key(
    request_id: Seq<char>,
    secret: Seq<u8>,
    hkdf_info: Seq<u8>,
) -> Option<Seq<u8>> {
    hkdf_sha256_output(secret, sha256_digest(challenge_for(request_id)), hkdf_info, 32)
}

/// Derives the AES key of the reply to a request.
pub fn derive_response_aes_key(request_id: &str, secret: &[u8], hkdf_info: &[u8]) -> (derived:
    Result<[u8; 32], String>)
    ensures
        match response_aes_key(request_id@, secret@, hkdf_info@) {
            Some(key) => derived matches Ok(bytes) && bytes@ == key,
            None => derived matches Err(message) && reports_openssl(
                message@,
                KEY_DERIVATION_FAILED@,
            ),
        },
        match hkdf_sha256_output(
            secret@,
            sha256_digest(encode_utf8("MysticAttestation response key v1:"@ + request_id@)),
            hkdf_info@,
            32,
        ) {
            Some(key) => derived matches Ok(bytes) && bytes@ == key,
            None => derived is Err,
        },
{
    let mut key: [u8; 32] = [0u8; 32];
    let salt = openssl::sha::sha256(response_key_challenge(request_id).as_slice());
    match hkdf_sha256(&mut key, secret, &salt, hkdf_info) {
        Ok(()) => Ok(key),
        Err(error) => Err(failure(KEY_DERIVATION_FAILED, &error)),
    }
}

/// What can keep an encrypted reply closed.
pub enum OpenFault {
    Incomplete,
    KeyDerivation,
    TooShort,
    Init,
    Aad,
    Tag,
    Update,
    Verify,
}

/// What the AES-256-GCM decryption of `encrypted`, which ends with the tag, yields.
pub open spec fn gcm_opened(
    key: Seq<u8>,
    nonce: Seq<u8>,
    encrypted: Seq<u8>,
    aad: Seq<u8>,
) -> Result<Seq<u8>, OpenFault> {
    let split = encrypted.len() - GCM_TAG_LEN;
    let ciphertext = encrypted.take(split);
    let tag = encrypted.skip(split);
    let none = Seq::<u8>::empty();
    if encrypted.len() < GCM_TAG_LEN {
        Err(OpenFault::TooShort)
    } else if !gcm_accepts_key(key, nonce) {
        Err(OpenFault::Init)
    } else if !gcm_accepts_aad(seq![key, nonce, none, none, none], aad) {
        Err(OpenFault::Aad)
    } else if !gcm_accepts_tag(seq![key, nonce, aad, none, none], tag) {
        Err(OpenFault::Tag)
    } else {
        match gcm_update_output(seq![key, nonce, aad, tag, none], ciphertext) {
            None => Err(OpenFault::Update),
            Some(plain) => match gcm_final_output(seq![key, nonce, aad, tag, ciphertext]) {
                None => Err(OpenFault::Verify),
                Some(rest) => Ok(plain + rest),
            },
        }
    }
}

/// `message` reports the fault. Where OpenSSL refused something, its own text follows.
pub open spec fn reports_open_fault(message: Seq<char>, fault: OpenFault) -> bool {
    match fault {
        OpenFault::Incomplete => message == RESPONSE_INCOMPLETE@,
        OpenFault::KeyDerivation => reports_openssl(message, KEY_DERIVATION_FAILED@),
        OpenFault::TooShort => message == RESPONSE_TOO_SHORT@,
        OpenFault::Init => reports_openssl(message, DECRYPT_INIT_FAILED@),
        OpenFault::Aad => reports_openssl(message, DECRYPT_AAD_FAILED@),
        OpenFault::Tag => reports_openssl(message, DECRYPT_TAG_FAILED@),
        OpenFault::Update => reports_openssl(message, DECRYPT_UPDATE_FAILED@),
        OpenFault::Verify => reports_openssl(message, DECRYPT_VERIFY_FAILED@),
    }
}

/// Lengths of a key, a nonce, an encrypted text and authenticated data that OpenSSL can count, if
/// it comes to that: a text that is too short for a tag is not decrypted.
pub open spec fn fits_openssl(key: nat, nonce: nat, encrypted: nat, aad: nat) -> bool {
    encrypted >= GCM_TAG_LEN ==> {
        &&& key <= i32::MAX
        &&& nonce <= i32::MAX
        &&& encrypted - GCM_TAG_LEN < i32::MAX
        &&& aad <= i32::MAX
    }
}

/// Decrypts `encrypted`, which ends with the tag, and checks the tag.
pub fn aes_gcm_decrypt(key: &[u8], nonce: &[u8], encrypted: &[u8], aad: &[u8]) -> (decrypted:
    Result<Vec<u8>, String>)
    requires
        fits_openssl(key@.len(), nonce@.len(), encrypted@.len(), aad@.len()),
    ensures
        match gcm_opened(key@, nonce@, encrypted@, aad@) {
            Ok(plain) => decrypted matches Ok(bytes) && bytes@ == plain,
            Err(fault) => decrypted matches Err(message) && reports_open_fault(message@, fault),
        },
{
    if encrypted.len() < GCM_TAG_LEN {
        return Err(RESPONSE_TOO_SHORT.to_owned());
    }
    let (ciphertext, tag) = encrypted.split_at(encrypted.len() - GCM_TAG_LEN);
    let ghost none = Seq::<u8>::empty();
    proof {
        assert(ciphertext@ =~= encrypted@.take(encrypted@.len() - GCM_TAG_LEN));
        assert(tag@ =~= encrypted@.skip(encrypted@.len() - GCM_TAG_LEN));
    }
    let mut crypter = match gcm_decrypter(key, nonce) {
        Ok(crypter) => crypter,
        Err(error) => return Err(failure(DECRYPT_INIT_FAILED, &error)),
    };
    gcm_pad(&mut crypter, false);
    match gcm_aad_update(&mut crypter, aad) {
        Ok(()) => {},
        Err(error) => return Err(failure(DECRYPT_AAD_FAILED, &error)),
    }
    proof {
        assert(none + aad@ =~= aad@);
        assert(crate::crypto::crypter_inputs(crypter) =~= seq![key@, nonce@, aad@, none, none]);
    }
    match gcm_set_tag(&mut crypter, tag) {
        Ok(()) => {},
        Err(error) => return Err(failure(DECRYPT_TAG_FAILED, &error)),
    }
    assert(crate::crypto::crypter_inputs(crypter) =~= seq![key@, nonce@, aad@, tag@, none]);
    let mut out: Vec<u8> = vec![0u8; ciphertext.len() + gcm_block_size()];
    let count: usize = match gcm_update(&mut crypter, ciphertext, &mut out) {
        Ok(count) => count,
        Err(error) => return Err(failure(DECRYPT_UPDATE_FAILED, &error)),
    };
    proof {
        assert(none + ciphertext@ =~= ciphertext@);
        assert(crate::crypto::crypter_inputs(crypter) =~= seq![
            key@,
            nonce@,
            aad@,
            tag@,
            ciphertext@,
        ]);
    }
    let rest: usize = match gcm_finalize(&mut crypter, &mut out, count) {
        Ok(rest) => rest,
        Err(error) => return Err(failure(DECRYPT_VERIFY_FAILED, &error)),
    };
    out.truncate(count + rest);
    Ok(out)
}

/// What opening the encrypted reply to a request yields.
pub open spec fn response_opened(
    request_id: Seq<char>,
    secret: Seq<u8>,
    response: EncryptedResponse,
    hkdf_info: Seq<u8>,
    aad_prefix: Seq<char>,
) -> Result<Seq<u8>, OpenFault> {
    match response_aes_key(request_id, secret, hkdf_info) {
        None => Err(OpenFault::KeyDerivation),
        Some(key) => gcm_opened(
            key,
            response.response_nonce@,
            response.encrypted_response@,
            encode_utf8(aad_prefix + request_id),
        ),
    }
}

/// A reply has a ciphertext, a nonce and a public key.
pub open spec fn is_complete(response: EncryptedResponse) -> bool {
    &&& response.encrypted_response@.len() > 0
    &&& response.response_nonce@.len() > 0
    &&& response.response_ephemeral_public_key@.len() > 0
}

/// The lengths in a reply are such that OpenSSL can count them.
pub open spec fn is_within_limits(
    request_id: Seq<char>,
    response: EncryptedResponse,
    aad_prefix: Seq<char>,
) -> bool {
    fits_openssl(
        32,
        response.response_nonce@.len(),
        response.encrypted_response@.len(),
        encode_utf8(aad_prefix + request_id).len(),
    )
}

/// Refuses a reply that lacks a part, before any secret is agreed on.
pub fn check_response_envelope(response: &EncryptedResponse) -> (checked: Result<(), String>)
    ensures
        is_complete(*response) ==> checked is Ok,
        !is_complete(*response) ==> (checked matches Err(message) && message@
            == RESPONSE_INCOMPLETE@),
{
    if response.encrypted_response.is_empty() || response.response_nonce.is_empty()
        || response.response_ephemeral_public_key.is_empty() {
        return Err(RESPONSE_INCOMPLETE.to_owned());
    }
    Ok(())
}

/// Opens the encrypted reply to a request. `secret` is what the key agreement with the reply's
/// public key came to.
pub fn decrypt_response_envelope(
    request_id: &str,
    secret: Result<Vec<u8>, String>,
    response: &EncryptedResponse,
    hkdf_info: &str,
    aad_prefix: &str,
) -> (opened: Result<Vec<u8>, String>)
    requires
        is_complete(*response) && secret is Ok ==> is_within_limits(
            request_id@,
            *response,
            aad_prefix@,
        ),
    ensures
        !is_complete(*response) ==> (opened matches Err(message) && reports_open_fault(
            message@,
            OpenFault::Incomplete,
        )),
        is_complete(*response) ==> match secret {
            Err(reason) => opened == Err::<Vec<u8>, String>(reason),
            Ok(agreed) => match response_opened(
                request_id@,
                agreed@,
                *response,
                encode_utf8(hkdf_info@),
                aad_prefix@,
            ) {
                Ok(plain) => opened matches Ok(bytes) && bytes@ == plain,
                Err(fault) => opened matches Err(message) && reports_open_fault(message@, fault),
            },
        },
{
    match check_response_envelope(response) {
        Ok(()) => {},
        Err(message) => return Err(message),
    }
    let agreed = match secret {
        Ok(agreed) => agreed,
        Err(reason) => return Err(reason),
    };
    let aes_key = match derive_response_aes_key(
        request_id,
        agreed.as_slice(),
        hkdf_info.as_bytes(),
    ) {
        Ok(key) => key,
        Err(message) => return Err(message),
    };
    let aad = response_aad(aad_prefix, request_id);
    aes_gcm_decrypt(
        &aes_key,
        response.response_nonce.as_slice(),
        response.encrypted_response.as_slice(),
        aad.as_str().as_bytes(),
    )
}

/// Opens the encrypted reply to an overwrite request.
pub fn decrypt_response(
    request_id: &str,
    secret: Result<Vec<u8>, String>,
    response: &EncryptedResponse,
) -> (opened: Result<Vec<u8>, String>)
    requires
        is_complete(*response) && secret is Ok ==> is_within_limits(
            request_id@,
            *response,
            RESPONSE_AAD_PREFIX@,
        ),
    ensures
        !is_complete(*response) ==> (opened matches Err(message) && reports_open_fault(
            message@,
            OpenFault::Incomplete,
        )),
        is_complete(*response) ==> match secret {
            Err(reason) => opened == Err::<Vec<u8>, String>(reason),
            Ok(agreed) => match response_opened(
                request_id@,
                agreed@,
                *response,
                encode_utf8(RESPONSE_HKDF_INFO@),
                RESPONSE_AAD_PREFIX@,
            ) {
                Ok(plain) => opened matches Ok(bytes) && bytes@ == plain,
                Err(fault) => opened matches Err(message) && reports_open_fault(message@, fault),
            },
        },
{
    decrypt_response_envelope(
        request_id,
        secret,
        response,
        RESPONSE_HKDF_INFO,
        RESPONSE_AAD_PREFIX,
    )
}

/// Opens the encrypted reply to a provisioning request.
pub fn decrypt_provision_response(
    request_id: &str,
    secret: Result<Vec<u8>, String>,
    response: &EncryptedResponse,
) -> (opened: Result<Vec<u8>, String>)
    requires
        is_complete(*response) && secret is Ok ==> is_within_limits(
            request_id@,
            *response,
            PROVISION_RESPONSE_AAD_PREFIX@,
        ),
    ensures
        !is_complete(*response) ==> (opened matches Err(message) && reports_open_fault(
            message@,
            OpenFault::Incomplete,
        )),
        is_complete(*response) ==> match secret {
            Err(reason) => opened == Err::<Vec<u8>, String>(reason),
            Ok(agreed) => match response_opened(
                request_id@,
                agreed@,
                *response,
                encode_utf8(PROVISION_RESPONSE_HKDF_INFO@),
                PROVISION_RESPONSE_AAD_PREFIX@,
            ) {
                Ok(plain) => opened matches Ok(bytes) && bytes@ == plain,
                Err(fault) => opened matches Err(message) && reports_open_fault(message@, fault),
            },
        },
{
    decrypt_response_envelope(
        request_id,
        secret,
        response,
        PROVISION_RESPONSE_HKDF_INFO,
        PROVISION_RESPONSE_AAD_PREFIX,
    )
}

/// A certificate that holds the challenge of any response key is recognised as internal, whatever
/// request the key belongs to.
pub proof fn law_response_key_certificate_is_internal(
    leaf_certificate: Seq<u8>,
    request_id: Seq<char>,
)
    requires
        occurs_in(leaf_certificate, challenge_for(request_id)),
    ensures
        is_internal(leaf_certificate),
{
    let prefix = RESPONSE_KEY_CHALLENGE_PREFIX@;
    lemma_utf8_concat(prefix, request_id);
    lemma_occurs_prefix(leaf_certificate, encode_utf8(prefix), encode_utf8(request_id));
}

/// A certificate that holds the challenge of the device identity is recognised as internal.
pub proof fn law_device_identity_certificate_is_internal(leaf_certificate: Seq<u8>)
    requires
        occurs_in(leaf_certificate, identity_challenge()),
    ensures
        is_internal(leaf_certificate),
{
}

/// Different requests have different challenges and, under one prefix, different authenticated
/// data.
pub proof fn law_requests_are_told_apart(first: Seq<char>, second: Seq<char>, prefix: Seq<char>)
    ensures
        challenge_for(first) == challenge_for(second) ==> first == second,
        encode_utf8(prefix + first) == encode_utf8(prefix + second) ==> first == second,
{
    let challenge = RESPONSE_KEY_CHALLENGE_PREFIX@;
    vstd::utf8::encode_utf8_decode_utf8(challenge + first);
    vstd::utf8::encode_utf8_decode_utf8(challenge + second);
    vstd::utf8::encode_utf8_decode_utf8(prefix + first);
    vstd::utf8::encode_utf8_decode_utf8(prefix + second);
    assert((challenge + first).skip(challenge.len() as int) =~= first);
    assert((challenge + second).skip(challenge.len() as int) =~= second);
    assert((prefix + first).skip(prefix.len() as int) =~= first);
    assert((prefix + second).skip(prefix.len() as int) =~= second);
}

/// The replies to the two kinds of request never share their key derivation context or their
/// authenticated data: a reply to the one cannot be passed off as a reply to the other.
pub proof fn law_reply_kinds_are_told_apart(overwrite_id: Seq<char>, provision_id: Seq<char>)
    ensures
        encode_utf8(RESPONSE_HKDF_INFO@) != encode_utf8(PROVISION_RESPONSE_HKDF_INFO@),
        encode_utf8(RESPONSE_AAD_PREFIX@ + overwrite_id) != encode_utf8(
            PROVISION_RESPONSE_AAD_PREFIX@ + provision_id,
        ),
{
    reveal_strlit("MysticAttestation overwrite response v1");
    reveal_strlit("MysticAttestation provision response v1");
    reveal_strlit("MysticAttestation overwrite response aad v1:");
    reveal_strlit("MysticAttestation provision response aad v1:");
    vstd::utf8::encode_utf8_decode_utf8(RESPONSE_HKDF_INFO@);
    vstd::utf8::encode_utf8_decode_utf8(PROVISION_RESPONSE_HKDF_INFO@);
    vstd::utf8::encode_utf8_decode_utf8(RESPONSE_AAD_PREFIX@ + overwrite_id);
    vstd::utf8::encode_utf8_decode_utf8(PROVISION_RESPONSE_AAD_PREFIX@ + provision_id);
    assert(RESPONSE_HKDF_INFO@[18] == 'o');
    assert(PROVISION_RESPONSE_HKDF_INFO@[18] == 'p');
    assert((RESPONSE_AAD_PREFIX@ + overwrite_id)[18] == 'o');
    assert((PROVISION_RESPONSE_AAD_PREFIX@ + provision_id)[18] == 'p');
}

/// A reply that fits a gRPC message is never too large to be opened, for any name that is drawn for
/// a request.
pub proof fn law_replies_are_within_limits(request_id: Seq<char>, response: EncryptedResponse)
    requires
        is_random_uuid(request_id),
        response.encrypted_response@.len() <= GRPC_MAX_MESSAGE_BYTES,
        response.response_nonce@.len() <= GRPC_MAX_MESSAGE_BYTES,
    ensures
        is_within_limits(request_id, response, RESPONSE_AAD_PREFIX@),
        is_within_limits(request_id, response, PROVISION_RESPONSE_AAD_PREFIX@),
{
    reveal_strlit("MysticAttestation overwrite response aad v1:");
    reveal_strlit("MysticAttestation provision response aad v1:");
    assert forall|i: int| 0 <= i < request_id.len() implies '\0' <= #[trigger] request_id[i]
        <= '\u{7f}' by {
        assert(request_id[i] == '-' || is_hex_digit(request_id[i]));
    }
    is_ascii_chars_encode_utf8(RESPONSE_AAD_PREFIX@ + request_id);
    is_ascii_chars_encode_utf8(PROVISION_RESPONSE_AAD_PREFIX@ + request_id);
}

/// The challenges, word by word: that of a response key is the prefix and the name of the request,
/// that of the device identity the digest of its domain.
pub proof fn law_challenge_bytes(request_id: Seq<char>)
    ensures
        challenge_for(request_id) == encode_utf8("MysticAttestation response key v1:"@)
            + encode_utf8(request_id),
        identity_challenge() == sha256_digest(
            encode_utf8("MysticAttestation persistent device identity v2"@),
        ),
{
    lemma_utf8_concat("MysticAttestation response key v1:"@, request_id);
}

/// A certificate is internal exactly when it is something, one of the two challenges, and
/// something.
pub proof fn law_internal_certificates(leaf_certificate: Seq<u8>)
    ensures
        is_internal(leaf_certificate) <==> {
            ||| exists|before: Seq<u8>, after: Seq<u8>|
                leaf_certificate == #[trigger] (before + encode_utf8(
                    "MysticAttestation response key v1:"@,
                ) + after)
            ||| exists|before: Seq<u8>, after: Seq<u8>|
                leaf_certificate == #[trigger] (before + sha256_digest(
                    encode_utf8("MysticAttestation persistent device identity v2"@),
                ) + after)
        },
{
    crate::bytes::law_occurrence(
        leaf_certificate,
        encode_utf8("MysticAttestation response key v1:"@),
    );
    crate::bytes::law_occurrence(
        leaf_certificate,
        sha256_digest(encode_utf8("MysticAttestation persistent device identity v2"@)),
    );
}

/// The whole of the agreed secret goes into the key, whatever its length, and so do the whole name
/// of the request and the whole label: the key is what HKDF makes of just these.
pub proof fn law_whole_secret_is_used(request_id: Seq<char>, secret: Seq<u8>, hkdf_info: Seq<u8>)
    ensures
        response_aes_key(request_id, secret, hkdf_info) == hkdf_sha256_output(
            secret,
            sha256_digest(
                encode_utf8("MysticAttestation response key v1:"@) + encode_utf8(request_id),
            ),
            hkdf_info,
            32,
        ),
{
    lemma_utf8_concat("MysticAttestation response key v1:"@, request_id);
}

/// What is decrypted is all but the last sixteen bytes, which are the tag: decryption asks OpenSSL
/// for the key and the nonce, then the authenticated data, then the tag, then the ciphertext, and
/// yields all that it writes.
pub proof fn law_decryption(
    key: Seq<u8>,
    nonce: Seq<u8>,
    ciphertext: Seq<u8>,
    tag: Seq<u8>,
    aad: Seq<u8>,
    short: Seq<u8>,
)
    requires
        tag.len() == 16,
        short.len() < 16,
    ensures
        gcm_opened(key, nonce, short, aad) == Err::<Seq<u8>, OpenFault>(OpenFault::TooShort),
        gcm_opened(key, nonce, ciphertext + tag, aad) == ({
            let none = Seq::<u8>::empty();
            let written = gcm_update_output(seq![key, nonce, aad, tag, none], ciphertext);
            let rest = gcm_final_output(seq![key, nonce, aad, tag, ciphertext]);
            if !gcm_accepts_key(key, nonce) {
                Err(OpenFault::Init)
            } else if !gcm_accepts_aad(seq![key, nonce, none, none, none], aad) {
                Err(OpenFault::Aad)
            } else if !gcm_accepts_tag(seq![key, nonce, aad, none, none], tag) {
                Err(OpenFault::Tag)
            } else if written is None {
                Err(OpenFault::Update)
            } else if rest is None {
                Err(OpenFault::Verify)
            } else {
                Ok(written->0 + rest->0)
            }
        }),
{
    let encrypted = ciphertext + tag;
    assert(encrypted.take(encrypted.len() - 16) =~= ciphertext);
    assert(encrypted.skip(encrypted.len() - 16) =~= tag);
}

/// A reply is opened with the key of its request, under its own nonce, and with the label and the
/// name of the request authenticated, all of them whole.
pub proof fn law_opening(
    request_id: Seq<char>,
    secret: Seq<u8>,
    response: EncryptedResponse,
    hkdf_info: Seq<u8>,
    aad_prefix: Seq<char>,
)
    ensures
        response_opened(request_id, secret, response, hkdf_info, aad_prefix) == (
        match hkdf_sha256_output(
            secret,
            sha256_digest(
                encode_utf8("MysticAttestation response key v1:"@) + encode_utf8(request_id),
            ),
            hkdf_info,
            32,
        ) {
            None => Err::<Seq<u8>, OpenFault>(OpenFault::KeyDerivation),
            Some(key) => gcm_opened(
                key,
                response.response_nonce@,
                response.encrypted_response@,
                encode_utf8(aad_prefix) + encode_utf8(request_id),
            ),
        }),
        RESPONSE_HKDF_INFO@ == "MysticAttestation overwrite response v1"@,
        RESPONSE_AAD_PREFIX@ == "MysticAttestation overwrite response aad v1:"@,
        PROVISION_RESPONSE_HKDF_INFO@ == "MysticAttestation provision response v1"@,
        PROVISION_RESPONSE_AAD_PREFIX@ == "MysticAttestation provision response aad v1:"@,
{
    law_whole_secret_is_used(request_id, secret, hkdf_info);
    lemma_utf8_concat(aad_prefix, request_id);
}

/// What a reply that stays closed is reported as, word by word.
pub proof fn law_open_reports(message: Seq<char>)
    ensures
        reports_open_fault(message, OpenFault::Incomplete) <==> message
            == "server returned an incomplete encrypted response"@,
        reports_open_fault(message, OpenFault::TooShort) <==> message
            == "encrypted response is too short"@,
        reports_open_fault(message, OpenFault::KeyDerivation) <==> reports_openssl(
            message,
            "response key derivation failed: "@,
        ),
        reports_open_fault(message, OpenFault::Init) <==> reports_openssl(
            message,
            "response decrypt init failed: "@,
        ),
        reports_open_fault(message, OpenFault::Aad) <==> reports_openssl(
            message,
            "response decrypt aad failed: "@,
        ),
        reports_open_fault(message, OpenFault::Tag) <==> reports_openssl(
            message,
            "response decrypt tag failed: "@,
        ),
        reports_open_fault(message, OpenFault::Update) <==> reports_openssl(
            message,
            "response decrypt update failed: "@,
        ),
        reports_open_fault(message, OpenFault::Verify) <==> reports_openssl(
            message,
            "response decrypt verify failed: "@,
        ),
{
}

/// A reply is complete when none of its three parts is empty, and can be opened unless one of the
/// lengths that OpenSSL is told is over what an `int` holds.
pub proof fn law_complete_and_within_limits(
    request_id: Seq<char>,
    response: EncryptedResponse,
    aad_prefix: Seq<char>,
    key: nat,
    nonce: nat,
    encrypted: nat,
    aad: nat,
)
    ensures
        is_complete(response) <==> response.encrypted_response@.len() != 0
            && response.response_nonce@.len() != 0
            && response.response_ephemeral_public_key@.len() != 0,
        fits_openssl(key, nonce, encrypted, aad) <==> encrypted < 16 || (key <= 0x7fff_ffff && nonce
            <= 0x7fff_ffff && aad <= 0x7fff_ffff && encrypted < 0x7fff_ffff + 16),
        is_within_limits(request_id, response, aad_prefix) <==> fits_openssl(
            32,
            response.response_nonce@.len(),
            response.encrypted_response@.len(),
            encode_utf8(aad_prefix).len() + encode_utf8(request_id).len(),
        ),
{
    lemma_utf8_concat(aad_prefix, request_id);
}

} // verus!
