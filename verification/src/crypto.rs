//! The cryptographic functions of OpenSSL that the library calls.

use openssl::error::ErrorStack;
use openssl::kdf::HkdfMode;
use openssl::md::Md;
use openssl::symm::{Cipher, Crypter, Mode};
use vstd::prelude::*;

verus! {

/// `openssl::error::ErrorStack`, carried as an opaque value.
#[verifier::external_type_specification]
#[verifier::external_body]
pub struct ExErrorStack(openssl::error::ErrorStack);

/// `openssl::symm::Crypter`, carried as an opaque value.
#[verifier::external_type_specification]
#[verifier::external_body]
pub struct ExCrypter(openssl::symm::Crypter);

/// The `Debug` formatting of an error stack.
pub uninterp spec fn error_stack_text(error: ErrorStack) -> Seq<char>;

/// `format!("{error:?}")` of an OpenSSL error stack. What errors an operation leaves on the stack
/// is left unsaid.
#[verifier::external_body]
pub(crate) fn describe_error(error: &ErrorStack) -> (text: String)
    ensures
        text@ == error_stack_text(*error),
{
    format!("{error:?}")
}

/// `message` is `prefix` and then the text of some OpenSSL error.
pub open spec fn reports_openssl(message: Seq<char>, prefix: Seq<char>) -> bool {
    exists|error: ErrorStack| message == prefix + #[trigger] error_stack_text(error)
}

/// `prefix` and then the text of an OpenSSL error.
pub(crate) fn failure(prefix: &str, error: &ErrorStack) -> (message: String)
    ensures
        message@ == prefix@ + error_stack_text(*error),
        reports_openssl(message@, prefix@),
{
    crate::text::join2(prefix, describe_error(error).as_str())
}

/// The SHA-256 digest of a byte string.
pub uninterp spec fn sha256_digest(data: Seq<u8>) -> Seq<u8>;

/// `openssl::sha::sha256` computes the SHA-256 digest, which depends on the data alone.
pub assume_specification[ openssl::sha::sha256 ](data: &[u8]) -> (digest: [u8; 32])
    ensures
        digest@ == sha256_digest(data@),
;

/// The first `length` bytes that HKDF (extract, then expand) with SHA-256 derives, if the
/// derivation succeeds.
pub uninterp spec fn hkdf_sha256_output(
    secret: Seq<u8>,
    salt: Seq<u8>,
    info: Seq<u8>,
    length: nat,
) -> Option<Seq<u8>>;

/// `openssl::kdf::hkdf` with SHA-256 in extract-and-expand mode fills `out` with the derived
/// bytes. Whether it succeeds, and with what bytes, depends on its inputs and the length of `out`.
#[verifier::external_body]
pub(crate) fn hkdf_sha256(out: &mut [u8; 32], secret: &[u8], salt: &[u8], info: &[u8]) -> (derived:
    Result<(), ErrorStack>)
    ensures
        match hkdf_sha256_output(secret@, salt@, info@, 32) {
            Some(key) => derived is Ok && final(out)@ == key,
            None => derived is Err,
        },
{
    let mode = HkdfMode::ExtractAndExpand;
    openssl::kdf::hkdf(Md::sha256(), secret, Some(salt), Some(info), mode, None, out)
}

/// What an AES-256-GCM decrypter was given so far: the key, the nonce, the additional
/// authenticated data, the tag and the ciphertext, in this order.
pub uninterp spec fn crypter_inputs(crypter: Crypter) -> Seq<Seq<u8>>;

/// Whether AES-256-GCM can be set up to decrypt with this key and nonce.
pub uninterp spec fn gcm_accepts_key(key: Seq<u8>, nonce: Seq<u8>) -> bool;

/// Whether a decrypter with these inputs takes additional authenticated data.
pub uninterp spec fn gcm_accepts_aad(inputs: Seq<Seq<u8>>, aad: Seq<u8>) -> bool;

/// Whether a decrypter with these inputs takes a tag.
pub uninterp spec fn gcm_accepts_tag(inputs: Seq<Seq<u8>>, tag: Seq<u8>) -> bool;

/// What a decrypter with these inputs writes for the next piece of ciphertext, if it takes it.
pub uninterp spec fn gcm_update_output(inputs: Seq<Seq<u8>>, data: Seq<u8>) -> Option<Seq<u8>>;

/// What a decrypter with these inputs writes at the end, if the tag is right.
pub uninterp spec fn gcm_final_output(inputs: Seq<Seq<u8>>) -> Option<Seq<u8>>;

/// `Crypter::new` for AES-256-GCM decryption: whether it succeeds depends on the key and the
/// nonce, which the new decrypter holds.
#[verifier::external_body]
pub(crate) fn gcm_decrypter(key: &[u8], nonce: &[u8]) -> (created: Result<Crypter, ErrorStack>)
    requires
        key@.len() <= i32::MAX,
        nonce@.len() <= i32::MAX,
    ensures
        created is Ok <==> gcm_accepts_key(key@, nonce@),
        created matches Ok(crypter) ==> crypter_inputs(crypter) == seq![
            key@,
            nonce@,
            Seq::<u8>::empty(),
            Seq::<u8>::empty(),
            Seq::<u8>::empty(),
        ],
{
    Crypter::new(Cipher::aes_256_gcm(), Mode::Decrypt, key, Some(nonce))
}

/// `Crypter::pad`: padding concerns block ciphers only, and the decrypter keeps its inputs.
#[verifier::external_body]
pub(crate) fn gcm_pad(crypter: &mut Crypter, padding: bool)
    ensures
        crypter_inputs(*final(crypter)) == crypter_inputs(*old(crypter)),
{
    crypter.pad(padding)
}

/// `Crypter::aad_update` appends to the additional authenticated data.
#[verifier::external_body]
pub(crate) fn gcm_aad_update(crypter: &mut Crypter, aad: &[u8]) -> (taken: Result<(), ErrorStack>)
    requires
        aad@.len() <= i32::MAX,
    ensures
        taken is Ok <==> gcm_accepts_aad(crypter_inputs(*old(crypter)), aad@),
        taken is Ok ==> crypter_inputs(*final(crypter)) == crypter_inputs(*old(crypter)).update(
            2,
            crypter_inputs(*old(crypter))[2] + aad@,
        ),
{
    crypter.aad_update(aad)
}

/// `Crypter::set_tag` sets the tag that the ciphertext is authenticated with.
#[verifier::external_body]
pub(crate) fn gcm_set_tag(crypter: &mut Crypter, tag: &[u8]) -> (taken: Result<(), ErrorStack>)
    requires
        tag@.len() <= i32::MAX,
    ensures
        taken is Ok <==> gcm_accepts_tag(crypter_inputs(*old(crypter)), tag@),
        taken is Ok ==> crypter_inputs(*final(crypter)) == crypter_inputs(*old(crypter)).update(
            3,
            tag@,
        ),
{
    crypter.set_tag(tag)
}

/// `Cipher::block_size` of AES-256-GCM, a stream cipher: one.
#[verifier::external_body]
pub(crate) fn gcm_block_size() -> (size: usize)
    ensures
        size == 1,
{
    Cipher::aes_256_gcm().block_size()
}

/// `Crypter::update` decrypts a piece of ciphertext to the front of `output` and says how many
/// bytes it wrote there.
#[verifier::external_body]
pub(crate) fn gcm_update(crypter: &mut Crypter, data: &[u8], output: &mut Vec<u8>) -> (written:
    Result<usize, ErrorStack>)
    requires
        data@.len() <= i32::MAX,
        data@.len() <= old(output)@.len() <= i32::MAX,
    ensures
        final(output)@.len() == old(output)@.len(),
        match gcm_update_output(crypter_inputs(*old(crypter)), data@) {
            Some(plain) => {
                &&& written matches Ok(count)
                &&& count == plain.len() <= final(output)@.len()
                &&& final(output)@.take(count as int) == plain
            },
            None => written is Err,
        },
        written is Ok ==> crypter_inputs(*final(crypter)) == crypter_inputs(*old(crypter)).update(
            4,
            crypter_inputs(*old(crypter))[4] + data@,
        ),
{
    crypter.update(data, output)
}

/// `Crypter::finalize` checks the tag, writes what is left from position `from` on and says how
/// many bytes it wrote there.
#[verifier::external_body]
pub(crate) fn gcm_finalize(crypter: &mut Crypter, output: &mut Vec<u8>, from: usize) -> (written:
    Result<usize, ErrorStack>)
    requires
        from <= old(output)@.len(),
    ensures
        final(output)@.len() == old(output)@.len(),
        match gcm_final_output(crypter_inputs(*old(crypter))) {
            Some(rest) => {
                &&& written matches Ok(count)
                &&& count == rest.len()
                &&& from + count <= final(output)@.len()
                &&& final(output)@.take(from + count) == old(output)@.take(from as int) + rest
            },
            None => written is Err,
        },
{
    crypter.finalize(&mut output[from..])
}

/// What is reported of a refusal by OpenSSL is the prefix and all of the error's own text.
pub proof fn law_reports_openssl(message: Seq<char>, prefix: Seq<char>)
    ensures
        reports_openssl(message, prefix) <==> exists|error: ErrorStack|
            message == prefix + #[trigger] error_stack_text(error),
{
}

} // verus!
