//! The certificate functions of OpenSSL that the library calls.

use openssl::error::ErrorStack;
use openssl::pkey::{PKey, Public};
use openssl::x509::X509;
use vstd::prelude::*;

verus! {

/// `openssl::x509::X509`, carried as an opaque value.
#[verifier::external_type_specification]
#[verifier::external_body]
pub struct ExX509(openssl::x509::X509);

/// `openssl::pkey::PKey`, carried as an opaque value.
#[verifier::external_type_specification]
#[verifier::external_body]
#[verifier::reject_recursive_types(T)]
pub struct ExPKey<T>(openssl::pkey::PKey<T>);

/// `openssl::pkey::Public`, which marks a key without its private part.
#[verifier::external_type_specification]
#[verifier::external_body]
pub struct ExPublic(openssl::pkey::Public);

/// The bytes that a certificate was parsed from.
pub uninterp spec fn certificate_der(certificate: X509) -> Seq<u8>;

/// What identifies a public key.
pub uninterp spec fn key_material(key: PKey<Public>) -> Seq<u8>;

/// Whether a byte string starts with a DER certificate.
pub uninterp spec fn certificate_parses(der: Seq<u8>) -> bool;

/// The DER form of the issuer name of a parsed certificate.
pub uninterp spec fn certificate_issuer(der: Seq<u8>) -> Option<Seq<u8>>;

/// The DER form of the subject name of a parsed certificate.
pub uninterp spec fn certificate_subject(der: Seq<u8>) -> Option<Seq<u8>>;

/// The public key of a parsed certificate.
pub uninterp spec fn certificate_key(der: Seq<u8>) -> Option<Seq<u8>>;

/// Whether the signature of a parsed certificate was made with the private part of a key, if that
/// can be told.
pub uninterp spec fn certificate_signed_with(der: Seq<u8>, key: Seq<u8>) -> Option<bool>;

/// `X509::from_der`: whether it succeeds depends on the bytes, which the certificate stands for.
#[verifier::external_body]
pub(crate) fn parse_certificate(der: &[u8]) -> (parsed: Result<X509, ErrorStack>)
    ensures
        parsed is Ok <==> certificate_parses(der@),
        parsed matches Ok(certificate) ==> certificate_der(certificate) == der@,
{
    X509::from_der(der)
}

/// `X509Ref::issuer_name`, in DER: it depends on the certificate alone.
#[verifier::external_body]
pub(crate) fn issuer_name_der(certificate: &X509) -> (name: Result<Vec<u8>, ErrorStack>)
    ensures
        match certificate_issuer(certificate_der(*certificate)) {
            Some(der) => name matches Ok(bytes) && bytes@ == der,
            None => name is Err,
        },
{
    certificate.issuer_name().to_der()
}

/// `X509Ref::subject_name`, in DER: it depends on the certificate alone.
#[verifier::external_body]
pub(crate) fn subject_name_der(certificate: &X509) -> (name: Result<Vec<u8>, ErrorStack>)
    ensures
        match certificate_subject(certificate_der(*certificate)) {
            Some(der) => name matches Ok(bytes) && bytes@ == der,
            None => name is Err,
        },
{
    certificate.subject_name().to_der()
}

/// `X509Ref::public_key`: it depends on the certificate alone.
#[verifier::external_body]
pub(crate) fn public_key(certificate: &X509) -> (key: Result<PKey<Public>, ErrorStack>)
    ensures
        match certificate_key(certificate_der(*certificate)) {
            Some(material) => key matches Ok(k) && key_material(k) == material,
            None => key is Err,
        },
{
    certificate.public_key()
}

/// `X509Ref::verify` checks the signature of a certificate, and nothing else of it, against a
/// public key: the answer depends on the two.
#[verifier::external_body]
pub(crate) fn verify_with(certificate: &X509, key: &PKey<Public>) -> (verified: Result<
    bool,
    ErrorStack,
>)
    ensures
        match certificate_signed_with(certificate_der(*certificate), key_material(*key)) {
            Some(signed) => verified == Ok::<bool, ErrorStack>(signed),
            None => verified is Err,
        },
{
    certificate.verify(key)
}

} // verus!
