//! Who signed which certificate of a chain.

use openssl::x509::X509;
use vstd::prelude::*;

use crate::bytes::{bytes_equal, joined, slices_view};
use crate::crypto::{failure, reports_openssl, sha256_digest};
use crate::der::{certificates_of, is_der_sequence, split_concatenated_der_certificates};
use crate::text::{decimal, decimal_digits, join2, join3};
use crate::types::ProvisionAttestationKeyResponsePlaintext;
use crate::x509::{
    certificate_der, certificate_issuer, certificate_key, certificate_parses,
    certificate_signed_with, certificate_subject, issuer_name_der, parse_certificate, public_key,
    subject_name_der, verify_with,
};

verus! {

pub const LEAF_INVALID: &'static str = "attestation leaf certificate is invalid: ";

pub const ISSUER_NAME_INVALID: &'static str = " issuer name is invalid: ";

pub const PARENT_SUBJECT_INVALID: &'static str = " parent subject is invalid: ";

pub const ISSUER_MISMATCH: &'static str = " issuer does not match its parent subject";

pub const PARENT_KEY_INVALID: &'static str = " parent public key is invalid: ";

pub const SIGNATURE_UNCHECKED: &'static str = " signature validation failed: ";

pub const NOT_SIGNED: &'static str = " is not signed by its parent certificate";

pub const MATERIAL_INCOMPLETE: &'static str = "server returned incomplete attestation-key material";

pub const LEAF_NOT_ALONE: &'static str =
    "provisioned leaf field contains more than one certificate";

pub const PROVISIONED_LEAF_INVALID: &'static str = "provisioned leaf certificate is invalid: ";

pub const DUPLICATE_CERTIFICATE: &'static str =
    "provisioned certificate chain contains duplicate certificate ";

pub const PROVISIONED_CERTIFICATE: &'static str = "provisioned certificate ";

pub const IS_INVALID: &'static str = " is invalid: ";

pub const LEAF_DESCRIPTION: &'static str = "leaf";

pub const CHAIN_DESCRIPTION: &'static str = "chain certificate ";

/// What can be wrong between a certificate and the one that should have issued it.
pub enum LinkFault {
    IssuerName,
    ParentSubject,
    NameMismatch,
    ParentKey,
    SignatureUnchecked,
    NotSigned,
}

/// What is wrong, first of all, between a parsed certificate and the one that should have issued
/// it.
pub open spec fn link_fault(child: Seq<u8>, issuer: Seq<u8>) -> Option<LinkFault> {
    match (certificate_issuer(child), certificate_subject(issuer)) {
        (None, _) => Some(LinkFault::IssuerName),
        (_, None) => Some(LinkFault::ParentSubject),
        (Some(wanted), Some(found)) => if wanted != found {
            Some(LinkFault::NameMismatch)
        } else {
            match certificate_key(issuer) {
                None => Some(LinkFault::ParentKey),
                Some(key) => match certificate_signed_with(child, key) {
                    None => Some(LinkFault::SignatureUnchecked),
                    Some(false) => Some(LinkFault::NotSigned),
                    Some(true) => None,
                },
            }
        },
    }
}

/// `child` names `issuer` as its issuer and carries a signature made with the issuer's key.
pub open spec fn issued_by(child: Seq<u8>, issuer: Seq<u8>) -> bool {
    &&& certificate_issuer(child) is Some
    &&& certificate_issuer(child) == certificate_subject(issuer)
    &&& certificate_key(issuer) matches Some(key)
    &&& certificate_signed_with(child, key) == Some(true)
}

/// `message` reports the fault of the certificate that is called `description`. Where OpenSSL
/// refused something, its own text follows.
pub open spec fn reports_link_fault(
    message: Seq<char>,
    description: Seq<char>,
    fault: LinkFault,
) -> bool {
    match fault {
        LinkFault::IssuerName => reports_openssl(message, description + ISSUER_NAME_INVALID@),
        LinkFault::ParentSubject => reports_openssl(message, description + PARENT_SUBJECT_INVALID@),
        LinkFault::NameMismatch => message == description + ISSUER_MISMATCH@,
        LinkFault::ParentKey => reports_openssl(message, description + PARENT_KEY_INVALID@),
        LinkFault::SignatureUnchecked => reports_openssl(message, description
            + SIGNATURE_UNCHECKED@),
        LinkFault::NotSigned => message == description + NOT_SIGNED@,
    }
}

/// Checks that `child` was issued by `issuer`: the names agree and the signature is right.
pub fn verify_certificate_signature(child: &X509, issuer: &X509, description: &str) -> (verified:
    Result<(), String>)
    ensures
        match link_fault(certificate_der(*child), certificate_der(*issuer)) {
            None => verified is Ok,
            Some(fault) => verified matches Err(message) && reports_link_fault(
                message@,
                description@,
                fault,
            ),
        },
{
    let issuer_name = match issuer_name_der(child) {
        Ok(name) => name,
        Err(error) => {
            return Err(failure(join2(description, ISSUER_NAME_INVALID).as_str(), &error));
        },
    };
    let subject_name = match subject_name_der(issuer) {
        Ok(name) => name,
        Err(error) => {
            return Err(failure(join2(description, PARENT_SUBJECT_INVALID).as_str(), &error));
        },
    };
    if !bytes_equal(issuer_name.as_slice(), subject_name.as_slice()) {
        return Err(join2(description, ISSUER_MISMATCH));
    }
    let issuer_key = match public_key(issuer) {
        Ok(key) => key,
        Err(error) => {
            return Err(failure(join2(description, PARENT_KEY_INVALID).as_str(), &error));
        },
    };
    match verify_with(child, &issuer_key) {
        Ok(true) => Ok(()),
        Ok(false) => Err(join2(description, NOT_SIGNED)),
        Err(error) => Err(failure(join2(description, SIGNATURE_UNCHECKED).as_str(), &error)),
    }
}

/// The first certificate of the chain is one that signed `leaf`.
pub open spec fn signed_by_first(leaf: Seq<u8>, remaining_chain: Seq<u8>) -> bool {
    &&& certificates_of(remaining_chain) matches Ok(parts)
    &&& certificate_parses(parts[0])
    &&& certificate_key(parts[0]) matches Some(key)
    &&& certificate_signed_with(leaf, key) == Some(true)
}

/// Whether the first certificate of `remaining_chain` signed the leaf. A chain that cannot be
/// read signed nothing; a leaf that cannot be read is an error.
pub fn leaf_is_signed_by_first_issuer(leaf_der: &[u8], remaining_chain: &[u8]) -> (signed: Result<
    bool,
    String,
>)
    ensures
        certificate_parses(leaf_der@) ==> signed == Ok::<bool, String>(
            signed_by_first(leaf_der@, remaining_chain@),
        ),
        !certificate_parses(leaf_der@) ==> (signed matches Err(message)
            && reports_openssl(message@, LEAF_INVALID@)),
{
    let leaf = match parse_certificate(leaf_der) {
        Ok(leaf) => leaf,
        Err(error) => return Err(failure(LEAF_INVALID, &error)),
    };
    let certificates = match split_concatenated_der_certificates(remaining_chain) {
        Ok(certificates) => certificates,
        Err(_) => return Ok(false),
    };
    proof {
        crate::der::law_split_partitions(remaining_chain@);
        assert(slices_view(certificates@)[0] == certificates@[0]@);
    }
    let issuer = match parse_certificate(certificates[0]) {
        Ok(issuer) => issuer,
        Err(_) => return Ok(false),
    };
    let issuer_key = match public_key(&issuer) {
        Ok(key) => key,
        Err(_) => return Ok(false),
    };
    match verify_with(&leaf, &issuer_key) {
        Ok(verified) => Ok(verified),
        Err(_) => Ok(false),
    }
}

/// What can be wrong with provisioned attestation-key material.
pub enum MaterialFault {
    Incomplete,
    LeafEncoding(Seq<char>),
    LeafNotAlone,
    LeafInvalid,
    ChainEncoding(Seq<char>),
    Duplicate(nat),
    CertificateInvalid(nat),
    LeafLink(LinkFault),
    ChainLink(nat, LinkFault),
}

/// The certificate at `index` has the fingerprint of the leaf or of an earlier one.
pub open spec fn repeats_earlier(leaf: Seq<u8>, chain: Seq<Seq<u8>>, index: int) -> bool {
    ||| sha256_digest(chain[index]) == sha256_digest(leaf)
    ||| exists|earlier: int|
        0 <= earlier < index && sha256_digest(#[trigger] chain[earlier]) == sha256_digest(
            chain[index],
        )
}

/// What is wrong, first of all, with a single certificate of the chain, from `index` on.
pub open spec fn first_entry_fault(leaf: Seq<u8>, chain: Seq<Seq<u8>>, index: nat) -> Option<
    MaterialFault,
>
    decreases chain.len() - index,
{
    if index >= chain.len() {
        None
    } else if repeats_earlier(leaf, chain, index as int) {
        Some(MaterialFault::Duplicate(index))
    } else if !certificate_parses(chain[index as int]) {
        Some(MaterialFault::CertificateInvalid(index))
    } else {
        first_entry_fault(leaf, chain, index + 1)
    }
}

/// What is wrong, first of all, between neighbours of the chain, from `index` on.
pub open spec fn first_chain_link_fault(chain: Seq<Seq<u8>>, index: nat) -> Option<MaterialFault>
    decreases chain.len() - index,
{
    if index + 1 >= chain.len() {
        None
    } else {
        match link_fault(chain[index as int], chain[index as int + 1]) {
            Some(fault) => Some(MaterialFault::ChainLink(index, fault)),
            None => first_chain_link_fault(chain, index + 1),
        }
    }
}

/// What is wrong, first of all, with a leaf and a chain that were split.
pub open spec fn first_chain_fault(leaf: Seq<u8>, chain: Seq<Seq<u8>>) -> Option<MaterialFault> {
    match first_entry_fault(leaf, chain, 0) {
        Some(fault) => Some(fault),
        None => match link_fault(leaf, chain[0]) {
            Some(fault) => Some(MaterialFault::LeafLink(fault)),
            None => first_chain_link_fault(chain, 0),
        },
    }
}

/// What is wrong, first of all, with provisioned attestation-key material.
pub open spec fn material_fault(
    secure_key_wrapper: Seq<u8>,
    leaf_certificate: Seq<u8>,
    remaining_chain: Seq<u8>,
) -> Option<MaterialFault> {
    if secure_key_wrapper.len() == 0 || leaf_certificate.len() == 0 || remaining_chain.len() == 0 {
        Some(MaterialFault::Incomplete)
    } else {
        match certificates_of(leaf_certificate) {
            Err(message) => Some(MaterialFault::LeafEncoding(message)),
            Ok(leaf) => if leaf.len() != 1 {
                Some(MaterialFault::LeafNotAlone)
            } else if !certificate_parses(leaf[0]) {
                Some(MaterialFault::LeafInvalid)
            } else {
                match certificates_of(remaining_chain) {
                    Err(message) => Some(MaterialFault::ChainEncoding(message)),
                    Ok(chain) => first_chain_fault(leaf[0], chain),
                }
            },
        }
    }
}

/// `message` reports the fault. Where OpenSSL refused something, its own text follows.
pub open spec fn reports_material_fault(message: Seq<char>, fault: MaterialFault) -> bool {
    match fault {
        MaterialFault::Incomplete => message == MATERIAL_INCOMPLETE@,
        MaterialFault::LeafEncoding(reason) => message == reason,
        MaterialFault::LeafNotAlone => message == LEAF_NOT_ALONE@,
        MaterialFault::LeafInvalid => reports_openssl(message, PROVISIONED_LEAF_INVALID@),
        MaterialFault::ChainEncoding(reason) => message == reason,
        MaterialFault::Duplicate(index) => message == DUPLICATE_CERTIFICATE@ + decimal_digits(
            index,
        ),
        MaterialFault::CertificateInvalid(index) => reports_openssl(
            message,
            PROVISIONED_CERTIFICATE@ + decimal_digits(index) + IS_INVALID@,
        ),
        MaterialFault::LeafLink(link) => reports_link_fault(message, LEAF_DESCRIPTION@, link),
        MaterialFault::ChainLink(index, link) => reports_link_fault(
            message,
            CHAIN_DESCRIPTION@ + decimal_digits(index),
            link,
        ),
    }
}

/// Whether a fingerprint is among those seen.
fn seen_before(seen: &Vec<[u8; 32]>, fingerprint: &[u8; 32]) -> (found: bool)
    ensures
        found == exists|i: int| 0 <= i < seen@.len() && (#[trigger] seen@[i])@ == fingerprint@,
{
    let mut i: usize = 0;
    while i < seen.len()
        invariant
            i <= seen@.len(),
            forall|j: int| 0 <= j < i ==> (#[trigger] seen@[j])@ != fingerprint@,
        decreases seen@.len() - i,
    {
        if bytes_equal(&seen[i], fingerprint) {
            assert(seen@[i as int]@ == fingerprint@);
            return true;
        }
        i += 1;
    }
    false
}

/// Parses the certificates of a chain, none of which may occur twice.
fn parse_chain(leaf_der: &[u8], chain_der: &Vec<&[u8]>) -> (parsed: Result<Vec<X509>, String>)
    ensures
        match first_entry_fault(leaf_der@, slices_view(chain_der@), 0) {
            None => parsed matches Ok(chain) && chain@.len() == chain_der@.len() && forall|i: int|
                0 <= i < chain@.len() ==> certificate_der(#[trigger] chain@[i]) == chain_der@[i]@,
            Some(fault) => parsed matches Err(message) && reports_material_fault(message@, fault),
        },
{
    let ghost views = slices_view(chain_der@);
    let mut fingerprints: Vec<[u8; 32]> = Vec::new();
    fingerprints.push(openssl::sha::sha256(leaf_der));
    let mut chain: Vec<X509> = Vec::new();
    let mut index: usize = 0;
    while index < chain_der.len()
        invariant
            index <= chain_der@.len(),
            views == slices_view(chain_der@),
            fingerprints@.len() == index + 1,
            fingerprints@[0]@ == sha256_digest(leaf_der@),
            forall|j: int|
                0 <= j < index ==> (#[trigger] fingerprints@[j + 1])@ == sha256_digest(views[j]),
            chain@.len() == index,
            forall|j: int|
                0 <= j < index ==> certificate_der(#[trigger] chain@[j]) == chain_der@[j]@,
            first_entry_fault(leaf_der@, views, 0) == first_entry_fault(
                leaf_der@,
                views,
                index as nat,
            ),
        decreases chain_der@.len() - index,
    {
        let der: &[u8] = chain_der[index];
        assert(views[index as int] == der@);
        let fingerprint = openssl::sha::sha256(der);
        let repeated = seen_before(&fingerprints, &fingerprint);
        proof {
            if repeated {
                let i = choose|i: int|
                    0 <= i < fingerprints@.len() && (#[trigger] fingerprints@[i])@ == fingerprint@;
                if i > 0 {
                    assert(fingerprints@[(i - 1) + 1]@ == sha256_digest(views[i - 1]));
                }
                assert(repeats_earlier(leaf_der@, views, index as int));
            } else {
                assert(fingerprints@[0]@ != fingerprint@);
                assert forall|earlier: int| 0 <= earlier < index implies sha256_digest(
                    #[trigger] views[earlier],
                ) != sha256_digest(views[index as int]) by {
                    assert(fingerprints@[earlier + 1]@ == sha256_digest(views[earlier]));
                }
                assert(!repeats_earlier(leaf_der@, views, index as int));
            }
        }
        if repeated {
            return Err(join2(DUPLICATE_CERTIFICATE, decimal(index).as_str()));
        }
        let ghost before = fingerprints@;
        fingerprints.push(fingerprint);
        proof {
            assert forall|j: int| 0 <= j < index + 1 implies (#[trigger] fingerprints@[j + 1])@
                == sha256_digest(views[j]) by {
                if j < index {
                    assert(before[j + 1]@ == sha256_digest(views[j]));
                }
            }
        }
        match parse_certificate(der) {
            Ok(certificate) => chain.push(certificate),
            Err(error) => {
                let prefix = join3(PROVISIONED_CERTIFICATE, decimal(index).as_str(), IS_INVALID);
                return Err(failure(prefix.as_str(), &error));
            },
        }
        index += 1;
    }
    Ok(chain)
}

/// Checks that every certificate of a chain was issued by the next one.
fn verify_chain_links(chain: &Vec<X509>, Ghost(views): Ghost<Seq<Seq<u8>>>) -> (verified: Result<
    (),
    String,
>)
    requires
        chain@.len() == views.len(),
        forall|i: int| 0 <= i < chain@.len() ==> certificate_der(#[trigger] chain@[i]) == views[i],
    ensures
        match first_chain_link_fault(views, 0) {
            None => verified is Ok,
            Some(fault) => verified matches Err(message) && reports_material_fault(message@, fault),
        },
{
    let mut index: usize = 0;
    while index < chain.len() && chain.len() - index > 1
        invariant
            index <= chain@.len(),
            chain@.len() == views.len(),
            forall|i: int|
                0 <= i < chain@.len() ==> certificate_der(#[trigger] chain@[i]) == views[i],
            first_chain_link_fault(views, 0) == first_chain_link_fault(views, index as nat),
        decreases chain@.len() - index,
    {
        let description = join2(CHAIN_DESCRIPTION, decimal(index).as_str());
        match verify_certificate_signature(
            &chain[index],
            &chain[index + 1],
            description.as_str(),
        ) {
            Ok(()) => {},
            Err(message) => return Err(message),
        }
        index += 1;
    }
    Ok(())
}

/// Checks provisioned attestation-key material: it is complete, its leaf field is one certificate,
/// no certificate occurs twice, and each was issued by the next.
pub fn validate_provisioned_attestation_key(
    provisioned: &ProvisionAttestationKeyResponsePlaintext,
) -> (validated: Result<(), String>)
    ensures
        match material_fault(
            provisioned.secure_key_wrapper@,
            provisioned.leaf_certificate@,
            provisioned.remaining_chain@,
        ) {
            None => validated is Ok,
            Some(fault) => validated matches Err(message) && reports_material_fault(
                message@,
                fault,
            ),
        },
{
    if provisioned.secure_key_wrapper.is_empty() || provisioned.leaf_certificate.is_empty()
        || provisioned.remaining_chain.is_empty() {
        return Err(MATERIAL_INCOMPLETE.to_owned());
    }
    let leaf_der = match split_concatenated_der_certificates(
        provisioned.leaf_certificate.as_slice(),
    ) {
        Ok(leaf_der) => leaf_der,
        Err(message) => return Err(message),
    };
    let ghost leaf_views = slices_view(leaf_der@);
    if leaf_der.len() != 1 {
        return Err(LEAF_NOT_ALONE.to_owned());
    }
    assert(leaf_views[0] == leaf_der@[0]@);
    let certificate = match parse_certificate(leaf_der[0]) {
        Ok(certificate) => certificate,
        Err(error) => return Err(failure(PROVISIONED_LEAF_INVALID, &error)),
    };
    let chain_der = match split_concatenated_der_certificates(
        provisioned.remaining_chain.as_slice(),
    ) {
        Ok(chain_der) => chain_der,
        Err(message) => return Err(message),
    };
    proof {
        crate::der::law_split_partitions(provisioned.remaining_chain@);
    }
    let ghost views = slices_view(chain_der@);
    let chain = match parse_chain(leaf_der[0], &chain_der) {
        Ok(chain) => chain,
        Err(message) => return Err(message),
    };
    match verify_certificate_signature(&certificate, &chain[0], LEAF_DESCRIPTION) {
        Ok(()) => {},
        Err(message) => return Err(message),
    }
    verify_chain_links(&chain, Ghost(views))
}

/// No two certificates of a leaf and its chain have the same fingerprint.
pub open spec fn all_distinct(leaf: Seq<u8>, chain: Seq<Seq<u8>>) -> bool {
    &&& forall|i: int|
        0 <= i < chain.len() ==> sha256_digest(#[trigger] chain[i]) != sha256_digest(leaf)
    &&& forall|i: int, j: int|
        0 <= i < j < chain.len() ==> sha256_digest(#[trigger] chain[i]) != sha256_digest(
            #[trigger] chain[j],
        )
}

/// Material that can be used: a wrapped key, one leaf certificate, and above it a chain of
/// different certificates, each of which issued the one before it.
pub open spec fn is_sound_material(
    secure_key_wrapper: Seq<u8>,
    leaf: Seq<u8>,
    remaining_chain: Seq<u8>,
) -> bool {
    &&& secure_key_wrapper.len() > 0
    &&& is_der_sequence(leaf)
    &&& certificate_parses(leaf)
    &&& certificates_of(remaining_chain) matches Ok(chain)
    &&& forall|i: int| 0 <= i < chain.len() ==> certificate_parses(#[trigger] chain[i])
    &&& all_distinct(leaf, chain)
    &&& issued_by(leaf, chain[0])
    &&& forall|i: int|
        0 <= i && i + 1 < chain.len() ==> issued_by(#[trigger] chain[i], chain[i + 1])
}

proof fn lemma_entry_faults(leaf: Seq<u8>, chain: Seq<Seq<u8>>, index: nat)
    requires
        index <= chain.len(),
    ensures
        first_entry_fault(leaf, chain, index) is None <==> forall|i: int|
            index <= i < chain.len() ==> certificate_parses(#[trigger] chain[i])
                && !repeats_earlier(leaf, chain, i),
    decreases chain.len() - index,
{
    if index < chain.len() {
        lemma_entry_faults(leaf, chain, index + 1);
        let first = chain[index as int];
        if first_entry_fault(leaf, chain, index) is None {
            assert forall|i: int| index <= i < chain.len() implies certificate_parses(
                #[trigger] chain[i],
            ) && !repeats_earlier(leaf, chain, i) by {}
        }
    }
}

proof fn lemma_link_faults(chain: Seq<Seq<u8>>, index: nat)
    ensures
        first_chain_link_fault(chain, index) is None <==> forall|i: int|
            index <= i && i + 1 < chain.len() ==> issued_by(#[trigger] chain[i], chain[i + 1]),
    decreases chain.len() - index,
{
    if index + 1 < chain.len() {
        lemma_link_faults(chain, index + 1);
        let first = chain[index as int];
        if first_chain_link_fault(chain, index) is None {
            assert forall|i: int| index <= i && i + 1 < chain.len() implies issued_by(
                #[trigger] chain[i],
                chain[i + 1],
            ) by {}
        }
    }
}

proof fn lemma_no_repetition(leaf: Seq<u8>, chain: Seq<Seq<u8>>)
    ensures
        all_distinct(leaf, chain) <==> forall|i: int|
            0 <= i < chain.len() ==> !#[trigger] repeats_earlier(leaf, chain, i),
{
    if forall|i: int| 0 <= i < chain.len() ==> !#[trigger] repeats_earlier(leaf, chain, i) {
        assert forall|i: int| 0 <= i < chain.len() implies sha256_digest(#[trigger] chain[i])
            != sha256_digest(leaf) by {
            assert(!repeats_earlier(leaf, chain, i));
        }
        assert forall|i: int, j: int| 0 <= i < j < chain.len() implies sha256_digest(
            #[trigger] chain[i],
        ) != sha256_digest(#[trigger] chain[j]) by {
            assert(!repeats_earlier(leaf, chain, j));
        }
    }
}

/// Material passes exactly when it is sound: nothing sound is refused, and nothing else passes.
pub proof fn law_valid_material_is_sound(
    secure_key_wrapper: Seq<u8>,
    leaf_certificate: Seq<u8>,
    remaining_chain: Seq<u8>,
)
    ensures
        material_fault(secure_key_wrapper, leaf_certificate, remaining_chain) is None
            <==> is_sound_material(secure_key_wrapper, leaf_certificate, remaining_chain),
{
    crate::der::law_split_partitions(leaf_certificate);
    crate::der::law_split_partitions(remaining_chain);
    if is_der_sequence(leaf_certificate) {
        let alone = seq![leaf_certificate];
        crate::der::law_split_undoes_join(alone);
        assert(joined(alone.drop_first()) =~= Seq::<u8>::empty());
        assert(joined(alone) =~= leaf_certificate);
    }
    if let Ok(parts) = certificates_of(leaf_certificate) {
        if parts.len() == 1 {
            assert(joined(parts.drop_first()) =~= Seq::<u8>::empty());
            assert(joined(parts) =~= parts[0]);
        } else {
            assert(is_der_sequence(leaf_certificate) ==> parts == seq![leaf_certificate]);
        }
    }
    if let Ok(chain) = certificates_of(remaining_chain) {
        assert(remaining_chain.len() > 0);
        lemma_entry_faults(leaf_certificate, chain, 0);
        lemma_link_faults(chain, 0);
        lemma_no_repetition(leaf_certificate, chain);
        if first_entry_fault(leaf_certificate, chain, 0) is None {
            assert forall|i: int| 0 <= i < chain.len() implies !#[trigger] repeats_earlier(
                leaf_certificate,
                chain,
                i,
            ) by {
                assert(certificate_parses(chain[i]));
            }
        }
    }
}

/// The first certificate above the leaf decides alone: for a chain that starts with the DER
/// SEQUENCE `first`, the leaf is signed exactly when it verifies under the public key of `first`,
/// whatever certificates follow. A chain that does not split signs nothing.
pub proof fn law_first_issuer_decides(leaf: Seq<u8>, first: Seq<u8>, rest: Seq<u8>)
    requires
        is_der_sequence(first),
    ensures
        rest.len() == 0 || (certificates_of(rest) matches Ok(others) && others.len() <= 15) ==> (
        signed_by_first(leaf, first + rest) <==> {
            &&& certificate_parses(first)
            &&& certificate_key(first) matches Some(key)
            &&& certificate_signed_with(leaf, key) == Some(true)
        }),
        certificates_of(rest) is Err ==> !signed_by_first(leaf, rest),
{
    let alone = seq![first];
    crate::der::law_split_undoes_join(alone);
    crate::bytes::law_joined_concatenates(alone, Seq::empty(), first);
    if rest.len() == 0 {
        assert(first + rest =~= first);
        assert(certificates_of(first)->Ok_0[0] == first);
    } else if let Ok(others) = certificates_of(rest) {
        crate::der::law_split_of_concatenation(first, rest);
        if others.len() <= 15 {
            assert((alone + others)[0] == first);
            assert(certificates_of(first + rest)->Ok_0[0] == first);
        }
    }
}

/// Of up to sixteen certificates only the first counts: the leaf is signed exactly when it verifies
/// under the public key of the first one, however many follow.
pub proof fn law_first_of_list_decides(leaf: Seq<u8>, certificates: Seq<Seq<u8>>)
    requires
        1 <= certificates.len() <= 16,
        forall|i: int| 0 <= i < certificates.len() ==> is_der_sequence(#[trigger] certificates[i]),
    ensures
        signed_by_first(leaf, joined(certificates)) <==> {
            &&& certificate_parses(certificates[0])
            &&& certificate_key(certificates[0]) matches Some(key)
            &&& certificate_signed_with(leaf, key) == Some(true)
        },
{
    crate::der::law_split_undoes_join(certificates);
}

/// A link between two certificates is sound exactly when the child names the subject of the parent
/// as its issuer and verifies under the parent's key; and what is wrong otherwise is told in the
/// order in which it is found out.
pub proof fn law_link(child: Seq<u8>, parent: Seq<u8>)
    ensures
        link_fault(child, parent) is None <==> {
            &&& certificate_issuer(child) matches Some(name)
            &&& certificate_subject(parent) == Some(name)
            &&& certificate_key(parent) matches Some(key)
            &&& certificate_signed_with(child, key) == Some(true)
        },
        link_fault(child, parent) == Some(LinkFault::IssuerName) <==> certificate_issuer(child)
            is None,
        link_fault(child, parent) == Some(LinkFault::ParentSubject) <==> certificate_issuer(child)
            is Some && certificate_subject(parent) is None,
        link_fault(child, parent) == Some(LinkFault::NameMismatch) <==> certificate_issuer(child)
            is Some && certificate_subject(parent) is Some && certificate_issuer(child)
            != certificate_subject(parent),
        link_fault(child, parent) == Some(LinkFault::ParentKey) <==> certificate_issuer(child)
            is Some && certificate_issuer(child) == certificate_subject(parent)
            && certificate_key(parent) is None,
        link_fault(child, parent) == Some(LinkFault::SignatureUnchecked) <==> certificate_issuer(
            child,
        ) is Some && certificate_issuer(child) == certificate_subject(parent) && (certificate_key(
            parent,
        ) matches Some(key) && certificate_signed_with(child, key) is None),
        link_fault(child, parent) == Some(LinkFault::NotSigned) <==> certificate_issuer(child)
            is Some && certificate_issuer(child) == certificate_subject(parent) && (certificate_key(
            parent,
        ) matches Some(key) && certificate_signed_with(child, key) == Some(false)),
        issued_by(child, parent) <==> link_fault(child, parent) is None,
{
}

/// What the faults of a link are reported as, word by word.
pub proof fn law_link_reports(message: Seq<char>, description: Seq<char>)
    ensures
        reports_link_fault(message, description, LinkFault::NameMismatch) <==> message
            == description + " issuer does not match its parent subject"@,
        reports_link_fault(message, description, LinkFault::NotSigned) <==> message == description
            + " is not signed by its parent certificate"@,
        reports_link_fault(message, description, LinkFault::IssuerName) <==> exists|
            error: openssl::error::ErrorStack,
        |
            message == description + " issuer name is invalid: "@
                + #[trigger] crate::crypto::error_stack_text(error),
        reports_link_fault(message, description, LinkFault::ParentSubject) <==> exists|
            error: openssl::error::ErrorStack,
        |
            message == description + " parent subject is invalid: "@
                + #[trigger] crate::crypto::error_stack_text(error),
        reports_link_fault(message, description, LinkFault::ParentKey) <==> exists|
            error: openssl::error::ErrorStack,
        |
            message == description + " parent public key is invalid: "@
                + #[trigger] crate::crypto::error_stack_text(error),
        reports_link_fault(message, description, LinkFault::SignatureUnchecked) <==> exists|
            error: openssl::error::ErrorStack,
        |
            message == description + " signature validation failed: "@
                + #[trigger] crate::crypto::error_stack_text(error),
{
}

/// What the faults of key material are reported as, word by word.
pub proof fn law_material_reports(
    message: Seq<char>,
    reason: Seq<char>,
    index: nat,
    link: LinkFault,
)
    ensures
        reports_material_fault(message, MaterialFault::Incomplete) <==> message
            == "server returned incomplete attestation-key material"@,
        reports_material_fault(message, MaterialFault::LeafEncoding(reason)) <==> message == reason,
        reports_material_fault(message, MaterialFault::ChainEncoding(reason)) <==> message
            == reason,
        reports_material_fault(message, MaterialFault::LeafNotAlone) <==> message
            == "provisioned leaf field contains more than one certificate"@,
        reports_material_fault(message, MaterialFault::LeafInvalid) <==> exists|
            error: openssl::error::ErrorStack,
        |
            message == "provisioned leaf certificate is invalid: "@
                + #[trigger] crate::crypto::error_stack_text(error),
        reports_material_fault(message, MaterialFault::Duplicate(index)) <==> message
            == "provisioned certificate chain contains duplicate certificate "@ + decimal_digits(
            index,
        ),
        reports_material_fault(message, MaterialFault::CertificateInvalid(index)) <==> exists|
            error: openssl::error::ErrorStack,
        |
            message == "provisioned certificate "@ + decimal_digits(index) + " is invalid: "@
                + #[trigger] crate::crypto::error_stack_text(error),
        reports_material_fault(message, MaterialFault::LeafLink(link)) <==> reports_link_fault(
            message,
            "leaf"@,
            link,
        ),
        reports_material_fault(message, MaterialFault::ChainLink(index, link))
            <==> reports_link_fault(message, "chain certificate "@ + decimal_digits(index), link),
{
}

/// Key material passes exactly when it has a wrapped key, one leaf, and above it one to sixteen
/// certificates, all of which parse, no two of which have the same digest, and each of which names
/// the next one as its issuer and verifies under the next one's key.
pub proof fn law_material_passes(wrapper: Seq<u8>, leaf: Seq<u8>, chain: Seq<Seq<u8>>)
    requires
        is_der_sequence(leaf),
        1 <= chain.len() <= 16,
        forall|i: int| 0 <= i < chain.len() ==> is_der_sequence(#[trigger] chain[i]),
    ensures
        material_fault(wrapper, leaf, joined(chain)) is None <==> {
            let all = seq![leaf] + chain;
            &&& wrapper.len() > 0
            &&& forall|i: int| 0 <= i < all.len() ==> certificate_parses(#[trigger] all[i])
            &&& forall|i: int, j: int|
                0 <= i < j < all.len() ==> sha256_digest(#[trigger] all[i]) != sha256_digest(
                    #[trigger] all[j],
                )
            &&& forall|i: int|
                0 <= i < chain.len() ==> {
                    &&& certificate_issuer(#[trigger] all[i]) matches Some(name)
                    &&& certificate_subject(all[i + 1]) == Some(name)
                    &&& certificate_key(all[i + 1]) matches Some(key)
                    &&& certificate_signed_with(all[i], key) == Some(true)
                }
        },
{
    let all = seq![leaf] + chain;
    law_valid_material_is_sound(wrapper, leaf, joined(chain));
    crate::der::law_split_undoes_join(chain);
    assert(certificates_of(joined(chain))->Ok_0 == chain);
    assert(all[0] == leaf);
    assert forall|i: int| 0 <= i < chain.len() implies #[trigger] all[i + 1] == chain[i] by {}
    if material_fault(wrapper, leaf, joined(chain)) is None {
        assert forall|i: int| 0 <= i < all.len() implies certificate_parses(#[trigger] all[i]) by {
            if i > 0 {
                assert(all[i] == chain[i - 1]);
            }
        }
        assert forall|i: int, j: int| 0 <= i < j < all.len() implies sha256_digest(
            #[trigger] all[i],
        ) != sha256_digest(#[trigger] all[j]) by {
            assert(all[j] == chain[j - 1]);
            if i > 0 {
                assert(all[i] == chain[i - 1]);
            }
        }
        assert forall|i: int| 0 <= i < chain.len() implies issued_by(#[trigger] all[i], all[i + 1])
            by {
            assert(all[i + 1] == chain[i]);
            if i > 0 {
                assert(all[i] == chain[i - 1]);
                assert(issued_by(chain[i - 1], chain[(i - 1) + 1]));
            }
        }
    }
    if wrapper.len() > 0 && (forall|i: int|
        0 <= i < all.len() ==> certificate_parses(#[trigger] all[i])) && (forall|i: int, j: int|
        0 <= i < j < all.len() ==> sha256_digest(#[trigger] all[i]) != sha256_digest(
            #[trigger] all[j],
        )) && (forall|i: int|
        0 <= i < chain.len() ==> {
            &&& certificate_issuer(#[trigger] all[i]) matches Some(name)
            &&& certificate_subject(all[i + 1]) == Some(name)
            &&& certificate_key(all[i + 1]) matches Some(key)
            &&& certificate_signed_with(all[i], key) == Some(true)
        }) {
        assert(certificate_parses(all[0]));
        assert forall|i: int| 0 <= i < chain.len() implies certificate_parses(#[trigger] chain[i])
            && sha256_digest(chain[i]) != sha256_digest(leaf) by {
            assert(certificate_parses(all[i + 1]));
            assert(sha256_digest(all[0]) != sha256_digest(all[i + 1]));
        }
        assert forall|i: int, j: int| 0 <= i < j < chain.len() implies sha256_digest(
            #[trigger] chain[i],
        ) != sha256_digest(#[trigger] chain[j]) by {
            assert(sha256_digest(all[i + 1]) != sha256_digest(all[j + 1]));
        }
        assert(issued_by(all[0], all[1]));
        assert forall|i: int| 0 <= i && i + 1 < chain.len() implies issued_by(
            #[trigger] chain[i],
            chain[i + 1],
        ) by {
            assert(issued_by(all[i + 1], all[i + 1 + 1]));
        }
        assert(is_sound_material(wrapper, leaf, joined(chain)));
    }
}

/// Material that passes is of the form that [`law_material_passes`] speaks of.
pub proof fn law_material_form(wrapper: Seq<u8>, leaf: Seq<u8>, remaining_chain: Seq<u8>)
    ensures
        material_fault(wrapper, leaf, remaining_chain) is None ==> {
            &&& wrapper.len() > 0
            &&& is_der_sequence(leaf)
            &&& exists|chain: Seq<Seq<u8>>|
                {
                    &&& #[trigger] joined(chain) == remaining_chain
                    &&& 1 <= chain.len() <= 16
                    &&& forall|i: int| 0 <= i < chain.len() ==> is_der_sequence(#[trigger] chain[i])
                }
        },
{
    if material_fault(wrapper, leaf, remaining_chain) is None {
        law_valid_material_is_sound(wrapper, leaf, remaining_chain);
        crate::der::law_split_partitions(remaining_chain);
        assert(joined(certificates_of(remaining_chain)->Ok_0) == remaining_chain);
    }
}

proof fn lemma_entry_fault_at(leaf: Seq<u8>, chain: Seq<Seq<u8>>, from: nat, at: nat)
    requires
        from <= at < chain.len(),
        forall|i: int|
            from <= i < at ==> certificate_parses(#[trigger] chain[i]) && !repeats_earlier(
                leaf,
                chain,
                i,
            ),
    ensures
        repeats_earlier(leaf, chain, at as int) ==> first_entry_fault(leaf, chain, from) == Some(
            MaterialFault::Duplicate(at),
        ),
        !repeats_earlier(leaf, chain, at as int) && !certificate_parses(chain[at as int])
            ==> first_entry_fault(leaf, chain, from) == Some(MaterialFault::CertificateInvalid(at)),
    decreases at - from,
{
    if from < at {
        assert(certificate_parses(chain[from as int]));
        lemma_entry_fault_at(leaf, chain, from + 1, at);
    }
}

/// Key material without a wrapped key, a leaf or a chain is incomplete; else the leaf is split and
/// parsed before the chain is split; and in the chain the first certificate that has the digest of
/// an earlier one or does not parse is named by its place, a repetition before a failure to parse.
pub proof fn law_material_faults(
    wrapper: Seq<u8>,
    leaf_field: Seq<u8>,
    chain_field: Seq<u8>,
    leaf: Seq<u8>,
    chain: Seq<Seq<u8>>,
    at: nat,
)
    ensures
        wrapper.len() == 0 || leaf_field.len() == 0 || chain_field.len() == 0 ==> material_fault(
            wrapper,
            leaf_field,
            chain_field,
        ) == Some(MaterialFault::Incomplete),
        wrapper.len() > 0 && leaf_field.len() > 0 && chain_field.len() > 0 ==> {
            &&& certificates_of(leaf_field) matches Err(reason) ==> material_fault(
                wrapper,
                leaf_field,
                chain_field,
            ) == Some(MaterialFault::LeafEncoding(reason))
            &&& (certificates_of(leaf_field) matches Ok(parts) && parts.len() > 1)
                ==> material_fault(wrapper, leaf_field, chain_field) == Some(
                MaterialFault::LeafNotAlone,
            )
            &&& certificates_of(leaf_field) == Ok::<Seq<Seq<u8>>, Seq<char>>(seq![leaf])
                && !certificate_parses(leaf) ==> material_fault(wrapper, leaf_field, chain_field)
                == Some(MaterialFault::LeafInvalid)
            &&& certificates_of(leaf_field) == Ok::<Seq<Seq<u8>>, Seq<char>>(seq![leaf])
                && certificate_parses(leaf) ==> {
                &&& certificates_of(chain_field) matches Err(reason) ==> material_fault(
                    wrapper,
                    leaf_field,
                    chain_field,
                ) == Some(MaterialFault::ChainEncoding(reason))
                &&& certificates_of(chain_field) == Ok::<Seq<Seq<u8>>, Seq<char>>(chain) && at
                    < chain.len() && (forall|i: int|
                    0 <= i < at ==> certificate_parses(#[trigger] chain[i]) && !chain.take(
                        i,
                    ).push(leaf).map_values(|c: Seq<u8>| sha256_digest(c)).contains(
                        sha256_digest(chain[i]),
                    )) ==> {
                    let seen = chain.take(at as int).push(leaf).map_values(
                        |c: Seq<u8>| sha256_digest(c),
                    );
                    &&& seen.contains(sha256_digest(chain[at as int])) ==> material_fault(
                        wrapper,
                        leaf_field,
                        chain_field,
                    ) == Some(MaterialFault::Duplicate(at))
                    &&& !seen.contains(sha256_digest(chain[at as int])) && !certificate_parses(
                        chain[at as int],
                    ) ==> material_fault(wrapper, leaf_field, chain_field) == Some(
                        MaterialFault::CertificateInvalid(at),
                    )
                }
            }
        },
{
    crate::der::law_split_partitions(leaf_field);
    assert forall|i: int| 0 <= i < chain.len() implies (chain.take(i).push(leaf).map_values(
        |c: Seq<u8>| sha256_digest(c),
    ).contains(sha256_digest(#[trigger] chain[i])) <==> repeats_earlier(leaf, chain, i)) by {
        let listed = chain.take(i).push(leaf);
        let seen = listed.map_values(|c: Seq<u8>| sha256_digest(c));
        if seen.contains(sha256_digest(chain[i])) {
            let j = choose|j: int|
                0 <= j < seen.len() && seen[j] == sha256_digest(chain[i]);
            if j < i {
                assert(seen[j] == sha256_digest(chain[j]));
            }
        }
        if repeats_earlier(leaf, chain, i) {
            if sha256_digest(chain[i]) == sha256_digest(leaf) {
                assert(seen[i] == sha256_digest(leaf));
            } else {
                let j = choose|j: int|
                    0 <= j < i && sha256_digest(#[trigger] chain[j]) == sha256_digest(chain[i]);
                assert(seen[j] == sha256_digest(chain[j]));
            }
        }
    }
    if at < chain.len() && (forall|i: int|
        0 <= i < at ==> certificate_parses(#[trigger] chain[i]) && !chain.take(i).push(
            leaf,
        ).map_values(|c: Seq<u8>| sha256_digest(c)).contains(sha256_digest(chain[i]))) {
        assert forall|i: int| 0 <= i < at implies certificate_parses(#[trigger] chain[i])
            && !repeats_earlier(leaf, chain, i) by {}
        lemma_entry_fault_at(leaf, chain, 0, at);
        assert(chain[at as int] == chain[at as int]);
    }
}

proof fn lemma_chain_link_fault_at(chain: Seq<Seq<u8>>, from: nat, at: nat)
    requires
        from <= at,
        at + 1 < chain.len(),
        forall|i: int|
            from <= i < at ==> link_fault(#[trigger] chain[i], chain[i + 1]) is None,
    ensures
        link_fault(chain[at as int], chain[at as int + 1]) matches Some(fault)
            ==> first_chain_link_fault(chain, from) == Some(MaterialFault::ChainLink(at, fault)),
    decreases at - from,
{
    if from < at {
        assert(link_fault(chain[from as int], chain[from as int + 1]) is None);
        lemma_chain_link_fault_at(chain, from + 1, at);
    }
}

/// Of a chain whose certificates all parse and differ, the first broken link is named: that of the
/// leaf to the first certificate, and else that of the certificate with the lowest place.
pub proof fn law_broken_links(wrapper: Seq<u8>, leaf: Seq<u8>, chain: Seq<Seq<u8>>, at: nat)
    requires
        wrapper.len() > 0,
        is_der_sequence(leaf),
        certificate_parses(leaf),
        1 <= chain.len() <= 16,
        forall|i: int|
            0 <= i < chain.len() ==> is_der_sequence(#[trigger] chain[i]) && certificate_parses(
                chain[i],
            ) && sha256_digest(chain[i]) != sha256_digest(leaf),
        forall|i: int, j: int|
            0 <= i < j < chain.len() ==> sha256_digest(#[trigger] chain[i]) != sha256_digest(
                #[trigger] chain[j],
            ),
    ensures
        link_fault(leaf, chain[0]) matches Some(fault) ==> material_fault(
            wrapper,
            leaf,
            joined(chain),
        ) == Some(MaterialFault::LeafLink(fault)),
        link_fault(leaf, chain[0]) is None && at + 1 < chain.len() && (forall|i: int|
            0 <= i < at ==> link_fault(#[trigger] chain[i], chain[i + 1]) is None) ==> (link_fault(
            chain[at as int],
            chain[at as int + 1],
        ) matches Some(fault) ==> material_fault(wrapper, leaf, joined(chain)) == Some(
            MaterialFault::ChainLink(at, fault),
        )),
{
    let alone = seq![leaf];
    crate::der::law_split_undoes_join(alone);
    crate::bytes::law_joined_concatenates(alone, Seq::empty(), leaf);
    crate::der::law_split_undoes_join(chain);
    crate::der::law_split_partitions(leaf);
    crate::der::law_split_partitions(joined(chain));
    lemma_entry_faults(leaf, chain, 0);
    lemma_no_repetition(leaf, chain);
    assert(all_distinct(leaf, chain));
    assert forall|i: int| 0 <= i < chain.len() implies certificate_parses(#[trigger] chain[i])
        && !repeats_earlier(leaf, chain, i) by {}
    assert(leaf.len() >= 2) by {
        crate::der::law_der_sequence_form(leaf);
    }
    assert(joined(chain).len() > 0);
    if at + 1 < chain.len() && (forall|i: int|
        0 <= i < at ==> link_fault(#[trigger] chain[i], chain[i + 1]) is None) {
        lemma_chain_link_fault_at(chain, 0, at);
    }
}

} // verus!
