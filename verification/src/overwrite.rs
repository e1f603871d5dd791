//! The replacement of an attestation certificate chain, step by step.

use vstd::prelude::*;
use vstd::utf8::encode_utf8;

use crate::bytes::bytes_equal;
use crate::chain::{leaf_is_signed_by_first_issuer, signed_by_first, LEAF_INVALID};
use crate::crypto::reports_openssl;
use crate::keys::KeyDescriptor;
use crate::keystore::{DeviceIdentityKey, ResponseKey};
use crate::request_id::{is_random_uuid, new_request_id};
use crate::response::{
    check_response_envelope, decrypt_response, is_complete, is_internal,
    is_internal_identity_certificate, is_within_limits, reports_open_fault, response_opened,
    RESPONSE_AAD_PREFIX, RESPONSE_HKDF_INFO, RESPONSE_INCOMPLETE,
};
use crate::text::join2;
use crate::types::{
    is_service_error, service_error, CertificateChain, EncryptedResponse,
    OverwriteAttestationResponsePlaintext, OverwriteRequestError, ServiceError,
    ERROR_REPROVISION_ATTESTATION_KEY, ERROR_SERVER_REQUEST, ERROR_SERVER_RESPONSE,
};
use crate::x509::certificate_parses;
use crate::KeystoreCertificatePostProcessor;

verus! {

pub const KEY_DOES_NOT_SIGN: &'static str =
    "Supplied attestation key does not sign the generated certificate.";

pub const REPROVISIONING_REQUESTED: &'static str =
    "Backend requested attestation-key reprovisioning.";

pub const CHAIN_INCOMPLETE: &'static str = "Server returned an incomplete certificate chain.";

pub const PLAINTEXT_DECODE_FAILED: &'static str = "response payload decode failed: ";

/// A chain to be replaced, and the name of the request for it.
#[derive(Debug)]
pub struct OverwriteBegun {
    pub request_id: String,
    pub original: CertificateChain,
}

/// A begun replacement with the key that stands for the device.
#[derive(Debug)]
pub struct OverwriteIdentified {
    pub request_id: String,
    pub original: CertificateChain,
    pub device_identity: DeviceIdentityKey,
}

/// A replacement with all that the request for it is made of.
#[derive(Debug)]
pub struct OverwriteKeyed {
    pub request_id: String,
    pub original: CertificateChain,
    pub device_identity: DeviceIdentityKey,
    pub response_key: ResponseKey,
}

/// A replacement that the backend replied to.
#[derive(Debug)]
pub struct OverwriteReplied {
    pub request_id: String,
    pub response_key: KeyDescriptor,
    pub response: EncryptedResponse,
}

/// A replacement whose reply was opened.
#[derive(Debug)]
pub struct OverwriteOpened {
    pub response_key: KeyDescriptor,
    pub plaintext: Vec<u8>,
}

/// A replacement that is over, and the key that is to be deleted now.
#[derive(Debug)]
pub struct OverwriteFinished {
    pub result: Result<CertificateChain, ServiceError>,
    pub release: Option<KeyDescriptor>,
}

/// What is done next for the replacement of a chain.
#[derive(Debug)]
pub enum OverwriteStep {
    /// Load or generate the key that stands for the device.
    ObtainIdentity(OverwriteBegun),
    /// Generate a key for the reply.
    GenerateResponseKey(OverwriteIdentified),
    /// Sign the request and send it.
    SendRequest(OverwriteKeyed),
    /// Let the response key agree on a secret with the public key in the reply.
    AgreeOnSecret(OverwriteReplied),
    /// Decode the reply.
    DecodePlaintext(OverwriteOpened),
    Finished(OverwriteFinished),
}

/// `step` ends with this failure.
pub open spec fn fails(
    step: OverwriteStep,
    code: i32,
    message: Seq<char>,
    release: Option<KeyDescriptor>,
) -> bool {
    &&& step matches OverwriteStep::Finished(finished)
    &&& finished.result matches Err(error)
    &&& is_service_error(error, code, message)
    &&& finished.release == release
}

/// The step that ends with this failure.
fn failed(code: i32, message: &str, release: Option<KeyDescriptor>) -> (step: OverwriteStep)
    ensures
        fails(step, code, message@, release),
{
    OverwriteStep::Finished(
        OverwriteFinished { result: Err(service_error(code, message)), release },
    )
}

/// The replacement of `original` calls for a request: its leaf is not that of one of the library's
/// own keys, and the attestation key above it signed it.
pub open spec fn calls_for_request(original: CertificateChain) -> bool {
    &&& !is_internal(original.leaf_certificate@)
    &&& certificate_parses(original.leaf_certificate@)
    &&& signed_by_first(original.leaf_certificate@, original.remaining_chain@)
}

/// `finished` is what the replacement of `original` comes to where it calls for no request: a
/// certificate of one of the library's own keys stays as it is, and one that the attestation key
/// above it did not sign calls for another attestation key.
pub open spec fn ends_at_once(finished: OverwriteFinished, original: CertificateChain) -> bool {
    if is_internal(original.leaf_certificate@) {
        finished == (OverwriteFinished { result: Ok(original), release: None })
    } else {
        &&& finished.release is None
        &&& finished.result matches Err(error)
        &&& if certificate_parses(original.leaf_certificate@) {
            is_service_error(error, ERROR_REPROVISION_ATTESTATION_KEY, KEY_DOES_NOT_SIGN@)
        } else {
            error.code == ERROR_SERVER_REQUEST && reports_openssl(error.message@, LEAF_INVALID@)
        }
    }
}

/// `step` begins the replacement of `original`, under this name where it calls for a request.
pub open spec fn begins(
    step: OverwriteStep,
    original: CertificateChain,
    request_id: Seq<char>,
) -> bool {
    if calls_for_request(original) {
        &&& step matches OverwriteStep::ObtainIdentity(begun)
        &&& begun.request_id@ == request_id
        &&& begun.original == original
    } else {
        step matches OverwriteStep::Finished(finished) && ends_at_once(finished, original)
    }
}

/// Hands `original` back if its replacement calls for a request, and else what it comes to.
fn keep_or_refuse(original: CertificateChain) -> (request: Result<
    CertificateChain,
    OverwriteFinished,
>)
    ensures
        if calls_for_request(original) {
            request == Ok::<CertificateChain, OverwriteFinished>(original)
        } else {
            request matches Err(finished) && ends_at_once(finished, original)
        },
{
    if is_internal_identity_certificate(original.leaf_certificate.as_slice()) {
        return Err(OverwriteFinished { result: Ok(original), release: None });
    }
    let error = match leaf_is_signed_by_first_issuer(
        original.leaf_certificate.as_slice(),
        original.remaining_chain.as_slice(),
    ) {
        Ok(true) => return Ok(original),
        Ok(false) => service_error(ERROR_REPROVISION_ATTESTATION_KEY, KEY_DOES_NOT_SIGN),
        Err(message) => service_error(ERROR_SERVER_REQUEST, message.as_str()),
    };
    Err(OverwriteFinished { result: Err(error), release: None })
}

impl KeystoreCertificatePostProcessor {
    /// Begins the replacement of a certificate chain. A new name is drawn only where a request is
    /// needed.
    #[allow(non_snake_case)]
    pub fn processKeystoreCertificates(&self, old_keymint_certificates: CertificateChain) -> (step:
        OverwriteStep)
        ensures
            if calls_for_request(old_keymint_certificates) {
                &&& step matches OverwriteStep::ObtainIdentity(begun)
                &&& is_random_uuid(begun.request_id@)
                &&& begun.original == old_keymint_certificates
            } else {
                step matches OverwriteStep::Finished(finished) && ends_at_once(
                    finished,
                    old_keymint_certificates,
                )
            },
    {
        match keep_or_refuse(old_keymint_certificates) {
            Ok(original) => OverwriteStep::ObtainIdentity(
                OverwriteBegun { request_id: new_request_id(), original },
            ),
            Err(finished) => OverwriteStep::Finished(finished),
        }
    }
}

/// Begins the replacement of a certificate chain, under this name where a request is needed.
pub fn begin_overwrite(original: CertificateChain, request_id: String) -> (step: OverwriteStep)
    ensures
        begins(step, original, request_id@),
{
    match keep_or_refuse(original) {
        Ok(original) => OverwriteStep::ObtainIdentity(OverwriteBegun { request_id, original }),
        Err(finished) => OverwriteStep::Finished(finished),
    }
}

/// Whether the replacement of a chain is that chain again.
pub fn is_same_chain(original: &CertificateChain, replacement: &CertificateChain) -> (same: bool)
    ensures
        same == (original.leaf_certificate@ == replacement.leaf_certificate@
            && original.remaining_chain@ == replacement.remaining_chain@),
{
    bytes_equal(
        original.leaf_certificate.as_slice(),
        replacement.leaf_certificate.as_slice(),
    ) && bytes_equal(
        original.remaining_chain.as_slice(),
        replacement.remaining_chain.as_slice(),
    )
}

/// `step` follows obtaining the key that stands for the device.
pub open spec fn follows_identity(
    step: OverwriteStep,
    begun: OverwriteBegun,
    identity: Result<DeviceIdentityKey, ServiceError>,
) -> bool {
    match identity {
        Err(error) => step == OverwriteStep::Finished(
            OverwriteFinished { result: Err(error), release: None },
        ),
        Ok(device_identity) => step == OverwriteStep::GenerateResponseKey(
            OverwriteIdentified {
                request_id: begun.request_id,
                original: begun.original,
                device_identity,
            },
        ),
    }
}

impl OverwriteBegun {
    /// Goes on with the key that stands for the device.
    pub fn identity_obtained(self, identity: Result<DeviceIdentityKey, ServiceError>) -> (step:
        OverwriteStep)
        ensures
            follows_identity(step, self, identity),
    {
        match identity {
            Err(error) => OverwriteStep::Finished(
                OverwriteFinished { result: Err(error), release: None },
            ),
            Ok(device_identity) => OverwriteStep::GenerateResponseKey(
                OverwriteIdentified {
                    request_id: self.request_id,
                    original: self.original,
                    device_identity,
                },
            ),
        }
    }
}

/// `step` follows generating a key for the reply.
pub open spec fn follows_response_key(
    step: OverwriteStep,
    identified: OverwriteIdentified,
    key: Result<ResponseKey, ServiceError>,
) -> bool {
    match key {
        Err(error) => step == OverwriteStep::Finished(
            OverwriteFinished { result: Err(error), release: None },
        ),
        Ok(response_key) => step == OverwriteStep::SendRequest(
            OverwriteKeyed {
                request_id: identified.request_id,
                original: identified.original,
                device_identity: identified.device_identity,
                response_key,
            },
        ),
    }
}

impl OverwriteIdentified {
    /// Goes on with a key for the reply.
    pub fn response_key_generated(self, key: Result<ResponseKey, ServiceError>) -> (step:
        OverwriteStep)
        ensures
            follows_response_key(step, self, key),
    {
        match key {
            Err(error) => OverwriteStep::Finished(
                OverwriteFinished { result: Err(error), release: None },
            ),
            Ok(response_key) => OverwriteStep::SendRequest(
                OverwriteKeyed {
                    request_id: self.request_id,
                    original: self.original,
                    device_identity: self.device_identity,
                    response_key,
                },
            ),
        }
    }
}

/// `step` follows the reply of the backend.
pub open spec fn follows_reply(
    step: OverwriteStep,
    keyed: OverwriteKeyed,
    reply: Result<EncryptedResponse, OverwriteRequestError>,
) -> bool {
    let release = Some(keyed.response_key.descriptor);
    match reply {
        Err(OverwriteRequestError::InvalidArgument(message)) => fails(
            step,
            ERROR_SERVER_REQUEST,
            message@,
            release,
        ),
        Err(OverwriteRequestError::Backend(message)) => fails(
            step,
            ERROR_SERVER_REQUEST,
            message@,
            release,
        ),
        Ok(response) => if is_complete(response) {
            step == OverwriteStep::AgreeOnSecret(
                OverwriteReplied {
                    request_id: keyed.request_id,
                    response_key: keyed.response_key.descriptor,
                    response,
                },
            )
        } else {
            fails(step, ERROR_SERVER_RESPONSE, RESPONSE_INCOMPLETE@, release)
        },
    }
}

impl OverwriteKeyed {
    /// Goes on with the reply of the backend. No secret is agreed on for a reply that lacks a part.
    pub fn reply_received(self, reply: Result<EncryptedResponse, OverwriteRequestError>) -> (step:
        OverwriteStep)
        ensures
            follows_reply(step, self, reply),
    {
        let response_key = self.response_key.descriptor;
        let response = match reply {
            Ok(response) => response,
            Err(OverwriteRequestError::InvalidArgument(message)) => {
                return failed(ERROR_SERVER_REQUEST, message.as_str(), Some(response_key));
            },
            Err(OverwriteRequestError::Backend(message)) => {
                return failed(ERROR_SERVER_REQUEST, message.as_str(), Some(response_key));
            },
        };
        match check_response_envelope(&response) {
            Ok(()) => OverwriteStep::AgreeOnSecret(
                OverwriteReplied { request_id: self.request_id, response_key, response },
            ),
            Err(message) => failed(ERROR_SERVER_RESPONSE, message.as_str(), Some(response_key)),
        }
    }
}

/// `step` follows the agreement on a secret.
pub open spec fn follows_secret(
    step: OverwriteStep,
    replied: OverwriteReplied,
    secret: Result<Vec<u8>, String>,
) -> bool {
    let release = Some(replied.response_key);
    if !is_complete(replied.response) {
        fails(step, ERROR_SERVER_RESPONSE, RESPONSE_INCOMPLETE@, release)
    } else {
        match secret {
            Err(message) => fails(step, ERROR_SERVER_RESPONSE, message@, release),
            Ok(agreed) => match response_opened(
                replied.request_id@,
                agreed@,
                replied.response,
                encode_utf8(RESPONSE_HKDF_INFO@),
                RESPONSE_AAD_PREFIX@,
            ) {
                Ok(plain) => {
                    &&& step matches OverwriteStep::DecodePlaintext(opened)
                    &&& opened.plaintext@ == plain
                    &&& opened.response_key == replied.response_key
                },
                Err(fault) => {
                    &&& step matches OverwriteStep::Finished(finished)
                    &&& finished.result matches Err(error)
                    &&& error.code == ERROR_SERVER_RESPONSE
                    &&& reports_open_fault(error.message@, fault)
                    &&& finished.release == release
                },
            },
        }
    }
}

impl OverwriteReplied {
    /// Goes on with the secret that the response key agreed on.
    pub fn secret_agreed(self, secret: Result<Vec<u8>, String>) -> (step: OverwriteStep)
        requires
            is_complete(self.response) && secret is Ok ==> is_within_limits(
                self.request_id@,
                self.response,
                RESPONSE_AAD_PREFIX@,
            ),
        ensures
            follows_secret(step, self, secret),
    {
        let response_key = self.response_key;
        match decrypt_response(self.request_id.as_str(), secret, &self.response) {
            Ok(plaintext) => OverwriteStep::DecodePlaintext(
                OverwriteOpened { response_key, plaintext },
            ),
            Err(message) => failed(ERROR_SERVER_RESPONSE, message.as_str(), Some(response_key)),
        }
    }
}

/// `step` follows the decoding of the reply.
pub open spec fn follows_plaintext(
    step: OverwriteStep,
    opened: OverwriteOpened,
    decoded: Result<OverwriteAttestationResponsePlaintext, String>,
) -> bool {
    let release = Some(opened.response_key);
    match decoded {
        Err(reason) => fails(
            step,
            ERROR_SERVER_RESPONSE,
            PLAINTEXT_DECODE_FAILED@ + reason@,
            release,
        ),
        Ok(decrypted) => if decrypted.reprovision_attestation_key {
            fails(step, ERROR_REPROVISION_ATTESTATION_KEY, REPROVISIONING_REQUESTED@, release)
        } else if decrypted.leaf_certificate@.len() == 0 || decrypted.remaining_chain@.len() == 0 {
            fails(step, ERROR_SERVER_RESPONSE, CHAIN_INCOMPLETE@, release)
        } else {
            step == OverwriteStep::Finished(
                OverwriteFinished {
                    result: Ok(
                        CertificateChain {
                            leaf_certificate: decrypted.leaf_certificate,
                            remaining_chain: decrypted.remaining_chain,
                        },
                    ),
                    release,
                },
            )
        },
    }
}

impl OverwriteOpened {
    /// Ends with what the reply says.
    pub fn plaintext_decoded(
        self,
        decoded: Result<OverwriteAttestationResponsePlaintext, String>,
    ) -> (step: OverwriteStep)
        ensures
            follows_plaintext(step, self, decoded),
    {
        let release = Some(self.response_key);
        let decrypted = match decoded {
            Ok(decrypted) => decrypted,
            Err(reason) => {
                let message = join2(PLAINTEXT_DECODE_FAILED, reason.as_str());
                return failed(ERROR_SERVER_RESPONSE, message.as_str(), release);
            },
        };
        if decrypted.reprovision_attestation_key {
            return failed(ERROR_REPROVISION_ATTESTATION_KEY, REPROVISIONING_REQUESTED, release);
        }
        if decrypted.leaf_certificate.is_empty() || decrypted.remaining_chain.is_empty() {
            return failed(ERROR_SERVER_RESPONSE, CHAIN_INCOMPLETE, release);
        }
        OverwriteStep::Finished(
            OverwriteFinished {
                result: Ok(
                    CertificateChain {
                        leaf_certificate: decrypted.leaf_certificate,
                        remaining_chain: decrypted.remaining_chain,
                    },
                ),
                release,
            },
        )
    }
}

/// `next` follows `step` for some outcome of what `step` calls for.
pub open spec fn overwrite_follows(step: OverwriteStep, next: OverwriteStep) -> bool {
    match step {
        OverwriteStep::ObtainIdentity(begun) => exists|
            identity: Result<DeviceIdentityKey, ServiceError>,
        | #[trigger]
            follows_identity(next, begun, identity),
        OverwriteStep::GenerateResponseKey(identified) => exists|
            key: Result<ResponseKey, ServiceError>,
        | #[trigger]
            follows_response_key(next, identified, key),
        OverwriteStep::SendRequest(keyed) => exists|
            reply: Result<EncryptedResponse, OverwriteRequestError>,
        | #[trigger]
            follows_reply(next, keyed, reply),
        OverwriteStep::AgreeOnSecret(replied) => exists|secret: Result<Vec<u8>, String>| #[trigger]
            follows_secret(next, replied, secret),
        OverwriteStep::DecodePlaintext(opened) => exists|
            decoded: Result<OverwriteAttestationResponsePlaintext, String>,
        | #[trigger]
            follows_plaintext(next, opened, decoded),
        OverwriteStep::Finished(_) => false,
    }
}

/// The steps of the replacement of `original` under this name, up to some point, for some outcomes
/// of what they call for.
pub open spec fn is_overwrite_run(
    steps: Seq<OverwriteStep>,
    original: CertificateChain,
    request_id: Seq<char>,
) -> bool {
    &&& steps.len() > 0
    &&& begins(steps[0], original, request_id)
    &&& forall|i: int|
        0 <= i < steps.len() - 1 ==> overwrite_follows(#[trigger] steps[i], steps[i + 1])
}

/// What holds of the step at `i` of a run.
pub open spec fn suits_its_place(
    steps: Seq<OverwriteStep>,
    original: CertificateChain,
    request_id: Seq<char>,
    i: int,
) -> bool {
    let response_key = steps[2]->SendRequest_0.response_key.descriptor;
    match steps[i] {
        OverwriteStep::ObtainIdentity(begun) => {
            &&& i == 0
            &&& begun.request_id@ == request_id
            &&& begun.original == original
        },
        OverwriteStep::GenerateResponseKey(identified) => {
            &&& i == 1
            &&& identified.request_id@ == request_id
            &&& identified.original == original
        },
        OverwriteStep::SendRequest(keyed) => {
            &&& i == 2
            &&& keyed.request_id@ == request_id
            &&& keyed.original == original
        },
        OverwriteStep::AgreeOnSecret(replied) => {
            &&& i == 3
            &&& replied.request_id@ == request_id
            &&& replied.response_key == response_key
            &&& is_complete(replied.response)
        },
        OverwriteStep::DecodePlaintext(opened) => {
            &&& i == 4
            &&& opened.response_key == response_key
        },
        OverwriteStep::Finished(finished) => {
            &&& i == steps.len() - 1 <= 5
            &&& i <= 2 ==> finished.release is None
            &&& i >= 3 ==> finished.release == Some(response_key)
        },
    }
}

/// The steps of a run come in one order, of which only the end can be missing, and keep to the
/// chain and the name that it was begun with. A run is over after six steps.
pub proof fn law_overwrite_run_order(
    steps: Seq<OverwriteStep>,
    original: CertificateChain,
    request_id: Seq<char>,
    i: int,
)
    requires
        is_overwrite_run(steps, original, request_id),
        0 <= i < steps.len(),
    ensures
        suits_its_place(steps, original, request_id, i),
        i > 0 ==> calls_for_request(original),
    decreases i,
{
    if i < steps.len() - 1 {
        assert(overwrite_follows(steps[i], steps[i + 1]));
    }
    if i > 0 {
        law_overwrite_run_order(steps, original, request_id, i - 1);
        assert(overwrite_follows(steps[i - 1], steps[(i - 1) + 1]));
        if i > 1 {
            law_overwrite_run_order(steps, original, request_id, i - 2);
        }
    }
}

/// A leaf that is kept or refused leaves no trace: such a replacement is over at once, without a
/// key and without a request.
pub proof fn law_kept_or_refused_at_once(
    steps: Seq<OverwriteStep>,
    original: CertificateChain,
    request_id: Seq<char>,
)
    requires
        is_overwrite_run(steps, original, request_id),
        !calls_for_request(original),
    ensures
        steps.len() == 1,
        steps[0] is Finished,
{
    if steps.len() > 1 {
        law_overwrite_run_order(steps, original, request_id, 1);
    }
}

/// A response key that was generated is deleted when the replacement is over, however it ends, and
/// no other key is.
pub proof fn law_response_key_is_released(
    steps: Seq<OverwriteStep>,
    original: CertificateChain,
    request_id: Seq<char>,
)
    requires
        is_overwrite_run(steps, original, request_id),
        steps.last() is Finished,
    ensures
        steps.len() > 3 ==> steps[2] is SendRequest && steps.last()->Finished_0.release == Some(
            steps[2]->SendRequest_0.response_key.descriptor,
        ),
        steps.len() <= 3 ==> steps.last()->Finished_0.release is None && forall|i: int|
            0 <= i < steps.len() ==> !(#[trigger] steps[i] is SendRequest),
{
    law_overwrite_run_order(steps, original, request_id, steps.len() - 1);
    if steps.len() > 3 {
        law_overwrite_run_order(steps, original, request_id, 2);
        assert(overwrite_follows(steps[2], steps[3]));
        law_overwrite_run_order(steps, original, request_id, 3);
    } else {
        assert forall|i: int| 0 <= i < steps.len() implies !(#[trigger] steps[i] is SendRequest) by {
            law_overwrite_run_order(steps, original, request_id, i);
        }
    }
}

/// A replacement succeeds in two ways only: the leaf is that of one of the library's own keys and
/// the chain stays as it is; or all steps were taken, the leaf was signed by the attestation key
/// above it, and the reply holds a leaf and a chain.
pub proof fn law_replacement_is_earned(
    steps: Seq<OverwriteStep>,
    original: CertificateChain,
    request_id: Seq<char>,
)
    requires
        is_overwrite_run(steps, original, request_id),
        steps.last() is Finished,
        steps.last()->Finished_0.result is Ok,
    ensures
        is_internal(original.leaf_certificate@) ==> steps.len() == 1
            && steps.last()->Finished_0.result->Ok_0 == original,
        !is_internal(original.leaf_certificate@) ==> {
            &&& steps.len() == 6
            &&& calls_for_request(original)
            &&& steps.last()->Finished_0.result->Ok_0.leaf_certificate@.len() > 0
            &&& steps.last()->Finished_0.result->Ok_0.remaining_chain@.len() > 0
        },
{
    let last = steps.len() - 1;
    law_overwrite_run_order(steps, original, request_id, last);
    if last > 0 {
        law_overwrite_run_order(steps, original, request_id, last - 1);
        assert(overwrite_follows(steps[last - 1], steps[(last - 1) + 1]));
    }
}

/// A reply is opened with what belongs to its own request: the plaintext of a run is what the
/// reply of that run yields under some secret and the name of that run.
pub proof fn law_reply_is_opened_for_its_request(
    steps: Seq<OverwriteStep>,
    original: CertificateChain,
    request_id: Seq<char>,
)
    requires
        is_overwrite_run(steps, original, request_id),
        steps.last() is DecodePlaintext,
    ensures
        steps.len() == 5,
        steps[3] is AgreeOnSecret,
        exists|secret: Seq<u8>| #[trigger]
            response_opened(
                request_id,
                secret,
                steps[3]->AgreeOnSecret_0.response,
                encode_utf8(RESPONSE_HKDF_INFO@),
                RESPONSE_AAD_PREFIX@,
            ) == Ok::<Seq<u8>, crate::response::OpenFault>(
                steps.last()->DecodePlaintext_0.plaintext@,
            ),
{
    law_overwrite_run_order(steps, original, request_id, steps.len() - 1);
    law_overwrite_run_order(steps, original, request_id, 3);
    assert(overwrite_follows(steps[3], steps[4]));
    let replied = steps[3]->AgreeOnSecret_0;
    let secret = choose|secret: Result<Vec<u8>, String>| #[trigger]
        follows_secret(steps[4], replied, secret);
    assert(follows_secret(steps[4], replied, secret));
    assert(response_opened(
        request_id,
        secret->Ok_0@,
        replied.response,
        encode_utf8(RESPONSE_HKDF_INFO@),
        RESPONSE_AAD_PREFIX@,
    ) is Ok);
}

/// What follows obtaining the key that stands for the device, and then a key for the reply: a
/// failure as it is, with nothing to delete; or the next step, with all that is known so far.
pub proof fn law_after_keys(
    step: OverwriteStep,
    begun: OverwriteBegun,
    identified: OverwriteIdentified,
    device_identity: DeviceIdentityKey,
    response_key: ResponseKey,
    error: ServiceError,
)
    ensures
        follows_identity(step, begun, Err(error)) ==> step == OverwriteStep::Finished(
            OverwriteFinished { result: Err(error), release: None },
        ),
        follows_identity(step, begun, Ok(device_identity)) ==> (
        step matches OverwriteStep::GenerateResponseKey(next) && next.request_id == begun.request_id
            && next.original == begun.original && next.device_identity == device_identity),
        follows_response_key(step, identified, Err(error)) ==> step == OverwriteStep::Finished(
            OverwriteFinished { result: Err(error), release: None },
        ),
        follows_response_key(step, identified, Ok(response_key)) ==> (
        step matches OverwriteStep::SendRequest(next) && next.request_id == identified.request_id
            && next.original == identified.original && next.device_identity
            == identified.device_identity && next.response_key == response_key),
{
}

/// What follows the reply: a refusal with the backend's message and the code for a request that
/// failed; a reply that lacks a part with the code for a bad reply; in both cases the response key
/// is released. A complete reply is passed on whole, for any bytes in it.
pub proof fn law_after_reply(
    step: OverwriteStep,
    keyed: OverwriteKeyed,
    response: EncryptedResponse,
    message: String,
)
    ensures
        follows_reply(step, keyed, Err(OverwriteRequestError::InvalidArgument(message))) ==> (
        step matches OverwriteStep::Finished(finished) && (finished.result matches Err(error)
            && error.code
            == -2 && error.message@ == message@)
            && finished.release == Some(keyed.response_key.descriptor)),
        follows_reply(step, keyed, Err(OverwriteRequestError::Backend(message))) ==> (
        step matches OverwriteStep::Finished(finished) && (finished.result matches Err(error)
            && error.code
            == -2 && error.message@ == message@)
            && finished.release == Some(keyed.response_key.descriptor)),
        follows_reply(step, keyed, Ok(response)) && (response.encrypted_response@.len() == 0
            || response.response_nonce@.len() == 0
            || response.response_ephemeral_public_key@.len() == 0) ==> (
        step matches OverwriteStep::Finished(finished) && (finished.result matches Err(error)
            && error.code
            == -3 && error.message@ == "server returned an incomplete encrypted response"@)
            && finished.release == Some(keyed.response_key.descriptor)),
        follows_reply(step, keyed, Ok(response)) && response.encrypted_response@.len() > 0
            && response.response_nonce@.len() > 0 && response.response_ephemeral_public_key@.len()
            > 0 ==> (step matches OverwriteStep::AgreeOnSecret(next) && next.request_id
            == keyed.request_id && next.response_key == keyed.response_key.descriptor
            && next.response == response),
{
}

/// What follows the agreement: for a reply that lacks a part, without a secret, or where OpenSSL
/// does not open the reply, the code for a bad reply; and else all of the plaintext that the whole
/// secret, the reply and the labels
/// of this kind of request yield.
pub proof fn law_after_secret(
    step: OverwriteStep,
    replied: OverwriteReplied,
    secret: Vec<u8>,
    message: String,
)
    ensures
        (replied.response.encrypted_response@.len() == 0 || replied.response.response_nonce@.len()
            == 0 || replied.response.response_ephemeral_public_key@.len() == 0) && follows_secret(
            step,
            replied,
            Ok(secret),
        ) ==> (step matches OverwriteStep::Finished(finished) && (finished.result matches Err(error)
            && error.code == -3 && error.message@
            == "server returned an incomplete encrypted response"@) && finished.release == Some(
            replied.response_key,
        )),
        replied.response.encrypted_response@.len() > 0 && replied.response.response_nonce@.len() > 0
            && replied.response.response_ephemeral_public_key@.len() > 0
            && follows_secret(step, replied, Err(message))
            ==> (step matches OverwriteStep::Finished(finished)
            && (finished.result matches Err(error) && error.code
            == -3 && error.message@ == message@) && finished.release == Some(replied.response_key)),
        replied.response.encrypted_response@.len() > 0 && replied.response.response_nonce@.len() > 0
            && replied.response.response_ephemeral_public_key@.len() > 0
            && follows_secret(step, replied, Ok(secret)) ==> (match response_opened(
            replied.request_id@,
            secret@,
            replied.response,
            encode_utf8("MysticAttestation overwrite response v1"@),
            "MysticAttestation overwrite response aad v1:"@,
        ) {
            Ok(plain) => step matches OverwriteStep::DecodePlaintext(next)
                && next.plaintext@ == plain
                && next.response_key == replied.response_key,
            Err(fault) => step matches OverwriteStep::Finished(finished) && (
            finished.result matches Err(error) && error.code == -3 && reports_open_fault(
                error.message@,
                fault,
            )) && finished.release == Some(replied.response_key),
        }),
{
}

/// What the decoded reply leads to, whatever bytes it holds: another attestation key is asked for
/// if the backend says so; a reply without a leaf or without a chain is refused; and any other
/// leaf and chain are handed out as they are. The response key is released in every case.
pub proof fn law_after_plaintext(
    step: OverwriteStep,
    opened: OverwriteOpened,
    decoded: OverwriteAttestationResponsePlaintext,
    reason: String,
)
    ensures
        follows_plaintext(step, opened, Err(reason)) ==> (step matches OverwriteStep::Finished(
            finished,
        ) && (finished.result matches Err(error) && error.code == -3 && error.message@
            == "response payload decode failed: "@ + reason@) && finished.release == Some(
            opened.response_key,
        )),
        follows_plaintext(step, opened, Ok(decoded)) && decoded.reprovision_attestation_key ==> (
        step matches OverwriteStep::Finished(finished) && (finished.result matches Err(error)
            && error.code == -4 && error.message@
            == "Backend requested attestation-key reprovisioning."@) && finished.release == Some(
            opened.response_key,
        )),
        follows_plaintext(step, opened, Ok(decoded)) && !decoded.reprovision_attestation_key && (
        decoded.leaf_certificate@.len() == 0 || decoded.remaining_chain@.len() == 0) ==> (
        step matches OverwriteStep::Finished(finished) && (finished.result matches Err(error)
            && error.code == -3 && error.message@
            == "Server returned an incomplete certificate chain."@) && finished.release == Some(
            opened.response_key,
        )),
        follows_plaintext(step, opened, Ok(decoded)) && !decoded.reprovision_attestation_key
            && decoded.leaf_certificate@.len() > 0 && decoded.remaining_chain@.len() > 0 ==> (
        step matches OverwriteStep::Finished(finished) && (finished.result matches Ok(chain)
            && chain.leaf_certificate == decoded.leaf_certificate && chain.remaining_chain
            == decoded.remaining_chain) && finished.release == Some(opened.response_key)),
{
}

/// What the replacement of a chain begins with, for any leaf and any certificates above it: a leaf
/// of the library's own is kept; a leaf that the key of the first certificate signed is sent,
/// whatever certificates follow; any other leaf that parses calls for another attestation key, and
/// one that does not parse is refused.
pub proof fn law_beginning(
    step: OverwriteStep,
    original: CertificateChain,
    request_id: Seq<char>,
    certificates: Seq<Seq<u8>>,
)
    requires
        begins(step, original, request_id),
    ensures
        is_internal(original.leaf_certificate@) ==> step == OverwriteStep::Finished(
            OverwriteFinished { result: Ok(original), release: None },
        ),
        !is_internal(original.leaf_certificate@) && !certificate_parses(
            original.leaf_certificate@,
        ) ==> (step matches OverwriteStep::Finished(finished) && (finished.result matches Err(error)
            && error.code == -2 && reports_openssl(
            error.message@,
            "attestation leaf certificate is invalid: "@,
        )) && finished.release is None),
        !is_internal(original.leaf_certificate@) && certificate_parses(original.leaf_certificate@)
            && 1 <= certificates.len() <= 16 && (forall|i: int|
            0 <= i < certificates.len() ==> crate::der::is_der_sequence(
                #[trigger] certificates[i],
            )) && original.remaining_chain@ == crate::bytes::joined(certificates) ==> (
        if crate::x509::certificate_parses(certificates[0]) && (crate::x509::certificate_key(
            certificates[0],
        ) matches Some(key) && crate::x509::certificate_signed_with(
            original.leaf_certificate@,
            key,
        ) == Some(true)) {
            step matches OverwriteStep::ObtainIdentity(begun) && begun.request_id@ == request_id
                && begun.original == original
        } else {
            step matches OverwriteStep::Finished(finished) && (finished.result matches Err(error)
                && error.code == -4 && error.message@
                == "Supplied attestation key does not sign the generated certificate."@)
                && finished.release is None
        }),
        !is_internal(original.leaf_certificate@) && certificate_parses(original.leaf_certificate@)
            && crate::der::certificates_of(original.remaining_chain@) is Err ==> (
        step matches OverwriteStep::Finished(finished) && (finished.result matches Err(error)
            && error.code == -4 && error.message@
            == "Supplied attestation key does not sign the generated certificate."@)
            && finished.release is None),
{
    if 1 <= certificates.len() <= 16 && (forall|i: int|
        0 <= i < certificates.len() ==> crate::der::is_der_sequence(#[trigger] certificates[i])) {
        crate::chain::law_first_of_list_decides(original.leaf_certificate@, certificates);
    }
}

/// A request is called for exactly where the beginning is to obtain the key of the device, and the
/// beginning without a request is what it ends with.
pub proof fn law_request_or_end(
    original: CertificateChain,
    finished: OverwriteFinished,
    request_id: Seq<char>,
)
    ensures
        calls_for_request(original) <==> !is_internal(original.leaf_certificate@)
            && certificate_parses(original.leaf_certificate@) && signed_by_first(
            original.leaf_certificate@,
            original.remaining_chain@,
        ),
        ends_at_once(finished, original) && !calls_for_request(original) ==> begins(
            OverwriteStep::Finished(finished),
            original,
            request_id,
        ),
{
}

} // verus!
