//! The provisioning of an attestation key, step by step.

use vstd::prelude::*;
use vstd::utf8::encode_utf8;

use crate::chain::{
    is_sound_material, law_valid_material_is_sound, material_fault, reports_material_fault,
    validate_provisioned_attestation_key,
};
use crate::keys::KeyDescriptor;
use crate::keystore::{DeviceIdentityKey, ResponseKey};
use crate::request_id::{is_random_uuid, new_request_id};
use crate::response::{
    check_response_envelope, decrypt_provision_response, is_complete, is_within_limits,
    reports_open_fault, response_opened, PROVISION_RESPONSE_AAD_PREFIX,
    PROVISION_RESPONSE_HKDF_INFO, RESPONSE_INCOMPLETE,
};
use crate::text::join2;
use crate::types::{
    is_service_error, service_error, AttestationKeyCertificateProfile, EncryptedResponse,
    OverwriteRequestError, ProvisionAttestationKeyResponsePlaintext, ProvisionedAttestationKey,
    ServiceError, ERROR_SERVER_REQUEST, ERROR_SERVER_RESPONSE,
};
use crate::KeystoreCertificatePostProcessor;

verus! {

pub const PROVISION_PLAINTEXT_DECODE_FAILED: &'static str =
    "provisioning response payload decode failed: ";

/// What an attestation key is asked for with.
#[derive(Debug)]
pub struct ProvisionParameters {
    pub certificate_profile: AttestationKeyCertificateProfile,
    pub wrapping_key_leaf_certificate: Vec<u8>,
    pub wrapping_key_remaining_chain: Vec<u8>,
}

/// A key to be provisioned, and the name of the request for it.
#[derive(Debug)]
pub struct ProvisionBegun {
    pub request_id: String,
    pub parameters: ProvisionParameters,
}

/// A begun provisioning with the key that stands for the device.
#[derive(Debug)]
pub struct ProvisionIdentified {
    pub request_id: String,
    pub parameters: ProvisionParameters,
    pub device_identity: DeviceIdentityKey,
}

/// A provisioning with all that the request for it is made of.
#[derive(Debug)]
pub struct ProvisionKeyed {
    pub request_id: String,
    pub parameters: ProvisionParameters,
    pub device_identity: DeviceIdentityKey,
    pub response_key: ResponseKey,
}

/// A provisioning that the backend replied to.
#[derive(Debug)]
pub struct ProvisionReplied {
    pub request_id: String,
    pub response_key: KeyDescriptor,
    pub response: EncryptedResponse,
}

/// A provisioning whose reply was opened.
#[derive(Debug)]
pub struct ProvisionOpened {
    pub response_key: KeyDescriptor,
    pub plaintext: Vec<u8>,
}

/// A provisioning that is over, and the key that is to be deleted now.
#[derive(Debug)]
pub struct ProvisionFinished {
    pub result: Result<ProvisionedAttestationKey, ServiceError>,
    pub release: Option<KeyDescriptor>,
}

/// What is done next for the provisioning of a key.
#[derive(Debug)]
pub enum ProvisionStep {
    /// Load or generate the key that stands for the device.
    ObtainIdentity(ProvisionBegun),
    /// Generate a key for the reply.
    GenerateResponseKey(ProvisionIdentified),
    /// Sign the request and send it.
    SendRequest(ProvisionKeyed),
    /// Let the response key agree on a secret with the public key in the reply.
    AgreeOnSecret(ProvisionReplied),
    /// Decode the reply.
    DecodePlaintext(ProvisionOpened),
    Finished(ProvisionFinished),
}

/// `step` ends with this failure.
pub open spec fn fails(
    step: ProvisionStep,
    code: i32,
    message: Seq<char>,
    release: Option<KeyDescriptor>,
) -> bool {
    &&& step matches ProvisionStep::Finished(finished)
    &&& finished.result matches Err(error)
    &&& is_service_error(error, code, message)
    &&& finished.release == release
}

/// The step that ends with this failure.
fn failed(code: i32, message: &str, release: Option<KeyDescriptor>) -> (step: ProvisionStep)
    ensures
        fails(step, code, message@, release),
{
    ProvisionStep::Finished(
        ProvisionFinished { result: Err(service_error(code, message)), release },
    )
}

/// `step` begins the provisioning of a key under this name.
pub open spec fn begins(
    step: ProvisionStep,
    parameters: ProvisionParameters,
    request_id: Seq<char>,
) -> bool {
    &&& step matches ProvisionStep::ObtainIdentity(begun)
    &&& begun.request_id@ == request_id
    &&& begun.parameters == parameters
}

impl KeystoreCertificatePostProcessor {
    /// Begins the provisioning of an attestation key under a new name.
    #[allow(non_snake_case)]
    pub fn provisionAttestationKey(
        &self,
        certificate_profile: AttestationKeyCertificateProfile,
        wrapping_key_leaf_certificate: Vec<u8>,
        wrapping_key_remaining_chain: Vec<u8>,
    ) -> (step: ProvisionStep)
        ensures
            exists|request_id: Seq<char>|
                is_random_uuid(request_id) && #[trigger] begins(
                    step,
                    (ProvisionParameters {
                        certificate_profile,
                        wrapping_key_leaf_certificate,
                        wrapping_key_remaining_chain,
                    }),
                    request_id,
                ),
    {
        let request_id = new_request_id();
        let ghost name = request_id@;
        let parameters = ProvisionParameters {
            certificate_profile,
            wrapping_key_leaf_certificate,
            wrapping_key_remaining_chain,
        };
        let step = begin_provision(parameters, request_id);
        assert(begins(step, parameters, name));
        step
    }
}

/// Begins the provisioning of an attestation key under this name.
pub fn begin_provision(parameters: ProvisionParameters, request_id: String) -> (step: ProvisionStep)
    ensures
        begins(step, parameters, request_id@),
{
    ProvisionStep::ObtainIdentity(ProvisionBegun { request_id, parameters })
}

/// `step` follows obtaining the key that stands for the device.
pub open spec fn follows_identity(
    step: ProvisionStep,
    begun: ProvisionBegun,
    identity: Result<DeviceIdentityKey, ServiceError>,
) -> bool {
    match identity {
        Err(error) => step == ProvisionStep::Finished(
            ProvisionFinished { result: Err(error), release: None },
        ),
        Ok(device_identity) => step == ProvisionStep::GenerateResponseKey(
            ProvisionIdentified {
                request_id: begun.request_id,
                parameters: begun.parameters,
                device_identity,
            },
        ),
    }
}

impl ProvisionBegun {
    /// Goes on with the key that stands for the device.
    pub fn identity_obtained(self, identity: Result<DeviceIdentityKey, ServiceError>) -> (step:
        ProvisionStep)
        ensures
            follows_identity(step, self, identity),
    {
        match identity {
            Err(error) => ProvisionStep::Finished(
                ProvisionFinished { result: Err(error), release: None },
            ),
            Ok(device_identity) => ProvisionStep::GenerateResponseKey(
                ProvisionIdentified {
                    request_id: self.request_id,
                    parameters: self.parameters,
                    device_identity,
                },
            ),
        }
    }
}

/// `step` follows generating a key for the reply.
pub open spec fn follows_response_key(
    step: ProvisionStep,
    identified: ProvisionIdentified,
    key: Result<ResponseKey, ServiceError>,
) -> bool {
    match key {
        Err(error) => step == ProvisionStep::Finished(
            ProvisionFinished { result: Err(error), release: None },
        ),
        Ok(response_key) => step == ProvisionStep::SendRequest(
            ProvisionKeyed {
                request_id: identified.request_id,
                parameters: identified.parameters,
                device_identity: identified.device_identity,
                response_key,
            },
        ),
    }
}

impl ProvisionIdentified {
    /// Goes on with a key for the reply.
    pub fn response_key_generated(self, key: Result<ResponseKey, ServiceError>) -> (step:
        ProvisionStep)
        ensures
            follows_response_key(step, self, key),
    {
        match key {
            Err(error) => ProvisionStep::Finished(
                ProvisionFinished { result: Err(error), release: None },
            ),
            Ok(response_key) => ProvisionStep::SendRequest(
                ProvisionKeyed {
                    request_id: self.request_id,
                    parameters: self.parameters,
                    device_identity: self.device_identity,
                    response_key,
                },
            ),
        }
    }
}

/// `step` follows the reply of the backend.
pub open spec fn follows_reply(
    step: ProvisionStep,
    keyed: ProvisionKeyed,
    reply: Result<EncryptedResponse, OverwriteRequestError>,
) -> bool {
    let release = Some(keyed.response_key.descriptor);
    match reply {
        Err(OverwriteRequestError::InvalidArgument(message)) => fails(
            step,
            ERROR_SERVER_REQUEST,
            message@,
            release,
        ),
        Err(OverwriteRequestError::Backend(message)) => fails(
            step,
            ERROR_SERVER_REQUEST,
            message@,
            release,
        ),
        Ok(response) => if is_complete(response) {
            step == ProvisionStep::AgreeOnSecret(
                ProvisionReplied {
                    request_id: keyed.request_id,
                    response_key: keyed.response_key.descriptor,
                    response,
                },
            )
        } else {
            fails(step, ERROR_SERVER_RESPONSE, RESPONSE_INCOMPLETE@, release)
        },
    }
}

impl ProvisionKeyed {
    /// Goes on with the reply of the backend. No secret is agreed on for a reply that lacks a part.
    pub fn reply_received(self, reply: Result<EncryptedResponse, OverwriteRequestError>) -> (step:
        ProvisionStep)
        ensures
            follows_reply(step, self, reply),
    {
        let response_key = self.response_key.descriptor;
        let response = match reply {
            Ok(response) => response,
            Err(OverwriteRequestError::InvalidArgument(message)) => {
                return failed(ERROR_SERVER_REQUEST, message.as_str(), Some(response_key));
            },
            Err(OverwriteRequestError::Backend(message)) => {
                return failed(ERROR_SERVER_REQUEST, message.as_str(), Some(response_key));
            },
        };
        match check_response_envelope(&response) {
            Ok(()) => ProvisionStep::AgreeOnSecret(
                ProvisionReplied { request_id: self.request_id, response_key, response },
            ),
            Err(message) => failed(ERROR_SERVER_RESPONSE, message.as_str(), Some(response_key)),
        }
    }
}

/// `step` follows the agreement on a secret.
pub open spec fn follows_secret(
    step: ProvisionStep,
    replied: ProvisionReplied,
    secret: Result<Vec<u8>, String>,
) -> bool {
    let release = Some(replied.response_key);
    if !is_complete(replied.response) {
        fails(step, ERROR_SERVER_RESPONSE, RESPONSE_INCOMPLETE@, release)
    } else {
        match secret {
            Err(message) => fails(step, ERROR_SERVER_RESPONSE, message@, release),
            Ok(agreed) => match response_opened(
                replied.request_id@,
                agreed@,
                replied.response,
                encode_utf8(PROVISION_RESPONSE_HKDF_INFO@),
                PROVISION_RESPONSE_AAD_PREFIX@,
            ) {
                Ok(plain) => {
                    &&& step matches ProvisionStep::DecodePlaintext(opened)
                    &&& opened.plaintext@ == plain
                    &&& opened.response_key == replied.response_key
                },
                Err(fault) => {
                    &&& step matches ProvisionStep::Finished(finished)
                    &&& finished.result matches Err(error)
                    &&& error.code == ERROR_SERVER_RESPONSE
                    &&& reports_open_fault(error.message@, fault)
                    &&& finished.release == release
                },
            },
        }
    }
}

impl ProvisionReplied {
    /// Goes on with the secret that the response key agreed on.
    pub fn secret_agreed(self, secret: Result<Vec<u8>, String>) -> (step: ProvisionStep)
        requires
            is_complete(self.response) && secret is Ok ==> is_within_limits(
                self.request_id@,
                self.response,
                PROVISION_RESPONSE_AAD_PREFIX@,
            ),
        ensures
            follows_secret(step, self, secret),
    {
        let response_key = self.response_key;
        match decrypt_provision_response(self.request_id.as_str(), secret, &self.response) {
            Ok(plaintext) => ProvisionStep::DecodePlaintext(
                ProvisionOpened { response_key, plaintext },
            ),
            Err(message) => failed(ERROR_SERVER_RESPONSE, message.as_str(), Some(response_key)),
        }
    }
}

/// `step` follows the decoding of the reply.
pub open spec fn follows_plaintext(
    step: ProvisionStep,
    opened: ProvisionOpened,
    decoded: Result<ProvisionAttestationKeyResponsePlaintext, String>,
) -> bool {
    let release = Some(opened.response_key);
    match decoded {
        Err(reason) => fails(
            step,
            ERROR_SERVER_RESPONSE,
            PROVISION_PLAINTEXT_DECODE_FAILED@ + reason@,
            release,
        ),
        Ok(decrypted) => match material_fault(
            decrypted.secure_key_wrapper@,
            decrypted.leaf_certificate@,
            decrypted.remaining_chain@,
        ) {
            Some(fault) => {
                &&& step matches ProvisionStep::Finished(finished)
                &&& finished.result matches Err(error)
                &&& error.code == ERROR_SERVER_RESPONSE
                &&& reports_material_fault(error.message@, fault)
                &&& finished.release == release
            },
            None => step == ProvisionStep::Finished(
                ProvisionFinished {
                    result: Ok(
                        ProvisionedAttestationKey {
                            secure_key_wrapper: decrypted.secure_key_wrapper,
                            leaf_certificate: decrypted.leaf_certificate,
                            remaining_chain: decrypted.remaining_chain,
                        },
                    ),
                    release,
                },
            ),
        },
    }
}

impl ProvisionOpened {
    /// Ends with the key material that the reply holds, if it is sound.
    pub fn plaintext_decoded(
        self,
        decoded: Result<ProvisionAttestationKeyResponsePlaintext, String>,
    ) -> (step: ProvisionStep)
        ensures
            follows_plaintext(step, self, decoded),
    {
        let release = Some(self.response_key);
        let decrypted = match decoded {
            Ok(decrypted) => decrypted,
            Err(reason) => {
                let message = join2(PROVISION_PLAINTEXT_DECODE_FAILED, reason.as_str());
                return failed(ERROR_SERVER_RESPONSE, message.as_str(), release);
            },
        };
        match validate_provisioned_attestation_key(&decrypted) {
            Ok(()) => {},
            Err(message) => {
                return failed(ERROR_SERVER_RESPONSE, message.as_str(), release);
            },
        }
        ProvisionStep::Finished(
            ProvisionFinished {
                result: Ok(
                    ProvisionedAttestationKey {
                        secure_key_wrapper: decrypted.secure_key_wrapper,
                        leaf_certificate: decrypted.leaf_certificate,
                        remaining_chain: decrypted.remaining_chain,
                    },
                ),
                release,
            },
        )
    }
}

/// `next` follows `step` for some outcome of what `step` calls for.
pub open spec fn provision_follows(step: ProvisionStep, next: ProvisionStep) -> bool {
    match step {
        ProvisionStep::ObtainIdentity(begun) => exists|
            identity: Result<DeviceIdentityKey, ServiceError>,
        | #[trigger]
            follows_identity(next, begun, identity),
        ProvisionStep::GenerateResponseKey(identified) => exists|
            key: Result<ResponseKey, ServiceError>,
        | #[trigger]
            follows_response_key(next, identified, key),
        ProvisionStep::SendRequest(keyed) => exists|
            reply: Result<EncryptedResponse, OverwriteRequestError>,
        | #[trigger]
            follows_reply(next, keyed, reply),
        ProvisionStep::AgreeOnSecret(replied) => exists|secret: Result<Vec<u8>, String>| #[trigger]
            follows_secret(next, replied, secret),
        ProvisionStep::DecodePlaintext(opened) => exists|
            decoded: Result<ProvisionAttestationKeyResponsePlaintext, String>,
        | #[trigger]
            follows_plaintext(next, opened, decoded),
        ProvisionStep::Finished(_) => false,
    }
}

/// The steps of the provisioning of a key under this name, up to some point, for some outcomes of
/// what they call for.
pub open spec fn is_provision_run(
    steps: Seq<ProvisionStep>,
    parameters: ProvisionParameters,
    request_id: Seq<char>,
) -> bool {
    &&& steps.len() > 0
    &&& begins(steps[0], parameters, request_id)
    &&& forall|i: int|
        0 <= i < steps.len() - 1 ==> provision_follows(#[trigger] steps[i], steps[i + 1])
}

/// What holds of the step at `i` of a run.
pub open spec fn suits_its_place(
    steps: Seq<ProvisionStep>,
    parameters: ProvisionParameters,
    request_id: Seq<char>,
    i: int,
) -> bool {
    let response_key = steps[2]->SendRequest_0.response_key.descriptor;
    match steps[i] {
        ProvisionStep::ObtainIdentity(begun) => {
            &&& i == 0
            &&& begun.request_id@ == request_id
            &&& begun.parameters == parameters
        },
        ProvisionStep::GenerateResponseKey(identified) => {
            &&& i == 1
            &&& identified.request_id@ == request_id
            &&& identified.parameters == parameters
        },
        ProvisionStep::SendRequest(keyed) => {
            &&& i == 2
            &&& keyed.request_id@ == request_id
            &&& keyed.parameters == parameters
        },
        ProvisionStep::AgreeOnSecret(replied) => {
            &&& i == 3
            &&& replied.request_id@ == request_id
            &&& replied.response_key == response_key
            &&& is_complete(replied.response)
        },
        ProvisionStep::DecodePlaintext(opened) => {
            &&& i == 4
            &&& opened.response_key == response_key
        },
        ProvisionStep::Finished(finished) => {
            &&& 1 <= i == steps.len() - 1 <= 5
            &&& i <= 2 ==> finished.release is None
            &&& i >= 3 ==> finished.release == Some(response_key)
        },
    }
}

/// The steps of a run come in one order, of which only the end can be missing, and keep to the
/// parameters and the name that it was begun with. A run is over after six steps.
pub proof fn law_provision_run_order(
    steps: Seq<ProvisionStep>,
    parameters: ProvisionParameters,
    request_id: Seq<char>,
    i: int,
)
    requires
        is_provision_run(steps, parameters, request_id),
        0 <= i < steps.len(),
    ensures
        suits_its_place(steps, parameters, request_id, i),
    decreases i,
{
    if i < steps.len() - 1 {
        assert(provision_follows(steps[i], steps[i + 1]));
    }
    if i > 0 {
        law_provision_run_order(steps, parameters, request_id, i - 1);
        assert(provision_follows(steps[i - 1], steps[(i - 1) + 1]));
        if i > 1 {
            law_provision_run_order(steps, parameters, request_id, i - 2);
        }
    }
}

/// A response key that was generated is deleted when the provisioning is over, however it ends, and
/// no other key is.
pub proof fn law_response_key_is_released(
    steps: Seq<ProvisionStep>,
    parameters: ProvisionParameters,
    request_id: Seq<char>,
)
    requires
        is_provision_run(steps, parameters, request_id),
        steps.last() is Finished,
    ensures
        steps.len() > 3 ==> steps[2] is SendRequest && steps.last()->Finished_0.release == Some(
            steps[2]->SendRequest_0.response_key.descriptor,
        ),
        steps.len() <= 3 ==> steps.last()->Finished_0.release is None && forall|i: int|
            0 <= i < steps.len() ==> !(#[trigger] steps[i] is SendRequest),
{
    law_provision_run_order(steps, parameters, request_id, steps.len() - 1);
    if steps.len() > 3 {
        law_provision_run_order(steps, parameters, request_id, 2);
        assert(provision_follows(steps[2], steps[3]));
        law_provision_run_order(steps, parameters, request_id, 3);
    } else {
        assert forall|i: int| 0 <= i < steps.len() implies !(#[trigger] steps[i] is SendRequest) by {
            law_provision_run_order(steps, parameters, request_id, i);
        }
    }
}

/// A provisioning succeeds only with sound key material, and only after all steps.
pub proof fn law_provisioned_material_is_sound(
    steps: Seq<ProvisionStep>,
    parameters: ProvisionParameters,
    request_id: Seq<char>,
)
    requires
        is_provision_run(steps, parameters, request_id),
        steps.last() is Finished,
        steps.last()->Finished_0.result is Ok,
    ensures
        steps.len() == 6,
        is_sound_material(
            steps.last()->Finished_0.result->Ok_0.secure_key_wrapper@,
            steps.last()->Finished_0.result->Ok_0.leaf_certificate@,
            steps.last()->Finished_0.result->Ok_0.remaining_chain@,
        ),
{
    let last = steps.len() - 1;
    law_provision_run_order(steps, parameters, request_id, last);
    law_provision_run_order(steps, parameters, request_id, last - 1);
    assert(provision_follows(steps[last - 1], steps[(last - 1) + 1]));
    let key = steps.last()->Finished_0.result->Ok_0;
    law_valid_material_is_sound(
        key.secure_key_wrapper@,
        key.leaf_certificate@,
        key.remaining_chain@,
    );
}

/// A reply is opened with what belongs to its own request: the plaintext of a run is what the
/// reply of that run yields under some secret and the name of that run.
pub proof fn law_reply_is_opened_for_its_request(
    steps: Seq<ProvisionStep>,
    parameters: ProvisionParameters,
    request_id: Seq<char>,
)
    requires
        is_provision_run(steps, parameters, request_id),
        steps.last() is DecodePlaintext,
    ensures
        steps.len() == 5,
        steps[3] is AgreeOnSecret,
        exists|secret: Seq<u8>| #[trigger]
            response_opened(
                request_id,
                secret,
                steps[3]->AgreeOnSecret_0.response,
                encode_utf8(PROVISION_RESPONSE_HKDF_INFO@),
                PROVISION_RESPONSE_AAD_PREFIX@,
            ) == Ok::<Seq<u8>, crate::response::OpenFault>(
                steps.last()->DecodePlaintext_0.plaintext@,
            ),
{
    law_provision_run_order(steps, parameters, request_id, steps.len() - 1);
    law_provision_run_order(steps, parameters, request_id, 3);
    assert(provision_follows(steps[3], steps[4]));
    let replied = steps[3]->AgreeOnSecret_0;
    let secret = choose|secret: Result<Vec<u8>, String>| #[trigger]
        follows_secret(steps[4], replied, secret);
    assert(follows_secret(steps[4], replied, secret));
    assert(response_opened(
        request_id,
        secret->Ok_0@,
        replied.response,
        encode_utf8(PROVISION_RESPONSE_HKDF_INFO@),
        PROVISION_RESPONSE_AAD_PREFIX@,
    ) is Ok);
}

/// What follows obtaining the key that stands for the device, and then a key for the reply: a
/// failure as it is, with nothing to delete; or the next step, with all that is known so far.
pub proof fn law_after_keys(
    step: ProvisionStep,
    begun: ProvisionBegun,
    identified: ProvisionIdentified,
    device_identity: DeviceIdentityKey,
    response_key: ResponseKey,
    error: ServiceError,
)
    ensures
        follows_identity(step, begun, Err(error)) ==> step == ProvisionStep::Finished(
            ProvisionFinished { result: Err(error), release: None },
        ),
        follows_identity(step, begun, Ok(device_identity)) ==> (
        step matches ProvisionStep::GenerateResponseKey(next) && next.request_id == begun.request_id
            && next.parameters == begun.parameters && next.device_identity == device_identity),
        follows_response_key(step, identified, Err(error)) ==> step == ProvisionStep::Finished(
            ProvisionFinished { result: Err(error), release: None },
        ),
        follows_response_key(step, identified, Ok(response_key)) ==> (
        step matches ProvisionStep::SendRequest(next) && next.request_id == identified.request_id
            && next.parameters == identified.parameters && next.device_identity
            == identified.device_identity && next.response_key == response_key),
{
}

/// What follows the reply: a refusal with the backend's message and the code for a request that
/// failed; a reply that lacks a part with the code for a bad reply; in both cases the response key
/// is released. A complete reply is passed on whole, for any bytes in it.
pub proof fn law_after_reply(
    step: ProvisionStep,
    keyed: ProvisionKeyed,
    response: EncryptedResponse,
    message: String,
)
    ensures
        follows_reply(step, keyed, Err(OverwriteRequestError::InvalidArgument(message))) ==> (
        step matches ProvisionStep::Finished(finished) && (finished.result matches Err(error)
            && error.code
            == -2 && error.message@ == message@)
            && finished.release == Some(keyed.response_key.descriptor)),
        follows_reply(step, keyed, Err(OverwriteRequestError::Backend(message))) ==> (
        step matches ProvisionStep::Finished(finished) && (finished.result matches Err(error)
            && error.code
            == -2 && error.message@ == message@)
            && finished.release == Some(keyed.response_key.descriptor)),
        follows_reply(step, keyed, Ok(response)) && (response.encrypted_response@.len() == 0
            || response.response_nonce@.len() == 0
            || response.response_ephemeral_public_key@.len() == 0) ==> (
        step matches ProvisionStep::Finished(finished) && (finished.result matches Err(error)
            && error.code
            == -3 && error.message@ == "server returned an incomplete encrypted response"@)
            && finished.release == Some(keyed.response_key.descriptor)),
        follows_reply(step, keyed, Ok(response)) && response.encrypted_response@.len() > 0
            && response.response_nonce@.len() > 0 && response.response_ephemeral_public_key@.len()
            > 0 ==> (step matches ProvisionStep::AgreeOnSecret(next) && next.request_id
            == keyed.request_id && next.response_key == keyed.response_key.descriptor
            && next.response == response),
{
}

/// What follows the agreement: for a reply that lacks a part, without a secret, or where OpenSSL
/// does not open the reply, the code for a bad reply; and else all of the plaintext that the whole
/// secret, the reply and the labels
/// of this kind of request yield.
pub proof fn law_after_secret(
    step: ProvisionStep,
    replied: ProvisionReplied,
    secret: Vec<u8>,
    message: String,
)
    ensures
        (replied.response.encrypted_response@.len() == 0 || replied.response.response_nonce@.len()
            == 0 || replied.response.response_ephemeral_public_key@.len() == 0) && follows_secret(
            step,
            replied,
            Ok(secret),
        ) ==> (step matches ProvisionStep::Finished(finished) && (finished.result matches Err(error)
            && error.code == -3 && error.message@
            == "server returned an incomplete encrypted response"@) && finished.release == Some(
            replied.response_key,
        )),
        replied.response.encrypted_response@.len() > 0 && replied.response.response_nonce@.len() > 0
            && replied.response.response_ephemeral_public_key@.len() > 0
            && follows_secret(step, replied, Err(message))
            ==> (step matches ProvisionStep::Finished(finished)
            && (finished.result matches Err(error) && error.code
            == -3 && error.message@ == message@) && finished.release == Some(replied.response_key)),
        replied.response.encrypted_response@.len() > 0 && replied.response.response_nonce@.len() > 0
            && replied.response.response_ephemeral_public_key@.len() > 0
            && follows_secret(step, replied, Ok(secret)) ==> (match response_opened(
            replied.request_id@,
            secret@,
            replied.response,
            encode_utf8("MysticAttestation provision response v1"@),
            "MysticAttestation provision response aad v1:"@,
        ) {
            Ok(plain) => step matches ProvisionStep::DecodePlaintext(next)
                && next.plaintext@ == plain
                && next.response_key == replied.response_key,
            Err(fault) => step matches ProvisionStep::Finished(finished) && (
            finished.result matches Err(error) && error.code == -3 && reports_open_fault(
                error.message@,
                fault,
            )) && finished.release == Some(replied.response_key),
        }),
{
}

/// What the decoded reply leads to, whatever bytes it holds: material with a fault is refused with
/// that fault, and any other is handed out as it is. The response key is released in every case.
pub proof fn law_after_plaintext(
    step: ProvisionStep,
    opened: ProvisionOpened,
    decoded: ProvisionAttestationKeyResponsePlaintext,
    reason: String,
)
    ensures
        follows_plaintext(step, opened, Err(reason)) ==> (step matches ProvisionStep::Finished(
            finished,
        ) && (finished.result matches Err(error) && error.code == -3 && error.message@
            == "provisioning response payload decode failed: "@ + reason@) && finished.release
            == Some(opened.response_key)),
        follows_plaintext(step, opened, Ok(decoded)) ==> (match material_fault(
            decoded.secure_key_wrapper@,
            decoded.leaf_certificate@,
            decoded.remaining_chain@,
        ) {
            Some(fault) => step matches ProvisionStep::Finished(finished) && (
            finished.result matches Err(error) && error.code == -3 && reports_material_fault(
                error.message@,
                fault,
            )) && finished.release == Some(opened.response_key),
            None => step matches ProvisionStep::Finished(finished) && (finished.result matches Ok(
                key,
            ) && key.secure_key_wrapper == decoded.secure_key_wrapper && key.leaf_certificate
                == decoded.leaf_certificate && key.remaining_chain == decoded.remaining_chain)
                && finished.release == Some(opened.response_key),
        }),
{
}

/// Every provisioning begins with the key of the device, under its name and with its parameters.
pub proof fn law_beginning(
    step: ProvisionStep,
    parameters: ProvisionParameters,
    request_id: Seq<char>,
)
    ensures
        begins(step, parameters, request_id) ==> (step matches ProvisionStep::ObtainIdentity(begun)
            && begun.request_id@ == request_id && begun.parameters == parameters),
{
}

} // verus!
