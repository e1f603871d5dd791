//! What is asked of the keystore, and what its answers come to.

use vstd::prelude::*;
use vstd::slice::slice_to_vec;
use vstd::utf8::encode_utf8;

use crate::keys::{
    app_key_descriptor, certificate_chain_from_metadata, certificates_in, device_identity_params,
    fallback_device_serial, identity_params, key_param, names_app_key, params_view,
    response_key_params, response_params, serial_reads_plainly, serial_text, Digest,
    KeyDescriptor, KeyMetadata, KeyParameter, KeyParameterValue, KeyPurpose, ResponseIdentity,
    SystemProperties, Tag, ValueModel, NO_CERTIFICATE, SERIAL_EMPTY,
};
use crate::text::{join2, trimmed, utf8_lossy};
use crate::types::{is_service_error, service_error, ServiceError, ERROR_SERVER_REQUEST};

verus! {

pub const RESPONSE_KEY_ALIAS_PREFIX: &'static str = "mystic_response_";

pub const DEVICE_IDENTITY_TRUSTED_ALIAS: &'static str = "mystic_device_identity_v2";

pub const DEVICE_IDENTITY_FALLBACK_ALIAS: &'static str = "mystic_device_identity_fallback_v2";

pub const KEY_ENTROPY: &'static str = "MysticAttestation";

pub const CONNECT_FAILED: &'static str = "keystore connect failed: ";

pub const LEVEL_FAILED: &'static str = "keystore security level failed: ";

pub const AGREEMENT_CREATE_FAILED: &'static str = "response key operation failed: ";

pub const AGREEMENT_MISSING: &'static str = "response key operation missing";

pub const AGREEMENT_FAILED: &'static str = "response key agreement failed: ";

pub const AGREEMENT_EMPTY: &'static str = "response key agreement returned no secret";

pub const DIGEST_LENGTH_WRONG: &'static str = "device identity request digest must be 32 bytes";

pub const SIGNING_CREATE_FAILED: &'static str = "device identity signing operation failed: ";

pub const SIGNING_MISSING: &'static str = "device identity signing operation missing";

pub const SIGNING_FAILED: &'static str = "device identity signing failed: ";

pub const SIGNING_EMPTY: &'static str = "device identity signing returned no signature";

pub const RESPONSE_KEY_FAILED: &'static str = "response key generation failed: ";

pub const RESPONSE_KEY_DESCRIPTION: &'static str = "response key";

pub const IDENTITY_DESCRIPTION: &'static str = "device identity";

pub const STORED_IDENTITY_DESCRIPTION: &'static str = "stored device identity";

pub const FALLBACK_IDENTITY_DESCRIPTION: &'static str = "fallback device identity";

pub const FALLBACK_GENERATION_FAILED: &'static str = "fallback device identity generation failed: ";

/// The length of the digest that the device identity signs.
pub const REQUEST_DIGEST_BYTES: usize = 32;

/// An operation with a key, finished in one go with this input.
#[derive(Debug)]
pub struct KeyOperation {
    pub params: Vec<KeyParameter>,
    pub forced: bool,
    pub input: Vec<u8>,
}

/// What an operation with a key came to. The texts are those of the keystore.
#[derive(Debug)]
pub enum KeyOperationOutcome {
    ConnectFailed(String),
    LevelFailed(String),
    CreateFailed(String),
    Missing,
    FinishFailed(String),
    NoOutput,
    Output(Vec<u8>),
}

/// The messages that the failures of an operation are reported with.
pub ghost struct OperationMessages {
    pub create_failed: Seq<char>,
    pub missing: Seq<char>,
    pub finish_failed: Seq<char>,
    pub no_output: Seq<char>,
}

/// The output of an operation, or what its failure is reported as.
pub open spec fn operation_result(
    outcome: KeyOperationOutcome,
    messages: OperationMessages,
) -> Result<Seq<u8>, Seq<char>> {
    match outcome {
        KeyOperationOutcome::ConnectFailed(reason) => Err(CONNECT_FAILED@ + reason@),
        KeyOperationOutcome::LevelFailed(reason) => Err(LEVEL_FAILED@ + reason@),
        KeyOperationOutcome::CreateFailed(reason) => Err(messages.create_failed + reason@),
        KeyOperationOutcome::Missing => Err(messages.missing),
        KeyOperationOutcome::FinishFailed(reason) => Err(messages.finish_failed + reason@),
        KeyOperationOutcome::NoOutput => Err(messages.no_output),
        KeyOperationOutcome::Output(output) => Ok(output@),
    }
}

/// The output of an operation, or what its failure is reported as.
fn operation_output(
    outcome: KeyOperationOutcome,
    create_failed: &str,
    missing: &str,
    finish_failed: &str,
    no_output: &str,
) -> (output: Result<Vec<u8>, String>)
    ensures
        match operation_result(
            outcome,
            (OperationMessages {
                create_failed: create_failed@,
                missing: missing@,
                finish_failed: finish_failed@,
                no_output: no_output@,
            }),
        ) {
            Ok(bytes) => output matches Ok(result) && result@ == bytes,
            Err(message) => output matches Err(error) && error@ == message,
        },
{
    match outcome {
        KeyOperationOutcome::ConnectFailed(reason) => Err(join2(CONNECT_FAILED, reason.as_str())),
        KeyOperationOutcome::LevelFailed(reason) => Err(join2(LEVEL_FAILED, reason.as_str())),
        KeyOperationOutcome::CreateFailed(reason) => Err(join2(create_failed, reason.as_str())),
        KeyOperationOutcome::Missing => Err(missing.to_owned()),
        KeyOperationOutcome::FinishFailed(reason) => Err(join2(finish_failed, reason.as_str())),
        KeyOperationOutcome::NoOutput => Err(no_output.to_owned()),
        KeyOperationOutcome::Output(bytes) => Ok(bytes),
    }
}

/// The messages of a failed key agreement.
pub open spec fn agreement_messages() -> OperationMessages {
    OperationMessages {
        create_failed: AGREEMENT_CREATE_FAILED@,
        missing: AGREEMENT_MISSING@,
        finish_failed: AGREEMENT_FAILED@,
        no_output: AGREEMENT_EMPTY@,
    }
}

/// The messages of a failed signature.
pub open spec fn signing_messages() -> OperationMessages {
    OperationMessages {
        create_failed: SIGNING_CREATE_FAILED@,
        missing: SIGNING_MISSING@,
        finish_failed: SIGNING_FAILED@,
        no_output: SIGNING_EMPTY@,
    }
}

/// The agreement of the response key with the public key of a peer.
pub fn agreement_operation(peer_public_key: &[u8]) -> (operation: KeyOperation)
    ensures
        params_view(operation.params@) == seq![
            (Tag::Purpose, ValueModel::KeyPurpose(KeyPurpose::AgreeKey)),
        ],
        !operation.forced,
        operation.input@ == peer_public_key@,
{
    let mut params: Vec<KeyParameter> = Vec::new();
    params.push(key_param(Tag::Purpose, KeyParameterValue::KeyPurpose(KeyPurpose::AgreeKey)));
    assert(params_view(params@) =~= seq![
        (Tag::Purpose, ValueModel::KeyPurpose(KeyPurpose::AgreeKey)),
    ]);
    KeyOperation { params, forced: false, input: slice_to_vec(peer_public_key) }
}

/// The secret that the response key agreed on with a peer.
pub fn derive_keymint_secret(outcome: KeyOperationOutcome) -> (secret: Result<Vec<u8>, String>)
    ensures
        match operation_result(outcome, agreement_messages()) {
            Ok(bytes) => secret matches Ok(agreed) && agreed@ == bytes,
            Err(message) => secret matches Err(error) && error@ == message,
        },
{
    operation_output(
        outcome,
        AGREEMENT_CREATE_FAILED,
        AGREEMENT_MISSING,
        AGREEMENT_FAILED,
        AGREEMENT_EMPTY,
    )
}

/// The signature of the device identity on the digest of a request, which has to be one.
pub fn signing_operation(request_digest: &[u8]) -> (operation: Result<KeyOperation, String>)
    ensures
        request_digest@.len() != REQUEST_DIGEST_BYTES ==> (operation matches Err(message)
            && message@ == DIGEST_LENGTH_WRONG@),
        request_digest@.len() == REQUEST_DIGEST_BYTES ==> (operation matches Ok(signing)
            && params_view(signing.params@) == seq![
            (Tag::Purpose, ValueModel::KeyPurpose(KeyPurpose::Sign)),
            (Tag::Digest, ValueModel::Digest(Digest::Sha2_256)),
        ] && !signing.forced && signing.input@ == request_digest@),
{
    if request_digest.len() != REQUEST_DIGEST_BYTES {
        return Err(DIGEST_LENGTH_WRONG.to_owned());
    }
    let mut params: Vec<KeyParameter> = Vec::new();
    params.push(key_param(Tag::Purpose, KeyParameterValue::KeyPurpose(KeyPurpose::Sign)));
    params.push(key_param(Tag::Digest, KeyParameterValue::Digest(Digest::Sha2_256)));
    assert(params_view(params@) =~= seq![
        (Tag::Purpose, ValueModel::KeyPurpose(KeyPurpose::Sign)),
        (Tag::Digest, ValueModel::Digest(Digest::Sha2_256)),
    ]);
    Ok(KeyOperation { params, forced: false, input: slice_to_vec(request_digest) })
}

/// The signature that the device identity made.
pub fn sign_device_identity(outcome: KeyOperationOutcome) -> (signature: Result<Vec<u8>, String>)
    ensures
        match operation_result(outcome, signing_messages()) {
            Ok(bytes) => signature matches Ok(made) && made@ == bytes,
            Err(message) => signature matches Err(error) && error@ == message,
        },
{
    operation_output(
        outcome,
        SIGNING_CREATE_FAILED,
        SIGNING_MISSING,
        SIGNING_FAILED,
        SIGNING_EMPTY,
    )
}

/// The generation of a key in the trusted environment.
#[derive(Debug)]
pub struct KeyGeneration {
    pub descriptor: KeyDescriptor,
    pub params: Vec<KeyParameter>,
    pub flags: i32,
    pub entropy: Vec<u8>,
}

/// `generation` makes the application's key with this alias and these parameters.
pub open spec fn generates(
    generation: KeyGeneration,
    alias: Seq<char>,
    params: Seq<(Tag, ValueModel)>,
) -> bool {
    &&& names_app_key(generation.descriptor, alias)
    &&& params_view(generation.params@) == params
    &&& generation.flags == 0
    &&& generation.entropy@ == encode_utf8(KEY_ENTROPY@)
}

/// The generation of the application's key with this alias and these parameters.
fn key_generation(alias: &str, params: Vec<KeyParameter>) -> (generation: KeyGeneration)
    ensures
        generates(generation, alias@, params_view(params@)),
{
    KeyGeneration {
        descriptor: app_key_descriptor(alias),
        params,
        flags: 0,
        entropy: KEY_ENTROPY.as_bytes_vec(),
    }
}

/// A key that the reply to one request is encrypted for.
#[derive(Debug)]
pub struct ResponseKey {
    pub descriptor: KeyDescriptor,
    pub certificate_chain: Vec<Vec<u8>>,
}

/// What the generation of a response key came to. The texts are those of the keystore.
#[derive(Debug)]
pub enum KeyGenerationOutcome {
    ConnectFailed(String),
    LevelFailed(String),
    GenerationFailed(String),
    Generated(KeyMetadata),
}

/// The generation of the response key of a request. The key attests nothing of the device.
pub fn response_key_generation(request_id: &str) -> (generation: KeyGeneration)
    ensures
        forall|properties: SystemProperties|
            generates(
                generation,
                RESPONSE_KEY_ALIAS_PREFIX@ + request_id@,
                #[trigger] response_params(properties, request_id@, ResponseIdentity::Omitted),
            ),
{
    let properties = SystemProperties { entries: Vec::new() };
    let params = response_key_params(&properties, request_id, ResponseIdentity::Omitted);
    let alias = join2(RESPONSE_KEY_ALIAS_PREFIX, request_id);
    key_generation(alias.as_str(), params)
}

/// The response key that was generated.
pub fn generate_response_key(outcome: KeyGenerationOutcome) -> (key: Result<
    ResponseKey,
    ServiceError,
>)
    ensures
        match outcome {
            KeyGenerationOutcome::ConnectFailed(reason) => key matches Err(error)
                && is_service_error(error, ERROR_SERVER_REQUEST, CONNECT_FAILED@ + reason@),
            KeyGenerationOutcome::LevelFailed(reason) => key matches Err(error)
                && is_service_error(error, ERROR_SERVER_REQUEST, LEVEL_FAILED@ + reason@),
            KeyGenerationOutcome::GenerationFailed(reason) => key matches Err(error)
                && is_service_error(error, ERROR_SERVER_REQUEST, RESPONSE_KEY_FAILED@ + reason@),
            KeyGenerationOutcome::Generated(metadata) => match metadata.certificate {
                None => key matches Err(error) && is_service_error(
                    error,
                    ERROR_SERVER_REQUEST,
                    RESPONSE_KEY_DESCRIPTION@ + NO_CERTIFICATE@,
                ),
                Some(own) => key matches Ok(generated) && generated.descriptor == metadata.key
                    && generated.certificate_chain@ == certificates_in(
                    own,
                    metadata.certificate_chain,
                ),
            },
        },
{
    match outcome {
        KeyGenerationOutcome::ConnectFailed(reason) => Err(
            request_error(CONNECT_FAILED, reason.as_str()),
        ),
        KeyGenerationOutcome::LevelFailed(reason) => Err(
            request_error(LEVEL_FAILED, reason.as_str()),
        ),
        KeyGenerationOutcome::GenerationFailed(reason) => Err(
            request_error(RESPONSE_KEY_FAILED, reason.as_str()),
        ),
        KeyGenerationOutcome::Generated(metadata) => {
            match certificate_chain_from_metadata(
                metadata.certificate,
                metadata.certificate_chain,
                RESPONSE_KEY_DESCRIPTION,
            ) {
                Ok(certificate_chain) => Ok(
                    ResponseKey { descriptor: metadata.key, certificate_chain },
                ),
                Err(error) => Err(error),
            }
        },
    }
}

/// A failure of the keystore: what failed, and the keystore's own text.
fn request_error(prefix: &str, reason: &str) -> (error: ServiceError)
    ensures
        is_service_error(error, ERROR_SERVER_REQUEST, prefix@ + reason@),
{
    let message = join2(prefix, reason);
    service_error(ERROR_SERVER_REQUEST, message.as_str())
}

/// The key that stands for the device, and the serial number that goes with it where the key does
/// not attest one.
#[derive(Debug)]
pub struct DeviceIdentityKey {
    pub descriptor: KeyDescriptor,
    pub certificate_chain: Vec<Vec<u8>>,
    pub untrusted_device_serial: String,
}

/// The two keys that can stand for the device.
#[derive(Debug, Clone, Copy, PartialEq, Eq, Structural)]
pub enum IdentityAlias {
    Trusted,
    Fallback,
}

/// The attempts at generating a key that stands for the device. The last one holds the serial
/// number that goes with the key.
#[derive(Debug)]
pub enum GenerationStage {
    Full,
    Serial,
    Fallback(String),
}

/// The failed attempts after which the trusted key is deleted.
#[derive(Debug, Clone, Copy, PartialEq, Eq, Structural)]
pub enum DiscardStage {
    Full,
    Serial,
}

/// What is done next for a device identity.
#[derive(Debug)]
pub enum IdentityStep {
    Lookup { alias: IdentityAlias, descriptor: KeyDescriptor },
    OpenLevel,
    Generate { stage: GenerationStage, generation: KeyGeneration },
    Delete { after: DiscardStage, descriptor: KeyDescriptor },
    Finished(Result<DeviceIdentityKey, ServiceError>),
}

/// What looking up a key came to. The text is that of the keystore.
#[derive(Debug)]
pub enum LookupOutcome {
    ConnectFailed(String),
    NotFound,
    Found(KeyMetadata),
}

/// What opening the trusted environment came to. The texts are those of the keystore.
#[derive(Debug)]
pub enum OpenOutcome {
    ConnectFailed(String),
    LevelFailed(String),
    Opened,
}

/// `step` ends with this failure.
pub open spec fn fails(step: IdentityStep, message: Seq<char>) -> bool {
    step matches IdentityStep::Finished(Err(error)) && is_service_error(
        error,
        ERROR_SERVER_REQUEST,
        message,
    )
}

/// `step` ends with the key that `metadata` describes, unless that has no certificate.
pub open spec fn yields_identity(
    step: IdentityStep,
    metadata: KeyMetadata,
    description: Seq<char>,
    serial: Seq<char>,
) -> bool {
    match metadata.certificate {
        None => fails(step, description + NO_CERTIFICATE@),
        Some(own) => {
            &&& step matches IdentityStep::Finished(Ok(identity))
            &&& identity.descriptor == metadata.key
            &&& identity.certificate_chain@ == certificates_in(own, metadata.certificate_chain)
            &&& identity.untrusted_device_serial@ == serial
        },
    }
}

/// `step` looks up this key.
pub open spec fn looks_up(step: IdentityStep, wanted: IdentityAlias) -> bool {
    &&& step matches IdentityStep::Lookup { alias, descriptor }
    &&& alias == wanted
    &&& names_app_key(
        descriptor,
        match wanted {
            IdentityAlias::Trusted => DEVICE_IDENTITY_TRUSTED_ALIAS@,
            IdentityAlias::Fallback => DEVICE_IDENTITY_FALLBACK_ALIAS@,
        },
    )
}

/// `step` generates the trusted key with all attested properties.
pub open spec fn generates_full(step: IdentityStep, properties: SystemProperties) -> bool {
    &&& step matches IdentityStep::Generate { stage, generation }
    &&& stage is Full
    &&& generates(
        generation,
        DEVICE_IDENTITY_TRUSTED_ALIAS@,
        identity_params(properties, ResponseIdentity::Full),
    )
}

/// `step` generates the trusted key with the serial number attested.
pub open spec fn generates_serial(step: IdentityStep, properties: SystemProperties) -> bool {
    &&& step matches IdentityStep::Generate { stage, generation }
    &&& stage is Serial
    &&& generates(
        generation,
        DEVICE_IDENTITY_TRUSTED_ALIAS@,
        identity_params(properties, ResponseIdentity::Serial),
    )
}

/// `step` generates the fallback key, which attests nothing of the device, or fails if the serial
/// number that has to go with it is not known.
pub open spec fn generates_fallback(step: IdentityStep, properties: SystemProperties) -> bool {
    if serial_text(properties).len() == 0 {
        fails(step, SERIAL_EMPTY@)
    } else {
        &&& step matches IdentityStep::Generate { stage, generation }
        &&& stage matches GenerationStage::Fallback(serial)
        &&& serial@ == serial_text(properties)
        &&& generates(
            generation,
            DEVICE_IDENTITY_FALLBACK_ALIAS@,
            identity_params(properties, ResponseIdentity::Omitted),
        )
    }
}

/// `step` deletes the trusted key after this failed attempt.
pub open spec fn discards(step: IdentityStep, after: DiscardStage) -> bool {
    &&& step matches IdentityStep::Delete { after: discarded, descriptor }
    &&& discarded == after
    &&& names_app_key(descriptor, DEVICE_IDENTITY_TRUSTED_ALIAS@)
}

/// `step` follows looking up a key.
pub open spec fn follows_lookup(
    step: IdentityStep,
    alias: IdentityAlias,
    outcome: LookupOutcome,
    properties: SystemProperties,
) -> bool {
    match outcome {
        LookupOutcome::ConnectFailed(reason) => fails(step, CONNECT_FAILED@ + reason@),
        LookupOutcome::NotFound => match alias {
            IdentityAlias::Trusted => looks_up(step, IdentityAlias::Fallback),
            IdentityAlias::Fallback => step is OpenLevel,
        },
        LookupOutcome::Found(metadata) => match alias {
            IdentityAlias::Trusted => yields_identity(
                step,
                metadata,
                STORED_IDENTITY_DESCRIPTION@,
                Seq::empty(),
            ),
            IdentityAlias::Fallback => if metadata.certificate is Some && serial_text(
                properties,
            ).len() == 0 {
                fails(step, SERIAL_EMPTY@)
            } else {
                yields_identity(
                    step,
                    metadata,
                    STORED_IDENTITY_DESCRIPTION@,
                    serial_text(properties),
                )
            },
        },
    }
}

/// `step` follows opening the trusted environment.
pub open spec fn follows_opening(
    step: IdentityStep,
    outcome: OpenOutcome,
    properties: SystemProperties,
) -> bool {
    match outcome {
        OpenOutcome::ConnectFailed(reason) => fails(step, CONNECT_FAILED@ + reason@),
        OpenOutcome::LevelFailed(reason) => fails(step, LEVEL_FAILED@ + reason@),
        OpenOutcome::Opened => generates_full(step, properties),
    }
}

/// `step` follows generating a key.
pub open spec fn follows_generation(
    step: IdentityStep,
    stage: GenerationStage,
    outcome: Result<KeyMetadata, String>,
) -> bool {
    match (stage, outcome) {
        (GenerationStage::Full, Ok(metadata)) => yields_identity(
            step,
            metadata,
            IDENTITY_DESCRIPTION@,
            Seq::empty(),
        ),
        (GenerationStage::Full, Err(_)) => discards(step, DiscardStage::Full),
        (GenerationStage::Serial, Ok(metadata)) => yields_identity(
            step,
            metadata,
            IDENTITY_DESCRIPTION@,
            Seq::empty(),
        ),
        (GenerationStage::Serial, Err(_)) => discards(step, DiscardStage::Serial),
        (GenerationStage::Fallback(serial), Ok(metadata)) => yields_identity(
            step,
            metadata,
            FALLBACK_IDENTITY_DESCRIPTION@,
            serial@,
        ),
        (GenerationStage::Fallback(_), Err(reason)) => fails(
            step,
            FALLBACK_GENERATION_FAILED@ + reason@,
        ),
    }
}

/// `step` follows deleting the trusted key.
pub open spec fn follows_deletion(
    step: IdentityStep,
    stage: DiscardStage,
    properties: SystemProperties,
) -> bool {
    match stage {
        DiscardStage::Full => generates_serial(step, properties),
        DiscardStage::Serial => generates_fallback(step, properties),
    }
}

/// Begins to load the key that stands for the device, or to generate one: a stored key is
/// preferred to a new one, and the trusted key to the fallback.
pub fn load_or_generate_device_identity() -> (step: IdentityStep)
    ensures
        looks_up(step, IdentityAlias::Trusted),
{
    IdentityStep::Lookup {
        alias: IdentityAlias::Trusted,
        descriptor: app_key_descriptor(DEVICE_IDENTITY_TRUSTED_ALIAS),
    }
}

/// The step that ends with the key that `metadata` describes.
fn identity_step(metadata: KeyMetadata, description: &str, serial: String) -> (step: IdentityStep)
    ensures
        yields_identity(step, metadata, description@, serial@),
{
    match certificate_chain_from_metadata(
        metadata.certificate,
        metadata.certificate_chain,
        description,
    ) {
        Ok(certificate_chain) => IdentityStep::Finished(
            Ok(
                DeviceIdentityKey {
                    descriptor: metadata.key,
                    certificate_chain,
                    untrusted_device_serial: serial,
                },
            ),
        ),
        Err(error) => IdentityStep::Finished(Err(error)),
    }
}

/// Goes on after looking up a stored key. A key that cannot be found is no failure.
pub fn load_device_identity(
    alias: IdentityAlias,
    outcome: LookupOutcome,
    properties: &SystemProperties,
) -> (step: IdentityStep)
    ensures
        follows_lookup(step, alias, outcome, *properties),
        alias == IdentityAlias::Fallback && (outcome matches LookupOutcome::Found(metadata)
            && metadata.certificate is Some) ==> serial_reads_plainly(*properties),
{
    let metadata = match outcome {
        LookupOutcome::ConnectFailed(reason) => {
            return IdentityStep::Finished(Err(request_error(CONNECT_FAILED, reason.as_str())));
        },
        LookupOutcome::NotFound => {
            return match alias {
                IdentityAlias::Trusted => IdentityStep::Lookup {
                    alias: IdentityAlias::Fallback,
                    descriptor: app_key_descriptor(DEVICE_IDENTITY_FALLBACK_ALIAS),
                },
                IdentityAlias::Fallback => IdentityStep::OpenLevel,
            };
        },
        LookupOutcome::Found(metadata) => metadata,
    };
    let serial = if metadata.certificate.is_some() && alias == IdentityAlias::Fallback {
        match fallback_device_serial(properties) {
            Ok(serial) => serial,
            Err(error) => return IdentityStep::Finished(Err(error)),
        }
    } else {
        String::new()
    };
    proof {
        assert(alias == IdentityAlias::Trusted ==> serial@ =~= Seq::<char>::empty());
    }
    identity_step(metadata, STORED_IDENTITY_DESCRIPTION, serial)
}

/// Goes on after opening the trusted environment.
pub fn identity_level_opened(outcome: OpenOutcome, properties: &SystemProperties) -> (step:
    IdentityStep)
    ensures
        follows_opening(step, outcome, *properties),
{
    match outcome {
        OpenOutcome::ConnectFailed(reason) => IdentityStep::Finished(
            Err(request_error(CONNECT_FAILED, reason.as_str())),
        ),
        OpenOutcome::LevelFailed(reason) => IdentityStep::Finished(
            Err(request_error(LEVEL_FAILED, reason.as_str())),
        ),
        OpenOutcome::Opened => IdentityStep::Generate {
            stage: GenerationStage::Full,
            generation: key_generation(
                DEVICE_IDENTITY_TRUSTED_ALIAS,
                device_identity_params(properties, ResponseIdentity::Full),
            ),
        },
    }
}

/// Goes on after an attempt at generating a key. `outcome` is what the keystore says of the key, or
/// of the failure.
pub fn identity_generated(stage: GenerationStage, outcome: Result<KeyMetadata, String>) -> (step:
    IdentityStep)
    ensures
        follows_generation(step, stage, outcome),
{
    match (stage, outcome) {
        (GenerationStage::Fallback(serial), Ok(metadata)) => identity_step(
            metadata,
            FALLBACK_IDENTITY_DESCRIPTION,
            serial,
        ),
        (GenerationStage::Fallback(_), Err(reason)) => IdentityStep::Finished(
            Err(request_error(FALLBACK_GENERATION_FAILED, reason.as_str())),
        ),
        (_, Ok(metadata)) => {
            let none = String::new();
            assert(none@ =~= Seq::<char>::empty());
            identity_step(metadata, IDENTITY_DESCRIPTION, none)
        },
        (GenerationStage::Full, Err(_)) => IdentityStep::Delete {
            after: DiscardStage::Full,
            descriptor: app_key_descriptor(DEVICE_IDENTITY_TRUSTED_ALIAS),
        },
        (GenerationStage::Serial, Err(_)) => IdentityStep::Delete {
            after: DiscardStage::Serial,
            descriptor: app_key_descriptor(DEVICE_IDENTITY_TRUSTED_ALIAS),
        },
    }
}

/// Begins to generate the fallback key, for which the serial number of the device has to be known.
pub fn generate_fallback_device_identity(properties: &SystemProperties) -> (step: IdentityStep)
    ensures
        generates_fallback(step, *properties),
        serial_reads_plainly(*properties),
{
    match fallback_device_serial(properties) {
        Ok(serial) => IdentityStep::Generate {
            stage: GenerationStage::Fallback(serial),
            generation: key_generation(
                DEVICE_IDENTITY_FALLBACK_ALIAS,
                device_identity_params(properties, ResponseIdentity::Omitted),
            ),
        },
        Err(error) => IdentityStep::Finished(Err(error)),
    }
}

/// Goes on after deleting the trusted key, whether or not there was one to delete.
pub fn identity_discarded(stage: DiscardStage, properties: &SystemProperties) -> (step:
    IdentityStep)
    ensures
        follows_deletion(step, stage, *properties),
        stage == DiscardStage::Serial ==> serial_reads_plainly(*properties),
{
    match stage {
        DiscardStage::Full => IdentityStep::Generate {
            stage: GenerationStage::Serial,
            generation: key_generation(
                DEVICE_IDENTITY_TRUSTED_ALIAS,
                device_identity_params(properties, ResponseIdentity::Serial),
            ),
        },
        DiscardStage::Serial => generate_fallback_device_identity(properties),
    }
}

/// `next` follows `step` for some answer of the keystore.
pub open spec fn identity_follows(
    step: IdentityStep,
    next: IdentityStep,
    properties: SystemProperties,
) -> bool {
    match step {
        IdentityStep::Lookup { alias, .. } => exists|outcome: LookupOutcome| #[trigger]
            follows_lookup(next, alias, outcome, properties),
        IdentityStep::OpenLevel => exists|outcome: OpenOutcome| #[trigger]
            follows_opening(next, outcome, properties),
        IdentityStep::Generate { stage, .. } => exists|outcome: Result<KeyMetadata, String>|
         #[trigger]
            follows_generation(next, stage, outcome),
        IdentityStep::Delete { after, .. } => follows_deletion(next, after, properties),
        IdentityStep::Finished(_) => false,
    }
}

/// The steps from the beginning up to some point, for some answers of the keystore.
pub open spec fn is_identity_run(steps: Seq<IdentityStep>, properties: SystemProperties) -> bool {
    &&& steps.len() > 0
    &&& looks_up(steps[0], IdentityAlias::Trusted)
    &&& forall|i: int|
        0 <= i < steps.len() - 1 ==> identity_follows(#[trigger] steps[i], steps[i + 1], properties)
}

/// Which step of a run this is, if it is not the last one.
pub open spec fn place_in_run(step: IdentityStep) -> int {
    match step {
        IdentityStep::Lookup { alias: IdentityAlias::Trusted, .. } => 0,
        IdentityStep::Lookup { alias: IdentityAlias::Fallback, .. } => 1,
        IdentityStep::OpenLevel => 2,
        IdentityStep::Generate { stage: GenerationStage::Full, .. } => 3,
        IdentityStep::Delete { after: DiscardStage::Full, .. } => 4,
        IdentityStep::Generate { stage: GenerationStage::Serial, .. } => 5,
        IdentityStep::Delete { after: DiscardStage::Serial, .. } => 6,
        IdentityStep::Generate { stage: GenerationStage::Fallback(_), .. } => 7,
        IdentityStep::Finished(_) => 8,
    }
}

/// A step that does what its place in a run calls for.
pub open spec fn suits_its_place(step: IdentityStep, properties: SystemProperties) -> bool {
    match step {
        IdentityStep::Lookup { alias, .. } => looks_up(step, alias),
        IdentityStep::OpenLevel => true,
        IdentityStep::Generate { stage: GenerationStage::Full, .. } => generates_full(
            step,
            properties,
        ),
        IdentityStep::Generate { stage: GenerationStage::Serial, .. } => generates_serial(
            step,
            properties,
        ),
        IdentityStep::Generate { stage: GenerationStage::Fallback(_), .. } => generates_fallback(
            step,
            properties,
        ),
        IdentityStep::Delete { after, .. } => discards(step, after),
        IdentityStep::Finished(_) => true,
    }
}

/// The steps of a run come in one order, of which only the end can be missing: the stored keys are
/// looked up first, the trusted one before the fallback; then the trusted key is generated with
/// all properties and, that key being discarded, with the serial number alone; then, that key
/// being discarded as well, the fallback key is generated. So no key is generated where one is
/// stored, only the trusted key is ever deleted, and a run is over after nine steps.
pub proof fn law_identity_run_order(
    steps: Seq<IdentityStep>,
    properties: SystemProperties,
    i: int,
)
    requires
        is_identity_run(steps, properties),
        0 <= i < steps.len(),
    ensures
        steps[i] is Finished ==> i == steps.len() - 1,
        !(steps[i] is Finished) ==> place_in_run(steps[i]) == i,
        suits_its_place(steps[i], properties),
        steps.len() <= 9,
{
    lemma_step_place(steps, properties, i);
    if steps[i] is Finished && i < steps.len() - 1 {
        assert(identity_follows(steps[i], steps[i + 1], properties));
    }
    if steps.len() > 9 {
        lemma_step_place(steps, properties, 8);
        assert(identity_follows(steps[8], steps[9], properties));
    }
}

proof fn lemma_step_place(steps: Seq<IdentityStep>, properties: SystemProperties, i: int)
    requires
        is_identity_run(steps, properties),
        0 <= i < steps.len(),
    ensures
        !(steps[i] is Finished) ==> place_in_run(steps[i]) == i,
        suits_its_place(steps[i], properties),
    decreases i,
{
    if i > 0 {
        lemma_step_place(steps, properties, i - 1);
        assert(identity_follows(steps[i - 1], steps[(i - 1) + 1], properties));
    }
}

/// The key that a step looks up or generates is the fallback key.
pub open spec fn concerns_fallback(step: IdentityStep) -> bool {
    match step {
        IdentityStep::Lookup { alias, .. } => alias == IdentityAlias::Fallback,
        IdentityStep::Generate { stage, .. } => stage is Fallback,
        _ => false,
    }
}

/// A serial number accompanies the fallback key, and only that: it is the device's own and is not
/// empty. The trusted key comes without one.
pub proof fn law_serial_accompanies_fallback(
    steps: Seq<IdentityStep>,
    properties: SystemProperties,
)
    requires
        is_identity_run(steps, properties),
        steps.last() matches IdentityStep::Finished(Ok(_)),
    ensures
        steps.len() >= 2,
        concerns_fallback(steps[steps.len() - 2]) ==> {
            &&& steps.last()->Finished_0->Ok_0.untrusted_device_serial@ == serial_text(properties)
            &&& serial_text(properties).len() > 0
        },
        !concerns_fallback(steps[steps.len() - 2])
            ==> steps.last()->Finished_0->Ok_0.untrusted_device_serial@.len() == 0,
{
    if steps.len() >= 2 {
        let before = steps.len() - 2;
        lemma_step_place(steps, properties, before);
        assert(identity_follows(steps[before], steps[before + 1], properties));
    }
}

/// The library's own keys have aliases of their own: that of a response key is never that of a
/// device identity, and different requests have different response keys.
pub proof fn law_aliases_are_told_apart(first: Seq<char>, second: Seq<char>)
    ensures
        RESPONSE_KEY_ALIAS_PREFIX@ + first != DEVICE_IDENTITY_TRUSTED_ALIAS@,
        RESPONSE_KEY_ALIAS_PREFIX@ + first != DEVICE_IDENTITY_FALLBACK_ALIAS@,
        DEVICE_IDENTITY_TRUSTED_ALIAS@ != DEVICE_IDENTITY_FALLBACK_ALIAS@,
        RESPONSE_KEY_ALIAS_PREFIX@ + first == RESPONSE_KEY_ALIAS_PREFIX@ + second ==> first
            == second,
{
    let prefix = RESPONSE_KEY_ALIAS_PREFIX@;
    reveal_strlit("mystic_response_");
    reveal_strlit("mystic_device_identity_v2");
    reveal_strlit("mystic_device_identity_fallback_v2");
    assert((prefix + first)[7] == 'r');
    assert(DEVICE_IDENTITY_TRUSTED_ALIAS@[7] == 'd');
    assert(DEVICE_IDENTITY_FALLBACK_ALIAS@[7] == 'd');
    assert(DEVICE_IDENTITY_TRUSTED_ALIAS@[23] == 'v');
    assert(DEVICE_IDENTITY_FALLBACK_ALIAS@[23] == 'f');
    assert((prefix + first).skip(prefix.len() as int) =~= first);
    assert((prefix + second).skip(prefix.len() as int) =~= second);
}

/// What an operation with a key came to, word by word: its output as it is, or where it failed and
/// the keystore's own text.
pub proof fn law_operation_results(output: Vec<u8>, reason: String)
    ensures
        operation_result(KeyOperationOutcome::Output(output), agreement_messages()) == Ok::<
            Seq<u8>,
            Seq<char>,
        >(output@),
        operation_result(KeyOperationOutcome::Output(output), signing_messages()) == Ok::<
            Seq<u8>,
            Seq<char>,
        >(output@),
        operation_result(KeyOperationOutcome::ConnectFailed(reason), agreement_messages()) == Err::<
            Seq<u8>,
            Seq<char>,
        >("keystore connect failed: "@ + reason@),
        operation_result(KeyOperationOutcome::ConnectFailed(reason), signing_messages()) == Err::<
            Seq<u8>,
            Seq<char>,
        >("keystore connect failed: "@ + reason@),
        operation_result(KeyOperationOutcome::LevelFailed(reason), agreement_messages()) == Err::<
            Seq<u8>,
            Seq<char>,
        >("keystore security level failed: "@ + reason@),
        operation_result(KeyOperationOutcome::LevelFailed(reason), signing_messages()) == Err::<
            Seq<u8>,
            Seq<char>,
        >("keystore security level failed: "@ + reason@),
        operation_result(KeyOperationOutcome::CreateFailed(reason), agreement_messages()) == Err::<
            Seq<u8>,
            Seq<char>,
        >("response key operation failed: "@ + reason@),
        operation_result(KeyOperationOutcome::CreateFailed(reason), signing_messages()) == Err::<
            Seq<u8>,
            Seq<char>,
        >("device identity signing operation failed: "@ + reason@),
        operation_result(KeyOperationOutcome::Missing, agreement_messages()) == Err::<
            Seq<u8>,
            Seq<char>,
        >("response key operation missing"@),
        operation_result(KeyOperationOutcome::Missing, signing_messages()) == Err::<
            Seq<u8>,
            Seq<char>,
        >("device identity signing operation missing"@),
        operation_result(KeyOperationOutcome::FinishFailed(reason), agreement_messages()) == Err::<
            Seq<u8>,
            Seq<char>,
        >("response key agreement failed: "@ + reason@),
        operation_result(KeyOperationOutcome::FinishFailed(reason), signing_messages()) == Err::<
            Seq<u8>,
            Seq<char>,
        >("device identity signing failed: "@ + reason@),
        operation_result(KeyOperationOutcome::NoOutput, agreement_messages()) == Err::<
            Seq<u8>,
            Seq<char>,
        >("response key agreement returned no secret"@),
        operation_result(KeyOperationOutcome::NoOutput, signing_messages()) == Err::<
            Seq<u8>,
            Seq<char>,
        >("device identity signing returned no signature"@),
{
}

/// A generation has a name for the key, the parameters, no flags, and a fixed entropy.
pub proof fn law_generation(
    generation: KeyGeneration,
    alias: Seq<char>,
    params: Seq<(Tag, ValueModel)>,
)
    ensures
        generates(generation, alias, params) <==> {
            &&& names_app_key(generation.descriptor, alias)
            &&& params_view(generation.params@) == params
            &&& generation.flags == 0
            &&& generation.entropy@ == encode_utf8("MysticAttestation"@)
        },
{
}

/// What follows looking up a stored key: the stored key if there is one, with the serial number
/// for the fallback key; the fallback after the trusted key, and a new key after the fallback.
pub proof fn law_after_lookup(
    step: IdentityStep,
    alias: IdentityAlias,
    properties: SystemProperties,
    metadata: KeyMetadata,
    reason: String,
)
    ensures
        follows_lookup(step, alias, LookupOutcome::ConnectFailed(reason), properties) ==> (
            step matches IdentityStep::Finished(Err(error)) && error.code == -2
                && error.message@ == "keystore connect failed: "@ + reason@),
        follows_lookup(step, IdentityAlias::Trusted, LookupOutcome::NotFound, properties) ==> (
            step matches IdentityStep::Lookup { alias: IdentityAlias::Fallback, descriptor }
                && names_app_key(descriptor, "mystic_device_identity_fallback_v2"@)),
        follows_lookup(step, IdentityAlias::Fallback, LookupOutcome::NotFound, properties) ==> step
            is OpenLevel,
        follows_lookup(step, IdentityAlias::Trusted, LookupOutcome::Found(metadata), properties)
            ==> match metadata.certificate {
                None => step matches IdentityStep::Finished(Err(error)) && error.code == -2
                    && error.message@ == "stored device identity"@ + " returned no certificate"@,
                Some(own) => step matches IdentityStep::Finished(Ok(identity))
                    && identity.descriptor == metadata.key
                    && identity.certificate_chain@ == (if metadata.certificate_chain is Some
                    && metadata.certificate_chain->0@.len() > 0 {
                    seq![own, metadata.certificate_chain->0]
                } else {
                    seq![own]
                }) && identity.untrusted_device_serial@ == Seq::<char>::empty(),
            },
        follows_lookup(step, IdentityAlias::Fallback, LookupOutcome::Found(metadata), properties)
            && (metadata.certificate is None
            || trimmed(utf8_lossy(properties.property("ro.serialno"@))).len() > 0)
            ==> match metadata.certificate {
                None => step matches IdentityStep::Finished(Err(error)) && error.code == -2
                    && error.message@ == "stored device identity"@ + " returned no certificate"@,
                Some(own) => step matches IdentityStep::Finished(Ok(identity))
                    && identity.descriptor == metadata.key
                    && identity.certificate_chain@ == (if metadata.certificate_chain is Some
                    && metadata.certificate_chain->0@.len() > 0 {
                    seq![own, metadata.certificate_chain->0]
                } else {
                    seq![own]
                }) && identity.untrusted_device_serial@
                    == trimmed(utf8_lossy(properties.property("ro.serialno"@))),
            },
        follows_lookup(step, IdentityAlias::Fallback, LookupOutcome::Found(metadata), properties)
            && metadata.certificate is Some
            && trimmed(utf8_lossy(properties.property("ro.serialno"@))).len() == 0
            ==> (step matches IdentityStep::Finished(Err(error)) && error.code == -2
                && error.message@ == "hardware serial attestation failed and ro.serialno is empty"@),
        looks_up(step, IdentityAlias::Trusted) ==> (step matches IdentityStep::Lookup {
            alias: IdentityAlias::Trusted,
            descriptor,
        } && names_app_key(descriptor, "mystic_device_identity_v2"@)),
{
}

/// What follows opening the trusted environment: the trusted key, with all that can be attested.
pub proof fn law_after_opening(
    step: IdentityStep,
    properties: SystemProperties,
    reason: String,
)
    ensures
        follows_opening(step, OpenOutcome::ConnectFailed(reason), properties) ==> (
            step matches IdentityStep::Finished(Err(error)) && error.code == -2
                && error.message@ == "keystore connect failed: "@ + reason@),
        follows_opening(step, OpenOutcome::LevelFailed(reason), properties) ==> (
            step matches IdentityStep::Finished(Err(error)) && error.code == -2
                && error.message@ == "keystore security level failed: "@ + reason@),
        follows_opening(step, OpenOutcome::Opened, properties) ==> (
            step matches IdentityStep::Generate { stage: GenerationStage::Full, generation }
                && generates(
                generation,
                "mystic_device_identity_v2"@,
                identity_params(properties, ResponseIdentity::Full),
            )),
{
}

/// What follows an attempt at a key: the key; or, after a failure, the deletion of the trusted key,
/// and after the last attempt the failure.
pub proof fn law_after_generation(
    step: IdentityStep,
    metadata: KeyMetadata,
    reason: String,
    serial: String,
)
    ensures
        follows_generation(step, GenerationStage::Full, Ok(metadata)) || follows_generation(
            step,
            GenerationStage::Serial,
            Ok(metadata),
        ) ==> match metadata.certificate {
                None => step matches IdentityStep::Finished(Err(error)) && error.code == -2
                    && error.message@ == "device identity"@ + " returned no certificate"@,
                Some(own) => step matches IdentityStep::Finished(Ok(identity))
                    && identity.descriptor == metadata.key
                    && identity.certificate_chain@ == (if metadata.certificate_chain is Some
                    && metadata.certificate_chain->0@.len() > 0 {
                    seq![own, metadata.certificate_chain->0]
                } else {
                    seq![own]
                }) && identity.untrusted_device_serial@ == Seq::<char>::empty(),
            },
        follows_generation(step, GenerationStage::Fallback(serial), Ok(metadata))
            ==> match metadata.certificate {
                None => step matches IdentityStep::Finished(Err(error)) && error.code == -2
                    && error.message@ == "fallback device identity"@ + " returned no certificate"@,
                Some(own) => step matches IdentityStep::Finished(Ok(identity))
                    && identity.descriptor == metadata.key
                    && identity.certificate_chain@ == (if metadata.certificate_chain is Some
                    && metadata.certificate_chain->0@.len() > 0 {
                    seq![own, metadata.certificate_chain->0]
                } else {
                    seq![own]
                }) && identity.untrusted_device_serial@ == serial@,
            },
        follows_generation(step, GenerationStage::Full, Err(reason)) ==> (
            step matches IdentityStep::Delete { after: DiscardStage::Full, descriptor }
                && names_app_key(descriptor, "mystic_device_identity_v2"@)),
        follows_generation(step, GenerationStage::Serial, Err(reason)) ==> (
            step matches IdentityStep::Delete { after: DiscardStage::Serial, descriptor }
                && names_app_key(descriptor, "mystic_device_identity_v2"@)),
        follows_generation(step, GenerationStage::Fallback(serial), Err(reason)) ==> (
            step matches IdentityStep::Finished(Err(error)) && error.code == -2
                && error.message@ == "fallback device identity generation failed: "@ + reason@),
{
}

/// What follows deleting the trusted key: that key with the serial number alone; and after that the
/// fallback key, which attests nothing, with the serial number beside it, unless that is empty.
pub proof fn law_after_deletion(step: IdentityStep, properties: SystemProperties)
    ensures
        follows_deletion(step, DiscardStage::Full, properties) ==> (
            step matches IdentityStep::Generate { stage: GenerationStage::Serial, generation }
                && generates(
                generation,
                "mystic_device_identity_v2"@,
                identity_params(properties, ResponseIdentity::Serial),
            )),
        (follows_deletion(step, DiscardStage::Serial, properties) || generates_fallback(
            step,
            properties,
        )) && trimmed(utf8_lossy(properties.property("ro.serialno"@))).len() > 0 ==> (
            step matches IdentityStep::Generate {
                stage: GenerationStage::Fallback(serial),
                generation,
            } && serial@ == trimmed(utf8_lossy(properties.property("ro.serialno"@)))
                && generates(
                generation,
                "mystic_device_identity_fallback_v2"@,
                identity_params(properties, ResponseIdentity::Omitted),
            )),
        (follows_deletion(step, DiscardStage::Serial, properties) || generates_fallback(
            step,
            properties,
        )) && trimmed(utf8_lossy(properties.property("ro.serialno"@))).len() == 0 ==> (
            step matches IdentityStep::Finished(Err(error)) && error.code == -2
                && error.message@ == "hardware serial attestation failed and ro.serialno is empty"@),
{
}

} // verus!
