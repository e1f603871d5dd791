//! Keystore keys: descriptors, generation parameters, attested device properties, certificates.

use vstd::prelude::*;
use vstd::slice::slice_to_vec;
use vstd::utf8::{decode_utf8, encode_utf8, valid_utf8};

use crate::crypto::sha256_digest;
use crate::response::{
    challenge_for, device_identity_challenge, identity_challenge, response_key_challenge,
};
use crate::text::{decode_lossy, join2, join3, trimmed, utf8_lossy};
use crate::types::{is_service_error, service_error, ServiceError, ERROR_SERVER_REQUEST};

verus! {

/// When the certificates of the library's own keys expire, in milliseconds since the epoch.
pub const RESPONSE_CERT_NOT_AFTER_MS: i64 = 2461449600000;

/// The serial number in the certificate of a response key.
pub const RESPONSE_KEY_SERIAL: u8 = 1;

/// The serial number in the certificate of a device identity.
pub const DEVICE_IDENTITY_SERIAL: u8 = 2;

/// The system property that holds the serial number of the device.
pub const SERIAL_PROPERTY: &'static str = "ro.serialno";

pub const SERIAL_EMPTY: &'static str =
    "hardware serial attestation failed and ro.serialno is empty";

pub const NO_CERTIFICATE: &'static str = " returned no certificate";

/// The namespace that an alias is looked up in.
#[derive(Debug, Clone, Copy, PartialEq, Eq, Structural)]
pub enum Domain {
    App,
    Other(i32),
}

/// What names a key in the keystore.
#[derive(Debug, Clone)]
pub struct KeyDescriptor {
    pub domain: Domain,
    pub nspace: i64,
    pub alias: Option<String>,
    pub blob: Option<Vec<u8>>,
}

/// What the keystore says of a key.
#[derive(Debug)]
pub struct KeyMetadata {
    pub key: KeyDescriptor,
    pub certificate: Option<Vec<u8>>,
    pub certificate_chain: Option<Vec<u8>>,
}

#[derive(Debug, Clone, Copy, PartialEq, Eq, Structural)]
pub enum Tag {
    Algorithm,
    EcCurve,
    Purpose,
    Digest,
    NoAuthRequired,
    AttestationChallenge,
    CertificateNotAfter,
    CertificateSerial,
    AttestationIdBrand,
    AttestationIdDevice,
    AttestationIdProduct,
    AttestationIdSerial,
    AttestationIdManufacturer,
    AttestationIdModel,
}

#[derive(Debug, Clone, Copy, PartialEq, Eq, Structural)]
pub enum Algorithm {
    Ec,
}

#[derive(Debug, Clone, Copy, PartialEq, Eq, Structural)]
pub enum EcCurve {
    P256,
}

#[derive(Debug, Clone, Copy, PartialEq, Eq, Structural)]
pub enum KeyPurpose {
    AgreeKey,
    Sign,
}

#[derive(Debug, Clone, Copy, PartialEq, Eq, Structural)]
pub enum Digest {
    Sha2_256,
}

#[derive(Debug)]
pub enum KeyParameterValue {
    Algorithm(Algorithm),
    EcCurve(EcCurve),
    KeyPurpose(KeyPurpose),
    Digest(Digest),
    BoolValue(bool),
    Blob(Vec<u8>),
    DateTime(i64),
}

/// One parameter of a key or of a key operation.
#[derive(Debug)]
pub struct KeyParameter {
    pub tag: Tag,
    pub value: KeyParameterValue,
}

/// The value of a parameter, as a mathematical value.
pub enum ValueModel {
    Algorithm(Algorithm),
    EcCurve(EcCurve),
    KeyPurpose(KeyPurpose),
    Digest(Digest),
    BoolValue(bool),
    Blob(Seq<u8>),
    DateTime(i64),
}

impl View for KeyParameterValue {
    type V = ValueModel;

    open spec fn view(&self) -> ValueModel {
        match *self {
            KeyParameterValue::Algorithm(algorithm) => ValueModel::Algorithm(algorithm),
            KeyParameterValue::EcCurve(curve) => ValueModel::EcCurve(curve),
            KeyParameterValue::KeyPurpose(purpose) => ValueModel::KeyPurpose(purpose),
            KeyParameterValue::Digest(digest) => ValueModel::Digest(digest),
            KeyParameterValue::BoolValue(flag) => ValueModel::BoolValue(flag),
            KeyParameterValue::Blob(bytes) => ValueModel::Blob(bytes@),
            KeyParameterValue::DateTime(time) => ValueModel::DateTime(time),
        }
    }
}

impl View for KeyParameter {
    type V = (Tag, ValueModel);

    open spec fn view(&self) -> (Tag, ValueModel) {
        (self.tag, self.value@)
    }
}

/// The parameters of a list, as mathematical values.
pub open spec fn params_view(params: Seq<KeyParameter>) -> Seq<(Tag, ValueModel)> {
    params.map_values(|param: KeyParameter| param@)
}

/// A parameter of a key or of a key operation.
pub fn key_param(tag: Tag, value: KeyParameterValue) -> (param: KeyParameter)
    ensures
        param == (KeyParameter { tag, value }),
{
    KeyParameter { tag, value }
}

/// `descriptor` names the application's key with this alias.
pub open spec fn names_app_key(descriptor: KeyDescriptor, alias: Seq<char>) -> bool {
    &&& descriptor.domain == Domain::App
    &&& descriptor.nspace == -1
    &&& descriptor.alias matches Some(name)
    &&& name@ == alias
    &&& descriptor.blob is None
}

/// The descriptor of the application's key with this alias.
pub fn app_key_descriptor(alias: &str) -> (descriptor: KeyDescriptor)
    ensures
        names_app_key(descriptor, alias@),
{
    KeyDescriptor { domain: Domain::App, nspace: -1, alias: Some(alias.to_owned()), blob: None }
}

/// The certificates of a key: its own, and those above it if there are any.
pub open spec fn certificates_in(certificate: Vec<u8>, remaining_chain: Option<Vec<u8>>) -> Seq<
    Vec<u8>,
> {
    match remaining_chain {
        Some(chain) if chain@.len() > 0 => seq![certificate, chain],
        _ => seq![certificate],
    }
}

/// The certificates of a key, of which the first has to be there.
pub fn certificate_chain_from_metadata(
    certificate: Option<Vec<u8>>,
    remaining_chain: Option<Vec<u8>>,
    description: &str,
) -> (chain: Result<Vec<Vec<u8>>, ServiceError>)
    ensures
        match certificate {
            Some(own) => chain matches Ok(certificates) && certificates@ == certificates_in(
                own,
                remaining_chain,
            ),
            None => chain matches Err(error) && is_service_error(
                error,
                ERROR_SERVER_REQUEST,
                description@ + NO_CERTIFICATE@,
            ),
        },
{
    let mut certificate_chain: Vec<Vec<u8>> = Vec::new();
    match certificate {
        Some(own) => certificate_chain.push(own),
        None => {
            let message = join2(description, NO_CERTIFICATE);
            return Err(service_error(ERROR_SERVER_REQUEST, message.as_str()));
        },
    }
    if let Some(chain) = remaining_chain {
        if !chain.is_empty() {
            certificate_chain.push(chain);
        }
    }
    assert(certificate_chain@ =~= certificates_in(certificate->0, remaining_chain));
    Ok(certificate_chain)
}

/// The system properties that could be read, by name.
#[derive(Debug)]
pub struct SystemProperties {
    pub entries: Vec<(String, Vec<u8>)>,
}

/// The value of a property: that of the first entry with its name, or nothing.
pub open spec fn property_in(entries: Seq<(String, Vec<u8>)>, name: Seq<char>) -> Seq<u8>
    decreases entries.len(),
{
    if entries.len() == 0 {
        Seq::empty()
    } else if entries[0].0@ == name {
        entries[0].1@
    } else {
        property_in(entries.drop_first(), name)
    }
}

impl SystemProperties {
    /// The value of a property, empty if it could not be read.
    pub open spec fn property(self, name: Seq<char>) -> Seq<u8> {
        property_in(self.entries@, name)
    }
}

/// The value of a property, empty if it could not be read.
pub fn get_system_prop(properties: &SystemProperties, name: &str) -> (value: Vec<u8>)
    ensures
        value@ == properties.property(name@),
{
    let wanted = name.to_owned();
    let mut i: usize = 0;
    assert(properties.entries@.skip(0) =~= properties.entries@);
    while i < properties.entries.len()
        invariant
            i <= properties.entries@.len(),
            wanted@ == name@,
            properties.property(name@) == property_in(
                properties.entries@.skip(i as int),
                name@,
            ),
        decreases properties.entries@.len() - i,
    {
        assert(properties.entries@.skip(i as int)[0] == properties.entries@[i as int]);
        assert(properties.entries@.skip(i as int).drop_first() =~= properties.entries@.skip(i + 1));
        if properties.entries[i].0 == wanted {
            return slice_to_vec(properties.entries[i].1.as_slice());
        }
        i += 1;
    }
    Vec::new()
}

/// The serial number of the device as text, without white space around it.
pub open spec fn serial_text(properties: SystemProperties) -> Seq<char> {
    trimmed(utf8_lossy(properties.property(SERIAL_PROPERTY@)))
}

/// A serial number that is valid UTF-8 is read as it stands, but for white space around it.
pub open spec fn serial_reads_plainly(properties: SystemProperties) -> bool {
    let value = properties.property(SERIAL_PROPERTY@);
    valid_utf8(value) ==> serial_text(properties) == trimmed(decode_utf8(value))
}

/// The serial number of the device, which has to be there where hardware does not attest it.
pub fn fallback_device_serial(properties: &SystemProperties) -> (serial: Result<
    String,
    ServiceError,
>)
    ensures
        serial_text(*properties).len() > 0 ==> (serial matches Ok(text) && text@ == serial_text(
            *properties,
        )),
        serial_text(*properties).len() == 0 ==> (serial matches Err(error) && is_service_error(
            error,
            ERROR_SERVER_REQUEST,
            SERIAL_EMPTY@,
        )),
        serial_reads_plainly(*properties),
{
    let value = get_system_prop(properties, SERIAL_PROPERTY);
    let text = decode_lossy(value.as_slice());
    let serial = text.as_str().trim().to_owned();
    if serial.as_str().is_empty() {
        return Err(service_error(ERROR_SERVER_REQUEST, SERIAL_EMPTY));
    }
    Ok(serial)
}

/// Which properties of the device a key attests.
#[derive(Debug, Clone, Copy, PartialEq, Eq, Structural)]
pub enum ResponseIdentity {
    Full,
    Serial,
    Omitted,
}

/// The properties that an identity attests: the tag and the name of each.
pub open spec fn attested_ids(identity: ResponseIdentity) -> Seq<(Tag, Seq<char>)> {
    match identity {
        ResponseIdentity::Full => seq![
            (Tag::AttestationIdBrand, "brand"@),
            (Tag::AttestationIdDevice, "device"@),
            (Tag::AttestationIdProduct, "name"@),
            (Tag::AttestationIdSerial, "serialno"@),
            (Tag::AttestationIdManufacturer, "manufacturer"@),
            (Tag::AttestationIdModel, "model"@),
        ],
        ResponseIdentity::Serial => seq![(Tag::AttestationIdSerial, "serialno"@)],
        ResponseIdentity::Omitted => seq![],
    }
}

/// The tag and the name of each property of a list.
pub open spec fn ids_view(ids: Seq<(Tag, &'static str)>) -> Seq<(Tag, Seq<char>)> {
    ids.map_values(|id: (Tag, &'static str)| (id.0, id.1@))
}

/// The properties that an identity attests: the tag and the name of each.
fn attestation_ids(identity: ResponseIdentity) -> (ids: Vec<(Tag, &'static str)>)
    ensures
        ids_view(ids@) == attested_ids(identity),
{
    let mut ids: Vec<(Tag, &'static str)> = Vec::new();
    match identity {
        ResponseIdentity::Full => {
            ids.push((Tag::AttestationIdBrand, "brand"));
            ids.push((Tag::AttestationIdDevice, "device"));
            ids.push((Tag::AttestationIdProduct, "name"));
            ids.push((Tag::AttestationIdSerial, "serialno"));
            ids.push((Tag::AttestationIdManufacturer, "manufacturer"));
            ids.push((Tag::AttestationIdModel, "model"));
        },
        ResponseIdentity::Serial => {
            ids.push((Tag::AttestationIdSerial, "serialno"));
        },
        ResponseIdentity::Omitted => {},
    }
    assert(ids_view(ids@) =~= attested_ids(identity));
    ids
}

/// The system properties that an attested property is taken from: the first that is not empty.
pub open spec fn property_sources(tag: Tag, name: Seq<char>) -> Seq<Seq<char>> {
    if tag == Tag::AttestationIdSerial {
        seq!["ro."@ + name]
    } else {
        seq![
            "ro.product."@ + name + "_for_attestation"@,
            "ro.product.vendor."@ + name,
            "ro.product."@ + name,
        ]
    }
}

/// The first value that is not empty among the properties of a list, or an empty one.
pub open spec fn first_present(properties: SystemProperties, names: Seq<Seq<char>>) -> Seq<u8>
    decreases names.len(),
{
    if names.len() == 0 {
        Seq::empty()
    } else if properties.property(names[0]).len() > 0 {
        properties.property(names[0])
    } else {
        first_present(properties, names.drop_first())
    }
}

/// The value that is attested for a property of the device.
pub open spec fn attested_value(properties: SystemProperties, tag: Tag, name: Seq<char>) -> Seq<
    u8,
> {
    first_present(properties, property_sources(tag, name))
}

/// The value that is attested for a property of the device, empty if there is none.
pub fn get_attest_id_value(properties: &SystemProperties, attest_id: Tag, prop_name: &str) -> (value:
    Vec<u8>)
    ensures
        value@ == attested_value(*properties, attest_id, prop_name@),
{
    let ghost sources = property_sources(attest_id, prop_name@);
    proof {
        reveal_with_fuel(first_present, 4);
    }
    if attest_id == Tag::AttestationIdSerial {
        let value = get_system_prop(properties, join2("ro.", prop_name).as_str());
        proof {
            assert(sources.drop_first().len() == 0);
            assert(value@.len() == 0 ==> value@ =~= Seq::<u8>::empty());
        }
        return value;
    }
    let attestation_name = join3("ro.product.", prop_name, "_for_attestation");
    let attestation_prop = get_system_prop(properties, attestation_name.as_str());
    if !attestation_prop.is_empty() {
        return attestation_prop;
    }
    let vendor_prop = get_system_prop(properties, join2("ro.product.vendor.", prop_name).as_str());
    proof {
        assert(sources.drop_first() =~= sources.subrange(1, 3));
    }
    if !vendor_prop.is_empty() {
        return vendor_prop;
    }
    let value = get_system_prop(properties, join2("ro.product.", prop_name).as_str());
    proof {
        assert(sources.drop_first().drop_first() =~= sources.subrange(2, 3));
        assert(sources.drop_first().drop_first().drop_first().len() == 0);
        assert(value@.len() == 0 ==> value@ =~= Seq::<u8>::empty());
    }
    value
}

/// The parameters that attest the properties of a list; an empty property is not attested.
pub open spec fn attestation_params(
    properties: SystemProperties,
    ids: Seq<(Tag, Seq<char>)>,
) -> Seq<(Tag, ValueModel)>
    decreases ids.len(),
{
    if ids.len() == 0 {
        Seq::empty()
    } else {
        let before = attestation_params(properties, ids.drop_last());
        let value = attested_value(properties, ids.last().0, ids.last().1);
        if value.len() > 0 {
            before.push((ids.last().0, ValueModel::Blob(value)))
        } else {
            before
        }
    }
}

/// The parameters that attest an identity of the device.
pub fn device_attestation_params(properties: &SystemProperties, identity: ResponseIdentity) -> (params:
    Vec<KeyParameter>)
    ensures
        params_view(params@) == attestation_params(*properties, attested_ids(identity)),
{
    let ids = attestation_ids(identity);
    let ghost wanted = attested_ids(identity);
    let mut params: Vec<KeyParameter> = Vec::new();
    let mut i: usize = 0;
    assert(params_view(params@) =~= attestation_params(*properties, wanted.take(0)));
    while i < ids.len()
        invariant
            i <= ids@.len(),
            ids_view(ids@) == wanted,
            params_view(params@) == attestation_params(*properties, wanted.take(i as int)),
        decreases ids@.len() - i,
    {
        let tag: Tag = ids[i].0;
        let property: &'static str = ids[i].1;
        let value = get_attest_id_value(properties, tag, property);
        let ghost before = params_view(params@);
        let ghost bytes = value@;
        proof {
            assert(ids_view(ids@)[i as int] == (tag, property@));
            assert(wanted.take(i + 1).drop_last() =~= wanted.take(i as int));
            assert(wanted.take(i + 1).last() == (tag, property@));
        }
        if !value.is_empty() {
            params.push(key_param(tag, KeyParameterValue::Blob(value)));
            assert(params_view(params@) =~= before.push((tag, ValueModel::Blob(bytes))));
        }
        i += 1;
    }
    assert(wanted.take(i as int) =~= wanted);
    params
}

/// The parameters of a key of the library's own, apart from the attested properties.
pub open spec fn own_key_params(purpose: KeyPurpose, challenge: Seq<u8>, serial: u8) -> Seq<
    (Tag, ValueModel),
> {
    seq![
        (Tag::Algorithm, ValueModel::Algorithm(Algorithm::Ec)),
        (Tag::EcCurve, ValueModel::EcCurve(EcCurve::P256)),
        (Tag::Purpose, ValueModel::KeyPurpose(purpose)),
        (Tag::Digest, ValueModel::Digest(Digest::Sha2_256)),
        (Tag::NoAuthRequired, ValueModel::BoolValue(true)),
        (Tag::AttestationChallenge, ValueModel::Blob(challenge)),
        (Tag::CertificateNotAfter, ValueModel::DateTime(RESPONSE_CERT_NOT_AFTER_MS)),
        (Tag::CertificateSerial, ValueModel::Blob(seq![serial])),
    ]
}

/// The parameters of a key of the library's own, with the properties that it attests.
fn own_key_parameters(
    properties: &SystemProperties,
    purpose: KeyPurpose,
    challenge: Vec<u8>,
    serial: u8,
    identity: ResponseIdentity,
) -> (params: Vec<KeyParameter>)
    ensures
        params_view(params@) == own_key_params(purpose, challenge@, serial) + attestation_params(
            *properties,
            attested_ids(identity),
        ),
{
    let ghost expected = own_key_params(purpose, challenge@, serial);
    let mut serial_number: Vec<u8> = Vec::new();
    serial_number.push(serial);
    assert(serial_number@ =~= seq![serial]);
    let mut params: Vec<KeyParameter> = Vec::new();
    params.push(key_param(Tag::Algorithm, KeyParameterValue::Algorithm(Algorithm::Ec)));
    params.push(key_param(Tag::EcCurve, KeyParameterValue::EcCurve(EcCurve::P256)));
    params.push(key_param(Tag::Purpose, KeyParameterValue::KeyPurpose(purpose)));
    params.push(key_param(Tag::Digest, KeyParameterValue::Digest(Digest::Sha2_256)));
    params.push(key_param(Tag::NoAuthRequired, KeyParameterValue::BoolValue(true)));
    params.push(key_param(Tag::AttestationChallenge, KeyParameterValue::Blob(challenge)));
    params.push(
        key_param(
            Tag::CertificateNotAfter,
            KeyParameterValue::DateTime(RESPONSE_CERT_NOT_AFTER_MS),
        ),
    );
    params.push(key_param(Tag::CertificateSerial, KeyParameterValue::Blob(serial_number)));
    assert(params_view(params@) =~= expected);
    let mut attested = device_attestation_params(properties, identity);
    let ghost own = params@;
    let ghost extra = attested@;
    params.append(&mut attested);
    assert(params_view(own + extra) =~= params_view(own) + params_view(extra));
    params
}

/// The parameters of the response key of a request.
pub open spec fn response_params(
    properties: SystemProperties,
    request_id: Seq<char>,
    identity: ResponseIdentity,
) -> Seq<(Tag, ValueModel)> {
    own_key_params(KeyPurpose::AgreeKey, challenge_for(request_id), RESPONSE_KEY_SERIAL)
        + attestation_params(properties, attested_ids(identity))
}

/// The parameters of the response key of a request.
pub fn response_key_params(
    properties: &SystemProperties,
    request_id: &str,
    identity: ResponseIdentity,
) -> (params: Vec<KeyParameter>)
    ensures
        params_view(params@) == response_params(*properties, request_id@, identity),
        params_view(params@)[5] == (
            Tag::AttestationChallenge,
            ValueModel::Blob(encode_utf8("MysticAttestation response key v1:"@ + request_id@)),
        ),
{
    own_key_parameters(
        properties,
        KeyPurpose::AgreeKey,
        response_key_challenge(request_id),
        RESPONSE_KEY_SERIAL,
        identity,
    )
}

/// The parameters of a device identity.
pub open spec fn identity_params(properties: SystemProperties, identity: ResponseIdentity) -> Seq<
    (Tag, ValueModel),
> {
    own_key_params(KeyPurpose::Sign, identity_challenge(), DEVICE_IDENTITY_SERIAL)
        + attestation_params(properties, attested_ids(identity))
}

/// The parameters of a device identity.
pub fn device_identity_params(properties: &SystemProperties, identity: ResponseIdentity) -> (params:
    Vec<KeyParameter>)
    ensures
        params_view(params@) == identity_params(*properties, identity),
        params_view(params@)[5] == (
            Tag::AttestationChallenge,
            ValueModel::Blob(
                sha256_digest(encode_utf8("MysticAttestation persistent device identity v2"@)),
            ),
        ),
        forall|request_id: Seq<char>|
            params_view(params@)[5].1 != ValueModel::Blob(
                #[trigger] encode_utf8("MysticAttestation response key v1:"@ + request_id),
            ),
{
    let challenge = device_identity_challenge();
    proof {
        let prefix = "MysticAttestation response key v1:"@;
        reveal_strlit("MysticAttestation response key v1:");
        vstd::utf8::is_ascii_chars_encode_utf8(prefix);
        assert forall|request_id: Seq<char>| challenge@ != #[trigger] encode_utf8(
            prefix + request_id,
        ) by {
            crate::text::lemma_utf8_concat(prefix, request_id);
        }
    }
    own_key_parameters(
        properties,
        KeyPurpose::Sign,
        challenge,
        DEVICE_IDENTITY_SERIAL,
        identity,
    )
}

/// The system properties that attested properties are taken from.
pub open spec fn sources_of(ids: Seq<(Tag, Seq<char>)>) -> Seq<Seq<char>>
    decreases ids.len(),
{
    if ids.len() == 0 {
        Seq::empty()
    } else {
        sources_of(ids.drop_last()) + property_sources(ids.last().0, ids.last().1)
    }
}

/// The texts of a list of strings.
pub open spec fn strings_view(strings: Seq<String>) -> Seq<Seq<char>> {
    strings.map_values(|text: String| text@)
}

/// The names of all system properties that the library takes anything from.
pub fn system_property_names() -> (names: Vec<String>)
    ensures
        strings_view(names@) == sources_of(attested_ids(ResponseIdentity::Full)),
{
    let ids = attestation_ids(ResponseIdentity::Full);
    let ghost wanted = attested_ids(ResponseIdentity::Full);
    let mut names: Vec<String> = Vec::new();
    let mut i: usize = 0;
    assert(strings_view(names@) =~= sources_of(wanted.take(0)));
    while i < ids.len()
        invariant
            i <= ids@.len(),
            ids_view(ids@) == wanted,
            strings_view(names@) == sources_of(wanted.take(i as int)),
        decreases ids@.len() - i,
    {
        let tag: Tag = ids[i].0;
        let property: &'static str = ids[i].1;
        let ghost before = strings_view(names@);
        proof {
            assert(ids_view(ids@)[i as int] == (tag, property@));
            assert(wanted.take(i + 1).drop_last() =~= wanted.take(i as int));
            assert(wanted.take(i + 1).last() == (tag, property@));
        }
        if tag == Tag::AttestationIdSerial {
            names.push(join2("ro.", property));
        } else {
            names.push(join3("ro.product.", property, "_for_attestation"));
            names.push(join2("ro.product.vendor.", property));
            names.push(join2("ro.product.", property));
        }
        assert(strings_view(names@) =~= before + property_sources(tag, property@));
        i += 1;
    }
    assert(wanted.take(i as int) =~= wanted);
    names
}

/// Two readings of the system properties that agree on the properties of a list.
pub open spec fn agree_on(
    first: SystemProperties,
    second: SystemProperties,
    names: Seq<Seq<char>>,
) -> bool {
    forall|name: Seq<char>| #[trigger]
        names.contains(name) ==> first.property(name) == second.property(name)
}

proof fn lemma_sources_of(ids: Seq<(Tag, Seq<char>)>, id: int)
    requires
        0 <= id < ids.len(),
    ensures
        forall|name: Seq<char>| #[trigger]
            property_sources(ids[id].0, ids[id].1).contains(name)
                ==> sources_of(ids).contains(name),
    decreases ids.len(),
{
    let front = ids.drop_last();
    let last = property_sources(ids.last().0, ids.last().1);
    assert forall|name: Seq<char>| #[trigger]
        property_sources(ids[id].0, ids[id].1).contains(name) implies sources_of(ids).contains(
        name,
    ) by {
        if id == ids.len() - 1 {
            let at = choose|at: int| 0 <= at < last.len() && last[at] == name;
            assert(sources_of(ids)[sources_of(front).len() + at] == name);
        } else {
            lemma_sources_of(front, id);
            assert(property_sources(front[id].0, front[id].1).contains(name));
            let at = choose|at: int|
                0 <= at < sources_of(front).len() && sources_of(front)[at] == name;
            assert(sources_of(ids)[at] == name);
        }
    }
}

proof fn lemma_first_present_agrees(
    first: SystemProperties,
    second: SystemProperties,
    names: Seq<Seq<char>>,
)
    requires
        agree_on(first, second, names),
    ensures
        first_present(first, names) == first_present(second, names),
    decreases names.len(),
{
    if names.len() > 0 {
        assert(names.contains(names[0]));
        assert forall|name: Seq<char>| #[trigger] names.drop_first().contains(name) implies
            first.property(name) == second.property(name) by {
            let at = choose|at: int|
                0 <= at < names.drop_first().len() && names.drop_first()[at] == name;
            assert(names[at + 1] == name);
            assert(names.contains(name));
        }
        lemma_first_present_agrees(first, second, names.drop_first());
    }
}

proof fn lemma_attestation_params_agree(
    first: SystemProperties,
    second: SystemProperties,
    ids: Seq<(Tag, Seq<char>)>,
    names: Seq<Seq<char>>,
)
    requires
        agree_on(first, second, names),
        forall|id: int, name: Seq<char>|
            0 <= id < ids.len() && #[trigger] property_sources(ids[id].0, ids[id].1).contains(name)
                ==> names.contains(name),
    ensures
        attestation_params(first, ids) == attestation_params(second, ids),
    decreases ids.len(),
{
    if ids.len() > 0 {
        let front = ids.drop_last();
        let last = ids.len() - 1;
        let sources = property_sources(ids[last].0, ids[last].1);
        assert forall|name: Seq<char>| #[trigger] sources.contains(name) implies first.property(
            name,
        ) == second.property(name) by {
            assert(names.contains(name));
        }
        lemma_first_present_agrees(first, second, sources);
        assert forall|id: int, name: Seq<char>|
            0 <= id < front.len() && #[trigger] property_sources(front[id].0, front[id].1).contains(
                name,
            ) implies names.contains(name) by {
            assert(property_sources(ids[id].0, ids[id].1).contains(name));
        }
        lemma_attestation_params_agree(first, second, front, names);
    }
}

/// Nothing but the properties that [`system_property_names`] lists decides what a key attests and
/// what the device's serial number is.
pub proof fn law_listed_properties_decide(
    first: SystemProperties,
    second: SystemProperties,
    request_id: Seq<char>,
    identity: ResponseIdentity,
)
    requires
        agree_on(first, second, sources_of(attested_ids(ResponseIdentity::Full))),
    ensures
        response_params(first, request_id, identity) == response_params(
            second,
            request_id,
            identity,
        ),
        identity_params(first, identity) == identity_params(second, identity),
        serial_text(first) == serial_text(second),
{
    let full = attested_ids(ResponseIdentity::Full);
    let ids = attested_ids(identity);
    let names = sources_of(full);
    assert forall|id: int, name: Seq<char>|
        0 <= id < ids.len() && #[trigger] property_sources(ids[id].0, ids[id].1).contains(
            name,
        ) implies names.contains(name) by {
        let place: int = if identity == ResponseIdentity::Serial {
            3
        } else {
            id
        };
        assert(full[place] == ids[id]);
        lemma_sources_of(full, place);
    }
    lemma_attestation_params_agree(first, second, ids, names);
    lemma_sources_of(full, 3);
    reveal_strlit("ro.");
    reveal_strlit("serialno");
    reveal_strlit("ro.serialno");
    let serial_sources = property_sources(Tag::AttestationIdSerial, "serialno"@);
    assert("ro."@ + "serialno"@ =~= SERIAL_PROPERTY@);
    assert(serial_sources[0] == SERIAL_PROPERTY@);
    assert(property_sources(full[3].0, full[3].1).contains(SERIAL_PROPERTY@));
}

/// What is attested of the device is never empty, and carries one of the tags of the identity.
pub proof fn law_attested_values_are_present(
    properties: SystemProperties,
    ids: Seq<(Tag, Seq<char>)>,
    index: int,
)
    requires
        0 <= index < attestation_params(properties, ids).len(),
    ensures
        attestation_params(properties, ids)[index].1 matches ValueModel::Blob(value) && value.len()
            > 0,
        exists|id: int|
            0 <= id < ids.len() && (#[trigger] ids[id]).0 == attestation_params(
                properties,
                ids,
            )[index].0,
    decreases ids.len(),
{
    let front = ids.drop_last();
    let before = attestation_params(properties, front);
    if index < before.len() {
        law_attested_values_are_present(properties, front, index);
        let id = choose|id: int|
            0 <= id < front.len() && (#[trigger] front[id]).0 == before[index].0;
        assert(ids[id].0 == before[index].0);
    } else {
        assert(ids[ids.len() - 1] == ids.last());
    }
}

/// A certificate that holds the challenge that one of the library's own keys was generated with is
/// recognised as internal.
pub proof fn law_own_keys_are_internal(
    properties: SystemProperties,
    request_id: Seq<char>,
    identity: ResponseIdentity,
    challenge: Seq<u8>,
    leaf_certificate: Seq<u8>,
)
    requires
        response_params(properties, request_id, identity).contains(
            (Tag::AttestationChallenge, ValueModel::Blob(challenge)),
        ) || identity_params(properties, identity).contains(
            (Tag::AttestationChallenge, ValueModel::Blob(challenge)),
        ),
        crate::bytes::occurs_in(leaf_certificate, challenge),
    ensures
        crate::response::is_internal(leaf_certificate),
{
    let wanted = (Tag::AttestationChallenge, ValueModel::Blob(challenge));
    let ids = attested_ids(identity);
    let attested = attestation_params(properties, ids);
    assert forall|index: int| 0 <= index < attested.len() implies attested[index] != wanted by {
        law_attested_values_are_present(properties, ids, index);
        let id = choose|id: int|
            0 <= id < ids.len() && (#[trigger] ids[id]).0 == attested[index].0;
        assert(ids[id].0 != Tag::AttestationChallenge);
    }
    let params = if response_params(properties, request_id, identity).contains(wanted) {
        response_params(properties, request_id, identity)
    } else {
        identity_params(properties, identity)
    };
    let at = choose|at: int| 0 <= at < params.len() && params[at] == wanted;
    if at >= 8 {
        assert(params[at] == attested[at - 8]);
    }
    assert(at == 5);
    if response_params(properties, request_id, identity).contains(wanted) {
        crate::response::law_response_key_certificate_is_internal(leaf_certificate, request_id);
    }
}

/// The value of a property is that of the first entry with its name, whole, and empty if there is
/// none.
pub proof fn law_property(properties: SystemProperties, name: Seq<char>, at: int)
    ensures
        (forall|i: int|
            0 <= i < properties.entries@.len() ==> (#[trigger] properties.entries@[i]).0@ != name)
            ==> properties.property(name) == Seq::<u8>::empty(),
        0 <= at < properties.entries@.len() && properties.entries@[at].0@ == name && (forall|i: int|
            0 <= i < at ==> (#[trigger] properties.entries@[i]).0@ != name) ==> properties.property(
            name,
        ) == properties.entries@[at].1@,
{
    lemma_property_in(properties.entries@, name, at);
}

proof fn lemma_property_in(entries: Seq<(String, Vec<u8>)>, name: Seq<char>, at: int)
    ensures
        (forall|i: int| 0 <= i < entries.len() ==> (#[trigger] entries[i]).0@ != name)
            ==> property_in(entries, name) == Seq::<u8>::empty(),
        0 <= at < entries.len() && entries[at].0@ == name && (forall|i: int|
            0 <= i < at ==> (#[trigger] entries[i]).0@ != name) ==> property_in(entries, name)
            == entries[at].1@,
    decreases entries.len(),
{
    if entries.len() > 0 {
        let rest = entries.drop_first();
        lemma_property_in(rest, name, at - 1);
        if forall|i: int| 0 <= i < entries.len() ==> (#[trigger] entries[i]).0@ != name {
            assert(entries[0].0@ != name);
            assert forall|i: int| 0 <= i < rest.len() implies (#[trigger] rest[i]).0@ != name by {
                assert(rest[i] == entries[i + 1]);
            }
        }
        if 0 < at < entries.len() && entries[at].0@ == name && (forall|i: int|
            0 <= i < at ==> (#[trigger] entries[i]).0@ != name) {
            assert(entries[0].0@ != name);
            assert(rest[at - 1] == entries[at]);
            assert forall|i: int| 0 <= i < at - 1 implies (#[trigger] rest[i]).0@ != name by {
                assert(rest[i] == entries[i + 1]);
            }
        }
    }
}

/// The serial number is the text of `ro.serialno`, all of it but for white space around it.
pub proof fn law_serial_text(properties: SystemProperties)
    ensures
        serial_text(properties) == trimmed(utf8_lossy(properties.property("ro.serialno"@))),
        serial_reads_plainly(properties) && valid_utf8(properties.property("ro.serialno"@))
            ==> serial_text(properties) == trimmed(
            decode_utf8(properties.property("ro.serialno"@)),
        ),
{
}

/// A descriptor names the application's key by its alias and nothing else, and the certificates of
/// a key are its own and then, where there are any bytes of it, the chain.
pub proof fn law_descriptor_and_certificates(
    descriptor: KeyDescriptor,
    alias: Seq<char>,
    certificate: Vec<u8>,
    chain: Vec<u8>,
)
    ensures
        names_app_key(descriptor, alias) <==> {
            &&& descriptor.domain == Domain::App
            &&& descriptor.nspace == -1
            &&& descriptor.alias is Some
            &&& descriptor.alias->0@ == alias
            &&& descriptor.blob is None
        },
        certificates_in(certificate, None) == seq![certificate],
        chain@.len() == 0 ==> certificates_in(certificate, Some(chain)) == seq![certificate],
        chain@.len() > 0 ==> certificates_in(certificate, Some(chain)) == seq![certificate, chain],
{
}

/// The view of a parameter keeps its tag and its value, and that of a list the order.
pub proof fn law_parameter_views(
    tag: Tag,
    algorithm: Algorithm,
    curve: EcCurve,
    purpose: KeyPurpose,
    digest: Digest,
    flag: bool,
    bytes: Vec<u8>,
    time: i64,
    params: Seq<KeyParameter>,
    i: int,
)
    ensures
        (KeyParameter { tag, value: KeyParameterValue::Algorithm(algorithm) })@ == (
            tag,
            ValueModel::Algorithm(algorithm),
        ),
        (KeyParameter { tag, value: KeyParameterValue::EcCurve(curve) })@ == (
            tag,
            ValueModel::EcCurve(curve),
        ),
        (KeyParameter { tag, value: KeyParameterValue::KeyPurpose(purpose) })@ == (
            tag,
            ValueModel::KeyPurpose(purpose),
        ),
        (KeyParameter { tag, value: KeyParameterValue::Digest(digest) })@ == (
            tag,
            ValueModel::Digest(digest),
        ),
        (KeyParameter { tag, value: KeyParameterValue::BoolValue(flag) })@ == (
            tag,
            ValueModel::BoolValue(flag),
        ),
        (KeyParameter { tag, value: KeyParameterValue::Blob(bytes) })@ == (
            tag,
            ValueModel::Blob(bytes@),
        ),
        (KeyParameter { tag, value: KeyParameterValue::DateTime(time) })@ == (
            tag,
            ValueModel::DateTime(time),
        ),
        params_view(params).len() == params.len(),
        0 <= i < params.len() ==> params_view(params)[i] == params[i]@,
{
}

/// A serial number is attested as the property with its name says it; any other property as the
/// first of three properties that is not empty says it: the one made for attestation, the
/// vendor's, and the product's own.
pub proof fn law_attested_value(properties: SystemProperties, tag: Tag, name: Seq<char>)
    ensures
        tag == Tag::AttestationIdSerial ==> attested_value(properties, tag, name)
            == properties.property("ro."@ + name),
        tag != Tag::AttestationIdSerial ==> attested_value(properties, tag, name) == ({
            let made = properties.property("ro.product."@ + name + "_for_attestation"@);
            let vendor = properties.property("ro.product.vendor."@ + name);
            if made.len() > 0 {
                made
            } else if vendor.len() > 0 {
                vendor
            } else {
                properties.property("ro.product."@ + name)
            }
        }),
{
    let sources = property_sources(tag, name);
    reveal_with_fuel(first_present, 4);
    if tag == Tag::AttestationIdSerial {
        let value = properties.property(sources[0]);
        assert(sources.drop_first().len() == 0);
        assert(value.len() == 0 ==> value =~= Seq::<u8>::empty());
    } else {
        let value = properties.property(sources[2]);
        assert(sources.drop_first()[0] == sources[1]);
        assert(sources.drop_first().drop_first()[0] == sources[2]);
        assert(sources.drop_first().drop_first().drop_first().len() == 0);
        assert(value.len() == 0 ==> value =~= Seq::<u8>::empty());
    }
}

/// What is attested of the device, in order: brand, device, name, serial number, manufacturer and
/// model for the full identity, the serial number alone for the smaller one, nothing for the
/// smallest; each with its own tag, and only if it is not empty.
pub proof fn law_attested_identity(properties: SystemProperties)
    ensures
        ({
            let one = |tag: Tag, name: Seq<char>|
                {
                    let value = attested_value(properties, tag, name);
                    if value.len() > 0 {
                        seq![(tag, ValueModel::Blob(value))]
                    } else {
                        Seq::<(Tag, ValueModel)>::empty()
                    }
                };
            &&& attestation_params(properties, attested_ids(ResponseIdentity::Full)) == one(
                Tag::AttestationIdBrand,
                "brand"@,
            ) + one(Tag::AttestationIdDevice, "device"@) + one(Tag::AttestationIdProduct, "name"@)
                + one(Tag::AttestationIdSerial, "serialno"@) + one(
                Tag::AttestationIdManufacturer,
                "manufacturer"@,
            ) + one(Tag::AttestationIdModel, "model"@)
            &&& attestation_params(properties, attested_ids(ResponseIdentity::Serial)) == one(
                Tag::AttestationIdSerial,
                "serialno"@,
            )
            &&& attestation_params(properties, attested_ids(ResponseIdentity::Omitted)).len() == 0
        }),
{
    let full = attested_ids(ResponseIdentity::Full);
    let serial = attested_ids(ResponseIdentity::Serial);
    reveal_with_fuel(attestation_params, 8);
    assert(full.take(6) =~= full);
    assert(full.take(6).drop_last() =~= full.take(5));
    assert(full.take(5).drop_last() =~= full.take(4));
    assert(full.take(4).drop_last() =~= full.take(3));
    assert(full.take(3).drop_last() =~= full.take(2));
    assert(full.take(2).drop_last() =~= full.take(1));
    assert(full.take(1).drop_last() =~= full.take(0));
    assert(serial.drop_last().len() == 0);
    let one = |tag: Tag, name: Seq<char>|
        {
            let value = attested_value(properties, tag, name);
            if value.len() > 0 {
                seq![(tag, ValueModel::Blob(value))]
            } else {
                Seq::<(Tag, ValueModel)>::empty()
            }
        };
    let a1 = one(Tag::AttestationIdBrand, "brand"@);
    let a2 = a1 + one(Tag::AttestationIdDevice, "device"@);
    let a3 = a2 + one(Tag::AttestationIdProduct, "name"@);
    let a4 = a3 + one(Tag::AttestationIdSerial, "serialno"@);
    let a5 = a4 + one(Tag::AttestationIdManufacturer, "manufacturer"@);
    let a6 = a5 + one(Tag::AttestationIdModel, "model"@);
    assert(attestation_params(properties, full.take(1)) =~= a1);
    assert(attestation_params(properties, full.take(2)) =~= a2);
    assert(attestation_params(properties, full.take(3)) =~= a3);
    assert(attestation_params(properties, full.take(4)) =~= a4);
    assert(attestation_params(properties, full.take(5)) =~= a5);
    assert(attestation_params(properties, full.take(6)) =~= a6);
    assert(attestation_params(properties, serial) =~= one(Tag::AttestationIdSerial, "serialno"@));
}

/// The key that stands for the device is generated with just these parameters, in this order, and
/// then what it attests of the device. Its one challenge is the digest of the domain of device
/// identities, for every identity and all properties.
pub proof fn law_device_identity_parameters(
    properties: SystemProperties,
    identity: ResponseIdentity,
    i: int,
)
    ensures
        identity_params(properties, identity) == seq![
            (Tag::Algorithm, ValueModel::Algorithm(Algorithm::Ec)),
            (Tag::EcCurve, ValueModel::EcCurve(EcCurve::P256)),
            (Tag::Purpose, ValueModel::KeyPurpose(KeyPurpose::Sign)),
            (Tag::Digest, ValueModel::Digest(Digest::Sha2_256)),
            (Tag::NoAuthRequired, ValueModel::BoolValue(true)),
            (
                Tag::AttestationChallenge,
                ValueModel::Blob(
                    sha256_digest(
                        encode_utf8("MysticAttestation persistent device identity v2"@),
                    ),
                ),
            ),
            (Tag::CertificateNotAfter, ValueModel::DateTime(2461449600000)),
            (Tag::CertificateSerial, ValueModel::Blob(seq![2u8])),
        ] + attestation_params(properties, attested_ids(identity)),
        0 <= i < identity_params(properties, identity).len() && identity_params(
            properties,
            identity,
        )[i].0 == Tag::AttestationChallenge ==> i == 5,
{
    if 8 <= i < identity_params(properties, identity).len() {
        let ids = attested_ids(identity);
        law_attested_values_are_present(properties, ids, i - 8);
        assert(identity_params(properties, identity)[i] == attestation_params(properties, ids)[i
            - 8]);
    }
}

/// A response key is generated with just these parameters, in this order, and then what it attests
/// of the device. Its one challenge is the prefix of response keys and the whole name of its
/// request.
pub proof fn law_response_key_parameters(
    properties: SystemProperties,
    request_id: Seq<char>,
    identity: ResponseIdentity,
    i: int,
)
    ensures
        response_params(properties, request_id, identity) == seq![
            (Tag::Algorithm, ValueModel::Algorithm(Algorithm::Ec)),
            (Tag::EcCurve, ValueModel::EcCurve(EcCurve::P256)),
            (Tag::Purpose, ValueModel::KeyPurpose(KeyPurpose::AgreeKey)),
            (Tag::Digest, ValueModel::Digest(Digest::Sha2_256)),
            (Tag::NoAuthRequired, ValueModel::BoolValue(true)),
            (
                Tag::AttestationChallenge,
                ValueModel::Blob(
                    encode_utf8("MysticAttestation response key v1:"@) + encode_utf8(
                        request_id,
                    ),
                ),
            ),
            (Tag::CertificateNotAfter, ValueModel::DateTime(2461449600000)),
            (Tag::CertificateSerial, ValueModel::Blob(seq![1u8])),
        ] + attestation_params(properties, attested_ids(identity)),
        0 <= i < response_params(properties, request_id, identity).len() && response_params(
            properties,
            request_id,
            identity,
        )[i].0 == Tag::AttestationChallenge ==> i == 5,
{
    crate::response::law_challenge_bytes(request_id);
    if 8 <= i < response_params(properties, request_id, identity).len() {
        let ids = attested_ids(identity);
        law_attested_values_are_present(properties, ids, i - 8);
        assert(response_params(properties, request_id, identity)[i] == attestation_params(
            properties,
            ids,
        )[i - 8]);
    }
}

/// The system properties that are read, one by one, and the view of a list of texts, which keeps
/// the order.
pub proof fn law_property_names(strings: Seq<String>, i: int)
    ensures
        strings_view(strings).len() == strings.len(),
        0 <= i < strings.len() ==> strings_view(strings)[i] == strings[i]@,
        ({
            let product = |name: Seq<char>|
                seq![
                    "ro.product."@ + name + "_for_attestation"@,
                    "ro.product.vendor."@ + name,
                    "ro.product."@ + name,
                ];
            sources_of(attested_ids(ResponseIdentity::Full)) == product("brand"@) + product(
                "device"@,
            ) + product("name"@) + seq!["ro."@ + "serialno"@] + product("manufacturer"@) + product(
                "model"@,
            )
        }),
{
    let full = attested_ids(ResponseIdentity::Full);
    let product = |name: Seq<char>|
        seq![
            "ro.product."@ + name + "_for_attestation"@,
            "ro.product.vendor."@ + name,
            "ro.product."@ + name,
        ];
    reveal_with_fuel(sources_of, 8);
    assert(full.take(6) =~= full);
    assert(full.take(6).drop_last() =~= full.take(5));
    assert(full.take(5).drop_last() =~= full.take(4));
    assert(full.take(4).drop_last() =~= full.take(3));
    assert(full.take(3).drop_last() =~= full.take(2));
    assert(full.take(2).drop_last() =~= full.take(1));
    assert(full.take(1).drop_last() =~= full.take(0));
    assert(sources_of(full.take(1)) =~= product("brand"@));
    assert(sources_of(full.take(2)) =~= product("brand"@) + product("device"@));
}

} // verus!
