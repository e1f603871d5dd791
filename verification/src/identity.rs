//! What the device identity signs: the digest of an unambiguous encoding of a request.

use vstd::prelude::*;
use vstd::slice::slice_to_vec;
use vstd::utf8::encode_utf8;

use crate::bytes::{
    be_bytes, be_limit, chain_view, joined, law_joined_concatenates, lemma_be_value_of_be_bytes,
    push_be_u32, push_be_u64,
};
use crate::crypto::sha256_digest;
use crate::text::trimmed;
use crate::types::{
    OverwriteAttestationRequest, ProvisionAttestationKeyRequest,
    WireAttestationKeyCertificateProfile,
};

verus! {

pub const DEVICE_IDENTITY_REQUEST_DOMAIN: &'static str =
    "MysticAttestation device identity request v2";

pub const OVERWRITE_METHOD: &'static str = "OverwriteAttestation";

pub const PROVISION_METHOD: &'static str = "ProvisionAttestationKey";

/// The version of the protocol that is spoken with the backend.
pub const ATTESTATION_PROTOCOL_VERSION: u32 = 2;

/// A byte string with its length, in eight bytes, before it.
pub open spec fn field(value: Seq<u8>) -> Seq<u8> {
    be_bytes(value.len(), 8) + value
}

/// Byte strings with their lengths before them, end to end.
pub open spec fn fields_joined(values: Seq<Seq<u8>>) -> Seq<u8>
    decreases values.len(),
{
    if values.len() == 0 {
        Seq::empty()
    } else {
        fields_joined(values.drop_last()) + field(values.last())
    }
}

/// A list of byte strings: how many there are, in four bytes, and then each with its length.
pub open spec fn field_list(values: Seq<Seq<u8>>) -> Seq<u8> {
    be_bytes(values.len(), 4) + fields_joined(values)
}

/// A number modulo `2^64`, as two's complement writes it.
pub open spec fn twos_complement(value: i64) -> nat {
    if value >= 0 {
        value as nat
    } else {
        (value + 0x1_0000_0000_0000_0000) as nat
    }
}

/// A text without white space around it, in UTF-8.
pub open spec fn trimmed_bytes(text: Seq<char>) -> Seq<u8> {
    encode_utf8(trimmed(text))
}

/// What an overwrite request encodes to for signing.
pub open spec fn canonical_overwrite(request: OverwriteAttestationRequest) -> Seq<u8> {
    field(encode_utf8(DEVICE_IDENTITY_REQUEST_DOMAIN@)) + (field(encode_utf8(OVERWRITE_METHOD@)) + (
    be_bytes(request.protocol_version as nat, 4) + (field(trimmed_bytes(request.request_id@)) + (
    field(request.leaf_certificate@) + (field(request.remaining_chain@) + (field_list(
        chain_view(request.device_attestation_chain@),
    ) + (field_list(chain_view(request.response_encryption_key_chain@)) + field(
        trimmed_bytes(request.untrusted_device_serial@),
    ))))))))
}

/// What the certificate profile of a provisioning request encodes to.
pub open spec fn canonical_profile(profile: WireAttestationKeyCertificateProfile) -> Seq<u8> {
    field(profile.subject_der@) + (field(profile.serial_number@) + (be_bytes(
        twos_complement(profile.not_before_ms),
        8,
    ) + (be_bytes(twos_complement(profile.not_after_ms), 8) + (field(profile.attestation_challenge@)
        + field(profile.attestation_application_id@)))))
}

/// What an optional certificate profile encodes to: whether it is there, and then the profile.
pub open spec fn canonical_optional_profile(
    profile: Option<WireAttestationKeyCertificateProfile>,
) -> Seq<u8> {
    match profile {
        Some(present) => be_bytes(1, 4) + canonical_profile(present),
        None => be_bytes(0, 4),
    }
}

/// What a provisioning request encodes to for signing.
pub open spec fn canonical_provision(request: ProvisionAttestationKeyRequest) -> Seq<u8> {
    field(encode_utf8(DEVICE_IDENTITY_REQUEST_DOMAIN@)) + (field(encode_utf8(PROVISION_METHOD@)) + (
    be_bytes(ATTESTATION_PROTOCOL_VERSION as nat, 4) + (field(trimmed_bytes(request.request_id@))
        + (field_list(chain_view(request.device_attestation_chain@)) + (field_list(
        chain_view(request.response_encryption_key_chain@),
    ) + (field(trimmed_bytes(request.untrusted_device_serial@)) + (canonical_optional_profile(
        request.certificate_profile,
    ) + field_list(chain_view(request.wrapping_key_chain@)))))))))
}

/// Appends a number in four bytes.
pub fn push_identity_u32(canonical: &mut Vec<u8>, value: u32)
    ensures
        final(canonical)@ == old(canonical)@ + be_bytes(value as nat, 4),
{
    push_be_u32(canonical, value);
}

/// Appends a byte string with its length before it.
pub fn push_identity_field(canonical: &mut Vec<u8>, value: &[u8])
    ensures
        final(canonical)@ == old(canonical)@ + field(value@),
{
    push_be_u64(canonical, value.len() as u64);
    canonical.extend_from_slice(value);
    assert(canonical@ =~= old(canonical)@ + field(value@));
}

/// The last digits of a number do not depend on what stands before them.
proof fn lemma_be_bytes_low(value: nat, width: nat, limit: nat)
    requires
        limit == be_limit(width),
    ensures
        be_bytes(value % limit, width) == be_bytes(value, width),
    decreases width,
{
    if width > 0 {
        let narrower = be_limit((width - 1) as nat);
        lemma_be_bytes_low(value / 256, (width - 1) as nat, narrower);
        assert(narrower > 0) by {
            lemma_be_limit_positive((width - 1) as nat);
        }
        assert((value % (256 * narrower)) / 256 == (value / 256) % narrower && (value % (256
            * narrower)) % 256 == value % 256) by {
            vstd::arithmetic::div_mod::lemma_mod_breakdown(value as int, 256, narrower as int);
            vstd::arithmetic::div_mod::lemma_mod_mod(value as int, 256, narrower as int);
            let rest = (value / 256) % narrower;
            assert(value % (256 * narrower) == 256 * rest + value % 256);
        }
    }
}

proof fn lemma_be_limit_positive(width: nat)
    ensures
        be_limit(width) > 0,
    decreases width,
{
    if width > 0 {
        lemma_be_limit_positive((width - 1) as nat);
    }
}

/// Appends a list of byte strings.
pub fn push_identity_fields(canonical: &mut Vec<u8>, values: &[Vec<u8>])
    ensures
        final(canonical)@ == old(canonical)@ + field_list(chain_view(values@)),
{
    let ghost start = canonical@;
    let ghost wanted = chain_view(values@);
    let count: u32 = (values.len() as u64 % 0x1_0000_0000) as u32;
    push_identity_u32(canonical, count);
    proof {
        reveal_with_fuel(be_limit, 5);
        lemma_be_bytes_low(wanted.len(), 4, 0x1_0000_0000);
        assert(canonical@ + fields_joined(wanted.take(0)) =~= canonical@);
    }
    let ghost counted = canonical@;
    let mut i: usize = 0;
    while i < values.len()
        invariant
            i <= values@.len(),
            wanted == chain_view(values@),
            canonical@ == counted + fields_joined(wanted.take(i as int)),
        decreases values@.len() - i,
    {
        push_identity_field(canonical, values[i].as_slice());
        proof {
            assert(wanted.take(i + 1).drop_last() =~= wanted.take(i as int));
            assert(wanted.take(i + 1).last() == values@[i as int]@);
            assert(canonical@ =~= counted + fields_joined(wanted.take(i + 1)));
        }
        i += 1;
    }
    proof {
        assert(wanted.take(i as int) =~= wanted);
        assert(canonical@ =~= start + field_list(wanted));
    }
}

/// Appends a signed number in eight bytes.
fn push_identity_i64(canonical: &mut Vec<u8>, value: i64)
    ensures
        final(canonical)@ == old(canonical)@ + be_bytes(twos_complement(value), 8),
{
    let bits: u64 = if value >= 0 {
        value as u64
    } else {
        u64::MAX - (-(value + 1)) as u64
    };
    push_be_u64(canonical, bits);
}

/// The digest of an overwrite request that the device identity signs.
pub fn overwrite_device_identity_digest(request: &OverwriteAttestationRequest) -> (digest: Vec<u8>)
    ensures
        digest@ == sha256_digest(canonical_overwrite(*request)),
        digest@.len() == 32,
{
    let mut canonical: Vec<u8> = Vec::new();
    push_identity_field(&mut canonical, DEVICE_IDENTITY_REQUEST_DOMAIN.as_bytes());
    push_identity_field(&mut canonical, OVERWRITE_METHOD.as_bytes());
    push_identity_u32(&mut canonical, request.protocol_version);
    push_identity_field(&mut canonical, request.request_id.as_str().trim().as_bytes());
    push_identity_field(&mut canonical, request.leaf_certificate.as_slice());
    push_identity_field(&mut canonical, request.remaining_chain.as_slice());
    push_identity_fields(&mut canonical, request.device_attestation_chain.as_slice());
    push_identity_fields(&mut canonical, request.response_encryption_key_chain.as_slice());
    push_identity_field(&mut canonical, request.untrusted_device_serial.as_str().trim().as_bytes());
    assert(canonical@ =~= canonical_overwrite(*request));
    let digest = openssl::sha::sha256(canonical.as_slice());
    slice_to_vec(&digest)
}

/// Appends a certificate profile.
fn push_profile(canonical: &mut Vec<u8>, profile: &WireAttestationKeyCertificateProfile)
    ensures
        final(canonical)@ == old(canonical)@ + canonical_profile(*profile),
{
    push_identity_field(canonical, profile.subject_der.as_slice());
    push_identity_field(canonical, profile.serial_number.as_slice());
    push_identity_i64(canonical, profile.not_before_ms);
    push_identity_i64(canonical, profile.not_after_ms);
    push_identity_field(canonical, profile.attestation_challenge.as_slice());
    push_identity_field(canonical, profile.attestation_application_id.as_slice());
    assert(canonical@ =~= old(canonical)@ + canonical_profile(*profile));
}

/// Appends whether there is a certificate profile, and then the profile.
fn push_optional_profile(
    canonical: &mut Vec<u8>,
    profile: &Option<WireAttestationKeyCertificateProfile>,
)
    ensures
        final(canonical)@ == old(canonical)@ + canonical_optional_profile(*profile),
{
    match profile {
        Some(present) => {
            push_identity_u32(canonical, 1);
            push_profile(canonical, present);
            assert(canonical@ =~= old(canonical)@ + canonical_optional_profile(*profile));
        },
        None => {
            push_identity_u32(canonical, 0);
        },
    }
}

/// The digest of a provisioning request that the device identity signs.
pub fn provision_device_identity_digest(request: &ProvisionAttestationKeyRequest) -> (digest: Vec<
    u8,
>)
    ensures
        digest@ == sha256_digest(canonical_provision(*request)),
        digest@.len() == 32,
{
    let mut canonical: Vec<u8> = Vec::new();
    push_identity_field(&mut canonical, DEVICE_IDENTITY_REQUEST_DOMAIN.as_bytes());
    push_identity_field(&mut canonical, PROVISION_METHOD.as_bytes());
    push_identity_u32(&mut canonical, ATTESTATION_PROTOCOL_VERSION);
    push_identity_field(&mut canonical, request.request_id.as_str().trim().as_bytes());
    push_identity_fields(&mut canonical, request.device_attestation_chain.as_slice());
    push_identity_fields(&mut canonical, request.response_encryption_key_chain.as_slice());
    push_identity_field(&mut canonical, request.untrusted_device_serial.as_str().trim().as_bytes());
    push_optional_profile(&mut canonical, &request.certificate_profile);
    push_identity_fields(&mut canonical, request.wrapping_key_chain.as_slice());
    assert(canonical@ =~= canonical_provision(*request));
    let digest = openssl::sha::sha256(canonical.as_slice());
    slice_to_vec(&digest)
}

proof fn lemma_same_width_prefix(a: Seq<u8>, x: Seq<u8>, b: Seq<u8>, y: Seq<u8>)
    requires
        a.len() == b.len(),
        a + x == b + y,
    ensures
        a == b,
        x == y,
{
    assert((a + x).take(a.len() as int) =~= a);
    assert((b + y).take(b.len() as int) =~= b);
    assert((a + x).skip(a.len() as int) =~= x);
    assert((b + y).skip(b.len() as int) =~= y);
}

proof fn lemma_number_prefix(a: nat, x: Seq<u8>, b: nat, y: Seq<u8>, width: nat)
    requires
        a < be_limit(width),
        b < be_limit(width),
        be_bytes(a, width) + x == be_bytes(b, width) + y,
    ensures
        a == b,
        x == y,
{
    lemma_be_value_of_be_bytes(a, width);
    lemma_be_value_of_be_bytes(b, width);
    lemma_same_width_prefix(be_bytes(a, width), x, be_bytes(b, width), y);
}

proof fn lemma_field_prefix(a: Seq<u8>, x: Seq<u8>, b: Seq<u8>, y: Seq<u8>)
    requires
        a.len() < be_limit(8),
        b.len() < be_limit(8),
        field(a) + x == field(b) + y,
    ensures
        a == b,
        x == y,
{
    assert(field(a) + x =~= be_bytes(a.len(), 8) + (a + x));
    assert(field(b) + y =~= be_bytes(b.len(), 8) + (b + y));
    lemma_number_prefix(a.len(), a + x, b.len(), b + y, 8);
    lemma_same_width_prefix(a, x, b, y);
}

proof fn lemma_fields_joined_front(values: Seq<Seq<u8>>)
    requires
        values.len() > 0,
    ensures
        fields_joined(values) == field(values[0]) + fields_joined(values.drop_first()),
    decreases values.len(),
{
    let front = values.drop_last();
    if values.len() == 1 {
        let rest = values.drop_first();
        assert(front.len() == 0 && rest.len() == 0);
        assert(fields_joined(front) =~= Seq::<u8>::empty());
        assert(fields_joined(rest) =~= Seq::<u8>::empty());
        assert(fields_joined(values) == fields_joined(front) + field(values.last()));
        assert(fields_joined(values) =~= field(values[0]) + fields_joined(rest));
    } else {
        lemma_fields_joined_front(front);
        assert(values.drop_first().drop_last() =~= front.drop_first());
        assert(values.drop_first().last() == values.last());
        assert(fields_joined(values) =~= field(values[0]) + fields_joined(values.drop_first()));
    }
}

/// The length of each byte string of a list fits eight bytes.
pub open spec fn lengths_fit(values: Seq<Seq<u8>>) -> bool {
    forall|i: int| 0 <= i < values.len() ==> (#[trigger] values[i]).len() < be_limit(8)
}

proof fn lemma_fields_joined_prefix(
    a: Seq<Seq<u8>>,
    x: Seq<u8>,
    b: Seq<Seq<u8>>,
    y: Seq<u8>,
)
    requires
        a.len() == b.len(),
        lengths_fit(a),
        lengths_fit(b),
        fields_joined(a) + x == fields_joined(b) + y,
    ensures
        a == b,
        x == y,
    decreases a.len(),
{
    if a.len() == 0 {
        assert(a =~= b);
        assert(fields_joined(a) + x =~= x);
        assert(fields_joined(b) + y =~= y);
    } else {
        lemma_fields_joined_front(a);
        lemma_fields_joined_front(b);
        let rest_a = a.drop_first();
        let rest_b = b.drop_first();
        assert(fields_joined(a) + x =~= field(a[0]) + (fields_joined(rest_a) + x));
        assert(fields_joined(b) + y =~= field(b[0]) + (fields_joined(rest_b) + y));
        lemma_field_prefix(a[0], fields_joined(rest_a) + x, b[0], fields_joined(rest_b) + y);
        lemma_fields_joined_prefix(rest_a, x, rest_b, y);
        assert(a =~= seq![a[0]] + rest_a);
        assert(b =~= seq![b[0]] + rest_b);
    }
}

/// The encoding of a list shows where it ends: two lists whose encodings, with anything behind
/// them, are the same bytes are the same list with the same behind it.
pub proof fn law_field_list_is_prefix_free(
    a: Seq<Seq<u8>>,
    x: Seq<u8>,
    b: Seq<Seq<u8>>,
    y: Seq<u8>,
)
    requires
        a.len() < be_limit(4),
        b.len() < be_limit(4),
        lengths_fit(a),
        lengths_fit(b),
        field_list(a) + x == field_list(b) + y,
    ensures
        a == b,
        x == y,
{
    assert(field_list(a) + x =~= be_bytes(a.len(), 4) + (fields_joined(a) + x));
    assert(field_list(b) + y =~= be_bytes(b.len(), 4) + (fields_joined(b) + y));
    lemma_number_prefix(a.len(), fields_joined(a) + x, b.len(), fields_joined(b) + y, 4);
    lemma_fields_joined_prefix(a, x, b, y);
}

proof fn lemma_limits()
    ensures
        be_limit(4) == 0x1_0000_0000,
        be_limit(8) == 0x1_0000_0000_0000_0000,
{
    reveal_with_fuel(be_limit, 9);
}

proof fn lemma_chain_lengths_fit(chain: Vec<Vec<u8>>)
    ensures
        lengths_fit(chain_view(chain@)),
{
    lemma_limits();
    assert forall|i: int| 0 <= i < chain_view(chain@).len() implies (#[trigger] chain_view(
        chain@,
    )[i]).len() < be_limit(8) by {
        assert(chain@[i].len() <= usize::MAX);
    }
}

proof fn lemma_trimmed_texts(first: Seq<char>, second: Seq<char>)
    requires
        trimmed_bytes(first) == trimmed_bytes(second),
    ensures
        trimmed(first) == trimmed(second),
{
    vstd::utf8::encode_utf8_decode_utf8(trimmed(first));
    vstd::utf8::encode_utf8_decode_utf8(trimmed(second));
}

/// The counts and lengths in an overwrite request fit the bytes that the encoding has for them.
pub open spec fn overwrite_fits(request: OverwriteAttestationRequest) -> bool {
    &&& request.device_attestation_chain@.len() < be_limit(4)
    &&& request.response_encryption_key_chain@.len() < be_limit(4)
    &&& trimmed_bytes(request.request_id@).len() < be_limit(8)
    &&& trimmed_bytes(request.untrusted_device_serial@).len() < be_limit(8)
}

/// The encoding that is signed is unambiguous: two overwrite requests with the same encoding agree
/// in everything but the signature and white space around texts.
pub proof fn law_overwrite_encoding_is_injective(
    first: OverwriteAttestationRequest,
    second: OverwriteAttestationRequest,
)
    requires
        overwrite_fits(first),
        overwrite_fits(second),
        canonical_overwrite(first) == canonical_overwrite(second),
    ensures
        first.protocol_version == second.protocol_version,
        trimmed(first.request_id@) == trimmed(second.request_id@),
        first.leaf_certificate@ == second.leaf_certificate@,
        first.remaining_chain@ == second.remaining_chain@,
        chain_view(first.device_attestation_chain@) == chain_view(second.device_attestation_chain@),
        chain_view(first.response_encryption_key_chain@) == chain_view(
            second.response_encryption_key_chain@,
        ),
        trimmed(first.untrusted_device_serial@) == trimmed(second.untrusted_device_serial@),
{
    lemma_limits();
    lemma_chain_lengths_fit(first.device_attestation_chain);
    lemma_chain_lengths_fit(second.device_attestation_chain);
    lemma_chain_lengths_fit(first.response_encryption_key_chain);
    lemma_chain_lengths_fit(second.response_encryption_key_chain);
    assert(first.leaf_certificate.len() <= usize::MAX && second.leaf_certificate.len()
        <= usize::MAX && first.remaining_chain.len() <= usize::MAX && second.remaining_chain.len()
        <= usize::MAX);
    let serial = |r: OverwriteAttestationRequest| field(trimmed_bytes(r.untrusted_device_serial@));
    let keys = |r: OverwriteAttestationRequest|
        field_list(chain_view(r.response_encryption_key_chain@)) + serial(r);
    let device = |r: OverwriteAttestationRequest|
        field_list(chain_view(r.device_attestation_chain@)) + keys(r);
    let chain = |r: OverwriteAttestationRequest| field(r.remaining_chain@) + device(r);
    let leaf = |r: OverwriteAttestationRequest| field(r.leaf_certificate@) + chain(r);
    let id = |r: OverwriteAttestationRequest| field(trimmed_bytes(r.request_id@)) + leaf(r);
    let version = |r: OverwriteAttestationRequest| be_bytes(r.protocol_version as nat, 4) + id(r);
    let method = field(encode_utf8(OVERWRITE_METHOD@));
    let domain = field(encode_utf8(DEVICE_IDENTITY_REQUEST_DOMAIN@));
    lemma_same_width_prefix(domain, method + version(first), domain, method + version(second));
    lemma_same_width_prefix(method, version(first), method, version(second));
    lemma_number_prefix(
        first.protocol_version as nat,
        id(first),
        second.protocol_version as nat,
        id(second),
        4,
    );
    lemma_field_prefix(
        trimmed_bytes(first.request_id@),
        leaf(first),
        trimmed_bytes(second.request_id@),
        leaf(second),
    );
    lemma_field_prefix(
        first.leaf_certificate@,
        chain(first),
        second.leaf_certificate@,
        chain(second),
    );
    lemma_field_prefix(
        first.remaining_chain@,
        device(first),
        second.remaining_chain@,
        device(second),
    );
    law_field_list_is_prefix_free(
        chain_view(first.device_attestation_chain@),
        keys(first),
        chain_view(second.device_attestation_chain@),
        keys(second),
    );
    law_field_list_is_prefix_free(
        chain_view(first.response_encryption_key_chain@),
        serial(first),
        chain_view(second.response_encryption_key_chain@),
        serial(second),
    );
    let none = Seq::<u8>::empty();
    assert(serial(first) =~= serial(first) + none);
    assert(serial(second) =~= serial(second) + none);
    lemma_field_prefix(
        trimmed_bytes(first.untrusted_device_serial@),
        none,
        trimmed_bytes(second.untrusted_device_serial@),
        none,
    );
    lemma_trimmed_texts(first.request_id@, second.request_id@);
    lemma_trimmed_texts(first.untrusted_device_serial@, second.untrusted_device_serial@);
}

/// Two certificate profiles ask for the same.
pub open spec fn same_profile(
    first: WireAttestationKeyCertificateProfile,
    second: WireAttestationKeyCertificateProfile,
) -> bool {
    &&& first.subject_der@ == second.subject_der@
    &&& first.serial_number@ == second.serial_number@
    &&& first.not_before_ms == second.not_before_ms
    &&& first.not_after_ms == second.not_after_ms
    &&& first.attestation_challenge@ == second.attestation_challenge@
    &&& first.attestation_application_id@ == second.attestation_application_id@
}

proof fn lemma_profile_prefix(
    first: WireAttestationKeyCertificateProfile,
    x: Seq<u8>,
    second: WireAttestationKeyCertificateProfile,
    y: Seq<u8>,
)
    requires
        canonical_profile(first) + x == canonical_profile(second) + y,
    ensures
        same_profile(first, second),
        x == y,
{
    lemma_limits();
    assert(first.subject_der.len() <= usize::MAX && second.subject_der.len() <= usize::MAX
        && first.serial_number.len() <= usize::MAX && second.serial_number.len() <= usize::MAX
        && first.attestation_challenge.len() <= usize::MAX && second.attestation_challenge.len()
        <= usize::MAX && first.attestation_application_id.len() <= usize::MAX
        && second.attestation_application_id.len() <= usize::MAX);
    let application = |p: WireAttestationKeyCertificateProfile, z: Seq<u8>|
        field(p.attestation_application_id@) + z;
    let challenge = |p: WireAttestationKeyCertificateProfile, z: Seq<u8>|
        field(p.attestation_challenge@) + application(p, z);
    let not_after = |p: WireAttestationKeyCertificateProfile, z: Seq<u8>|
        be_bytes(twos_complement(p.not_after_ms), 8) + challenge(p, z);
    let not_before = |p: WireAttestationKeyCertificateProfile, z: Seq<u8>|
        be_bytes(twos_complement(p.not_before_ms), 8) + not_after(p, z);
    let serial = |p: WireAttestationKeyCertificateProfile, z: Seq<u8>|
        field(p.serial_number@) + not_before(p, z);
    assert(canonical_profile(first) + x =~= field(first.subject_der@) + serial(first, x));
    assert(canonical_profile(second) + y =~= field(second.subject_der@) + serial(second, y));
    lemma_field_prefix(
        first.subject_der@,
        serial(first, x),
        second.subject_der@,
        serial(second, y),
    );
    lemma_field_prefix(
        first.serial_number@,
        not_before(first, x),
        second.serial_number@,
        not_before(second, y),
    );
    lemma_number_prefix(
        twos_complement(first.not_before_ms),
        not_after(first, x),
        twos_complement(second.not_before_ms),
        not_after(second, y),
        8,
    );
    lemma_number_prefix(
        twos_complement(first.not_after_ms),
        challenge(first, x),
        twos_complement(second.not_after_ms),
        challenge(second, y),
        8,
    );
    lemma_field_prefix(
        first.attestation_challenge@,
        application(first, x),
        second.attestation_challenge@,
        application(second, y),
    );
    lemma_field_prefix(
        first.attestation_application_id@,
        x,
        second.attestation_application_id@,
        y,
    );
}

/// Two optional certificate profiles ask for the same, or both are absent.
pub open spec fn same_optional_profile(
    first: Option<WireAttestationKeyCertificateProfile>,
    second: Option<WireAttestationKeyCertificateProfile>,
) -> bool {
    match (first, second) {
        (Some(one), Some(other)) => same_profile(one, other),
        (None, None) => true,
        _ => false,
    }
}

proof fn lemma_optional_profile_prefix(
    first: Option<WireAttestationKeyCertificateProfile>,
    x: Seq<u8>,
    second: Option<WireAttestationKeyCertificateProfile>,
    y: Seq<u8>,
)
    requires
        canonical_optional_profile(first) + x == canonical_optional_profile(second) + y,
    ensures
        same_optional_profile(first, second),
        x == y,
{
    lemma_limits();
    let rest = |p: Option<WireAttestationKeyCertificateProfile>, z: Seq<u8>|
        match p {
            Some(present) => canonical_profile(present) + z,
            None => z,
        };
    let presence = |p: Option<WireAttestationKeyCertificateProfile>|
        if p is Some {
            1nat
        } else {
            0nat
        };
    assert(canonical_optional_profile(first) + x =~= be_bytes(presence(first), 4) + rest(first, x));
    assert(canonical_optional_profile(second) + y =~= be_bytes(presence(second), 4) + rest(
        second,
        y,
    ));
    lemma_number_prefix(presence(first), rest(first, x), presence(second), rest(second, y), 4);
    if let Some(one) = first {
        lemma_profile_prefix(one, x, second->0, y);
    }
}

/// The counts and lengths in a provisioning request fit the bytes that the encoding has for them.
pub open spec fn provision_fits(request: ProvisionAttestationKeyRequest) -> bool {
    &&& request.device_attestation_chain@.len() < be_limit(4)
    &&& request.response_encryption_key_chain@.len() < be_limit(4)
    &&& request.wrapping_key_chain@.len() < be_limit(4)
    &&& trimmed_bytes(request.request_id@).len() < be_limit(8)
    &&& trimmed_bytes(request.untrusted_device_serial@).len() < be_limit(8)
}

/// The encoding that is signed is unambiguous: two provisioning requests with the same encoding
/// agree in everything but the signature and white space around texts.
pub proof fn law_provision_encoding_is_injective(
    first: ProvisionAttestationKeyRequest,
    second: ProvisionAttestationKeyRequest,
)
    requires
        provision_fits(first),
        provision_fits(second),
        canonical_provision(first) == canonical_provision(second),
    ensures
        trimmed(first.request_id@) == trimmed(second.request_id@),
        chain_view(first.device_attestation_chain@) == chain_view(second.device_attestation_chain@),
        chain_view(first.response_encryption_key_chain@) == chain_view(
            second.response_encryption_key_chain@,
        ),
        trimmed(first.untrusted_device_serial@) == trimmed(second.untrusted_device_serial@),
        same_optional_profile(first.certificate_profile, second.certificate_profile),
        chain_view(first.wrapping_key_chain@) == chain_view(second.wrapping_key_chain@),
{
    lemma_limits();
    lemma_chain_lengths_fit(first.device_attestation_chain);
    lemma_chain_lengths_fit(second.device_attestation_chain);
    lemma_chain_lengths_fit(first.response_encryption_key_chain);
    lemma_chain_lengths_fit(second.response_encryption_key_chain);
    lemma_chain_lengths_fit(first.wrapping_key_chain);
    lemma_chain_lengths_fit(second.wrapping_key_chain);
    let wrapping = |r: ProvisionAttestationKeyRequest| field_list(chain_view(r.wrapping_key_chain@));
    let profile = |r: ProvisionAttestationKeyRequest|
        canonical_optional_profile(r.certificate_profile) + wrapping(r);
    let serial = |r: ProvisionAttestationKeyRequest|
        field(trimmed_bytes(r.untrusted_device_serial@)) + profile(r);
    let keys = |r: ProvisionAttestationKeyRequest|
        field_list(chain_view(r.response_encryption_key_chain@)) + serial(r);
    let device = |r: ProvisionAttestationKeyRequest|
        field_list(chain_view(r.device_attestation_chain@)) + keys(r);
    let id = |r: ProvisionAttestationKeyRequest| field(trimmed_bytes(r.request_id@)) + device(r);
    let version = be_bytes(ATTESTATION_PROTOCOL_VERSION as nat, 4);
    let method = field(encode_utf8(PROVISION_METHOD@));
    let domain = field(encode_utf8(DEVICE_IDENTITY_REQUEST_DOMAIN@));
    lemma_same_width_prefix(
        domain,
        method + (version + id(first)),
        domain,
        method + (version + id(second)),
    );
    lemma_same_width_prefix(method, version + id(first), method, version + id(second));
    lemma_same_width_prefix(version, id(first), version, id(second));
    lemma_field_prefix(
        trimmed_bytes(first.request_id@),
        device(first),
        trimmed_bytes(second.request_id@),
        device(second),
    );
    law_field_list_is_prefix_free(
        chain_view(first.device_attestation_chain@),
        keys(first),
        chain_view(second.device_attestation_chain@),
        keys(second),
    );
    law_field_list_is_prefix_free(
        chain_view(first.response_encryption_key_chain@),
        serial(first),
        chain_view(second.response_encryption_key_chain@),
        serial(second),
    );
    lemma_field_prefix(
        trimmed_bytes(first.untrusted_device_serial@),
        profile(first),
        trimmed_bytes(second.untrusted_device_serial@),
        profile(second),
    );
    lemma_optional_profile_prefix(
        first.certificate_profile,
        wrapping(first),
        second.certificate_profile,
        wrapping(second),
    );
    let none = Seq::<u8>::empty();
    assert(wrapping(first) =~= wrapping(first) + none);
    assert(wrapping(second) =~= wrapping(second) + none);
    law_field_list_is_prefix_free(
        chain_view(first.wrapping_key_chain@),
        none,
        chain_view(second.wrapping_key_chain@),
        none,
    );
    lemma_trimmed_texts(first.request_id@, second.request_id@);
    lemma_trimmed_texts(first.untrusted_device_serial@, second.untrusted_device_serial@);
}

/// No overwrite request has the encoding of a provisioning request: a signature of the one is no
/// signature of the other, as long as their digests differ.
pub proof fn law_request_kinds_are_told_apart(
    overwrite: OverwriteAttestationRequest,
    provision: ProvisionAttestationKeyRequest,
)
    ensures
        canonical_overwrite(overwrite) != canonical_provision(provision),
{
    lemma_limits();
    let domain = field(encode_utf8(DEVICE_IDENTITY_REQUEST_DOMAIN@));
    let overwrite_method = encode_utf8(OVERWRITE_METHOD@);
    let provision_method = encode_utf8(PROVISION_METHOD@);
    reveal_strlit("OverwriteAttestation");
    reveal_strlit("ProvisionAttestationKey");
    vstd::utf8::is_ascii_chars_encode_utf8(OVERWRITE_METHOD@);
    vstd::utf8::is_ascii_chars_encode_utf8(PROVISION_METHOD@);
    if canonical_overwrite(overwrite) == canonical_provision(provision) {
        let x = canonical_overwrite(overwrite).skip(domain.len() as int).skip(
            field(overwrite_method).len() as int,
        );
        let y = canonical_provision(provision).skip(domain.len() as int).skip(
            field(provision_method).len() as int,
        );
        assert(canonical_overwrite(overwrite) =~= domain + (field(overwrite_method) + x));
        assert(canonical_provision(provision) =~= domain + (field(provision_method) + y));
        lemma_same_width_prefix(
            domain,
            field(overwrite_method) + x,
            domain,
            field(provision_method) + y,
        );
        lemma_field_prefix(overwrite_method, x, provision_method, y);
    }
}

/// A length-prefixed byte string, and a list of them, byte by byte: the length in eight bytes and
/// the bytes; the number of entries in four bytes and the entries in their order. A list with one
/// entry more has the same entries in front and the new one behind.
pub proof fn law_field_bytes(values: Seq<Seq<u8>>, last: Seq<u8>)
    ensures
        field(last) == be_bytes(last.len(), 8) + last,
        fields_joined(Seq::empty()) == Seq::<u8>::empty(),
        fields_joined(values.push(last)) == fields_joined(values) + be_bytes(last.len(), 8) + last,
        field_list(values) == be_bytes(values.len(), 4) + fields_joined(values),
        field_list(values.push(last)) == be_bytes(values.len() + 1, 4) + fields_joined(values)
            + be_bytes(last.len(), 8) + last,
{
    assert(values.push(last).drop_last() =~= values);
    assert(fields_joined(values.push(last)) =~= fields_joined(values) + be_bytes(last.len(), 8)
        + last);
    assert(field_list(values.push(last)) =~= be_bytes(values.len() + 1, 4) + fields_joined(values)
        + be_bytes(last.len(), 8) + last);
}

proof fn lemma_fields_joined_pieces(values: Seq<Seq<u8>>, pieces: Seq<Seq<u8>>)
    requires
        pieces.len() == values.len(),
        forall|i: int|
            0 <= i < values.len() ==> #[trigger] pieces[i] == be_bytes(values[i].len(), 8)
                + values[i],
    ensures
        fields_joined(values) == joined(pieces),
    decreases values.len(),
{
    if values.len() == 0 {
        assert(fields_joined(values) =~= joined(pieces));
    } else {
        let front = values.drop_last();
        let before = pieces.drop_last();
        assert forall|i: int| 0 <= i < front.len() implies #[trigger] before[i] == be_bytes(
            front[i].len(),
            8,
        ) + front[i] by {
            assert(pieces[i] == be_bytes(values[i].len(), 8) + values[i]);
        }
        lemma_fields_joined_pieces(front, before);
        law_joined_concatenates(before, seq![pieces.last()], pieces.last());
        assert(before + seq![pieces.last()] =~= pieces);
        assert(pieces[values.len() - 1] == be_bytes(values[values.len() - 1].len(), 8)
            + values[values.len() - 1]);
    }
}

proof fn lemma_list_bytes(chain: Vec<Vec<u8>>)
    ensures
        field_list(chain_view(chain@)) == be_bytes(chain@.len(), 4) + joined(
            Seq::new(chain@.len(), |i: int| be_bytes(chain@[i]@.len(), 8) + chain@[i]@),
        ),
{
    lemma_fields_joined_pieces(
        chain_view(chain@),
        Seq::new(chain@.len(), |i: int| be_bytes(chain@[i]@.len(), 8) + chain@[i]@),
    );
}

proof fn lemma_literal_lengths()
    ensures
        encode_utf8("MysticAttestation device identity request v2"@).len() == 44,
        encode_utf8("OverwriteAttestation"@).len() == 20,
        encode_utf8("ProvisionAttestationKey"@).len() == 23,
{
    reveal_strlit("MysticAttestation device identity request v2");
    reveal_strlit("OverwriteAttestation");
    reveal_strlit("ProvisionAttestationKey");
    vstd::utf8::is_ascii_chars_encode_utf8("MysticAttestation device identity request v2"@);
    vstd::utf8::is_ascii_chars_encode_utf8("OverwriteAttestation"@);
    vstd::utf8::is_ascii_chars_encode_utf8("ProvisionAttestationKey"@);
}

proof fn lemma_regroup(a: Seq<u8>, b: Seq<u8>, c: Seq<u8>)
    ensures
        a + (b + c) == a + b + c,
{
    assert(a + (b + c) =~= a + b + c);
}

proof fn lemma_profile_bytes(profile: WireAttestationKeyCertificateProfile)
    ensures
        be_bytes(1, 4) + canonical_profile(profile) == be_bytes(1, 4)
            + be_bytes(profile.subject_der@.len(), 8)
            + profile.subject_der@ + be_bytes(profile.serial_number@.len(), 8)
            + profile.serial_number@ + be_bytes(
            ((profile.not_before_ms + 0x1_0000_0000_0000_0000) % 0x1_0000_0000_0000_0000) as nat,
            8,
        ) + be_bytes(
            ((profile.not_after_ms + 0x1_0000_0000_0000_0000) % 0x1_0000_0000_0000_0000) as nat,
            8,
        ) + be_bytes(profile.attestation_challenge@.len(), 8) + profile.attestation_challenge@
            + be_bytes(profile.attestation_application_id@.len(), 8)
            + profile.attestation_application_id@,
{
    let f0 = be_bytes(1, 4);
    let f1 = field(profile.subject_der@);
    let f2 = field(profile.serial_number@);
    let f3 = be_bytes(twos_complement(profile.not_before_ms), 8);
    let f4 = be_bytes(twos_complement(profile.not_after_ms), 8);
    let f5 = field(profile.attestation_challenge@);
    let f6 = field(profile.attestation_application_id@);
    let t6 = f6;
    let t5 = f5 + t6;
    let t4 = f4 + t5;
    let t3 = f3 + t4;
    let t2 = f2 + t3;
    let t1 = f1 + t2;
    let t0 = f0 + t1;
    assert(be_bytes(1, 4) + canonical_profile(profile) == t0);
    let a0 = be_bytes(1, 4);
    assert(a0 == f0);
    let l1 = be_bytes(profile.subject_der@.len(), 8);
    let v1 = profile.subject_der@;
    lemma_regroup(a0, l1, v1);
    let a1 = a0 + l1 + v1;
    lemma_regroup(a0, f1, t2);
    assert(t0 == a1 + t2);
    let l2 = be_bytes(profile.serial_number@.len(), 8);
    let v2 = profile.serial_number@;
    lemma_regroup(a1, l2, v2);
    let a2 = a1 + l2 + v2;
    lemma_regroup(a1, f2, t3);
    assert(t0 == a2 + t3);
    let a3 = a2 + be_bytes(
        ((profile.not_before_ms + 0x1_0000_0000_0000_0000) % 0x1_0000_0000_0000_0000) as nat,
        8,
    );
    lemma_regroup(a2, f3, t4);
    assert(t0 == a3 + t4);
    let a4 = a3 + be_bytes(
        ((profile.not_after_ms + 0x1_0000_0000_0000_0000) % 0x1_0000_0000_0000_0000) as nat,
        8,
    );
    lemma_regroup(a3, f4, t5);
    assert(t0 == a4 + t5);
    let l5 = be_bytes(profile.attestation_challenge@.len(), 8);
    let v5 = profile.attestation_challenge@;
    lemma_regroup(a4, l5, v5);
    let a5 = a4 + l5 + v5;
    lemma_regroup(a4, f5, t6);
    assert(t0 == a5 + t6);
    let l6 = be_bytes(profile.attestation_application_id@.len(), 8);
    let v6 = profile.attestation_application_id@;
    lemma_regroup(a5, l6, v6);
    let a6 = a5 + l6 + v6;
    assert(t0 == a6);
}

/// What is signed of an overwrite request, byte by byte and in order: the domain, the method, the
/// version, the name, the leaf, the chain, the certificates of the device in their order, those of
/// the response key in theirs, and the serial number. Every piece of free length has its length
/// before it, and every list its number of entries.
pub proof fn law_overwrite_bytes(request: OverwriteAttestationRequest)
    ensures
        canonical_overwrite(request) == be_bytes(44, 8)
            + encode_utf8("MysticAttestation device identity request v2"@)
            + be_bytes(20, 8) + encode_utf8("OverwriteAttestation"@)
            + be_bytes(request.protocol_version as nat, 4)
            + be_bytes(encode_utf8(trimmed(request.request_id@)).len(), 8) + encode_utf8(
            trimmed(request.request_id@),
        )
            + be_bytes(request.leaf_certificate@.len(), 8) + request.leaf_certificate@
            + be_bytes(request.remaining_chain@.len(), 8) + request.remaining_chain@
            + be_bytes(request.device_attestation_chain@.len(), 4) + joined(
            Seq::new(
                request.device_attestation_chain@.len(),
                |i: int|
                    be_bytes(request.device_attestation_chain@[i]@.len(), 8)
                        + request.device_attestation_chain@[i]@,
            ),
        )
            + be_bytes(request.response_encryption_key_chain@.len(), 4) + joined(
            Seq::new(
                request.response_encryption_key_chain@.len(),
                |i: int|
                    be_bytes(request.response_encryption_key_chain@[i]@.len(), 8)
                        + request.response_encryption_key_chain@[i]@,
            ),
        )
            + be_bytes(encode_utf8(trimmed(request.untrusted_device_serial@)).len(), 8)
            + encode_utf8(
            trimmed(request.untrusted_device_serial@),
        ),
{
    lemma_list_bytes(request.device_attestation_chain);
    lemma_list_bytes(request.response_encryption_key_chain);
    lemma_literal_lengths();
    let f0 = field(encode_utf8(DEVICE_IDENTITY_REQUEST_DOMAIN@));
    let f1 = field(encode_utf8(OVERWRITE_METHOD@));
    let f2 = be_bytes(request.protocol_version as nat, 4);
    let f3 = field(trimmed_bytes(request.request_id@));
    let f4 = field(request.leaf_certificate@);
    let f5 = field(request.remaining_chain@);
    let f6 = field_list(chain_view(request.device_attestation_chain@));
    let f7 = field_list(chain_view(request.response_encryption_key_chain@));
    let f8 = field(trimmed_bytes(request.untrusted_device_serial@));
    let t8 = f8;
    let t7 = f7 + t8;
    let t6 = f6 + t7;
    let t5 = f5 + t6;
    let t4 = f4 + t5;
    let t3 = f3 + t4;
    let t2 = f2 + t3;
    let t1 = f1 + t2;
    let t0 = f0 + t1;
    assert(canonical_overwrite(request) == t0);
    let a0 = be_bytes(44, 8) + encode_utf8("MysticAttestation device identity request v2"@);
    assert(a0 == f0);
    let l1 = be_bytes(20, 8);
    let v1 = encode_utf8("OverwriteAttestation"@);
    lemma_regroup(a0, l1, v1);
    let a1 = a0 + l1 + v1;
    lemma_regroup(a0, f1, t2);
    assert(t0 == a1 + t2);
    let a2 = a1 + be_bytes(request.protocol_version as nat, 4);
    lemma_regroup(a1, f2, t3);
    assert(t0 == a2 + t3);
    let l3 = be_bytes(encode_utf8(trimmed(request.request_id@)).len(), 8);
    let v3 = encode_utf8(trimmed(request.request_id@));
    lemma_regroup(a2, l3, v3);
    let a3 = a2 + l3 + v3;
    lemma_regroup(a2, f3, t4);
    assert(t0 == a3 + t4);
    let l4 = be_bytes(request.leaf_certificate@.len(), 8);
    let v4 = request.leaf_certificate@;
    lemma_regroup(a3, l4, v4);
    let a4 = a3 + l4 + v4;
    lemma_regroup(a3, f4, t5);
    assert(t0 == a4 + t5);
    let l5 = be_bytes(request.remaining_chain@.len(), 8);
    let v5 = request.remaining_chain@;
    lemma_regroup(a4, l5, v5);
    let a5 = a4 + l5 + v5;
    lemma_regroup(a4, f5, t6);
    assert(t0 == a5 + t6);
    let l6 = be_bytes(request.device_attestation_chain@.len(), 4);
    let v6 = joined(
        Seq::new(
            request.device_attestation_chain@.len(),
            |i: int|
                be_bytes(request.device_attestation_chain@[i]@.len(), 8)
                    + request.device_attestation_chain@[i]@,
        ),
    );
    lemma_regroup(a5, l6, v6);
    let a6 = a5 + l6 + v6;
    lemma_regroup(a5, f6, t7);
    assert(t0 == a6 + t7);
    let l7 = be_bytes(request.response_encryption_key_chain@.len(), 4);
    let v7 = joined(
        Seq::new(
            request.response_encryption_key_chain@.len(),
            |i: int|
                be_bytes(request.response_encryption_key_chain@[i]@.len(), 8)
                    + request.response_encryption_key_chain@[i]@,
        ),
    );
    lemma_regroup(a6, l7, v7);
    let a7 = a6 + l7 + v7;
    lemma_regroup(a6, f7, t8);
    assert(t0 == a7 + t8);
    let l8 = be_bytes(encode_utf8(trimmed(request.untrusted_device_serial@)).len(), 8);
    let v8 = encode_utf8(trimmed(request.untrusted_device_serial@));
    lemma_regroup(a7, l8, v8);
    let a8 = a7 + l8 + v8;
    assert(t0 == a8);
}

/// What is signed of a provisioning request, byte by byte and in order: the domain, the method, the
/// version, the name, the certificates of the device, those of the response key, the serial number,
/// the profile of the certificate, and last the certificates of the wrapping key, in the order in
/// which the request holds them.
pub proof fn law_provision_bytes(request: ProvisionAttestationKeyRequest)
    ensures
        canonical_provision(request) == be_bytes(44, 8)
            + encode_utf8("MysticAttestation device identity request v2"@)
            + be_bytes(23, 8) + encode_utf8("ProvisionAttestationKey"@)
            + be_bytes(2, 4)
            + be_bytes(encode_utf8(trimmed(request.request_id@)).len(), 8) + encode_utf8(
            trimmed(request.request_id@),
        )
            + be_bytes(request.device_attestation_chain@.len(), 4) + joined(
            Seq::new(
                request.device_attestation_chain@.len(),
                |i: int|
                    be_bytes(request.device_attestation_chain@[i]@.len(), 8)
                        + request.device_attestation_chain@[i]@,
            ),
        )
            + be_bytes(request.response_encryption_key_chain@.len(), 4) + joined(
            Seq::new(
                request.response_encryption_key_chain@.len(),
                |i: int|
                    be_bytes(request.response_encryption_key_chain@[i]@.len(), 8)
                        + request.response_encryption_key_chain@[i]@,
            ),
        )
            + be_bytes(encode_utf8(trimmed(request.untrusted_device_serial@)).len(), 8)
            + encode_utf8(
            trimmed(request.untrusted_device_serial@),
        )
            + (match request.certificate_profile {
            None => be_bytes(0, 4),
            Some(profile) => be_bytes(1, 4) + be_bytes(profile.subject_der@.len(), 8)
                + profile.subject_der@ + be_bytes(profile.serial_number@.len(), 8)
                + profile.serial_number@ + be_bytes(
                ((profile.not_before_ms + 0x1_0000_0000_0000_0000)
                    % 0x1_0000_0000_0000_0000) as nat,
                8,
            ) + be_bytes(
                ((profile.not_after_ms + 0x1_0000_0000_0000_0000)
                    % 0x1_0000_0000_0000_0000) as nat,
                8,
            ) + be_bytes(profile.attestation_challenge@.len(), 8) + profile.attestation_challenge@
                + be_bytes(profile.attestation_application_id@.len(), 8)
                + profile.attestation_application_id@,
        })
            + be_bytes(request.wrapping_key_chain@.len(), 4) + joined(
            Seq::new(
                request.wrapping_key_chain@.len(),
                |i: int|
                    be_bytes(request.wrapping_key_chain@[i]@.len(), 8)
                        + request.wrapping_key_chain@[i]@,
            ),
        ),
{
    lemma_list_bytes(request.device_attestation_chain);
    lemma_list_bytes(request.response_encryption_key_chain);
    lemma_list_bytes(request.wrapping_key_chain);
    lemma_literal_lengths();
    if let Some(profile) = request.certificate_profile {
        lemma_profile_bytes(profile);
    }
    let f0 = field(encode_utf8(DEVICE_IDENTITY_REQUEST_DOMAIN@));
    let f1 = field(encode_utf8(PROVISION_METHOD@));
    let f2 = be_bytes(ATTESTATION_PROTOCOL_VERSION as nat, 4);
    let f3 = field(trimmed_bytes(request.request_id@));
    let f4 = field_list(chain_view(request.device_attestation_chain@));
    let f5 = field_list(chain_view(request.response_encryption_key_chain@));
    let f6 = field(trimmed_bytes(request.untrusted_device_serial@));
    let f7 = canonical_optional_profile(request.certificate_profile);
    let f8 = field_list(chain_view(request.wrapping_key_chain@));
    let t8 = f8;
    let t7 = f7 + t8;
    let t6 = f6 + t7;
    let t5 = f5 + t6;
    let t4 = f4 + t5;
    let t3 = f3 + t4;
    let t2 = f2 + t3;
    let t1 = f1 + t2;
    let t0 = f0 + t1;
    assert(canonical_provision(request) == t0);
    let a0 = be_bytes(44, 8) + encode_utf8("MysticAttestation device identity request v2"@);
    assert(a0 == f0);
    let l1 = be_bytes(23, 8);
    let v1 = encode_utf8("ProvisionAttestationKey"@);
    lemma_regroup(a0, l1, v1);
    let a1 = a0 + l1 + v1;
    lemma_regroup(a0, f1, t2);
    assert(t0 == a1 + t2);
    let a2 = a1 + be_bytes(2, 4);
    lemma_regroup(a1, f2, t3);
    assert(t0 == a2 + t3);
    let l3 = be_bytes(encode_utf8(trimmed(request.request_id@)).len(), 8);
    let v3 = encode_utf8(trimmed(request.request_id@));
    lemma_regroup(a2, l3, v3);
    let a3 = a2 + l3 + v3;
    lemma_regroup(a2, f3, t4);
    assert(t0 == a3 + t4);
    let l4 = be_bytes(request.device_attestation_chain@.len(), 4);
    let v4 = joined(
        Seq::new(
            request.device_attestation_chain@.len(),
            |i: int|
                be_bytes(request.device_attestation_chain@[i]@.len(), 8)
                    + request.device_attestation_chain@[i]@,
        ),
    );
    lemma_regroup(a3, l4, v4);
    let a4 = a3 + l4 + v4;
    lemma_regroup(a3, f4, t5);
    assert(t0 == a4 + t5);
    let l5 = be_bytes(request.response_encryption_key_chain@.len(), 4);
    let v5 = joined(
        Seq::new(
            request.response_encryption_key_chain@.len(),
            |i: int|
                be_bytes(request.response_encryption_key_chain@[i]@.len(), 8)
                    + request.response_encryption_key_chain@[i]@,
        ),
    );
    lemma_regroup(a4, l5, v5);
    let a5 = a4 + l5 + v5;
    lemma_regroup(a4, f5, t6);
    assert(t0 == a5 + t6);
    let l6 = be_bytes(encode_utf8(trimmed(request.untrusted_device_serial@)).len(), 8);
    let v6 = encode_utf8(trimmed(request.untrusted_device_serial@));
    lemma_regroup(a5, l6, v6);
    let a6 = a5 + l6 + v6;
    lemma_regroup(a5, f6, t7);
    assert(t0 == a6 + t7);
    let a7 = a6 + canonical_optional_profile(request.certificate_profile);
    lemma_regroup(a6, f7, t8);
    assert(t0 == a7 + t8);
    let l8 = be_bytes(request.wrapping_key_chain@.len(), 4);
    let v8 = joined(
        Seq::new(
            request.wrapping_key_chain@.len(),
            |i: int|
                be_bytes(request.wrapping_key_chain@[i]@.len(), 8)
                    + request.wrapping_key_chain@[i]@,
        ),
    );
    lemma_regroup(a7, l8, v8);
    let a8 = a7 + l8 + v8;
    assert(t0 == a8);
}

proof fn lemma_head_is_separate(
    f0: Seq<u8>,
    f1: Seq<u8>,
    f2: Seq<u8>,
    f3: Seq<u8>,
    f4: Seq<u8>,
    f5: Seq<u8>,
    f6: Seq<u8>,
    f7: Seq<u8>,
    rest: Seq<u8>,
)
    ensures
        f0 + (f1 + (f2 + (f3 + (f4 + (f5 + (f6 + (f7 + rest))))))) == f0 + f1 + f2 + f3 + f4 + f5
            + f6 + f7 + rest,
{
    let t6 = f6 + (f7 + rest);
    let t4 = f4 + (f5 + t6);
    let t2 = f2 + (f3 + t4);
    lemma_regroup(f0, f1, t2);
    lemma_regroup(f0 + f1, f2, f3 + t4);
    lemma_regroup(f0 + f1 + f2, f3, t4);
    lemma_regroup(f0 + f1 + f2 + f3, f4, f5 + t6);
    lemma_regroup(f0 + f1 + f2 + f3 + f4, f5, t6);
    lemma_regroup(f0 + f1 + f2 + f3 + f4 + f5, f6, f7 + rest);
    lemma_regroup(f0 + f1 + f2 + f3 + f4 + f5 + f6, f7, rest);
}

/// One wrapping certificate more changes the number of certificates and comes last: the signed
/// bytes before the number and between it and the new certificate stay, and the very last bytes
/// are the length of the new certificate and the certificate.
pub proof fn law_wrapping_certificate_is_appended(
    shorter: ProvisionAttestationKeyRequest,
    longer: ProvisionAttestationKeyRequest,
    certificate: Vec<u8>,
)
    requires
        longer == (ProvisionAttestationKeyRequest {
            wrapping_key_chain: longer.wrapping_key_chain,
            ..shorter
        }),
        longer.wrapping_key_chain@ == shorter.wrapping_key_chain@.push(certificate),
    ensures
        exists|head: Seq<u8>, certificates: Seq<u8>|
            {
                &&& canonical_provision(shorter) == #[trigger] (head + be_bytes(
                    shorter.wrapping_key_chain@.len(),
                    4,
                ) + certificates)
                &&& canonical_provision(longer) == head + be_bytes(
                    shorter.wrapping_key_chain@.len() + 1,
                    4,
                ) + certificates + be_bytes(certificate@.len(), 8) + certificate@
            },
{
    let values = chain_view(shorter.wrapping_key_chain@);
    let count = be_bytes(values.len(), 4);
    let certificates = fields_joined(values);
    let extended = values.push(certificate@);
    law_field_bytes(values, certificate@);
    assert(chain_view(longer.wrapping_key_chain@) =~= extended);
    let rest = field_list(values);
    let longer_rest = field_list(extended);
    let f0 = field(encode_utf8(DEVICE_IDENTITY_REQUEST_DOMAIN@));
    let f1 = field(encode_utf8(PROVISION_METHOD@));
    let f2 = be_bytes(ATTESTATION_PROTOCOL_VERSION as nat, 4);
    let f3 = field(trimmed_bytes(shorter.request_id@));
    let f4 = field_list(chain_view(shorter.device_attestation_chain@));
    let f5 = field_list(chain_view(shorter.response_encryption_key_chain@));
    let f6 = field(trimmed_bytes(shorter.untrusted_device_serial@));
    let f7 = canonical_optional_profile(shorter.certificate_profile);
    let head = f0 + f1 + f2 + f3 + f4 + f5 + f6 + f7;
    lemma_head_is_separate(f0, f1, f2, f3, f4, f5, f6, f7, rest);
    lemma_head_is_separate(f0, f1, f2, f3, f4, f5, f6, f7, longer_rest);
    assert(canonical_provision(shorter) == head + rest);
    assert(canonical_provision(longer) == head + longer_rest);
    lemma_regroup(head, count, certificates);
    let longer_count = be_bytes(values.len() + 1, 4);
    lemma_regroup(longer_count, certificates, be_bytes(certificate@.len(), 8));
    assert(longer_rest == longer_count + certificates + be_bytes(certificate@.len(), 8)
        + certificate@);
    assert(head + longer_rest =~= head + longer_count + certificates + be_bytes(
        certificate@.len(),
        8,
    ) + certificate@);
}

/// The limits under which the encodings are known to be unambiguous, in numbers.
pub proof fn law_fits(
    overwrite: OverwriteAttestationRequest,
    provision: ProvisionAttestationKeyRequest,
    values: Seq<Seq<u8>>,
)
    ensures
        overwrite_fits(overwrite) <==> {
            &&& overwrite.device_attestation_chain@.len() < 0x1_0000_0000
            &&& overwrite.response_encryption_key_chain@.len() < 0x1_0000_0000
            &&& encode_utf8(trimmed(overwrite.request_id@)).len() < 0x1_0000_0000_0000_0000
            &&& encode_utf8(trimmed(overwrite.untrusted_device_serial@)).len()
                < 0x1_0000_0000_0000_0000
        },
        provision_fits(provision) <==> {
            &&& provision.device_attestation_chain@.len() < 0x1_0000_0000
            &&& provision.response_encryption_key_chain@.len() < 0x1_0000_0000
            &&& provision.wrapping_key_chain@.len() < 0x1_0000_0000
            &&& encode_utf8(trimmed(provision.request_id@)).len() < 0x1_0000_0000_0000_0000
            &&& encode_utf8(trimmed(provision.untrusted_device_serial@)).len()
                < 0x1_0000_0000_0000_0000
        },
        lengths_fit(values) <==> forall|i: int|
            0 <= i < values.len() ==> (#[trigger] values[i]).len() < 0x1_0000_0000_0000_0000,
{
    lemma_limits();
}

} // verus!
