//! Splitting a byte string into the DER certificates that it concatenates.

use vstd::layout::size_of;
use vstd::prelude::*;
use vstd::slice::slice_subrange;

use crate::bytes::{
    be_bytes, be_limit, be_value, joined, lemma_be_bytes_len, lemma_be_bytes_of_be_value,
    lemma_be_value_grows, lemma_be_value_of_be_bytes, slices_view,
};

verus! {

/// The most certificates that a chain may hold.
pub const MAX_CHAIN_CERTIFICATES: usize = 16;

pub const CHAIN_TOO_LONG: &'static str = "provisioned certificate chain is too long";

pub const CHAIN_NOT_DER: &'static str = "provisioned certificate chain is not concatenated DER";

pub const INVALID_LENGTH: &'static str = "provisioned certificate has an invalid DER length";

pub const TRUNCATED_LENGTH: &'static str =
    "provisioned certificate has a truncated or non-canonical DER length";

pub const LENGTH_OVERFLOWED: &'static str = "provisioned certificate DER length overflowed";

pub const NON_CANONICAL_LENGTH: &'static str =
    "provisioned certificate has a non-canonical DER length";

pub const CERTIFICATE_TRUNCATED: &'static str = "provisioned certificate is truncated";

pub const CHAIN_EMPTY: &'static str = "provisioned certificate chain is empty";

/// An element of `length` bytes at the start of `encoded`: it has to fit the address space and
/// the input.
pub open spec fn element_within(encoded: Seq<u8>, length: nat) -> Result<nat, Seq<char>> {
    if length > usize::MAX {
        Err(LENGTH_OVERFLOWED@)
    } else if length > encoded.len() {
        Err(CERTIFICATE_TRUNCATED@)
    } else {
        Ok(length)
    }
}

/// The length, header included, of the DER SEQUENCE that `encoded` starts with, or what is wrong
/// with it.
pub open spec fn element_length(encoded: Seq<u8>) -> Result<nat, Seq<char>> {
    if encoded.len() < 2 || encoded[0] != 0x30 {
        Err(CHAIN_NOT_DER@)
    } else if encoded[1] < 0x80 {
        element_within(encoded, 2 + encoded[1] as nat)
    } else {
        let octets = (encoded[1] - 0x80) as nat;
        if octets == 0 || octets > size_of::<usize>() {
            Err(INVALID_LENGTH@)
        } else if encoded.len() < 2 + octets || encoded[2] == 0 {
            Err(TRUNCATED_LENGTH@)
        } else {
            let content = be_value(encoded.subrange(2, 2 + octets as int));
            if content > usize::MAX {
                Err(LENGTH_OVERFLOWED@)
            } else if content < 128 {
                Err(NON_CANONICAL_LENGTH@)
            } else {
                element_within(encoded, 2 + octets + content)
            }
        }
    }
}

/// The elements that `encoded` concatenates, when `found` of them stand before it.
pub open spec fn elements_after(encoded: Seq<u8>, found: nat) -> Result<Seq<Seq<u8>>, Seq<char>>
    decreases encoded.len(),
{
    if encoded.len() == 0 {
        Ok(Seq::empty())
    } else if found >= MAX_CHAIN_CERTIFICATES {
        Err(CHAIN_TOO_LONG@)
    } else {
        match element_length(encoded) {
            Err(message) => Err(message),
            Ok(length) => match elements_after(encoded.skip(length as int), found + 1) {
                Err(message) => Err(message),
                Ok(rest) => Ok(seq![encoded.take(length as int)] + rest),
            },
        }
    }
}

/// The certificates that `encoded` concatenates, or what is wrong with it.
pub open spec fn certificates_of(encoded: Seq<u8>) -> Result<Seq<Seq<u8>>, Seq<char>> {
    if encoded.len() == 0 {
        Err(CHAIN_EMPTY@)
    } else {
        elements_after(encoded, 0)
    }
}

/// The length, header included, of the DER SEQUENCE that `encoded` starts with.
fn first_element_length(encoded: &[u8]) -> (length: Result<usize, String>)
    ensures
        match element_length(encoded@) {
            Ok(n) => length matches Ok(l) && l == n,
            Err(message) => length matches Err(e) && e@ == message,
        },
{
    if encoded.len() < 2 || encoded[0] != 0x30 {
        return Err(CHAIN_NOT_DER.to_owned());
    }
    let first_length: u8 = encoded[1];
    proof {
        assert((first_length & 0x80 == 0) == (first_length < 0x80)) by (bit_vector);
        assert(first_length >= 0x80 ==> (first_length & 0x7f) == first_length - 0x80)
            by (bit_vector);
    }
    let header_length: usize;
    let content_length: usize;
    if first_length & 0x80 == 0 {
        header_length = 2;
        content_length = first_length as usize;
    } else {
        let length_bytes: usize = (first_length & 0x7f) as usize;
        if length_bytes == 0 || length_bytes > std::mem::size_of::<usize>() {
            return Err(INVALID_LENGTH.to_owned());
        }
        if encoded.len() < 2 + length_bytes || encoded[2] == 0 {
            return Err(TRUNCATED_LENGTH.to_owned());
        }
        let ghost digits = encoded@.subrange(2, 2 + length_bytes as int);
        let mut length: usize = 0;
        let mut i: usize = 0;
        while i < length_bytes
            invariant
                i <= length_bytes <= 127,
                2 + length_bytes <= encoded@.len(),
                digits == encoded@.subrange(2, 2 + length_bytes as int),
                length == be_value(digits.take(i as int)),
                element_length(encoded@) == (if be_value(digits) > usize::MAX {
                    Err::<nat, Seq<char>>(LENGTH_OVERFLOWED@)
                } else if be_value(digits) < 128 {
                    Err(NON_CANONICAL_LENGTH@)
                } else {
                    element_within(encoded@, 2 + length_bytes as nat + be_value(digits))
                }),
            decreases length_bytes - i,
        {
            let byte: usize = encoded[2 + i] as usize;
            proof {
                assert(digits.take(i + 1).drop_last() =~= digits.take(i as int));
                assert(digits.take(i + 1).last() == encoded@[2 + i as int]);
                lemma_be_value_grows(digits, i + 1);
            }
            let shifted: usize = match length.checked_mul(256) {
                Some(shifted) => shifted,
                None => return Err(LENGTH_OVERFLOWED.to_owned()),
            };
            length = match shifted.checked_add(byte) {
                Some(sum) => sum,
                None => return Err(LENGTH_OVERFLOWED.to_owned()),
            };
            i += 1;
        }
        assert(digits.take(i as int) =~= digits);
        if length < 128 {
            return Err(NON_CANONICAL_LENGTH.to_owned());
        }
        header_length = 2 + length_bytes;
        content_length = length;
    }
    let certificate_length: usize = match header_length.checked_add(content_length) {
        Some(sum) => sum,
        None => return Err(LENGTH_OVERFLOWED.to_owned()),
    };
    if certificate_length > encoded.len() {
        return Err(CERTIFICATE_TRUNCATED.to_owned());
    }
    Ok(certificate_length)
}

/// Splits `encoded` into the DER certificates that it concatenates.
pub fn split_concatenated_der_certificates<'a>(encoded: &'a [u8]) -> (split: Result<
    Vec<&'a [u8]>,
    String,
>)
    ensures
        match certificates_of(encoded@) {
            Ok(parts) => split matches Ok(certificates) && slices_view(certificates@) == parts,
            Err(message) => split matches Err(e) && e@ == message,
        },
{
    let mut certificates: Vec<&'a [u8]> = Vec::new();
    let mut rest: &'a [u8] = encoded;
    assert(slices_view(certificates@) =~= Seq::<Seq<u8>>::empty());
    proof {
        if let Ok(parts) = elements_after(encoded@, 0) {
            assert(slices_view(certificates@) + parts =~= parts);
        }
    }
    while rest.len() > 0
        invariant
            certificates@.len() <= MAX_CHAIN_CERTIFICATES,
            encoded@.len() > 0 && rest@.len() == 0 ==> certificates@.len() > 0,
            encoded@.len() == 0 ==> certificates@.len() == 0 && rest@.len() == 0,
            elements_after(encoded@, 0) == (match elements_after(rest@, certificates@.len()) {
                Ok(parts) => Ok::<Seq<Seq<u8>>, Seq<char>>(
                    slices_view(certificates@) + parts,
                ),
                Err(message) => Err(message),
            }),
        decreases rest@.len(),
    {
        if certificates.len() == MAX_CHAIN_CERTIFICATES {
            return Err(CHAIN_TOO_LONG.to_owned());
        }
        let certificate_length: usize = match first_element_length(rest) {
            Ok(length) => length,
            Err(message) => return Err(message),
        };
        let certificate = slice_subrange(rest, 0, certificate_length);
        let ghost before = slices_view(certificates@);
        let ghost count = certificates@.len();
        let ghost whole = rest@;
        certificates.push(certificate);
        rest = slice_subrange(rest, certificate_length, rest.len());
        proof {
            assert(whole.take(certificate_length as int) =~= certificate@);
            assert(whole.skip(certificate_length as int) =~= rest@);
            assert(slices_view(certificates@) =~= before.push(certificate@));
            if let Ok(parts) = elements_after(rest@, count + 1) {
                assert(before + (seq![certificate@] + parts) =~= slices_view(certificates@)
                    + parts);
            }
        }
    }
    if certificates.len() == 0 {
        return Err(CHAIN_EMPTY.to_owned());
    }
    proof {
        assert(slices_view(certificates@) + Seq::<Seq<u8>>::empty() =~= slices_view(certificates@));
    }
    Ok(certificates)
}

/// How many base-256 digits `value` has.
pub open spec fn digit_count(value: nat) -> nat
    decreases value,
{
    if value < 256 {
        1
    } else {
        1 + digit_count(value / 256)
    }
}

/// The DER header of a SEQUENCE whose content is `content` bytes long: the shortest one.
pub open spec fn sequence_header(content: nat) -> Seq<u8> {
    if content < 128 {
        seq![0x30u8, content as u8]
    } else {
        seq![0x30u8, (0x80 + digit_count(content)) as u8] + be_bytes(content, digit_count(content))
    }
}

/// `element` is a header for `content` bytes and that many bytes after it.
pub open spec fn is_sequence_of(element: Seq<u8>, content: nat) -> bool {
    let header = sequence_header(content);
    &&& element.len() == header.len() + content
    &&& element.take(header.len() as int) == header
}

/// `element` is one DER SEQUENCE, no more and no less, that fits the address space.
pub open spec fn is_der_sequence(element: Seq<u8>) -> bool {
    &&& element.len() <= usize::MAX
    &&& exists|content: nat| is_sequence_of(element, content)
}

proof fn lemma_digit_count(value: nat)
    ensures
        value < be_limit(digit_count(value)),
        value > 0 ==> be_bytes(value, digit_count(value))[0] != 0,
        be_bytes(value, digit_count(value)).len() == digit_count(value) >= 1,
    decreases value,
{
    lemma_be_bytes_len(value, digit_count(value));
    if value < 256 {
        assert(digit_count(value) == 1);
        reveal_with_fuel(be_limit, 2);
        reveal_with_fuel(be_bytes, 2);
    } else {
        lemma_digit_count(value / 256);
        let narrower = be_bytes(value / 256, digit_count(value / 256));
        assert(be_bytes(value, digit_count(value))[0] == narrower[0]);
    }
}

proof fn lemma_digit_count_within(value: nat, width: nat)
    requires
        width >= 1,
        value < be_limit(width),
    ensures
        digit_count(value) <= width,
    decreases width,
{
    if value >= 256 {
        if width == 1 {
            reveal_with_fuel(be_limit, 2);
        } else {
            lemma_digit_count_within(value / 256, (width - 1) as nat);
        }
    }
}

proof fn lemma_digit_count_of_digits(digits: Seq<u8>)
    requires
        digits.len() >= 1,
        digits[0] != 0,
    ensures
        be_value(digits) > 0,
        digit_count(be_value(digits)) == digits.len(),
    decreases digits.len(),
{
    let front = digits.drop_last();
    if digits.len() == 1 {
        assert(be_value(front) == 0);
    } else {
        lemma_digit_count_of_digits(front);
        assert(be_value(digits) / 256 == be_value(front));
    }
}

proof fn lemma_usize_digits()
    ensures
        usize::MAX + 1 == be_limit(size_of::<usize>()),
        1 <= size_of::<usize>() <= 8,
{
    broadcast use vstd::layout::layout_of_primitives;

    reveal_with_fuel(be_limit, 9);
}

/// What is taken off the front of the input is one DER SEQUENCE.
proof fn lemma_first_element_is_sequence(encoded: Seq<u8>)
    ensures
        element_length(encoded) matches Ok(length) ==> {
            &&& 2 <= length <= encoded.len()
            &&& is_der_sequence(encoded.take(length as int))
        },
{
    if let Ok(length) = element_length(encoded) {
        let element = encoded.take(length as int);
        if encoded[1] < 0x80 {
            let content = encoded[1] as nat;
            assert(element.take(2) =~= sequence_header(content));
            assert(is_sequence_of(element, content));
        } else {
            let octets = (encoded[1] - 0x80) as nat;
            let digits = encoded.subrange(2, 2 + octets as int);
            let content = be_value(digits);
            assert(digits[0] == encoded[2]);
            lemma_digit_count_of_digits(digits);
            lemma_be_bytes_of_be_value(digits);
            assert(element.take(2 + octets as int) =~= sequence_header(content));
            assert(is_sequence_of(element, content));
        }
    }
}

/// One DER SEQUENCE is found at the front of the input, whatever stands behind it.
proof fn lemma_sequence_is_first_element(element: Seq<u8>, rest: Seq<u8>)
    requires
        is_der_sequence(element),
    ensures
        element_length(element + rest) == Ok::<nat, Seq<char>>(element.len()),
{
    let content = choose|content: nat| is_sequence_of(element, content);
    let header = sequence_header(content);
    let encoded = element + rest;
    lemma_digit_count(content);
    assert(element.take(header.len() as int) == header);
    assert forall|i: int| 0 <= i < header.len() implies encoded[i] == header[i] by {
        assert(element.take(header.len() as int)[i] == header[i]);
    }
    if content >= 128 {
        let octets = digit_count(content);
        lemma_usize_digits();
        lemma_digit_count_within(content, size_of::<usize>());
        assert(encoded[1] == 0x80 + octets);
        let digits = be_bytes(content, octets);
        assert(encoded.subrange(2, 2 + octets as int) =~= digits);
        lemma_be_value_of_be_bytes(content, octets);
        assert(encoded[2] == digits[0]);
    }
}

/// The parts that an input of `found` earlier parts splits into.
proof fn lemma_elements_after_sound(encoded: Seq<u8>, found: nat)
    ensures
        elements_after(encoded, found) matches Ok(parts) ==> {
            &&& joined(parts) == encoded
            &&& encoded.len() > 0 ==> parts.len() > 0
            &&& found <= MAX_CHAIN_CERTIFICATES ==> found + parts.len() <= MAX_CHAIN_CERTIFICATES
            &&& forall|i: int| 0 <= i < parts.len() ==> is_der_sequence(#[trigger] parts[i])
        },
    decreases encoded.len(),
{
    if let Ok(parts) = elements_after(encoded, found) {
        if encoded.len() > 0 {
            lemma_first_element_is_sequence(encoded);
            let length = element_length(encoded)->Ok_0 as int;
            let first = encoded.take(length);
            lemma_elements_after_sound(encoded.skip(length), found + 1);
            let rest = elements_after(encoded.skip(length), found + 1)->Ok_0;
            assert(parts == seq![first] + rest);
            assert(parts.drop_first() =~= rest);
            assert(first + encoded.skip(length) =~= encoded);
            assert forall|i: int| 0 <= i < parts.len() implies is_der_sequence(
                #[trigger] parts[i],
            ) by {
                if i > 0 {
                    assert(parts[i] == rest[i - 1]);
                }
            }
        } else {
            assert(joined(parts) =~= encoded);
        }
    }
}

proof fn lemma_elements_after_complete(parts: Seq<Seq<u8>>, found: nat)
    requires
        found <= MAX_CHAIN_CERTIFICATES,
        forall|i: int| 0 <= i < parts.len() ==> is_der_sequence(#[trigger] parts[i]),
    ensures
        parts.len() > 0 ==> joined(parts).len() > 0,
        elements_after(joined(parts), found) == (if found + parts.len() <= MAX_CHAIN_CERTIFICATES {
            Ok::<Seq<Seq<u8>>, Seq<char>>(parts)
        } else {
            Err(CHAIN_TOO_LONG@)
        }),
    decreases parts.len(),
{
    if parts.len() == 0 {
        assert(parts =~= Seq::empty());
    } else {
        let first = parts[0];
        let rest = parts.drop_first();
        assert forall|i: int| 0 <= i < rest.len() implies is_der_sequence(#[trigger] rest[i]) by {
            assert(rest[i] == parts[i + 1]);
        }
        lemma_sequence_is_first_element(first, joined(rest));
        lemma_first_element_is_sequence(first + joined(rest));
        let encoded = joined(parts);
        assert(encoded.take(first.len() as int) =~= first);
        assert(encoded.skip(first.len() as int) =~= joined(rest));
        assert(seq![first] + rest =~= parts);
        if found < MAX_CHAIN_CERTIFICATES {
            lemma_elements_after_complete(rest, found + 1);
        }
    }
}

proof fn lemma_joined_concat(first: Seq<Seq<u8>>, second: Seq<Seq<u8>>)
    ensures
        joined(first + second) == joined(first) + joined(second),
    decreases first.len(),
{
    if first.len() == 0 {
        assert(first + second =~= second);
        assert(joined(first) + joined(second) =~= joined(second));
    } else {
        lemma_joined_concat(first.drop_first(), second);
        assert((first + second).drop_first() =~= first.drop_first() + second);
        assert(joined(first + second) =~= joined(first) + joined(second));
    }
}

/// A chain that splits loses nothing: its certificates, end to end, are the input, there is at
/// least one of them and at most [`MAX_CHAIN_CERTIFICATES`], and each is exactly one DER SEQUENCE
/// with the shortest header.
pub proof fn law_split_partitions(encoded: Seq<u8>)
    ensures
        certificates_of(encoded) matches Ok(parts) ==> {
            &&& joined(parts) == encoded
            &&& 1 <= parts.len() <= MAX_CHAIN_CERTIFICATES
            &&& forall|i: int| 0 <= i < parts.len() ==> is_der_sequence(#[trigger] parts[i])
        },
{
    lemma_elements_after_sound(encoded, 0);
}

/// Splitting undoes concatenation: any chain of one to [`MAX_CHAIN_CERTIFICATES`] DER SEQUENCEs
/// comes back as it was put together.
pub proof fn law_split_undoes_join(parts: Seq<Seq<u8>>)
    requires
        1 <= parts.len() <= MAX_CHAIN_CERTIFICATES,
        forall|i: int| 0 <= i < parts.len() ==> is_der_sequence(#[trigger] parts[i]),
    ensures
        certificates_of(joined(parts)) == Ok::<Seq<Seq<u8>>, Seq<char>>(parts),
{
    lemma_elements_after_complete(parts, 0);
    lemma_sequence_is_first_element(parts[0], joined(parts.drop_first()));
    lemma_first_element_is_sequence(joined(parts));
}

/// A certificate that was split off a chain splits into itself alone.
pub proof fn law_split_is_stable(encoded: Seq<u8>, index: int)
    requires
        certificates_of(encoded) matches Ok(parts) && 0 <= index < parts.len(),
    ensures
        certificates_of(certificates_of(encoded)->Ok_0[index]) == Ok::<Seq<Seq<u8>>, Seq<char>>(
            seq![certificates_of(encoded)->Ok_0[index]],
        ),
{
    law_split_partitions(encoded);
    let part = certificates_of(encoded)->Ok_0[index];
    let alone = seq![part];
    law_split_undoes_join(alone);
    assert(joined(alone.drop_first()) =~= Seq::<u8>::empty());
    assert(joined(alone) =~= part);
}

/// Two chains that split, put end to end, split into the certificates of the one and then of the
/// other, unless there are more than [`MAX_CHAIN_CERTIFICATES`] of them: those are too many.
pub proof fn law_split_of_concatenation(first: Seq<u8>, second: Seq<u8>)
    requires
        certificates_of(first) is Ok,
        certificates_of(second) is Ok,
    ensures
        certificates_of(first + second) == (if certificates_of(first)->Ok_0.len()
            + certificates_of(second)->Ok_0.len() <= MAX_CHAIN_CERTIFICATES {
            Ok::<Seq<Seq<u8>>, Seq<char>>(
                certificates_of(first)->Ok_0 + certificates_of(second)->Ok_0,
            )
        } else {
            Err(CHAIN_TOO_LONG@)
        }),
{
    law_split_partitions(first);
    law_split_partitions(second);
    let front = certificates_of(first)->Ok_0;
    let back = certificates_of(second)->Ok_0;
    let parts = front + back;
    assert forall|i: int| 0 <= i < parts.len() implies is_der_sequence(#[trigger] parts[i]) by {
        if i < front.len() {
            assert(parts[i] == front[i]);
        } else {
            assert(parts[i] == back[i - front.len()]);
        }
    }
    lemma_joined_concat(front, back);
    lemma_elements_after_complete(parts, 0);
}

/// What counts as one DER SEQUENCE, byte by byte: the tag, and then either a length below 128 in
/// one
/// byte, or the number of length bytes and the length, of at least 128 and without a leading zero;
/// and after that exactly as many bytes as the length says, whatever they are.
pub proof fn law_der_sequence_form(element: Seq<u8>)
    ensures
        is_der_sequence(element) <==> {
            &&& 2 <= element.len() <= usize::MAX
            &&& element[0] == 0x30
            &&& if element[1] < 0x80 {
                element.len() == 2 + element[1]
            } else {
                let octets = element[1] - 0x80;
                let length = be_value(element.subrange(2, 2 + octets));
                &&& octets >= 1
                &&& element.len() == 2 + octets + length
                &&& element[2] != 0
                &&& length >= 128
            }
        },
{
    if is_der_sequence(element) {
        let content = choose|content: nat| is_sequence_of(element, content);
        let header = sequence_header(content);
        lemma_digit_count(content);
        assert forall|i: int| 0 <= i < header.len() implies element[i] == header[i] by {
            assert(element.take(header.len() as int)[i] == header[i]);
        }
        if content >= 128 {
            let octets = digit_count(content);
            lemma_usize_digits();
            lemma_digit_count_within(content, size_of::<usize>());
            let digits = be_bytes(content, octets);
            assert(element.subrange(2, 2 + octets as int) =~= digits);
            lemma_be_value_of_be_bytes(content, octets);
            assert(element[2] == digits[0]);
        }
    }
    if 2 <= element.len() <= usize::MAX && element[0] == 0x30 {
        if element[1] < 0x80 && element.len() == 2 + element[1] {
            let content = element[1] as nat;
            assert(element.take(2) =~= sequence_header(content));
            assert(is_sequence_of(element, content));
        }
        if element[1] > 0x80 {
            let octets = (element[1] - 0x80) as nat;
            let digits = element.subrange(2, 2 + octets as int);
            let length = be_value(digits);
            if element.len() == 2 + octets + length && element[2] != 0 && length >= 128 {
                assert(digits[0] == element[2]);
                lemma_digit_count_of_digits(digits);
                lemma_be_bytes_of_be_value(digits);
                assert(element.take(2 + octets as int) =~= sequence_header(length));
                assert(is_sequence_of(element, length));
            }
        }
    }
}

/// What is wrong with bytes that start with no DER SEQUENCE, byte by byte.
pub proof fn law_element_faults(rest: Seq<u8>)
    ensures
        rest.len() < 2 || rest[0] != 0x30 ==> element_length(rest) == Err::<nat, Seq<char>>(
            "provisioned certificate chain is not concatenated DER"@,
        ),
        rest.len() >= 2 && rest[0] == 0x30 && rest[1] < 0x80 ==> element_length(rest) == (
        if rest.len() < 2 + rest[1] {
            Err::<nat, Seq<char>>("provisioned certificate is truncated"@)
        } else {
            Ok((2 + rest[1]) as nat)
        }),
        rest.len() >= 2 && rest[0] == 0x30 && rest[1] >= 0x80 ==> {
            let octets = rest[1] - 0x80;
            let length = be_value(rest.subrange(2, 2 + octets));
            &&& octets == 0 || octets > size_of::<usize>() ==> element_length(rest) == Err::<
                nat,
                Seq<char>,
            >("provisioned certificate has an invalid DER length"@)
            &&& 1 <= octets <= size_of::<usize>() && (rest.len() < 2 + octets || rest[2] == 0)
                ==> element_length(rest) == Err::<nat, Seq<char>>(
                "provisioned certificate has a truncated or non-canonical DER length"@,
            )
            &&& 1 <= octets <= size_of::<usize>() && rest.len() >= 2 + octets && rest[2] != 0
                ==> element_length(rest) == (if length < 128 {
                Err::<nat, Seq<char>>("provisioned certificate has a non-canonical DER length"@)
            } else if 2 + octets + length > usize::MAX {
                Err("provisioned certificate DER length overflowed"@)
            } else if 2 + octets + length > rest.len() {
                Err("provisioned certificate is truncated"@)
            } else {
                Ok((2 + octets + length) as nat)
            })
        },
{
    if rest.len() >= 2 {
        lemma_usize_digits();
        let octets = (rest[1] - 0x80) as nat;
        if rest[1] > 0x80 && octets <= size_of::<usize>() && rest.len() >= 2 + octets {
            lemma_be_bytes_of_be_value(rest.subrange(2, 2 + octets as int));
        }
    }
}

proof fn lemma_fault_after_parts(parts: Seq<Seq<u8>>, rest: Seq<u8>, found: nat)
    requires
        found + parts.len() <= MAX_CHAIN_CERTIFICATES,
        forall|i: int| 0 <= i < parts.len() ==> is_der_sequence(#[trigger] parts[i]),
        rest.len() > 0,
    ensures
        (joined(parts) + rest).len() > 0,
        found + parts.len() == MAX_CHAIN_CERTIFICATES ==> elements_after(
            joined(parts) + rest,
            found,
        ) == Err::<Seq<Seq<u8>>, Seq<char>>(CHAIN_TOO_LONG@),
        found + parts.len() < MAX_CHAIN_CERTIFICATES ==> (element_length(rest) matches Err(message)
            ==> elements_after(joined(parts) + rest, found) == Err::<Seq<Seq<u8>>, Seq<char>>(
            message,
        )),
    decreases parts.len(),
{
    if parts.len() == 0 {
        assert(joined(parts) + rest =~= rest);
    } else {
        let first = parts[0];
        let others = parts.drop_first();
        assert forall|i: int| 0 <= i < others.len() implies is_der_sequence(
            #[trigger] others[i],
        ) by {
            assert(others[i] == parts[i + 1]);
        }
        lemma_fault_after_parts(others, rest, found + 1);
        let behind = joined(others) + rest;
        let encoded = joined(parts) + rest;
        assert(encoded =~= first + behind);
        lemma_sequence_is_first_element(first, behind);
        lemma_first_element_is_sequence(first + behind);
        assert(encoded.skip(first.len() as int) =~= behind);
    }
}

/// A chain is refused for the first thing that is wrong with it: for what follows sixteen
/// certificates, whatever that is; for the bytes behind fewer certificates, as those bytes alone
/// would be; and for being empty.
pub proof fn law_chain_faults(parts: Seq<Seq<u8>>, rest: Seq<u8>)
    requires
        parts.len() <= 16,
        forall|i: int| 0 <= i < parts.len() ==> is_der_sequence(#[trigger] parts[i]),
        rest.len() > 0,
    ensures
        certificates_of(Seq::empty()) == Err::<Seq<Seq<u8>>, Seq<char>>(
            "provisioned certificate chain is empty"@,
        ),
        parts.len() == 16 ==> certificates_of(joined(parts) + rest) == Err::<
            Seq<Seq<u8>>,
            Seq<char>,
        >("provisioned certificate chain is too long"@),
        parts.len() < 16 ==> (element_length(rest) matches Err(message) ==> certificates_of(
            joined(parts) + rest,
        ) == Err::<Seq<Seq<u8>>, Seq<char>>(message)),
{
    lemma_fault_after_parts(parts, rest, 0);
}

/// Any one to sixteen DER SEQUENCEs end to end are a chain of just these, in this order.
pub proof fn law_chain_of_sequences(parts: Seq<Seq<u8>>)
    requires
        1 <= parts.len() <= 16,
        forall|i: int| 0 <= i < parts.len() ==> is_der_sequence(#[trigger] parts[i]),
    ensures
        certificates_of(joined(parts)) == Ok::<Seq<Seq<u8>>, Seq<char>>(parts),
{
    law_split_undoes_join(parts);
}

} // verus!
