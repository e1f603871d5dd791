use droidfoodattestation::der::{split_concatenated_der_certificates, MAX_CHAIN_CERTIFICATES};

fn sequence(content: usize) -> Vec<u8> {
    let mut bytes = vec![0x30];
    if content < 0x80 {
        bytes.push(content as u8);
    } else if content < 0x100 {
        bytes.extend_from_slice(&[0x81, content as u8]);
    } else {
        bytes.extend_from_slice(&[0x82, (content >> 8) as u8, content as u8]);
    }
    bytes.extend(vec![0x5a; content]);
    bytes
}

fn split_error(encoded: &[u8]) -> String {
    split_concatenated_der_certificates(encoded).unwrap_err()
}

#[test]
fn split_gives_back_what_was_joined() {
    let parts = vec![sequence(0), sequence(127), sequence(128), sequence(255), sequence(1000)];
    let joined = parts.concat();
    assert_eq!(split_concatenated_der_certificates(&joined).unwrap(), parts);
}

#[test]
fn split_of_a_part_is_that_part() {
    let encoded = [sequence(3), sequence(200)].concat();
    for part in split_concatenated_der_certificates(&encoded).unwrap() {
        assert_eq!(split_concatenated_der_certificates(part).unwrap(), vec![part]);
    }
}

#[test]
fn sixteen_certificates_are_accepted() {
    let encoded = sequence(1).repeat(MAX_CHAIN_CERTIFICATES);
    assert_eq!(split_concatenated_der_certificates(&encoded).unwrap().len(), 16);
}

#[test]
fn seventeen_certificates_are_too_many() {
    let encoded = sequence(1).repeat(MAX_CHAIN_CERTIFICATES + 1);
    assert_eq!(split_error(&encoded), "provisioned certificate chain is too long");
    let mut broken = sequence(1).repeat(MAX_CHAIN_CERTIFICATES);
    broken.push(0xff);
    assert_eq!(split_error(&broken), "provisioned certificate chain is too long");
}

#[test]
fn empty_chain_is_refused() {
    assert_eq!(split_error(b""), "provisioned certificate chain is empty");
}

#[test]
fn other_tags_are_refused() {
    let message = "provisioned certificate chain is not concatenated DER";
    assert_eq!(split_error(&[0x30]), message);
    assert_eq!(split_error(&[0x31, 0]), message);
    let mut trailing = sequence(1);
    trailing.push(0);
    assert_eq!(split_error(&trailing), message);
}

#[test]
fn bad_lengths_are_refused() {
    let invalid = "provisioned certificate has an invalid DER length";
    assert_eq!(split_error(&[0x30, 0x80, 0, 0]), invalid);
    assert_eq!(split_error(&[0x30, 0x89, 1, 1, 1, 1, 1, 1, 1, 1, 1]), invalid);
    let truncated = "provisioned certificate has a truncated or non-canonical DER length";
    assert_eq!(split_error(&[0x30, 0x82, 1]), truncated);
    assert_eq!(split_error(&[0x30, 0x82, 0, 200]), truncated);
    assert_eq!(
        split_error(&[0x30, 0x81, 0x7f]),
        "provisioned certificate has a non-canonical DER length"
    );
    assert_eq!(split_error(&[0x30, 0x03, 1, 2]), "provisioned certificate is truncated");
    assert_eq!(split_error(&[0x30, 0x81, 0x80]), "provisioned certificate is truncated");
}

#[test]
fn overflowing_length_is_refused() {
    let mut encoded = vec![0x30, 0x80 | std::mem::size_of::<usize>() as u8];
    encoded.extend(vec![0xff; std::mem::size_of::<usize>()]);
    assert_eq!(split_error(&encoded), "provisioned certificate DER length overflowed");
}

#[test]
fn chains_put_end_to_end_split_into_both() {
    let first = [sequence(1), sequence(300)].concat();
    let second = [sequence(0), sequence(128)].concat();
    let both = [first.clone(), second.clone()].concat();
    let mut parts = split_concatenated_der_certificates(&first).unwrap();
    parts.extend(split_concatenated_der_certificates(&second).unwrap());
    assert_eq!(split_concatenated_der_certificates(&both).unwrap(), parts);
    let nine = sequence(1).repeat(9);
    assert_eq!(split_concatenated_der_certificates(&nine).unwrap().len(), 9);
    let eighteen = [nine.clone(), nine].concat();
    assert_eq!(split_error(&eighteen), "provisioned certificate chain is too long");
}
