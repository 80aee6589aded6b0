use cross_contract_flipper::bytes::{copy_bytes, decode_flag, encode_flag, same_bytes};
use cross_contract_flipper::reference::{AccountId, CodeReference};

fn counting() -> [u8; 32] {
    let mut bytes = [0u8; 32];
    for (i, byte) in bytes.iter_mut().enumerate() {
        *byte = (i * 7 + 3) as u8;
    }
    bytes
}

#[test]
fn code_reference_keeps_its_bytes() {
    let bytes = counting();
    assert_eq!(CodeReference::new(bytes).to_bytes(), bytes);
}

#[test]
fn code_references_are_the_same_when_their_bytes_are() {
    let bytes = counting();
    let mut last_differs = bytes;
    last_differs[31] ^= 1;
    let mut first_differs = bytes;
    first_differs[0] ^= 0x80;
    let reference = CodeReference::new(bytes);
    assert!(reference.same_as(&CodeReference::new(bytes)));
    assert!(!reference.same_as(&CodeReference::new(last_differs)));
    assert!(!reference.same_as(&CodeReference::new(first_differs)));
}

#[test]
fn account_id_keeps_its_bytes() {
    let bytes = counting();
    assert_eq!(AccountId::new(bytes).to_bytes(), bytes);
}

#[test]
fn byte_strings_are_the_same_when_length_and_bytes_are() {
    assert!(same_bytes(&[], &[]));
    assert!(same_bytes(&[1, 2], &[1, 2]));
    assert!(!same_bytes(&[1, 2], &[1, 2, 3]));
    assert!(!same_bytes(&[1, 2, 3], &[1, 2]));
    assert!(!same_bytes(&[1, 2], &[1, 3]));
}

#[test]
fn copy_of_bytes_holds_the_same_bytes() {
    assert_eq!(copy_bytes(&[]), Vec::<u8>::new());
    assert_eq!(copy_bytes(&[5, 0, 255]), vec![5, 0, 255]);
}

#[test]
fn flag_is_encoded_as_one_byte() {
    assert_eq!(encode_flag(true), vec![1]);
    assert_eq!(encode_flag(false), vec![0]);
}

#[test]
fn flag_decodes_as_true_only_from_the_single_byte_one() {
    assert!(decode_flag(&[1]));
    assert!(!decode_flag(&[0]));
    assert!(!decode_flag(&[]));
    assert!(!decode_flag(&[2]));
    assert!(!decode_flag(&[1, 1]));
    assert!(!decode_flag(&[1, 0]));
}

#[test]
fn flag_survives_encoding() {
    assert!(decode_flag(&encode_flag(true)));
    assert!(!decode_flag(&encode_flag(false)));
}
