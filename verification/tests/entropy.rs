use kitties::{payload, AccountId, Module};
use parity_scale_codec::Encode;

fn seed() -> [u8; 32] {
    let mut seed = [0u8; 32];
    for i in 0..32 {
        seed[i] = i as u8;
    }
    seed
}

fn alice() -> AccountId {
    AccountId(b"alice".to_vec())
}

fn bob() -> AccountId {
    AccountId(b"bob".to_vec())
}

#[test]
fn payload_with_an_index_is_seed_sender_and_encoded_index() {
    let bytes = payload(&seed(), &alice(), Some(258));
    let mut expected = seed().to_vec();
    expected.extend_from_slice(b"alice");
    expected.extend_from_slice(&[0x01, 0x02, 0x01, 0x00, 0x00]);
    assert_eq!(bytes, expected);
    assert_eq!(bytes.len(), 42);
}

#[test]
fn payload_without_an_index_ends_in_a_single_zero() {
    let bytes = payload(&[7, 8], &AccountId(vec![9]), None);
    assert_eq!(bytes, vec![7, 8, 9, 0]);
}

#[test]
fn payload_writes_the_index_lowest_byte_first() {
    assert_eq!(payload(&[], &AccountId(vec![]), Some(0)), vec![1, 0, 0, 0, 0]);
    assert_eq!(payload(&[], &AccountId(vec![]), Some(1)), vec![1, 1, 0, 0, 0]);
    assert_eq!(payload(&[], &AccountId(vec![]), Some(0x12345678)), vec![1, 0x78, 0x56, 0x34, 0x12]);
    assert_eq!(payload(&[], &AccountId(vec![]), Some(u32::MAX)), vec![1, 0xff, 0xff, 0xff, 0xff]);
    assert_eq!(payload(&[], &AccountId(vec![]), None), vec![0]);
}

#[test]
fn payload_is_the_codec_encoding_of_the_three() {
    let sender: [u8; 5] = *b"alice";
    for index in [None, Some(0u32), Some(1), Some(258), Some(u32::MAX)] {
        let expected = (seed(), sender, index).encode();
        assert_eq!(payload(&seed(), &alice(), index), expected);
    }
}

#[test]
fn random_value_of_known_inputs() {
    assert_eq!(
        Module::random_value(&seed(), &alice(), Some(0)),
        [
            0xc7, 0xea, 0x30, 0xde, 0x62, 0x1a, 0x77, 0x57, 0x18, 0x6f, 0x3a, 0xff, 0xd3, 0xf5,
            0xc7, 0xe0
        ]
    );
    assert_eq!(
        Module::random_value(&seed(), &alice(), None),
        [
            0xcf, 0xe6, 0x4e, 0x29, 0x5b, 0xbb, 0xfd, 0xe2, 0xf9, 0xa6, 0x9a, 0xb3, 0xe9, 0x83,
            0x06, 0x22
        ]
    );
    assert_eq!(
        Module::random_value(&seed(), &bob(), Some(258)),
        [
            0xe9, 0xc2, 0x29, 0x3f, 0x4a, 0xf8, 0x3d, 0x70, 0xe7, 0x89, 0xb5, 0x78, 0xdd, 0xdb,
            0x38, 0x62
        ]
    );
}

#[test]
fn random_value_of_nothing_is_the_hash_of_one_zero_byte() {
    let expected = [
        0x70, 0x25, 0xe0, 0x75, 0xd5, 0xe2, 0xf6, 0xcd, 0xe3, 0xcc, 0x05, 0x1a, 0x31, 0xf0, 0x76,
        0x60,
    ];
    assert_eq!(Module::random_value(&[], &AccountId(vec![]), None), expected);
    assert_eq!(sp_io::hashing::blake2_128(&[0]), expected);
}

#[test]
fn random_value_is_the_hash_of_the_encoded_three() {
    let sender: [u8; 5] = *b"alice";
    for index in [None, Some(0u32), Some(7), Some(u32::MAX)] {
        let expected = (seed(), sender, index).using_encoded(sp_io::hashing::blake2_128);
        assert_eq!(Module::random_value(&seed(), &alice(), index), expected);
    }
}

#[test]
fn random_value_is_the_same_for_the_same_three() {
    let first = Module::random_value(&seed(), &alice(), Some(3));
    let second = Module::random_value(&seed(), &alice(), Some(3));
    assert_eq!(first, second);
}

#[test]
fn random_value_differs_with_index_seed_and_sender() {
    let base = Module::random_value(&seed(), &alice(), Some(3));
    assert_ne!(base, Module::random_value(&seed(), &alice(), Some(4)));
    assert_ne!(base, Module::random_value(&seed(), &alice(), None));
    assert_ne!(base, Module::random_value(&seed(), &bob(), Some(3)));
    assert_ne!(base, Module::random_value(&[1u8; 32], &alice(), Some(3)));
}

#[test]
fn accounts_are_the_same_exactly_when_their_bytes_are() {
    assert!(alice().same(&alice()));
    assert!(!alice().same(&bob()));
    assert!(!AccountId(vec![1, 2]).same(&AccountId(vec![1, 2, 3])));
    assert!(!AccountId(vec![1, 2, 3]).same(&AccountId(vec![1, 2, 4])));
    assert!(AccountId(vec![]).same(&AccountId(vec![])));
    assert_eq!(alice(), alice());
    assert_ne!(alice(), bob());
    assert_eq!(alice().clone(), alice());
}
