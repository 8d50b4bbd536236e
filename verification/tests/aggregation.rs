use p3_field::PrimeCharacteristicRing;
use p3_koala_bear::KoalaBear;
use sig_agg::aggregator::{check_key_epoch_pairs, verified_count};
use sig_agg::params::MESSAGE_LENGTH;
use sig_agg::phony_xmss::generate_phony_item;
use sig_agg::types::{AggregationBatch, PublicKey};
use sig_agg::{aggregate, validate, AggregationError, VerificationItem};

fn test_key(tag: u64) -> PublicKey {
    generate_phony_item(0, [0u8; MESSAGE_LENGTH], tag).public_key
}

fn item_under(key: PublicKey, epoch: u32, message: [u8; MESSAGE_LENGTH]) -> VerificationItem {
    let signature = generate_phony_item(epoch, message, 1).signature;
    VerificationItem {
        message,
        epoch,
        signature,
        public_key: key,
    }
}

fn create_test_item(epoch: u32) -> VerificationItem {
    item_under(test_key(1), epoch, [epoch as u8; MESSAGE_LENGTH])
}

fn key_bytes(key: &PublicKey) -> Vec<u8> {
    let root: [KoalaBear; 7] = key.root.map(KoalaBear::from_u32);
    let parameter: [KoalaBear; 5] = key.parameter.map(KoalaBear::from_u32);
    bincode::serialize(&(root, parameter)).unwrap()
}

#[test]
fn test_validate_valid() {
    let items = vec![create_test_item(0), create_test_item(1), create_test_item(2)];
    assert!(validate(&items).is_ok());
}

#[test]
fn test_validate_empty_batch() {
    let items: Vec<VerificationItem> = vec![];
    let result = validate(&items);
    assert!(result.is_err());
    assert!(matches!(result.unwrap_err(), AggregationError::EmptyBatch));
}

#[test]
fn test_validate_single_item() {
    let items = vec![create_test_item(5)];
    assert!(validate(&items).is_ok());
}

#[test]
fn test_validate_large_batch() {
    let items: Vec<_> = (0..20).map(create_test_item).collect();
    assert!(validate(&items).is_ok());
}

#[test]
fn test_validate_duplicate_key_epoch_pair() {
    let key = test_key(1);
    let item1 = item_under(key, 5, [1u8; MESSAGE_LENGTH]);
    let item2 = item_under(key, 5, [2u8; MESSAGE_LENGTH]);
    let items = vec![item1, item2];
    let result = validate(&items);
    assert!(result.is_err());
    match result.unwrap_err() {
        AggregationError::DuplicateKeyEpochPair { epoch, .. } => {
            assert_eq!(epoch, 5);
        }
        _ => panic!("Expected DuplicateKeyEpochPair error"),
    }
}

#[test]
fn test_validate_same_epoch_different_keys() {
    let message = [5u8; MESSAGE_LENGTH];
    let item1 = item_under(test_key(1), 5, message);
    let item2 = item_under(test_key(2), 5, message);
    let items = vec![item1, item2];
    assert!(validate(&items).is_ok());
}

#[test]
fn test_validate_same_key_different_epochs() {
    let key = test_key(1);
    let item1 = item_under(key, 0, [1u8; MESSAGE_LENGTH]);
    let item2 = item_under(key, 1, [2u8; MESSAGE_LENGTH]);
    let items = vec![item1, item2];
    assert!(validate(&items).is_ok());
}

#[test]
fn test_aggregate_success() {
    let items = vec![create_test_item(0), create_test_item(1), create_test_item(2)];
    let result = aggregate(items);
    assert!(result.is_ok());
    let batch = result.unwrap();
    assert_eq!(batch.items.len(), 3);
}

#[test]
fn test_aggregate_empty_batch_error() {
    let items: Vec<VerificationItem> = vec![];
    let result = aggregate(items);
    assert!(result.is_err());
    match result {
        Err(AggregationError::EmptyBatch) => (),
        _ => panic!("Expected EmptyBatch error"),
    }
}

#[test]
fn test_aggregate_complexity() {
    let items: Vec<_> = (0..10).map(create_test_item).collect();
    let result = aggregate(items);
    assert!(result.is_ok());
    let batch = result.unwrap();
    assert_eq!(batch.items.len(), 10);
}

#[test]
fn test_verification_item_creation() {
    let item = item_under(test_key(1), 0, [0u8; MESSAGE_LENGTH]);
    assert_eq!(item.epoch, 0);
}

#[test]
fn test_aggregation_batch_creation() {
    let item = item_under(test_key(1), 0, [0u8; MESSAGE_LENGTH]);
    let batch = AggregationBatch { items: vec![item] };
    assert_eq!(batch.items.len(), 1);
}

#[test]
fn test_e2e_aggregation_small_batch() {
    let key = test_key(3);
    let items: Vec<VerificationItem> = (0..10)
        .map(|i| item_under(key, i as u32, [i as u8; MESSAGE_LENGTH]))
        .collect();
    let batch = aggregate(items).expect("Aggregation should succeed");
    assert_eq!(batch.items.len(), 10);
}

#[test]
fn test_e2e_invalid_signature_rejection() {
    let key = test_key(3);
    let mut items: Vec<VerificationItem> = (0..5)
        .map(|i| item_under(key, i as u32, [i as u8; MESSAGE_LENGTH]))
        .collect();
    let wrong_signature = generate_phony_item(5, [99u8; MESSAGE_LENGTH], 1).signature;
    items.push(VerificationItem {
        message: [5u8; MESSAGE_LENGTH],
        epoch: 5,
        signature: wrong_signature,
        public_key: key,
    });
    let batch = aggregate(items).expect("Aggregation should succeed");
    assert_eq!(batch.items.len(), 6);
}

#[test]
fn test_e2e_multi_key_aggregation() {
    let mut items = Vec::new();
    for i in 0..3 {
        items.push(item_under(test_key(10), i as u32, [i as u8; MESSAGE_LENGTH]));
    }
    for i in 0..3 {
        items.push(item_under(
            test_key(20),
            (10 + i) as u32,
            [(10 + i) as u8; MESSAGE_LENGTH],
        ));
    }
    for i in 0..3 {
        items.push(item_under(
            test_key(30),
            (20 + i) as u32,
            [(20 + i) as u8; MESSAGE_LENGTH],
        ));
    }
    let batch = aggregate(items).expect("Multi-key aggregation should succeed");
    assert_eq!(batch.items.len(), 9);
}

#[test]
fn test_e2e_error_handling() {
    let result = aggregate(vec![]);
    assert!(matches!(result, Err(AggregationError::EmptyBatch)));

    let key = test_key(4);
    let items: Vec<VerificationItem> = vec![
        item_under(key, 0, [0u8; MESSAGE_LENGTH]),
        item_under(key, 0, [1u8; MESSAGE_LENGTH]),
    ];
    let result = aggregate(items);
    assert!(matches!(
        result,
        Err(AggregationError::DuplicateKeyEpochPair { epoch: 0, .. })
    ));
}

#[test]
fn duplicate_is_reported_with_the_label_of_its_key() {
    let key = PublicKey {
        root: [1, 2, 3, 4, 5, 6, 7],
        parameter: [8, 9, 10, 11, 12],
    };
    let items = vec![
        item_under(key, 7, [0u8; MESSAGE_LENGTH]),
        item_under(key, 7, [1u8; MESSAGE_LENGTH]),
    ];
    assert_eq!(
        validate(&items),
        Err(AggregationError::DuplicateKeyEpochPair {
            public_key: "feffff01fcffff03...".to_string(),
            epoch: 7,
        })
    );
    assert_eq!(
        validate(&items).unwrap_err().to_string(),
        "Duplicate (public_key, epoch) pair: (feffff01fcffff03..., 7) in MultiKey mode"
    );
}

#[test]
fn label_is_the_start_of_the_serialized_key() {
    for tag in [1u64, 2, 3] {
        let key = test_key(tag);
        let items = vec![
            item_under(key, 1, [0u8; MESSAGE_LENGTH]),
            item_under(key, 1, [0u8; MESSAGE_LENGTH]),
        ];
        let bytes = key_bytes(&key);
        assert_eq!(bytes.len(), 48);
        match validate(&items) {
            Err(AggregationError::DuplicateKeyEpochPair { public_key, epoch }) => {
                assert_eq!(public_key, format!("{}...", hex::encode(&bytes[..8])));
                assert_eq!(epoch, 1);
            }
            _ => panic!("Expected DuplicateKeyEpochPair error"),
        }
    }
}

#[test]
fn the_first_repeated_pair_is_the_one_reported() {
    let first = test_key(1);
    let second = test_key(2);
    let items = vec![
        item_under(first, 1, [0u8; MESSAGE_LENGTH]),
        item_under(second, 2, [0u8; MESSAGE_LENGTH]),
        item_under(first, 3, [0u8; MESSAGE_LENGTH]),
        item_under(second, 2, [0u8; MESSAGE_LENGTH]),
        item_under(first, 1, [0u8; MESSAGE_LENGTH]),
    ];
    match validate(&items) {
        Err(AggregationError::DuplicateKeyEpochPair { public_key, epoch }) => {
            assert_eq!(epoch, 2);
            assert_eq!(
                public_key,
                format!("{}...", hex::encode(&key_bytes(&second)[..8]))
            );
        }
        _ => panic!("Expected DuplicateKeyEpochPair error"),
    }
}

#[test]
fn keys_are_compared_as_field_elements() {
    let key = PublicKey {
        root: [1, 2, 3, 4, 5, 6, 7],
        parameter: [8, 9, 10, 11, 12],
    };
    let mut shifted = key;
    shifted.parameter[4] += 2130706433;
    let items = vec![
        item_under(key, 0, [0u8; MESSAGE_LENGTH]),
        item_under(shifted, 0, [0u8; MESSAGE_LENGTH]),
    ];
    assert!(matches!(
        validate(&items),
        Err(AggregationError::DuplicateKeyEpochPair { epoch: 0, .. })
    ));
    let mut other = key;
    other.parameter[4] += 1;
    let items = vec![
        item_under(key, 0, [0u8; MESSAGE_LENGTH]),
        item_under(other, 0, [0u8; MESSAGE_LENGTH]),
    ];
    assert!(validate(&items).is_ok());
}

#[test]
fn pairs_are_checked_on_their_bytes_and_epochs() {
    assert_eq!(check_key_epoch_pairs(&[]), Ok(()));
    assert_eq!(check_key_epoch_pairs(&[(vec![1, 2], 0)]), Ok(()));
    assert_eq!(
        check_key_epoch_pairs(&[(vec![1, 2], 0), (vec![1, 2], 1), (vec![1, 3], 0), (vec![1], 0)]),
        Ok(())
    );
    assert_eq!(
        check_key_epoch_pairs(&[(vec![0xab, 0x0c], 4), (vec![1], 4), (vec![0xab, 0x0c], 4)]),
        Err(AggregationError::DuplicateKeyEpochPair {
            public_key: "ab0c...".to_string(),
            epoch: 4,
        })
    );
    assert_eq!(
        check_key_epoch_pairs(&[(vec![], 9), (vec![], 9)]),
        Err(AggregationError::DuplicateKeyEpochPair {
            public_key: "...".to_string(),
            epoch: 9,
        })
    );
    let long: Vec<u8> = (0..20u8).map(|i| i * 13).collect();
    assert_eq!(
        check_key_epoch_pairs(&[(long.clone(), 1), (long, 1)]),
        Err(AggregationError::DuplicateKeyEpochPair {
            public_key: "000d1a2734414e5b...".to_string(),
            epoch: 1,
        })
    );
}

#[test]
fn aggregation_keeps_the_items_in_order() {
    let items: Vec<_> = (0..4).map(create_test_item).collect();
    let batch = aggregate(items.clone()).unwrap();
    assert_eq!(batch.items, items);
}

#[test]
fn valid_outcomes_are_counted() {
    assert_eq!(verified_count(&[]), 0);
    assert_eq!(verified_count(&[true]), 1);
    assert_eq!(verified_count(&[false]), 0);
    assert_eq!(verified_count(&[true, false, true, true, false]), 3);
    assert_eq!(verified_count(&vec![true; 1000]), 1000);
}
