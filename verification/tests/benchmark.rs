use sig_agg::benchmark::{
    batch_size_or_default, cache_file_path, deterministic_message, key_strategy,
    pcs_cache_file_path, strategy_label, KeyMaterialStrategy, DEFAULT_NUM_SIGNATURES,
};
use sig_agg::types::{AggregationProof, ProofMetadata};

#[test]
fn strategies_have_their_labels() {
    assert_eq!(strategy_label(KeyMaterialStrategy::Real), "real");
    assert_eq!(strategy_label(KeyMaterialStrategy::Phony), "phony");
}

#[test]
fn batch_size_falls_back_to_the_default() {
    assert_eq!(DEFAULT_NUM_SIGNATURES, 100);
    assert_eq!(batch_size_or_default(None), 100);
    assert_eq!(batch_size_or_default(Some(0)), 100);
    assert_eq!(batch_size_or_default(Some(1)), 1);
    assert_eq!(batch_size_or_default(Some(2)), 2);
    assert_eq!(batch_size_or_default(Some(usize::MAX)), usize::MAX);
}

#[test]
fn messages_count_up_from_their_index() {
    assert_eq!(
        deterministic_message(0),
        std::array::from_fn::<u8, 32, _>(|i| i as u8)
    );
    assert_eq!(
        deterministic_message(7),
        std::array::from_fn::<u8, 32, _>(|i| 7 + i as u8)
    );
    let wrapped = deterministic_message(250);
    assert_eq!(wrapped[0], 250);
    assert_eq!(wrapped[5], 255);
    assert_eq!(wrapped[6], 0);
    assert_eq!(wrapped[31], 25);
    assert_eq!(deterministic_message(256), deterministic_message(0));
    assert_eq!(deterministic_message(usize::MAX - 32)[31], 254);
}

#[test]
fn cache_files_are_named_by_strategy_and_size() {
    assert_eq!(
        cache_file_path(100, KeyMaterialStrategy::Real),
        "./tmp/benchmark_data_real.bin"
    );
    assert_eq!(
        cache_file_path(100, KeyMaterialStrategy::Phony),
        "./tmp/benchmark_data_phony.bin"
    );
    assert_eq!(
        cache_file_path(2, KeyMaterialStrategy::Phony),
        "./tmp/benchmark_data_phony_2.bin"
    );
    assert_eq!(
        cache_file_path(1000, KeyMaterialStrategy::Real),
        "./tmp/benchmark_data_real_1000.bin"
    );
    assert_eq!(
        cache_file_path(0, KeyMaterialStrategy::Real),
        "./tmp/benchmark_data_real_0.bin"
    );
}

#[test]
fn preprocessing_cache_is_named_by_strategy() {
    assert_eq!(
        pcs_cache_file_path(KeyMaterialStrategy::Real),
        "./tmp/pcs_preprocessing_small_real.bin"
    );
    assert_eq!(
        pcs_cache_file_path(KeyMaterialStrategy::Phony),
        "./tmp/pcs_preprocessing_small_phony.bin"
    );
}

#[test]
fn proof_carries_its_metadata() {
    let metadata = ProofMetadata {
        timestamp: 1234567890,
        batch_size: 100,
        memory_size: 10240,
        trace_length: 65536,
    };
    let proof = AggregationProof {
        proof: vec![1, 2, 3, 4, 5],
        verified_count: 100,
        metadata,
    };
    let copy = proof.clone();
    assert_eq!(copy.proof, proof.proof);
    assert_eq!(copy.verified_count, 100);
    assert_eq!(copy.metadata.batch_size, 100);
    assert_eq!(copy.metadata.timestamp, 1234567890);
    assert_eq!(copy.metadata.memory_size, 10240);
    assert_eq!(copy.metadata.trace_length, 65536);
}

#[test]
fn command_line_and_setting_choose_the_strategy() {
    assert_eq!(key_strategy(true, None), KeyMaterialStrategy::Phony);
    assert_eq!(key_strategy(true, Some("0")), KeyMaterialStrategy::Phony);
    assert_eq!(key_strategy(false, None), KeyMaterialStrategy::Real);
    for setting in ["1", "true", "TRUE", "True"] {
        assert_eq!(key_strategy(false, Some(setting)), KeyMaterialStrategy::Phony);
    }
    for setting in ["", "0", "false", "tRUE", "yes", "11", " 1", "true "] {
        assert_eq!(key_strategy(false, Some(setting)), KeyMaterialStrategy::Real);
    }
}
