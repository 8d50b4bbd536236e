use sig_agg::error::AggregationError;

#[test]
fn test_empty_batch_error() {
    let error = AggregationError::EmptyBatch;
    assert_eq!(
        error.to_string(),
        "Empty batch: at least one signature required"
    );
}

#[test]
fn test_duplicate_epoch_error() {
    let error = AggregationError::DuplicateEpoch { epoch: 42 };
    assert_eq!(
        error.to_string(),
        "Duplicate epoch 42 in SingleKey aggregation mode"
    );
}

#[test]
fn test_mismatched_public_key_error() {
    let error = AggregationError::MismatchedPublicKey {
        expected: "pk1".to_string(),
        found: "pk2".to_string(),
    };
    assert_eq!(
        error.to_string(),
        "Mismatched public key: expected pk1, found pk2"
    );
}

#[test]
fn test_duplicate_key_epoch_pair_error() {
    let error = AggregationError::DuplicateKeyEpochPair {
        public_key: "pk1".to_string(),
        epoch: 5,
    };
    assert_eq!(
        error.to_string(),
        "Duplicate (public_key, epoch) pair: (pk1, 5) in MultiKey mode"
    );
}

#[test]
fn test_missing_public_key_error() {
    let error = AggregationError::MissingPublicKey {
        mode: "MultiKey".to_string(),
    };
    assert_eq!(error.to_string(), "Missing public key in MultiKey mode");
}

#[test]
fn test_batch_too_large_error() {
    let error = AggregationError::BatchTooLarge {
        size: 10000,
        max: 1000,
    };
    assert_eq!(
        error.to_string(),
        "Batch size 10000 exceeds maximum 1000 (zkVM memory limit)"
    );
}

#[test]
fn test_invalid_signature_error() {
    let error = AggregationError::InvalidSignature { index: 42 };
    assert_eq!(error.to_string(), "Invalid signature at index 42");
}

#[test]
fn test_verification_mismatch_error() {
    let error = AggregationError::VerificationMismatch {
        expected: 100,
        actual: 95,
    };
    assert_eq!(
        error.to_string(),
        "Verification mismatch: expected 100 valid signatures, found 95"
    );
}

#[test]
fn test_invalid_proof_error() {
    let error = AggregationError::InvalidProof;
    assert_eq!(error.to_string(), "zkVM proof is cryptographically invalid");
}

#[test]
fn test_serialization_error() {
    let error = AggregationError::SerializationError {
        message: "invalid format".to_string(),
    };
    assert_eq!(error.to_string(), "Serialization error: invalid format");
}

#[test]
fn test_compilation_error() {
    let error = AggregationError::CompilationError {
        message: "guest build failed".to_string(),
    };
    assert_eq!(
        error.to_string(),
        "zkVM compilation error: guest build failed"
    );
}

#[test]
fn test_proof_generation_error() {
    let error = AggregationError::ProofGenerationError {
        message: "trace too long".to_string(),
    };
    assert_eq!(
        error.to_string(),
        "zkVM proof generation error: trace too long"
    );
}

#[test]
fn test_proof_verification_error() {
    let error = AggregationError::ProofVerificationError {
        message: "invalid proof bytes".to_string(),
    };
    assert_eq!(
        error.to_string(),
        "zkVM proof verification error: invalid proof bytes"
    );
}

#[test]
fn test_memory_exhausted_error() {
    let error = AggregationError::MemoryExhausted {
        used: 15000,
        limit: 10240,
    };
    assert_eq!(
        error.to_string(),
        "Memory exhausted: used 15000 bytes, limit 10240 bytes"
    );
}

#[test]
fn test_error_equality() {
    let error1 = AggregationError::EmptyBatch;
    let error2 = AggregationError::EmptyBatch;
    assert_eq!(error1, error2);

    let error3 = AggregationError::DuplicateEpoch { epoch: 5 };
    let error4 = AggregationError::DuplicateEpoch { epoch: 5 };
    assert_eq!(error3, error4);
}

#[test]
fn test_error_clone() {
    let error = AggregationError::InvalidProof;
    let error_clone = error.clone();
    assert_eq!(error, error_clone);
}

#[test]
fn test_error_debug() {
    let error = AggregationError::EmptyBatch;
    let debug_str = format!("{:?}", error);
    assert!(debug_str.contains("EmptyBatch"));
}

#[test]
fn test_error_trait_implementation() {
    let error: Box<AggregationError> = Box::new(AggregationError::EmptyBatch);
    assert!(error.to_string().contains("Empty batch"));
}

#[test]
fn test_error_context_data() {
    let error = AggregationError::DuplicateEpoch { epoch: 123 };
    match error {
        AggregationError::DuplicateEpoch { epoch } => assert_eq!(epoch, 123),
        _ => panic!("Wrong error variant"),
    }

    let error = AggregationError::BatchTooLarge {
        size: 5000,
        max: 1000,
    };
    match error {
        AggregationError::BatchTooLarge { size, max } => {
            assert_eq!(size, 5000);
            assert_eq!(max, 1000);
        }
        _ => panic!("Wrong error variant"),
    }
}

#[test]
fn decimal_text_of_zero_and_of_the_largest_values() {
    assert_eq!(
        AggregationError::InvalidSignature { index: 0 }.to_string(),
        "Invalid signature at index 0"
    );
    assert_eq!(
        AggregationError::DuplicateEpoch { epoch: u32::MAX }.to_string(),
        "Duplicate epoch 4294967295 in SingleKey aggregation mode"
    );
    assert_eq!(
        AggregationError::InvalidSignature { index: usize::MAX }.to_string(),
        format!("Invalid signature at index {}", usize::MAX)
    );
    assert_eq!(
        AggregationError::BatchTooLarge { size: 10, max: 9 }.to_string(),
        "Batch size 10 exceeds maximum 9 (zkVM memory limit)"
    );
}
