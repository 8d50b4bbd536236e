//! Errors of the aggregation operations, and their messages.

use vstd::prelude::*;
use vstd::string::StringExecFns;

verus! {

/// What can go wrong in an aggregation, with the data that tells where.
#[derive(Debug, Clone, PartialEq, Eq)]
pub enum AggregationError {
    /// Empty batch provided.
    EmptyBatch,
    /// Duplicate epoch under a single key.
    DuplicateEpoch { epoch: u32 },
    /// Public keys that should be equal differ.
    MismatchedPublicKey { expected: String, found: String },
    /// The same pair of public key and epoch occurs twice.
    DuplicateKeyEpochPair { public_key: String, epoch: u32 },
    /// A public key is missing where the mode requires one.
    MissingPublicKey { mode: String },
    /// The batch is larger than the prover's memory allows.
    BatchTooLarge { size: usize, max: usize },
    /// The signature at `index` failed verification.
    InvalidSignature { index: usize },
    /// The count of verified signatures is not the expected one.
    VerificationMismatch { expected: usize, actual: usize },
    /// The proof is cryptographically invalid.
    InvalidProof,
    /// Serialization failed.
    SerializationError { message: String },
    /// Compilation of the guest program failed.
    CompilationError { message: String },
    /// Generation of the proof failed.
    ProofGenerationError { message: String },
    /// Verification of the proof failed.
    ProofVerificationError { message: String },
    /// The memory limit was exceeded during execution.
    MemoryExhausted { used: usize, limit: usize },
}

/// The character of a decimal digit.
pub open spec fn digit_char(digit: nat) -> char {
    if digit == 0 {
        '0'
    } else if digit == 1 {
        '1'
    } else if digit == 2 {
        '2'
    } else if digit == 3 {
        '3'
    } else if digit == 4 {
        '4'
    } else if digit == 5 {
        '5'
    } else if digit == 6 {
        '6'
    } else if digit == 7 {
        '7'
    } else if digit == 8 {
        '8'
    } else {
        '9'
    }
}

/// A number written in decimal, without leading zeros.
pub open spec fn decimal(number: nat) -> Seq<char>
    decreases number,
{
    if number < 10 {
        seq![digit_char(number)]
    } else {
        decimal(number / 10).push(digit_char(number % 10))
    }
}

/// The text of one decimal digit.
fn digit_text(digit: u64) -> (text: &'static str)
    requires
        digit < 10,
    ensures
        text@ == seq![digit_char(digit as nat)],
{
    proof {
        reveal_strlit("0");
        reveal_strlit("1");
        reveal_strlit("2");
        reveal_strlit("3");
        reveal_strlit("4");
        reveal_strlit("5");
        reveal_strlit("6");
        reveal_strlit("7");
        reveal_strlit("8");
        reveal_strlit("9");
    }
    let text = if digit == 0 {
        "0"
    } else if digit == 1 {
        "1"
    } else if digit == 2 {
        "2"
    } else if digit == 3 {
        "3"
    } else if digit == 4 {
        "4"
    } else if digit == 5 {
        "5"
    } else if digit == 6 {
        "6"
    } else if digit == 7 {
        "7"
    } else if digit == 8 {
        "8"
    } else {
        "9"
    };
    assert(text@ =~= seq![digit_char(digit as nat)]);
    text
}

/// Appends the decimal text of `number` to `text`.
pub(crate) fn append_decimal(text: &mut String, number: u64)
    ensures
        final(text)@ == old(text)@ + decimal(number as nat),
    decreases number,
{
    if number >= 10 {
        append_decimal(text, number / 10);
    }
    text.append(digit_text(number % 10));
    assert(text@ =~= old(text)@ + decimal(number as nat));
}

impl AggregationError {
    /// The message of the error.
    pub open spec fn message(self) -> Seq<char> {
        match self {
            AggregationError::EmptyBatch => "Empty batch: at least one signature required"@,
            AggregationError::DuplicateEpoch { epoch } => "Duplicate epoch "@ + decimal(
                epoch as nat,
            ) + " in SingleKey aggregation mode"@,
            AggregationError::MismatchedPublicKey { expected, found } => {
                "Mismatched public key: expected "@ + expected@ + ", found "@ + found@
            },
            AggregationError::DuplicateKeyEpochPair { public_key, epoch } => {
                "Duplicate (public_key, epoch) pair: ("@ + public_key@ + ", "@ + decimal(
                    epoch as nat,
                ) + ") in MultiKey mode"@
            },
            AggregationError::MissingPublicKey { mode } => "Missing public key in "@ + mode@
                + " mode"@,
            AggregationError::BatchTooLarge { size, max } => "Batch size "@ + decimal(size as nat)
                + " exceeds maximum "@ + decimal(max as nat) + " (zkVM memory limit)"@,
            AggregationError::InvalidSignature { index } => "Invalid signature at index "@
                + decimal(index as nat),
            AggregationError::VerificationMismatch { expected, actual } => {
                "Verification mismatch: expected "@ + decimal(expected as nat)
                    + " valid signatures, found "@ + decimal(actual as nat)
            },
            AggregationError::InvalidProof => "zkVM proof is cryptographically invalid"@,
            AggregationError::SerializationError { message } => "Serialization error: "@
                + message@,
            AggregationError::CompilationError { message } => "zkVM compilation error: "@
                + message@,
            AggregationError::ProofGenerationError { message } => {
                "zkVM proof generation error: "@ + message@
            },
            AggregationError::ProofVerificationError { message } => {
                "zkVM proof verification error: "@ + message@
            },
            AggregationError::MemoryExhausted { used, limit } => "Memory exhausted: used "@
                + decimal(used as nat) + " bytes, limit "@ + decimal(limit as nat) + " bytes"@,
        }
    }

    /// Writes the message of the error.
    pub fn to_string(&self) -> (text: String)
        ensures
            text@ == self.message(),
    {
        match self {
            AggregationError::EmptyBatch => String::from_str(
                "Empty batch: at least one signature required",
            ),
            AggregationError::DuplicateEpoch { epoch } => {
                let mut text = String::from_str("Duplicate epoch ");
                append_decimal(&mut text, *epoch as u64);
                text.append(" in SingleKey aggregation mode");
                text
            },
            AggregationError::MismatchedPublicKey { expected, found } => {
                let mut text = String::from_str("Mismatched public key: expected ");
                text.append(expected.as_str());
                text.append(", found ");
                text.append(found.as_str());
                text
            },
            AggregationError::DuplicateKeyEpochPair { public_key, epoch } => {
                let mut text = String::from_str("Duplicate (public_key, epoch) pair: (");
                text.append(public_key.as_str());
                text.append(", ");
                append_decimal(&mut text, *epoch as u64);
                text.append(") in MultiKey mode");
                text
            },
            AggregationError::MissingPublicKey { mode } => {
                let mut text = String::from_str("Missing public key in ");
                text.append(mode.as_str());
                text.append(" mode");
                text
            },
            AggregationError::BatchTooLarge { size, max } => {
                let mut text = String::from_str("Batch size ");
                append_decimal(&mut text, *size as u64);
                text.append(" exceeds maximum ");
                append_decimal(&mut text, *max as u64);
                text.append(" (zkVM memory limit)");
                text
            },
            AggregationError::InvalidSignature { index } => {
                let mut text = String::from_str("Invalid signature at index ");
                append_decimal(&mut text, *index as u64);
                text
            },
            AggregationError::VerificationMismatch { expected, actual } => {
                let mut text = String::from_str("Verification mismatch: expected ");
                append_decimal(&mut text, *expected as u64);
                text.append(" valid signatures, found ");
                append_decimal(&mut text, *actual as u64);
                text
            },
            AggregationError::InvalidProof => String::from_str(
                "zkVM proof is cryptographically invalid",
            ),
            AggregationError::SerializationError { message } => {
                let mut text = String::from_str("Serialization error: ");
                text.append(message.as_str());
                text
            },
            AggregationError::CompilationError { message } => {
                let mut text = String::from_str("zkVM compilation error: ");
                text.append(message.as_str());
                text
            },
            AggregationError::ProofGenerationError { message } => {
                let mut text = String::from_str("zkVM proof generation error: ");
                text.append(message.as_str());
                text
            },
            AggregationError::ProofVerificationError { message } => {
                let mut text = String::from_str("zkVM proof verification error: ");
                text.append(message.as_str());
                text
            },
            AggregationError::MemoryExhausted { used, limit } => {
                let mut text = String::from_str("Memory exhausted: used ");
                append_decimal(&mut text, *used as u64);
                text.append(" bytes, limit ");
                append_decimal(&mut text, *limit as u64);
                text.append(" bytes");
                text
            },
        }
    }
}

} // verus!
