//! What a benchmark run is made of: the kind of key material, the messages
//! to sign, and the names of the cache files.

use crate::error::{append_decimal, decimal};
use crate::params::MESSAGE_LENGTH;
use crate::types::Message;
use vstd::prelude::*;
use vstd::string::StringExecFns;

verus! {

/// Signatures in a batch where nothing else is asked for.
pub const DEFAULT_NUM_SIGNATURES: usize = 100;

/// Where the signatures of a benchmark come from.
#[derive(Clone, Copy, Debug, PartialEq, Eq, Structural)]
pub enum KeyMaterialStrategy {
    /// A real key pair signs every message.
    Real,
    /// Keys and signatures are synthesized, one pair for each message.
    Phony,
}

/// The name of a strategy in file names and messages.
pub open spec fn strategy_label_spec(strategy: KeyMaterialStrategy) -> Seq<char> {
    match strategy {
        KeyMaterialStrategy::Real => "real"@,
        KeyMaterialStrategy::Phony => "phony"@,
    }
}

/// The name of a strategy in file names and messages.
pub fn strategy_label(strategy: KeyMaterialStrategy) -> (label: &'static str)
    ensures
        label@ == strategy_label_spec(strategy),
{
    match strategy {
        KeyMaterialStrategy::Real => "real",
        KeyMaterialStrategy::Phony => "phony",
    }
}

/// The batch size of a run: the override where one is given and positive,
/// and the default otherwise.
pub fn batch_size_or_default(requested: Option<usize>) -> (size: usize)
    ensures
        size == match requested {
            Some(value) if value > 0 => value,
            _ => DEFAULT_NUM_SIGNATURES,
        },
        size > 0,
{
    match requested {
        Some(value) => if value > 0 {
            value
        } else {
            DEFAULT_NUM_SIGNATURES
        },
        None => DEFAULT_NUM_SIGNATURES,
    }
}

/// The setting asks for synthesized keys: it reads `1`, `true`, `TRUE` or
/// `True`.
pub open spec fn asks_for_phony_keys(setting: Seq<char>) -> bool {
    setting == "1"@ || setting == "true"@ || setting == "TRUE"@ || setting == "True"@
}

/// Whether `text` is the literal `word`.
fn reads(text: &str, word: &str) -> (same: bool)
    ensures
        same == (text@ == word@),
{
    String::from_str(text) == String::from_str(word)
}

/// The strategy of a run: synthesized keys where the command line asks for
/// them, or where the setting, stripped of surrounding white space, does;
/// real keys otherwise.
pub fn key_strategy(cli_requests_phony: bool, setting: Option<&str>) -> (strategy:
    KeyMaterialStrategy)
    ensures
        strategy == if cli_requests_phony {
            KeyMaterialStrategy::Phony
        } else {
            match setting {
                Some(text) if asks_for_phony_keys(text@) => KeyMaterialStrategy::Phony,
                _ => KeyMaterialStrategy::Real,
            }
        },
{
    if cli_requests_phony {
        return KeyMaterialStrategy::Phony;
    }
    match setting {
        Some(text) => if reads(text, "1") || reads(text, "true") || reads(text, "TRUE") || reads(
            text,
            "True",
        ) {
            KeyMaterialStrategy::Phony
        } else {
            KeyMaterialStrategy::Real
        },
        None => KeyMaterialStrategy::Real,
    }
}

/// The message that is signed at `index` of a benchmark: byte `offset` is
/// `index + offset`, kept to its low eight bits.
pub fn deterministic_message(index: usize) -> (message: Message)
    requires
        index + MESSAGE_LENGTH <= usize::MAX,
    ensures
        forall|offset: int|
            0 <= offset < MESSAGE_LENGTH ==> message[offset] as int == (index + offset) % 256,
{
    let mut message = [0u8;MESSAGE_LENGTH];
    let mut offset: usize = 0;
    while offset < MESSAGE_LENGTH
        invariant
            0 <= offset <= MESSAGE_LENGTH,
            index + MESSAGE_LENGTH <= usize::MAX,
            forall|before: int|
                0 <= before < offset ==> message[before] as int == (index + before) % 256,
        decreases MESSAGE_LENGTH - offset,
    {
        let sum: usize = index + offset;
        let byte: u8 = #[verifier::truncate] (sum as u8);
        assert(byte == sum % 256) by (bit_vector)
            requires
                byte == #[verifier::truncate] (sum as u8),
        ;
        message[offset] = byte;
        offset += 1;
    }
    message
}

/// The path of the file that caches the batch of a run.
pub open spec fn cache_file_path_spec(num_signatures: usize, strategy: KeyMaterialStrategy) -> Seq<
    char,
> {
    if num_signatures == DEFAULT_NUM_SIGNATURES {
        "./tmp/benchmark_data_"@ + strategy_label_spec(strategy) + ".bin"@
    } else {
        "./tmp/benchmark_data_"@ + strategy_label_spec(strategy) + "_"@ + decimal(
            num_signatures as nat,
        ) + ".bin"@
    }
}

/// The path of the file that caches the batch of a run: one file for each
/// strategy, and for each batch size other than the default.
pub fn cache_file_path(num_signatures: usize, strategy: KeyMaterialStrategy) -> (path: String)
    ensures
        path@ == cache_file_path_spec(num_signatures, strategy),
{
    let mut path = String::from_str("./tmp/benchmark_data_");
    path.append(strategy_label(strategy));
    if num_signatures != DEFAULT_NUM_SIGNATURES {
        path.append("_");
        append_decimal(&mut path, num_signatures as u64);
    }
    path.append(".bin");
    path
}

/// The path of the file that caches the prover's preprocessing for a
/// strategy.
pub fn pcs_cache_file_path(strategy: KeyMaterialStrategy) -> (path: String)
    ensures
        path@ == "./tmp/pcs_preprocessing_small_"@ + strategy_label_spec(strategy) + ".bin"@,
{
    let mut path = String::from_str("./tmp/pcs_preprocessing_small_");
    path.append(strategy_label(strategy));
    path.append(".bin");
    path
}

} // verus!
