//! Validation of a batch of signatures and its preparation for the prover.

use crate::codec::byte_digits;
use crate::error::{digit_char, AggregationError};
use crate::field::ORDER;
use crate::types::{AggregationBatch, PublicKey, PublicKeyView, VerificationItem};
use p3_field::PrimeCharacteristicRing;
use p3_koala_bear::KoalaBear;
use vstd::prelude::*;
use vstd::slice::slice_subrange;
use vstd::string::StringExecFns;

verus! {

/// The error of `bincode`.
#[verifier::external_type_specification]
#[verifier::external_body]
pub struct ExErrorKind(bincode::ErrorKind);

/// The Montgomery form in which a field element is stored and serialized:
/// the element times `2^32`, reduced.
pub open spec fn monty_form(element: u32) -> u32 {
    (((element as nat) * 0x1_0000_0000) % (ORDER as nat)) as u32
}

/// The bytes of a public key: the root and the parameter, each element in
/// Montgomery form as four bytes, least significant first.
pub open spec fn public_key_bytes(public_key: PublicKeyView) -> Seq<u8> {
    let elements = public_key.root + public_key.parameter;
    Seq::new(
        4 * elements.len(),
        |i: int| byte_digits(monty_form(elements[i / 4]) as nat, 256, 4)[i % 4],
    )
}

/// The character of a hexadecimal digit, in lower case.
pub open spec fn hex_char(digit: nat) -> char {
    if digit < 10 {
        digit_char(digit)
    } else if digit == 10 {
        'a'
    } else if digit == 11 {
        'b'
    } else if digit == 12 {
        'c'
    } else if digit == 13 {
        'd'
    } else if digit == 14 {
        'e'
    } else {
        'f'
    }
}

/// Bytes in hexadecimal: two digits for each byte, the high one first.
pub open spec fn hex_text(bytes: Seq<u8>) -> Seq<char> {
    Seq::new(
        2 * bytes.len(),
        |i: int|
            if i % 2 == 0 {
                hex_char((bytes[i / 2] / 16) as nat)
            } else {
                hex_char((bytes[i / 2] % 16) as nat)
            },
    )
}

/// `bincode::serialize` of the root and the parameter as `KoalaBear`
/// elements, which `p3` writes in Montgomery form: with the fixed-width
/// little-endian integers of `bincode`'s default that is four bytes for each
/// element, in order, and nothing else. Nothing is claimed of a failure.
#[verifier::external_body]
fn serialize_public_key(public_key: &PublicKey) -> (result: Result<Vec<u8>, Box<bincode::ErrorKind>>)
    ensures
        result matches Ok(bytes) ==> bytes@ == public_key_bytes(public_key@),
{
    let root: [KoalaBear; 7] = public_key.root.map(KoalaBear::from_u32);
    let parameter: [KoalaBear; 5] = public_key.parameter.map(KoalaBear::from_u32);
    bincode::serialize(&(root, parameter))
}

/// The text of an error of `bincode`, as its `Display` writes it.
#[verifier::external_body]
fn error_text(error: &Box<bincode::ErrorKind>) -> (text: String) {
    error.to_string()
}

/// `hex::encode`: two lower-case hexadecimal digits for each byte, the
/// high one first.
#[verifier::external_body]
fn hex_encode(bytes: &[u8]) -> (text: String)
    ensures
        text@ == hex_text(bytes@),
{
    hex::encode(bytes)
}

/// A public key, serialized, with the epoch it signed at.
pub type KeyEpochPair = (Vec<u8>, u32);

/// The pair at `index` occurred before.
pub open spec fn pair_repeats(pairs: Seq<(Seq<u8>, u32)>, index: int) -> bool {
    exists|earlier: int| 0 <= earlier < index && #[trigger] pairs[earlier] == pairs[index]
}

/// No pair occurs twice.
pub open spec fn pairs_are_unique(pairs: Seq<(Seq<u8>, u32)>) -> bool {
    forall|index: int| 0 <= index < pairs.len() ==> !#[trigger] pair_repeats(pairs, index)
}

/// The name a key goes by in a message: its first eight bytes in
/// hexadecimal, or all of them where there are fewer, and three dots.
pub open spec fn key_label(bytes: Seq<u8>) -> Seq<char> {
    hex_text(
        bytes.take(
            if bytes.len() < 8 {
                bytes.len() as int
            } else {
                8
            },
        ),
    ) + "..."@
}

/// The pairs as values: the bytes of each key as a sequence.
pub open spec fn pairs_view(pairs: Seq<KeyEpochPair>) -> Seq<(Seq<u8>, u32)> {
    Seq::new(pairs.len(), |i: int| (pairs[i].0@, pairs[i].1))
}

/// `error` reports the first pair of `pairs` that occurred before.
pub open spec fn reports_first_repeat(pairs: Seq<(Seq<u8>, u32)>, error: AggregationError) -> bool {
    exists|index: int|
        {
            &&& 0 <= index < pairs.len()
            &&& #[trigger] pair_repeats(pairs, index)
            &&& forall|before: int| 0 <= before < index ==> !#[trigger] pair_repeats(pairs, before)
            &&& error matches AggregationError::DuplicateKeyEpochPair { public_key, epoch }
            &&& public_key@ == key_label(pairs[index].0)
            &&& epoch == pairs[index].1
        }
}

/// The error that reports a repeated pair of key and epoch.
fn repeated_pair_error(bytes: &[u8], epoch: u32) -> (error: AggregationError)
    ensures
        error matches AggregationError::DuplicateKeyEpochPair { public_key, epoch: reported }
            && public_key@ == key_label(bytes@) && reported == epoch,
{
    let shown = if bytes.len() < 8 {
        bytes.len()
    } else {
        8
    };
    let mut label = hex_encode(slice_subrange(bytes, 0, shown));
    label.append("...");
    assert(bytes@.take(shown as int) =~= bytes@.subrange(0, shown as int));
    AggregationError::DuplicateKeyEpochPair { public_key: label, epoch }
}

/// The two byte strings are equal.
fn bytes_equal(left: &[u8], right: &[u8]) -> (equal: bool)
    ensures
        equal == (left@ == right@),
{
    if left.len() != right.len() {
        return false;
    }
    let mut i: usize = 0;
    while i < left.len()
        invariant
            0 <= i <= left@.len(),
            left@.len() == right@.len(),
            forall|k: int| 0 <= k < i ==> left@[k] == right@[k],
        decreases left@.len() - i,
    {
        if left[i] != right[i] {
            return false;
        }
        i += 1;
    }
    assert(left@ =~= right@);
    true
}

/// Checks that no pair of public key and epoch occurs twice. The first
/// pair that occurred before is reported with the label of its key.
pub fn check_key_epoch_pairs(pairs: &[KeyEpochPair]) -> (result: Result<(), AggregationError>)
    ensures
        result is Ok <==> pairs_are_unique(pairs_view(pairs@)),
        result matches Err(error) ==> reports_first_repeat(pairs_view(pairs@), error),
{
    let ghost views = pairs_view(pairs@);
    let mut index: usize = 0;
    while index < pairs.len()
        invariant
            0 <= index <= pairs@.len(),
            views == pairs_view(pairs@),
            forall|before: int| 0 <= before < index ==> !#[trigger] pair_repeats(views, before),
        decreases pairs@.len() - index,
    {
        let mut earlier: usize = 0;
        while earlier < index
            invariant
                0 <= earlier <= index < pairs@.len(),
                views == pairs_view(pairs@),
                forall|before: int| 0 <= before < index ==> !#[trigger] pair_repeats(views, before),
                forall|k: int| 0 <= k < earlier ==> #[trigger] views[k] != views[index as int],
            decreases index - earlier,
        {
            if pairs[earlier].1 == pairs[index].1 && bytes_equal(
                pairs[earlier].0.as_slice(),
                pairs[index].0.as_slice(),
            ) {
                let error = repeated_pair_error(pairs[index].0.as_slice(), pairs[index].1);
                proof {
                    assert(views[earlier as int] == views[index as int]);
                    assert(pair_repeats(views, index as int));
                    assert(reports_first_repeat(views, error));
                }
                return Err(error);
            }
            earlier += 1;
        }
        index += 1;
    }
    Ok(())
}

/// The first repeat among the first pairs is the first repeat among all.
proof fn lemma_first_repeat_of_prefix(
    pairs: Seq<(Seq<u8>, u32)>,
    served: int,
    error: AggregationError,
)
    requires
        0 <= served <= pairs.len(),
        reports_first_repeat(pairs.take(served), error),
    ensures
        reports_first_repeat(pairs, error),
{
    let prefix = pairs.take(served);
    let index = choose|index: int|
        {
            &&& 0 <= index < prefix.len()
            &&& #[trigger] pair_repeats(prefix, index)
            &&& forall|before: int|
                0 <= before < index ==> !#[trigger] pair_repeats(prefix, before)
            &&& error matches AggregationError::DuplicateKeyEpochPair { public_key, epoch }
            &&& public_key@ == key_label(prefix[index].0)
            &&& epoch == prefix[index].1
        };
    let earlier = choose|earlier: int| 0 <= earlier < index && #[trigger] prefix[earlier] == prefix[index];
    assert(pairs[earlier] == pairs[index]);
    assert(pair_repeats(pairs, index));
    assert forall|before: int| 0 <= before < index implies !#[trigger] pair_repeats(
        pairs,
        before,
    ) by {
        if pair_repeats(pairs, before) {
            let witness = choose|witness: int|
                0 <= witness < before && #[trigger] pairs[witness] == pairs[before];
            assert(prefix[witness] == prefix[before]);
            assert(pair_repeats(prefix, before));
        }
    }
}

/// The pairs of serialized public key and epoch of the items.
pub open spec fn key_epoch_pairs(items: Seq<VerificationItem>) -> Seq<(Seq<u8>, u32)> {
    Seq::new(items.len(), |i: int| (public_key_bytes(items[i].public_key@), items[i].epoch))
}

/// Validates a batch: it must hold an item, and no pair of public key and
/// epoch may occur twice, since a one-time key signs once.
///
/// An empty batch is refused with `EmptyBatch`. Otherwise the keys are
/// serialized in order; the first pair that occurred before is reported as
/// `DuplicateKeyEpochPair`, and a key that cannot be serialized as
/// `SerializationError`, whichever comes first.
pub fn validate(items: &[VerificationItem]) -> (result: Result<(), AggregationError>)
    ensures
        items@.len() == 0 <==> result == Err::<(), AggregationError>(AggregationError::EmptyBatch),
        result is Ok ==> pairs_are_unique(key_epoch_pairs(items@)),
        result matches Err(error) ==> {
            ||| error is EmptyBatch
            ||| error is SerializationError
            ||| reports_first_repeat(key_epoch_pairs(items@), error)
        },
{
    if items.len() == 0 {
        return Err(AggregationError::EmptyBatch);
    }
    let mut pairs: Vec<KeyEpochPair> = Vec::new();
    let mut failure: Option<String> = None;
    let mut index: usize = 0;
    while index < items.len() && failure.is_none()
        invariant
            0 <= index <= items@.len(),
            failure is None ==> pairs@.len() == index,
            pairs@.len() <= index,
            pairs_view(pairs@) == key_epoch_pairs(items@).take(pairs@.len() as int),
        decreases items@.len() - index, if failure is None { 1int } else { 0int },
    {
        match serialize_public_key(&items[index].public_key) {
            Ok(bytes) => {
                pairs.push((bytes, items[index].epoch));
                assert(pairs_view(pairs@) =~= key_epoch_pairs(items@).take(pairs@.len() as int));
                index += 1;
            },
            Err(error) => {
                failure = Some(error_text(&error));
            },
        }
    }
    match check_key_epoch_pairs(pairs.as_slice()) {
        Err(error) => {
            proof {
                lemma_first_repeat_of_prefix(
                    key_epoch_pairs(items@),
                    pairs@.len() as int,
                    error,
                );
            }
            Err(error)
        },
        Ok(()) => match failure {
            Some(text) => {
                let mut message = String::from_str("Failed to serialize public key: ");
                message.append(text.as_str());
                Err(AggregationError::SerializationError { message })
            },
            None => {
                assert(key_epoch_pairs(items@).take(items@.len() as int) =~= key_epoch_pairs(
                    items@,
                ));
                Ok(())
            },
        },
    }
}

/// Validates the items and makes them a batch for the prover. It fails
/// where [`validate`] fails, with the same error.
pub fn aggregate(items: Vec<VerificationItem>) -> (result: Result<
    AggregationBatch,
    AggregationError,
>)
    ensures
        items@.len() == 0 <==> result == Err::<AggregationBatch, AggregationError>(
            AggregationError::EmptyBatch,
        ),
        result matches Ok(batch) ==> batch.items@ == items@ && pairs_are_unique(
            key_epoch_pairs(items@),
        ),
        result matches Err(error) ==> {
            ||| error is EmptyBatch
            ||| error is SerializationError
            ||| reports_first_repeat(key_epoch_pairs(items@), error)
        },
{
    match validate(items.as_slice()) {
        Ok(()) => Ok(AggregationBatch { items }),
        Err(error) => Err(error),
    }
}

/// How many of the outcomes are `true`.
pub open spec fn count_valid(outcomes: Seq<bool>) -> nat
    decreases outcomes.len(),
{
    if outcomes.len() == 0 {
        0
    } else {
        count_valid(outcomes.drop_last()) + if outcomes.last() {
            1nat
        } else {
            0nat
        }
    }
}

/// Counts the signatures of a batch that verified, given the outcome of the
/// verification of each.
pub fn verified_count(outcomes: &[bool]) -> (count: u32)
    requires
        outcomes@.len() <= u32::MAX,
    ensures
        count == count_valid(outcomes@),
{
    let mut count: u32 = 0;
    let mut index: usize = 0;
    while index < outcomes.len()
        invariant
            0 <= index <= outcomes@.len() <= u32::MAX,
            count == count_valid(outcomes@.take(index as int)),
            count <= index,
        decreases outcomes@.len() - index,
    {
        proof {
            assert(outcomes@.take(index + 1).drop_last() =~= outcomes@.take(index as int));
        }
        if outcomes[index] {
            count += 1;
        }
        index += 1;
    }
    proof {
        assert(outcomes@.take(outcomes@.len() as int) =~= outcomes@);
    }
    count
}

} // verus!
