//! The tweaked hashes of the scheme: chain steps, leaves and tree nodes.

use crate::field::all_canonical;
use crate::params::{HASH_LEN_FE, PARAMETER_LEN, TWEAK_LEN_FE};
use crate::poseidon::{compress, poseidon_compress, poseidon_sponge, sponge};
use crate::tweak::PoseidonTweak;
use crate::types::{digests_view, Digest, Parameter};
use vstd::prelude::*;

verus! {

/// Appends the elements of `source` to `target`.
pub(crate) fn append_elements(target: &mut Vec<u32>, source: &[u32])
    ensures
        final(target)@ == old(target)@ + source@,
{
    let ghost before = target@;
    let mut i: usize = 0;
    while i < source.len()
        invariant
            0 <= i <= source@.len(),
            target@ == before + source@.take(i as int),
        decreases source@.len() - i,
    {
        target.push(source[i]);
        i += 1;
        assert(target@ =~= before + source@.take(i as int));
    }
    assert(source@.take(source@.len() as int) =~= source@);
}

/// The digests laid end to end.
pub open spec fn concat_digests(digests: Seq<Seq<u32>>) -> Seq<u32> {
    Seq::new(
        digests.len() * (HASH_LEN_FE as nat),
        |i: int| digests[i / (HASH_LEN_FE as int)][i % (HASH_LEN_FE as int)],
    )
}

/// Lays the digests end to end.
pub(crate) fn flatten_digests(digests: &[Digest]) -> (flat: Vec<u32>)
    requires
        digests@.len() * HASH_LEN_FE <= usize::MAX,
    ensures
        flat@ == concat_digests(digests_view(digests@)),
{
    let mut flat: Vec<u32> = Vec::new();
    let ghost views = digests_view(digests@);
    let mut k: usize = 0;
    while k < digests.len()
        invariant
            0 <= k <= digests@.len(),
            views == digests_view(digests@),
            flat@.len() == k * HASH_LEN_FE,
            forall|i: int|
                0 <= i < flat@.len() ==> flat@[i] == views[i / (HASH_LEN_FE as int)][i % (
                HASH_LEN_FE as int)],
        decreases digests@.len() - k,
    {
        let digest = &digests[k];
        let mut j: usize = 0;
        while j < HASH_LEN_FE
            invariant
                0 <= j <= HASH_LEN_FE,
                0 <= k < digests@.len(),
                views == digests_view(digests@),
                *digest == digests@[k as int],
                flat@.len() == k * HASH_LEN_FE + j,
                forall|i: int|
                    0 <= i < flat@.len() ==> flat@[i] == views[i / (HASH_LEN_FE as int)][i % (
                    HASH_LEN_FE as int)],
            decreases HASH_LEN_FE - j,
        {
            flat.push(digest[j]);
            j += 1;
        }
        k += 1;
    }
    assert(flat@ =~= concat_digests(views));
    flat
}

/// The hash of one chain step: the compression, at width 16, of the
/// parameter, the tweak and the value.
pub open spec fn chain_hash(parameter: Seq<u32>, tweak: PoseidonTweak, value: Seq<u32>) -> Seq<u32> {
    compress(16, parameter + tweak.digits(TWEAK_LEN_FE as nat) + value, HASH_LEN_FE as nat)
}

/// The hash of a list of digests into one: at most two are compressed at
/// width 24 behind the parameter and the tweak; more are absorbed by the
/// sponge, whose capacity holds the parameter and the tweak.
pub open spec fn leaf_hash(parameter: Seq<u32>, tweak: PoseidonTweak, message: Seq<Seq<u32>>) -> Seq<
    u32,
> {
    let prefix = parameter + tweak.digits(TWEAK_LEN_FE as nat);
    if message.len() > 2 {
        sponge(24, prefix, concat_digests(message), HASH_LEN_FE as nat)
    } else {
        compress(24, prefix + concat_digests(message), HASH_LEN_FE as nat)
    }
}

/// The value that follows `start` at `position` in a chain.
pub open spec fn chain_step_spec(
    parameter: Seq<u32>,
    epoch: u32,
    chain_index: u8,
    position: u8,
    start: Seq<u32>,
) -> Seq<u32> {
    chain_hash(
        parameter,
        PoseidonTweak::Chain { epoch, chain_index, pos_in_chain: (position + 1) as u8 },
        start,
    )
}

/// Hashes one chain value under a tweak.
pub fn poseidon_chain_hash(parameter: &Parameter, tweak: &PoseidonTweak, message: &Digest) -> (out:
    Digest)
    ensures
        out@ == chain_hash(parameter@, *tweak, message@),
        all_canonical(out@),
{
    let tweak_fe = tweak.to_field_elements::<TWEAK_LEN_FE>();
    let mut combined_input: Vec<u32> = Vec::with_capacity(
        PARAMETER_LEN + TWEAK_LEN_FE + HASH_LEN_FE,
    );
    append_elements(&mut combined_input, parameter.as_slice());
    append_elements(&mut combined_input, tweak_fe.as_slice());
    append_elements(&mut combined_input, message.as_slice());
    poseidon_compress::<16, HASH_LEN_FE>(combined_input.as_slice())
}

/// Advances a chain by one step, from `position` to the next.
pub fn chain_step(
    parameter: &Parameter,
    epoch: u32,
    chain_index: u8,
    position: u8,
    start: &Digest,
) -> (out: Digest)
    requires
        position < u8::MAX,
    ensures
        out@ == chain_step_spec(parameter@, epoch, chain_index, position, start@),
        all_canonical(out@),
{
    let tweak = PoseidonTweak::Chain { epoch, chain_index, pos_in_chain: position + 1 };
    poseidon_chain_hash(parameter, &tweak, start)
}

/// Hashes more than two digests into one with the sponge.
pub fn poseidon_sponge_hash(parameter: &Parameter, tweak: &PoseidonTweak, message: &[Digest]) -> (out:
    Digest)
    requires
        message@.len() * HASH_LEN_FE + 24 <= usize::MAX,
    ensures
        out@ == sponge(
            24,
            parameter@ + tweak.digits(TWEAK_LEN_FE as nat),
            concat_digests(digests_view(message@)),
            HASH_LEN_FE as nat,
        ),
{
    let mut capacity_value: Vec<u32> = Vec::with_capacity(PARAMETER_LEN + TWEAK_LEN_FE);
    append_elements(&mut capacity_value, parameter.as_slice());
    let tweak_fe = tweak.to_field_elements::<TWEAK_LEN_FE>();
    append_elements(&mut capacity_value, tweak_fe.as_slice());
    let flattened = flatten_digests(message);
    poseidon_sponge::<24, HASH_LEN_FE>(capacity_value.as_slice(), flattened.as_slice())
}

/// Hashes a list of digests into one under a tweak.
pub fn poseidon_leaf_hash(parameter: &Parameter, tweak: &PoseidonTweak, message: &[Digest]) -> (out:
    Digest)
    requires
        message@.len() * HASH_LEN_FE + 24 <= usize::MAX,
    ensures
        out@ == leaf_hash(parameter@, *tweak, digests_view(message@)),
{
    if message.len() > 2 {
        poseidon_sponge_hash(parameter, tweak, message)
    } else {
        let tweak_fe = tweak.to_field_elements::<TWEAK_LEN_FE>();
        let mut combined_input: Vec<u32> = Vec::with_capacity(
            PARAMETER_LEN + TWEAK_LEN_FE + message.len() * HASH_LEN_FE,
        );
        append_elements(&mut combined_input, parameter.as_slice());
        append_elements(&mut combined_input, tweak_fe.as_slice());
        let flattened = flatten_digests(message);
        append_elements(&mut combined_input, flattened.as_slice());
        poseidon_compress::<24, HASH_LEN_FE>(combined_input.as_slice())
    }
}

/// The leaf of the tree at `position`: the hash of the chain ends.
pub open spec fn hash_leaf_spec(parameter: Seq<u32>, position: u32, leaf: Seq<Seq<u32>>) -> Seq<u32> {
    leaf_hash(parameter, PoseidonTweak::Tree { level: 0, pos_in_level: position }, leaf)
}

/// The node of the tree at `pos_in_level` of `level`: the hash of its
/// children. The tweak holds the level in one byte.
pub open spec fn hash_internal_spec(
    parameter: Seq<u32>,
    level: nat,
    pos_in_level: u32,
    children: Seq<Seq<u32>>,
) -> Seq<u32> {
    leaf_hash(
        parameter,
        PoseidonTweak::Tree { level: (level % 256) as u8, pos_in_level },
        children,
    )
}

/// Hashes the chain ends of one epoch into the leaf at `position`.
pub fn hash_leaf(parameter: &Parameter, position: u32, leaf: &[Digest]) -> (out: Digest)
    requires
        leaf@.len() * HASH_LEN_FE + 24 <= usize::MAX,
    ensures
        out@ == hash_leaf_spec(parameter@, position, digests_view(leaf@)),
{
    let tweak = PoseidonTweak::Tree { level: 0, pos_in_level: position };
    poseidon_leaf_hash(parameter, &tweak, leaf)
}

/// Hashes children into their parent, the node at `pos_in_level` of `level`.
pub fn hash_internal(parameter: &Parameter, level: usize, pos_in_level: u32, children: &[Digest]) -> (out:
    Digest)
    requires
        children@.len() * HASH_LEN_FE + 24 <= usize::MAX,
    ensures
        out@ == hash_internal_spec(parameter@, level as nat, pos_in_level, digests_view(children@)),
{
    let low: u8 = #[verifier::truncate] (level as u8);
    assert(low == level % 256) by (bit_vector)
        requires
            low == #[verifier::truncate] (level as u8),
    ;
    let tweak = PoseidonTweak::Tree { level: low, pos_in_level };
    poseidon_leaf_hash(parameter, &tweak, children)
}

} // verus!
