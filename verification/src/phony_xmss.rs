//! Synthesis of key and signature pairs that verify, without a secret key:
//! one leaf and its authentication path are built from drawn randomness.

use crate::bignum::le_value;
use crate::codec::{
    be_field_value, byte_digits, bytes_to_chunks, chunk_count, decode_to_chunks, encode_epoch,
    encode_message, field_digits, message_tweak_value, to_le_bytes,
};
use crate::field::all_canonical;
use crate::hashing::{
    append_elements, chain_step, chain_step_spec, hash_internal, hash_internal_spec, hash_leaf,
    hash_leaf_spec,
};
use crate::params::{
    BASE_W1, CHAIN_LENGTH, CHUNK_SIZE_W1, HASH_LEN_FE, LOG_LIFETIME, MSG_LEN_FE, NUM_CHAINS,
    NUM_CHUNKS_CHECKSUM_W1, NUM_CHUNKS_W1, PARAMETER_LEN, RAND_LEN, TWEAK_LEN_FE,
};
use crate::poseidon::{compress, poseidon_compress};
use crate::types::{
    digests_view, Digest, HashTreeOpening, Message, Parameter, PublicKey, PublicKeyView,
    Randomness, Signature, SignatureView, VerificationItem, VerificationItemView,
};
use p3_field::PrimeField32;
use p3_koala_bear::KoalaBear;
use rand::rngs::StdRng;
use rand::{Rng, SeedableRng};
use vstd::arithmetic::power2::*;
use vstd::prelude::*;
use vstd::slice::slice_to_vec;

verus! {

/// What the message hash compresses: the randomness, the parameter, the
/// epoch as a tweak, and the message, all as field elements.
pub open spec fn message_hash_input(
    parameter: Seq<u32>,
    epoch: u32,
    randomness: Seq<u32>,
    message: Seq<u8>,
) -> Seq<u32> {
    randomness + parameter + field_digits(message_tweak_value(epoch), TWEAK_LEN_FE as nat)
        + field_digits(le_value(message), MSG_LEN_FE as nat)
}

/// The chunks that encode the message: the digits, in base [`BASE_W1`], of
/// the digest of the message hash.
pub open spec fn message_chunks(
    parameter: Seq<u32>,
    epoch: u32,
    randomness: Seq<u32>,
    message: Seq<u8>,
) -> Seq<u8> {
    byte_digits(
        be_field_value(
            compress(24, message_hash_input(parameter, epoch, randomness, message), HASH_LEN_FE as nat),
        ),
        BASE_W1 as nat,
        NUM_CHUNKS_W1 as nat,
    )
}

/// The checksum of chunks: the sum of what each lacks to the largest digit.
pub open spec fn checksum(chunks: Seq<u8>) -> int
    decreases chunks.len(),
{
    if chunks.len() == 0 {
        0
    } else {
        checksum(chunks.drop_last()) + (BASE_W1 - 1 - chunks.last())
    }
}

/// The chunks that encode the checksum of `chunks`: its
/// [`NUM_CHUNKS_CHECKSUM_W1`] lowest digits in base `2^CHUNK_SIZE_W1`.
pub open spec fn checksum_chunks(chunks: Seq<u8>) -> Seq<u8> {
    byte_digits(
        checksum(chunks) as nat,
        pow2(CHUNK_SIZE_W1 as nat),
        NUM_CHUNKS_CHECKSUM_W1 as nat,
    )
}

/// The Winternitz encoding of a message: the chunks of its hash, followed
/// by the chunks of their checksum.
pub open spec fn winternitz_encoding(
    parameter: Seq<u32>,
    epoch: u32,
    randomness: Seq<u32>,
    message: Seq<u8>,
) -> Seq<u8> {
    let chunks = message_chunks(parameter, epoch, randomness, message);
    chunks + checksum_chunks(chunks)
}

/// Hashes the message under the parameter, the epoch and the randomness,
/// and decodes the digest into the chunks of the message.
pub fn poseidon_message_hash(
    parameter: &Parameter,
    epoch: u32,
    randomness: &Randomness,
    message: &Message,
) -> (chunks: Vec<u8>)
    ensures
        chunks@ == message_chunks(parameter@, epoch, randomness@, message@),
{
    let message_fe = encode_message::<MSG_LEN_FE>(message);
    let epoch_fe = encode_epoch::<TWEAK_LEN_FE>(epoch);
    let mut combined_input: Vec<u32> = Vec::with_capacity(
        RAND_LEN + PARAMETER_LEN + TWEAK_LEN_FE + MSG_LEN_FE,
    );
    append_elements(&mut combined_input, randomness.as_slice());
    append_elements(&mut combined_input, parameter.as_slice());
    append_elements(&mut combined_input, epoch_fe.as_slice());
    append_elements(&mut combined_input, message_fe.as_slice());
    let hash_fe = poseidon_compress::<24, HASH_LEN_FE>(combined_input.as_slice());
    let decoded = decode_to_chunks::<NUM_CHUNKS_W1, BASE_W1, HASH_LEN_FE>(&hash_fe);
    slice_to_vec(decoded.as_slice())
}

/// Appends to the chunks of a message the chunks of their checksum.
pub fn append_checksum(chunks_message: Vec<u8>) -> (encoding: Vec<u8>)
    requires
        forall|i: int| 0 <= i < chunks_message@.len() ==> chunks_message@[i] < BASE_W1,
    ensures
        encoding@ == chunks_message@ + checksum_chunks(chunks_message@),
{
    let mut chunks_message = chunks_message;
    let ghost chunks = chunks_message@;
    let mut sum: u64 = 0;
    let mut i: usize = 0;
    while i < chunks_message.len()
        invariant
            0 <= i <= chunks.len(),
            chunks_message@ == chunks,
            forall|k: int| 0 <= k < chunks.len() ==> chunks[k] < BASE_W1,
            sum == checksum(chunks.take(i as int)),
            sum <= i,
        decreases chunks.len() - i,
    {
        proof {
            assert(chunks.take(i + 1).drop_last() =~= chunks.take(i as int));
        }
        sum = sum + (BASE_W1 as u64 - 1 - chunks_message[i] as u64);
        i += 1;
    }
    proof {
        assert(chunks.take(chunks.len() as int) =~= chunks);
    }
    let bytes = to_le_bytes(sum);
    let mut checksum_chunks = bytes_to_chunks(bytes.as_slice(), CHUNK_SIZE_W1);
    if checksum_chunks.len() < NUM_CHUNKS_CHECKSUM_W1 {
        checksum_chunks.resize(NUM_CHUNKS_CHECKSUM_W1, 0);
    }
    assert(chunk_count(8, CHUNK_SIZE_W1 as nat) == 64);
    let mut j: usize = 0;
    while j < NUM_CHUNKS_CHECKSUM_W1
        invariant
            0 <= j <= NUM_CHUNKS_CHECKSUM_W1,
            checksum_chunks@ == byte_digits(sum as nat, pow2(CHUNK_SIZE_W1 as nat), 64),
            chunks_message@ == chunks + checksum_chunks@.take(j as int),
        decreases NUM_CHUNKS_CHECKSUM_W1 - j,
    {
        chunks_message.push(checksum_chunks[j]);
        j += 1;
        assert(chunks_message@ =~= chunks + checksum_chunks@.take(j as int));
    }
    assert(checksum_chunks@.take(NUM_CHUNKS_CHECKSUM_W1 as int) =~= self::checksum_chunks(chunks));
    chunks_message
}

/// Encodes a message for signing: the chunks of its hash, followed by the
/// chunks of their checksum, [`NUM_CHAINS`] in all.
pub fn winternitz_encode(
    parameter: &Parameter,
    epoch: u32,
    randomness: &Randomness,
    message: &Message,
) -> (encoding: Vec<u8>)
    ensures
        encoding@ == winternitz_encoding(parameter@, epoch, randomness@, message@),
        encoding@.len() == NUM_CHAINS,
        forall|i: int| 0 <= i < encoding@.len() ==> encoding@[i] < BASE_W1,
{
    let chunks_message = poseidon_message_hash(parameter, epoch, randomness, message);
    proof {
        lemma2_to64();
    }
    append_checksum(chunks_message)
}

/// The value reached from `start` at position `from` of a chain after
/// `steps` steps.
pub open spec fn chain_walk(
    parameter: Seq<u32>,
    epoch: u32,
    chain_index: u8,
    from: nat,
    steps: nat,
    start: Seq<u32>,
) -> Seq<u32>
    decreases steps,
{
    if steps == 0 {
        start
    } else {
        chain_step_spec(
            parameter,
            epoch,
            chain_index,
            (from + steps - 1) as u8,
            chain_walk(parameter, epoch, chain_index, from, (steps - 1) as nat, start),
        )
    }
}

/// The index of a chain as its tweak holds it, in one byte.
pub open spec fn chain_tweak_index(chain: int) -> u8 {
    (chain % 256) as u8
}

/// The value of chain `chain` that a signature reveals for `digit`: the
/// start advanced by `digit` steps.
pub open spec fn revealed_value(
    parameter: Seq<u32>,
    epoch: u32,
    chain: int,
    digit: u8,
    start: Seq<u32>,
) -> Seq<u32> {
    chain_walk(parameter, epoch, chain_tweak_index(chain), 0, digit as nat, start)
}

/// How many steps lie between position `digit` and the end of a chain.
pub open spec fn remaining_steps(digit: u8) -> nat {
    if digit < CHAIN_LENGTH - 1 {
        (CHAIN_LENGTH - 1 - digit) as nat
    } else {
        0
    }
}

/// The end of chain `chain`, reached from the value revealed for `digit`.
pub open spec fn terminal_value(
    parameter: Seq<u32>,
    epoch: u32,
    chain: int,
    digit: u8,
    revealed: Seq<u32>,
) -> Seq<u32> {
    chain_walk(
        parameter,
        epoch,
        chain_tweak_index(chain),
        digit as nat,
        remaining_steps(digit),
        revealed,
    )
}

/// The revealed value of every chain.
pub open spec fn revealed_values(
    parameter: Seq<u32>,
    epoch: u32,
    encoding: Seq<u8>,
    starts: Seq<Seq<u32>>,
) -> Seq<Seq<u32>> {
    Seq::new(encoding.len(), |i: int| revealed_value(parameter, epoch, i, encoding[i], starts[i]))
}

/// The end of every chain, reached from its revealed value.
pub open spec fn terminal_values(
    parameter: Seq<u32>,
    epoch: u32,
    encoding: Seq<u8>,
    revealed: Seq<Seq<u32>>,
) -> Seq<Seq<u32>> {
    Seq::new(
        encoding.len(),
        |i: int| terminal_value(parameter, epoch, i, encoding[i], revealed[i]),
    )
}

/// Builds the chains of one signature. Chain `i` starts at `starts[i]`; its
/// revealed value lies `encoding[i]` steps further, and its end at the last
/// position of the chain. Returns the revealed values and the ends.
pub fn build_wots_hashes(
    starts: &[Digest],
    parameter: &Parameter,
    epoch: u32,
    encoding: &[u8],
) -> (built: (Vec<Digest>, Vec<Digest>))
    requires
        starts@.len() == encoding@.len(),
    ensures
        built.0@.len() == encoding@.len(),
        built.1@.len() == encoding@.len(),
        digests_view(built.0@) == revealed_values(
            parameter@,
            epoch,
            encoding@,
            digests_view(starts@),
        ),
        digests_view(built.1@) == terminal_values(
            parameter@,
            epoch,
            encoding@,
            digests_view(built.0@),
        ),
{
    let mut hashes: Vec<Digest> = Vec::with_capacity(NUM_CHAINS);
    let mut chain_ends: Vec<Digest> = Vec::with_capacity(NUM_CHAINS);
    let mut chain_index: usize = 0;
    while chain_index < encoding.len()
        invariant
            0 <= chain_index <= encoding@.len(),
            starts@.len() == encoding@.len(),
            hashes@.len() == chain_index,
            chain_ends@.len() == chain_index,
            forall|i: int|
                0 <= i < chain_index ==> hashes@[i]@ == revealed_value(
                    parameter@,
                    epoch,
                    i,
                    encoding@[i],
                    starts@[i]@,
                ),
            forall|i: int|
                0 <= i < chain_index ==> chain_ends@[i]@ == terminal_value(
                    parameter@,
                    epoch,
                    i,
                    encoding@[i],
                    hashes@[i]@,
                ),
        decreases encoding@.len() - chain_index,
    {
        let xi: u8 = encoding[chain_index];
        let tweak_index: u8 = #[verifier::truncate] (chain_index as u8);
        assert(tweak_index == chain_index % 256) by (bit_vector)
            requires
                tweak_index == #[verifier::truncate] (chain_index as u8),
        ;
        let mut value: Digest = starts[chain_index];
        let mut step: u8 = 0;
        while step < xi
            invariant
                0 <= step <= xi,
                value@ == chain_walk(
                    parameter@,
                    epoch,
                    tweak_index,
                    0,
                    step as nat,
                    starts@[chain_index as int]@,
                ),
            decreases xi - step,
        {
            value = chain_step(parameter, epoch, tweak_index, step, &value);
            step += 1;
        }
        let mut end: Digest = value;
        let mut position: usize = xi as usize;
        while position < CHAIN_LENGTH - 1
            invariant
                xi <= position,
                position <= CHAIN_LENGTH - 1 || position == xi,
                end@ == chain_walk(
                    parameter@,
                    epoch,
                    tweak_index,
                    xi as nat,
                    (position - xi) as nat,
                    value@,
                ),
            decreases CHAIN_LENGTH - 1 - position,
        {
            end = chain_step(parameter, epoch, tweak_index, position as u8, &end);
            position += 1;
        }
        hashes.push(value);
        chain_ends.push(end);
        chain_index += 1;
    }
    proof {
        assert(digests_view(hashes@) =~= revealed_values(
            parameter@,
            epoch,
            encoding@,
            digests_view(starts@),
        ));
        assert(digests_view(chain_ends@) =~= terminal_values(
            parameter@,
            epoch,
            encoding@,
            digests_view(hashes@),
        ));
    }
    (hashes, chain_ends)
}

/// The position, within its level, of the ancestor at `level` of the leaf
/// of `epoch`.
pub open spec fn position_at(epoch: u32, level: nat) -> u32
    decreases level,
{
    if level == 0 {
        epoch
    } else {
        position_at(epoch, (level - 1) as nat) / 2
    }
}

/// The children of the node above `node`: `node` is the left child where
/// its position is even, and the right child where it is odd.
pub open spec fn ordered_children(position: u32, node: Seq<u32>, sibling: Seq<u32>) -> Seq<
    Seq<u32>,
> {
    if position % 2 == 0 {
        seq![node, sibling]
    } else {
        seq![sibling, node]
    }
}

/// The ancestor at `level` of `leaf`, the leaf of `epoch`, where
/// `siblings[l]` is the sibling of the ancestor at level `l`: the leaf
/// itself at level 0, and the hash of the ancestor below and its sibling
/// above that.
pub open spec fn path_node(
    parameter: Seq<u32>,
    epoch: u32,
    leaf: Seq<u32>,
    siblings: Seq<Seq<u32>>,
    level: nat,
) -> Seq<u32>
    decreases level,
{
    if level == 0 {
        leaf
    } else {
        let below = (level - 1) as nat;
        let position = position_at(epoch, below);
        hash_internal_spec(
            parameter,
            level,
            position / 2,
            ordered_children(
                position,
                path_node(parameter, epoch, leaf, siblings, below),
                siblings[below as int],
            ),
        )
    }
}

/// Builds the authentication path of the leaf of `epoch`, whose chains end
/// in `leaf`. At each of the [`LOG_LIFETIME`] levels the node is paired
/// with `siblings[level]` and hashed into its parent. Returns the siblings,
/// leaf level first, and the root.
pub fn build_merkle_path(
    siblings: &[Digest],
    parameter: &Parameter,
    epoch: u32,
    leaf: &[Digest],
) -> (built: (Vec<Digest>, Digest))
    requires
        siblings@.len() == LOG_LIFETIME,
        leaf@.len() * HASH_LEN_FE + 24 <= usize::MAX,
    ensures
        built.0@ == siblings@,
        built.0@.len() == LOG_LIFETIME,
        built.1@ == path_node(
            parameter@,
            epoch,
            hash_leaf_spec(parameter@, epoch, digests_view(leaf@)),
            digests_view(siblings@),
            LOG_LIFETIME as nat,
        ),
{
    let mut co_path: Vec<Digest> = Vec::with_capacity(LOG_LIFETIME);
    let mut current_node = hash_leaf(parameter, epoch, leaf);
    let ghost leaf_node = current_node@;
    let mut position: u32 = epoch;
    let mut level: usize = 0;
    while level < LOG_LIFETIME
        invariant
            0 <= level <= LOG_LIFETIME,
            siblings@.len() == LOG_LIFETIME,
            co_path@ == siblings@.take(level as int),
            position == position_at(epoch, level as nat),
            current_node@ == path_node(
                parameter@,
                epoch,
                leaf_node,
                digests_view(siblings@),
                level as nat,
            ),
        decreases LOG_LIFETIME - level,
    {
        let sibling: Digest = siblings[level];
        let is_left = position % 2 == 0;
        let children = if is_left {
            [current_node, sibling]
        } else {
            [sibling, current_node]
        };
        assert(digests_view(children@) =~= ordered_children(position, current_node@, sibling@));
        assert(position >> 1 == position / 2) by (bit_vector);
        let parent = hash_internal(parameter, level + 1, position >> 1, children.as_slice());
        co_path.push(sibling);
        current_node = parent;
        position = position >> 1;
        level += 1;
        assert(co_path@ =~= siblings@.take(level as int));
    }
    assert(siblings@.take(LOG_LIFETIME as int) =~= siblings@);
    (co_path, current_node)
}

/// Field elements that one synthesis draws: the parameter, the randomness,
/// the start of every chain and the sibling at every level.
pub const RANDOM_ELEMENTS: usize = PARAMETER_LEN + RAND_LEN + NUM_CHAINS * HASH_LEN_FE
    + LOG_LIFETIME * HASH_LEN_FE;

/// The first `count` field elements that the standard generator of `rand`
/// yields once it is seeded with `seed`.
pub uninterp spec fn seeded_field_elements(seed: u64, count: nat) -> Seq<u32>;

/// `rand`'s `StdRng::seed_from_u64` followed by `count` draws of a
/// `KoalaBear` element (`Rng::random_iter`), each handed out through
/// `as_canonical_u32`. `rand` may change the algorithm of `StdRng` from one
/// version to the next; in any one version it is a stream cipher keyed by
/// the seed alone, so the elements are determined by `seed`. Each is drawn
/// by rejection below the order.
#[verifier::external_body]
fn draw_field_elements(seed: u64, count: usize) -> (drawn: Vec<u32>)
    ensures
        drawn@ == seeded_field_elements(seed, count as nat),
        drawn@.len() == count,
        all_canonical(drawn@),
{
    StdRng::seed_from_u64(seed).random_iter::<KoalaBear>().take(count).map(
        |element| element.as_canonical_u32(),
    ).collect()
}

/// Copies `N` elements of `source`, from `start` on.
fn take_elements<const N: usize>(source: &[u32], start: usize) -> (out: [u32; N])
    requires
        start + N <= source@.len(),
    ensures
        out@ == source@.subrange(start as int, start + N),
{
    let mut out = [0u32;N];
    let len = source.len();
    let mut i: usize = 0;
    while i < N
        invariant
            0 <= i <= N,
            len == source@.len(),
            start + N <= source@.len(),
            forall|k: int| 0 <= k < i ==> out[k] == source@[start + k],
        decreases N - i,
    {
        out[i] = source[start + i];
        i += 1;
    }
    assert(out@ =~= source@.subrange(start as int, start + N));
    out
}

/// `count` digests cut from `drawn`, one after the other, from `start` on.
pub open spec fn drawn_digests(drawn: Seq<u32>, start: int, count: nat) -> Seq<Seq<u32>> {
    Seq::new(
        count,
        |i: int| drawn.subrange(start + HASH_LEN_FE * i, start + HASH_LEN_FE * i + HASH_LEN_FE),
    )
}

/// Cuts `count` digests from `source`, one after the other, from `start` on.
fn take_digests(source: &[u32], start: usize, count: usize) -> (out: Vec<Digest>)
    requires
        start + count * HASH_LEN_FE <= source@.len(),
    ensures
        digests_view(out@) == drawn_digests(source@, start as int, count as nat),
        out@.len() == count,
{
    let mut out: Vec<Digest> = Vec::with_capacity(count);
    let len = source.len();
    let mut i: usize = 0;
    while i < count
        invariant
            0 <= i <= count,
            len == source@.len(),
            start + count * HASH_LEN_FE <= source@.len(),
            out@.len() == i,
            forall|k: int|
                0 <= k < i ==> out@[k]@ == source@.subrange(
                    start + HASH_LEN_FE * k,
                    start + HASH_LEN_FE * k + HASH_LEN_FE,
                ),
        decreases count - i,
    {
        let digest = take_elements::<HASH_LEN_FE>(source, start + i * HASH_LEN_FE);
        out.push(digest);
        i += 1;
    }
    assert(digests_view(out@) =~= drawn_digests(source@, start as int, count as nat));
    out
}

/// The parameter that a synthesis takes from what it drew.
pub open spec fn drawn_parameter(drawn: Seq<u32>) -> Seq<u32> {
    drawn.subrange(0, PARAMETER_LEN as int)
}

/// The randomness of the message hash that a synthesis takes from what it
/// drew.
pub open spec fn drawn_rho(drawn: Seq<u32>) -> Seq<u32> {
    drawn.subrange(PARAMETER_LEN as int, PARAMETER_LEN + RAND_LEN)
}

/// The chain starts that a synthesis takes from what it drew.
pub open spec fn drawn_starts(drawn: Seq<u32>) -> Seq<Seq<u32>> {
    drawn_digests(drawn, PARAMETER_LEN + RAND_LEN, NUM_CHAINS as nat)
}

/// The siblings that a synthesis takes from what it drew.
pub open spec fn drawn_siblings(drawn: Seq<u32>) -> Seq<Seq<u32>> {
    drawn_digests(drawn, PARAMETER_LEN + RAND_LEN + NUM_CHAINS * HASH_LEN_FE, LOG_LIFETIME as nat)
}

/// The key and signature that are synthesized for a message at an epoch
/// from drawn field elements: the encoding of the message fixes how far
/// each chain is revealed, the chain ends make the leaf of the epoch, and
/// the leaf climbs to the root past the drawn siblings.
pub open spec fn phony_item(epoch: u32, message: Seq<u8>, drawn: Seq<u32>) -> VerificationItemView {
    let parameter = drawn_parameter(drawn);
    let rho = drawn_rho(drawn);
    let siblings = drawn_siblings(drawn);
    let encoding = winternitz_encoding(parameter, epoch, rho, message);
    let hashes = revealed_values(parameter, epoch, encoding, drawn_starts(drawn));
    let chain_ends = terminal_values(parameter, epoch, encoding, hashes);
    let leaf = hash_leaf_spec(parameter, epoch, chain_ends);
    VerificationItemView {
        message,
        epoch,
        signature: SignatureView { co_path: siblings, rho, hashes },
        public_key: PublicKeyView {
            root: path_node(parameter, epoch, leaf, siblings, LOG_LIFETIME as nat),
            parameter,
        },
    }
}

/// The key and signature that are synthesized for a message at an epoch
/// from a seed.
pub open spec fn generated_item(epoch: u32, message: Seq<u8>, seed: u64) -> VerificationItemView {
    phony_item(epoch, message, seeded_field_elements(seed, RANDOM_ELEMENTS as nat))
}

/// Synthesizes a key and a signature of `message` at `epoch` from the
/// [`RANDOM_ELEMENTS`] field elements in `drawn`, which are used in order:
/// the parameter, the randomness, the chain starts, the siblings.
pub fn phony_item_from_randomness(epoch: u32, message: Message, drawn: &[u32]) -> (item:
    VerificationItem)
    requires
        drawn@.len() == RANDOM_ELEMENTS,
    ensures
        item@ == phony_item(epoch, message@, drawn@),
        item.signature.hashes@.len() == NUM_CHAINS,
        item.signature.path.co_path@.len() == LOG_LIFETIME,
{
    let parameter: Parameter = take_elements::<PARAMETER_LEN>(drawn, 0);
    let rho: Randomness = take_elements::<RAND_LEN>(drawn, PARAMETER_LEN);
    let starts = take_digests(drawn, PARAMETER_LEN + RAND_LEN, NUM_CHAINS);
    let siblings = take_digests(
        drawn,
        PARAMETER_LEN + RAND_LEN + NUM_CHAINS * HASH_LEN_FE,
        LOG_LIFETIME,
    );
    let encoding = winternitz_encode(&parameter, epoch, &rho, &message);
    let (hashes, chain_ends) = build_wots_hashes(
        starts.as_slice(),
        &parameter,
        epoch,
        encoding.as_slice(),
    );
    let (co_path, root) = build_merkle_path(
        siblings.as_slice(),
        &parameter,
        epoch,
        chain_ends.as_slice(),
    );
    VerificationItem {
        message,
        epoch,
        signature: Signature { path: HashTreeOpening { co_path }, rho, hashes },
        public_key: PublicKey { root, parameter },
    }
}

/// Synthesizes a key and a signature of `message` at `epoch`. All
/// randomness comes from a generator seeded with `seed`, so equal
/// arguments give equal results.
pub fn generate_phony_item(epoch: u32, message: Message, seed: u64) -> (item: VerificationItem)
    ensures
        item@ == generated_item(epoch, message@, seed),
        item.signature.hashes@.len() == NUM_CHAINS,
        item.signature.path.co_path@.len() == LOG_LIFETIME,
{
    let drawn = draw_field_elements(seed, RANDOM_ELEMENTS);
    phony_item_from_randomness(epoch, message, drawn.as_slice())
}

/// The root that a verifier reaches from a signature: it encodes the
/// message anew, walks every chain from its revealed value to its end,
/// hashes the ends into the leaf of the epoch and climbs past the co-path.
pub open spec fn reconstructed_root(
    parameter: Seq<u32>,
    epoch: u32,
    message: Seq<u8>,
    signature: SignatureView,
) -> Seq<u32> {
    let encoding = winternitz_encoding(parameter, epoch, signature.rho, message);
    let chain_ends = terminal_values(parameter, epoch, encoding, signature.hashes);
    path_node(
        parameter,
        epoch,
        hash_leaf_spec(parameter, epoch, chain_ends),
        signature.co_path,
        LOG_LIFETIME as nat,
    )
}

/// The signature of the item has one value for every chain and one sibling
/// for every level, and leads from the message to the root in the key.
pub open spec fn is_consistent(item: VerificationItemView) -> bool {
    &&& item.signature.hashes.len() == NUM_CHAINS
    &&& item.signature.co_path.len() == LOG_LIFETIME
    &&& reconstructed_root(item.public_key.parameter, item.epoch, item.message, item.signature)
        == item.public_key.root
}

/// Whatever is drawn, for every epoch and message, the synthesized
/// signature leads from the message to the root in the synthesized key.
pub proof fn lemma_phony_item_is_consistent(epoch: u32, message: Seq<u8>, drawn: Seq<u32>)
    ensures
        is_consistent(phony_item(epoch, message, drawn)),
{
    let parameter = drawn_parameter(drawn);
    let rho = drawn_rho(drawn);
    lemma_encoding_embeds_its_checksum(parameter, epoch, rho, message);
}

/// Synthesis is a function of its arguments: two results for the same
/// epoch, message and seed hold the same key and the same signature.
pub proof fn lemma_synthesis_is_deterministic(
    first: VerificationItem,
    second: VerificationItem,
    epoch: u32,
    message: Seq<u8>,
    seed: u64,
)
    requires
        first@ == generated_item(epoch, message, seed),
        second@ == generated_item(epoch, message, seed),
    ensures
        first@ == second@,
        first.signature@ == second.signature@,
        first.public_key@ == second.public_key@,
{
}

/// A chain that is revealed at digit zero shows its start, with no step
/// taken; one that is revealed at the last position, or beyond, shows its
/// end, with no step left.
pub proof fn lemma_chain_edge_cases(
    parameter: Seq<u32>,
    epoch: u32,
    chain: int,
    digit: u8,
    value: Seq<u32>,
)
    ensures
        revealed_value(parameter, epoch, chain, 0, value) == value,
        digit >= CHAIN_LENGTH - 1 ==> terminal_value(parameter, epoch, chain, digit, value)
            == value,
        terminal_value(parameter, epoch, chain, (BASE_W1 - 1) as u8, value) == value,
{
}

/// Walking `first` steps and then `second` steps is walking
/// `first + second` steps.
pub proof fn lemma_chain_walk_composes(
    parameter: Seq<u32>,
    epoch: u32,
    chain_index: u8,
    from: nat,
    first: nat,
    second: nat,
    start: Seq<u32>,
)
    ensures
        chain_walk(
            parameter,
            epoch,
            chain_index,
            from + first,
            second,
            chain_walk(parameter, epoch, chain_index, from, first, start),
        ) == chain_walk(parameter, epoch, chain_index, from, first + second, start),
    decreases second,
{
    if second > 0 {
        lemma_chain_walk_composes(
            parameter,
            epoch,
            chain_index,
            from,
            first,
            (second - 1) as nat,
            start,
        );
        assert(from + first + second - 1 == from + (first + second) - 1);
    }
}

/// The end of a chain does not depend on the digit at which the chain is
/// revealed: it lies `CHAIN_LENGTH - 1` steps behind the start.
pub proof fn lemma_chain_end_is_fixed(
    parameter: Seq<u32>,
    epoch: u32,
    chain: int,
    digit: u8,
    start: Seq<u32>,
)
    requires
        digit < CHAIN_LENGTH,
    ensures
        terminal_value(
            parameter,
            epoch,
            chain,
            digit,
            revealed_value(parameter, epoch, chain, digit, start),
        ) == chain_walk(
            parameter,
            epoch,
            chain_tweak_index(chain),
            0,
            (CHAIN_LENGTH - 1) as nat,
            start,
        ),
{
    lemma_chain_walk_composes(
        parameter,
        epoch,
        chain_tweak_index(chain),
        0,
        digit as nat,
        remaining_steps(digit),
        start,
    );
}

/// The co-path of a synthesized signature has one sibling for every level
/// of the tree, at every epoch.
pub proof fn lemma_co_path_has_tree_height(epoch: u32, message: Seq<u8>, drawn: Seq<u32>)
    ensures
        phony_item(epoch, message, drawn).signature.co_path.len() == LOG_LIFETIME,
{
}

/// An encoding has one chunk for every chain, and its last chunks are the
/// checksum chunks of the chunks before them: the checksum that is
/// computed anew from the message chunks is the one that the encoding holds.
pub proof fn lemma_encoding_embeds_its_checksum(
    parameter: Seq<u32>,
    epoch: u32,
    randomness: Seq<u32>,
    message: Seq<u8>,
)
    ensures
        winternitz_encoding(parameter, epoch, randomness, message).len() == NUM_CHAINS,
        winternitz_encoding(parameter, epoch, randomness, message).subrange(
            NUM_CHUNKS_W1 as int,
            NUM_CHAINS as int,
        ) == checksum_chunks(
            winternitz_encoding(parameter, epoch, randomness, message).subrange(
                0,
                NUM_CHUNKS_W1 as int,
            ),
        ),
{
    let chunks = message_chunks(parameter, epoch, randomness, message);
    let encoding = winternitz_encoding(parameter, epoch, randomness, message);
    assert(encoding.subrange(0, NUM_CHUNKS_W1 as int) =~= chunks);
    assert(encoding.subrange(NUM_CHUNKS_W1 as int, NUM_CHAINS as int) =~= checksum_chunks(chunks));
}

} // verus!
