//! The Poseidon2 permutation of the KoalaBear field, and the compression
//! function and sponge that are built on it.

use crate::field::{all_canonical, field_add, field_add_spec};
use p3_field::{PrimeCharacteristicRing, PrimeField32};
use p3_koala_bear::{default_koalabear_poseidon2_16, default_koalabear_poseidon2_24, KoalaBear};
use p3_symmetric::Permutation;
use vstd::arithmetic::div_mod::*;
use vstd::arithmetic::mul::*;
use vstd::prelude::*;

verus! {

/// The image of a state of 16 field elements under the Poseidon2
/// permutation with the round constants that `p3_koala_bear` ships.
pub uninterp spec fn poseidon2_16(state: Seq<u32>) -> Seq<u32>;

/// The image of a state of 24 field elements under the Poseidon2
/// permutation with the round constants that `p3_koala_bear` ships.
pub uninterp spec fn poseidon2_24(state: Seq<u32>) -> Seq<u32>;

/// `p3_koala_bear::default_koalabear_poseidon2_16`, applied with
/// `Permutation::permute_mut`: the state goes in through
/// `KoalaBear::from_u32`, which takes any `u32`, and comes out through
/// `as_canonical_u32`, which returns representatives below the order.
#[verifier::external_body]
fn permute_16(state: &[u32]) -> (out: Vec<u32>)
    requires
        state@.len() == 16,
    ensures
        out@ == poseidon2_16(state@),
        out@.len() == 16,
        all_canonical(out@),
{
    let mut elements: [KoalaBear; 16] = std::array::from_fn(|i| KoalaBear::from_u32(state[i]));
    default_koalabear_poseidon2_16().permute_mut(&mut elements);
    elements.iter().map(|element| element.as_canonical_u32()).collect()
}

/// `p3_koala_bear::default_koalabear_poseidon2_24`, applied with
/// `Permutation::permute_mut`: the state goes in through
/// `KoalaBear::from_u32`, which takes any `u32`, and comes out through
/// `as_canonical_u32`, which returns representatives below the order.
#[verifier::external_body]
fn permute_24(state: &[u32]) -> (out: Vec<u32>)
    requires
        state@.len() == 24,
    ensures
        out@ == poseidon2_24(state@),
        out@.len() == 24,
        all_canonical(out@),
{
    let mut elements: [KoalaBear; 24] = std::array::from_fn(|i| KoalaBear::from_u32(state[i]));
    default_koalabear_poseidon2_24().permute_mut(&mut elements);
    elements.iter().map(|element| element.as_canonical_u32()).collect()
}

/// The permutation of the given width: 16 or 24.
pub open spec fn permutation(width: nat, state: Seq<u32>) -> Seq<u32> {
    if width == 16 {
        poseidon2_16(state)
    } else {
        poseidon2_24(state)
    }
}

/// Applies the Poseidon2 permutation of width `WIDTH` to a full state.
pub(crate) fn permute<const WIDTH: usize>(state: &[u32]) -> (out: Vec<u32>)
    requires
        WIDTH == 16 || WIDTH == 24,
        state@.len() == WIDTH,
    ensures
        out@ == permutation(WIDTH as nat, state@),
        out@.len() == WIDTH,
        all_canonical(out@),
{
    if WIDTH == 16 {
        permute_16(state)
    } else {
        permute_24(state)
    }
}

/// `input`, then zeros up to `width` elements.
pub open spec fn zero_padded(input: Seq<u32>, width: nat) -> Seq<u32> {
    Seq::new(
        width,
        |i: int|
            if i < input.len() {
                input[i]
            } else {
                0u32
            },
    )
}

/// The compression function: the permutation of the padded input, with the
/// padded input added back in, cut to `out_len` elements.
pub open spec fn compress(width: nat, input: Seq<u32>, out_len: nat) -> Seq<u32> {
    let padded = zero_padded(input, width);
    let permuted = permutation(width, padded);
    Seq::new(out_len, |i: int| field_add_spec(permuted[i], padded[i]))
}

/// Copies `input` and fills it up with zeros to `len` elements.
fn pad_with_zeros(input: &[u32], len: usize) -> (padded: Vec<u32>)
    requires
        input@.len() <= len,
    ensures
        padded@ == zero_padded(input@, len as nat),
{
    let mut padded: Vec<u32> = Vec::with_capacity(len);
    let mut i: usize = 0;
    while i < len
        invariant
            0 <= i <= len,
            padded@.len() == i,
            forall|j: int| 0 <= j < i ==> padded@[j] == zero_padded(input@, len as nat)[j],
        decreases len - i,
    {
        if i < input.len() {
            padded.push(input[i]);
        } else {
            padded.push(0);
        }
        i += 1;
    }
    assert(padded@ =~= zero_padded(input@, len as nat));
    padded
}

/// Compresses `input` to `OUT_LEN` field elements: pads it with zeros to the
/// width of the permutation, permutes, adds the padded input to the result
/// element by element, and keeps the first `OUT_LEN` elements.
pub fn poseidon_compress<const WIDTH: usize, const OUT_LEN: usize>(input: &[u32]) -> (out: [u32;
    OUT_LEN])
    requires
        WIDTH == 16 || WIDTH == 24,
        OUT_LEN <= input@.len() <= WIDTH,
    ensures
        out@ == compress(WIDTH as nat, input@, OUT_LEN as nat),
        all_canonical(out@),
{
    let padded = pad_with_zeros(input, WIDTH);
    let permuted = permute::<WIDTH>(padded.as_slice());
    let mut out = [0u32;OUT_LEN];
    let mut i: usize = 0;
    while i < OUT_LEN
        invariant
            0 <= i <= OUT_LEN <= WIDTH,
            padded@.len() == WIDTH,
            permuted@.len() == WIDTH,
            forall|j: int| 0 <= j < i ==> out[j] == field_add_spec(permuted@[j], padded@[j]),
        decreases OUT_LEN - i,
    {
        out[i] = field_add(permuted[i], padded[i]);
        i += 1;
    }
    assert(out@ =~= compress(WIDTH as nat, input@, OUT_LEN as nat));
    out
}

/// The length of an input of `len` elements once it is padded to whole
/// blocks of `rate` elements.
pub open spec fn padded_len(len: nat, rate: nat) -> nat {
    len + (((rate - len % rate) % (rate as int)) as nat)
}

/// One absorption: `block` is added into the state from `offset` on, and the
/// state is permuted.
pub open spec fn absorb_block(width: nat, state: Seq<u32>, offset: nat, block: Seq<u32>) -> Seq<
    u32,
> {
    permutation(width, add_block(state, offset, block, block.len()))
}

/// The state with the first `count` elements of `block` added in from
/// `offset` on.
pub open spec fn add_block(state: Seq<u32>, offset: nat, block: Seq<u32>, count: nat) -> Seq<u32> {
    Seq::new(
        state.len(),
        |i: int|
            if offset <= i < offset + count {
                field_add_spec(state[i], block[i - offset])
            } else {
                state[i]
            },
    )
}

/// The state after the first `count` blocks of `rate` elements of `input`
/// were absorbed, one after the other, starting from `start`.
pub open spec fn absorb_blocks(
    width: nat,
    start: Seq<u32>,
    offset: nat,
    input: Seq<u32>,
    rate: nat,
    count: nat,
) -> Seq<u32>
    decreases count,
{
    if count == 0 {
        start
    } else {
        absorb_block(
            width,
            absorb_blocks(width, start, offset, input, rate, (count - 1) as nat),
            offset,
            input.subrange((count - 1) * rate, (count * rate) as int),
        )
    }
}

/// The sponge: the state starts as `capacity` followed by zeros; the input,
/// padded with zeros to whole blocks, is absorbed block by block into the
/// part behind the capacity; the first `out_len` elements of the last state
/// are the result.
pub open spec fn sponge(width: nat, capacity: Seq<u32>, input: Seq<u32>, out_len: nat) -> Seq<
    u32,
> {
    let rate = (width - capacity.len()) as nat;
    let total = padded_len(input.len(), rate);
    absorb_blocks(
        width,
        zero_padded(capacity, width),
        capacity.len(),
        zero_padded(input, total),
        rate,
        total / rate,
    ).take(out_len as int)
}

/// Padding fills the last block: the padded length is a multiple of the
/// rate, and less than one block longer than the input.
pub proof fn lemma_padded_len_is_whole_blocks(len: nat, rate: nat)
    requires
        rate > 0,
    ensures
        padded_len(len, rate) % rate == 0,
        len <= padded_len(len, rate) < len + rate,
        padded_len(len, rate) == (padded_len(len, rate) / rate) * rate,
{
    let r = len % rate;
    let q = len / rate;
    lemma_fundamental_div_mod(len as int, rate as int);
    lemma_mod_bound(len as int, rate as int);
    if r == 0 {
        lemma_mod_self_0(rate as int);
        lemma_mul_is_commutative(rate as int, q as int);
        lemma_fundamental_div_mod_converse(len as int, rate as int, q as int, 0);
    } else {
        lemma_small_mod((rate - r) as nat, rate);
        assert(padded_len(len, rate) == len + rate - r);
        assert(len + rate - r == (q + 1) * rate + 0) by (nonlinear_arith)
            requires
                len == rate * q + r,
        ;
        lemma_fundamental_div_mod_converse(
            padded_len(len, rate) as int,
            rate as int,
            (q + 1) as int,
            0,
        );
    }
}

/// Hashes `input` under `capacity_value` to `OUT_LEN` field elements. The
/// state starts as the capacity value followed by zeros; the input, padded
/// with zeros to whole blocks, is absorbed block by block behind the
/// capacity value, with a permutation after each block.
pub fn poseidon_sponge<const WIDTH: usize, const OUT_LEN: usize>(
    capacity_value: &[u32],
    input: &[u32],
) -> (out: [u32; OUT_LEN])
    requires
        WIDTH == 16 || WIDTH == 24,
        capacity_value@.len() < WIDTH,
        OUT_LEN <= WIDTH,
        input@.len() + WIDTH <= usize::MAX,
    ensures
        out@ == sponge(WIDTH as nat, capacity_value@, input@, OUT_LEN as nat),
{
    let offset = capacity_value.len();
    let rate = WIDTH - offset;
    let extra_elements = (rate - (input.len() % rate)) % rate;
    let total = input.len() + extra_elements;
    let input_vector = pad_with_zeros(input, total);
    let ghost blocks = (total / rate) as nat;
    proof {
        lemma_padded_len_is_whole_blocks(input@.len(), rate as nat);
    }
    let mut state = pad_with_zeros(capacity_value, WIDTH);
    let ghost initial = state@;
    let ghost done: nat = 0;
    let mut start: usize = 0;
    while start < total
        invariant
            WIDTH == 16 || WIDTH == 24,
            offset + rate == WIDTH,
            rate > 0,
            input_vector@.len() == total,
            total == blocks * rate,
            start == done * rate,
            done <= blocks,
            state@.len() == WIDTH,
            state@ == absorb_blocks(
                WIDTH as nat,
                initial,
                offset as nat,
                input_vector@,
                rate as nat,
                done,
            ),
        decreases total - start,
    {
        proof {
            assert((done + 1) * rate <= blocks * rate) by (nonlinear_arith)
                requires
                    done * rate < blocks * rate,
                    rate > 0,
            ;
            assert((done + 1) * rate == done * rate + rate) by (nonlinear_arith);
        }
        let ghost before = state@;
        let ghost block = input_vector@.subrange(start as int, start + rate);
        let mut j: usize = 0;
        while j < rate
            invariant
                0 <= j <= rate,
                offset + rate == WIDTH,
                start + rate <= total,
                input_vector@.len() == total,
                block == input_vector@.subrange(start as int, start + rate),
                before.len() == WIDTH,
                state@ == add_block(before, offset as nat, block, j as nat),
            decreases rate - j,
        {
            let sum = field_add(state[offset + j], input_vector[start + j]);
            state.set(offset + j, sum);
            j += 1;
            assert(state@ =~= add_block(before, offset as nat, block, j as nat));
        }
        state = permute::<WIDTH>(state.as_slice());
        start = start + rate;
        proof {
            done = done + 1;
        }
    }
    proof {
        assert(done == blocks) by (nonlinear_arith)
            requires
                done * rate >= blocks * rate,
                done <= blocks,
                rate > 0,
        ;
    }
    let mut out = [0u32;OUT_LEN];
    let mut i: usize = 0;
    while i < OUT_LEN
        invariant
            0 <= i <= OUT_LEN <= WIDTH,
            state@.len() == WIDTH,
            forall|k: int| 0 <= k < i ==> out[k] == state@[k],
        decreases OUT_LEN - i,
    {
        out[i] = state[i];
        i += 1;
    }
    assert(out@ =~= state@.take(OUT_LEN as int));
    out
}

} // verus!
