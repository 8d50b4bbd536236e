//! Domain separation: the tweak that is mixed into every hash call.

use crate::bignum::{digit_at, lemma_digit_at_step, lemma_digits_of_two_digit_number};
use crate::field::ORDER;
use crate::params::{TWEAK_SEPARATOR_FOR_CHAIN_HASH, TWEAK_SEPARATOR_FOR_TREE_HASH};
use vstd::arithmetic::div_mod::*;
use vstd::arithmetic::power::*;
use vstd::prelude::*;

verus! {

/// What a hash call is for: a node of the tree, or a step in a chain.
#[derive(Clone, Copy, Debug, PartialEq, Eq)]
pub enum PoseidonTweak {
    /// The node at `pos_in_level` of `level`; level 0 holds the leaves.
    Tree { level: u8, pos_in_level: u32 },
    /// The value at `pos_in_chain` of chain `chain_index` of `epoch`.
    Chain { epoch: u32, chain_index: u8, pos_in_chain: u8 },
}

impl PoseidonTweak {
    /// The tweak packed into one number: the coordinates above the
    /// separator, which takes the low byte.
    pub open spec fn value(self) -> nat {
        match self {
            PoseidonTweak::Tree { level, pos_in_level } => {
                (level as nat) * 0x100_0000_0000 + (pos_in_level as nat) * 0x100
                    + TWEAK_SEPARATOR_FOR_TREE_HASH as nat
            },
            PoseidonTweak::Chain { epoch, chain_index, pos_in_chain } => {
                (epoch as nat) * 0x100_0000 + (chain_index as nat) * 0x1_0000 + (
                pos_in_chain as nat) * 0x100 + TWEAK_SEPARATOR_FOR_CHAIN_HASH as nat
            },
        }
    }

    /// The tweak as field elements: `N` digits of [`Self::value`] in base
    /// [`ORDER`], least significant first.
    pub open spec fn digits(self, n: nat) -> Seq<u32> {
        Seq::new(n, |i: int| digit_at(self.value(), ORDER as nat, i as nat) as u32)
    }

    /// Packs the tweak and writes it in base [`ORDER`], least significant
    /// digit first.
    pub fn to_field_elements<const N: usize>(&self) -> (out: [u32; N])
        ensures
            out@ == self.digits(N as nat),
            forall|i: int| 0 <= i < N ==> out[i] < ORDER,
    {
        let mut acc: u128 = match self {
            PoseidonTweak::Tree { level, pos_in_level } => {
                let level_wide: u128 = *level as u128;
                let position_wide: u128 = *pos_in_level as u128;
                let separator: u128 = TWEAK_SEPARATOR_FOR_TREE_HASH as u128;
                let packed: u128 = (level_wide << 40) | (position_wide << 8) | separator;
                assert(packed == level_wide * 0x100_0000_0000 + position_wide * 0x100 + separator)
                    by (bit_vector)
                    requires
                        packed == (level_wide << 40) | (position_wide << 8) | separator,
                        level_wide < 0x100,
                        position_wide < 0x1_0000_0000,
                        separator < 0x100,
                ;
                packed
            },
            PoseidonTweak::Chain { epoch, chain_index, pos_in_chain } => {
                let epoch_wide: u128 = *epoch as u128;
                let chain_wide: u128 = *chain_index as u128;
                let position_wide: u128 = *pos_in_chain as u128;
                let separator: u128 = TWEAK_SEPARATOR_FOR_CHAIN_HASH as u128;
                let packed: u128 = (epoch_wide << 24) | (chain_wide << 16) | (position_wide << 8)
                    | separator;
                assert(packed == epoch_wide * 0x100_0000 + chain_wide * 0x1_0000 + position_wide
                    * 0x100 + separator) by (bit_vector)
                    requires
                        packed == (epoch_wide << 24) | (chain_wide << 16) | (position_wide << 8)
                            | separator,
                        epoch_wide < 0x1_0000_0000,
                        chain_wide < 0x100,
                        position_wide < 0x100,
                        separator < 0x100,
                ;
                packed
            },
        };
        let ghost value = self.value();
        assert(acc as nat == value);
        let mut out = [0u32;N];
        proof {
            lemma_pow0(ORDER as int);
        }
        let mut i: usize = 0;
        while i < N
            invariant
                0 <= i <= N,
                acc as int == value as int / pow(ORDER as int, i as nat),
                forall|j: int|
                    0 <= j < i ==> out[j] as nat == digit_at(value, ORDER as nat, j as nat),
            decreases N - i,
        {
            let digit: u128 = acc % (ORDER as u128);
            proof {
                lemma_digit_at_step(value, ORDER as nat, i as nat);
            }
            acc = acc / (ORDER as u128);
            out[i] = digit as u32;
            i += 1;
        }
        assert(out@ =~= self.digits(N as nat));
        out
    }
}

/// A tree tweak never equals a chain tweak: the packed numbers differ in
/// their low byte, and so do their two field elements.
pub proof fn lemma_tweak_families_are_disjoint(tree: PoseidonTweak, chain: PoseidonTweak)
    requires
        tree is Tree,
        chain is Chain,
    ensures
        tree.value() != chain.value(),
        tree.digits(2) != chain.digits(2),
{
    lemma_two_digits_tell_the_tweak(tree, chain);
}

/// Two field elements hold a tweak without loss: tweaks with equal digits
/// pack to the same number.
pub proof fn lemma_two_digits_tell_the_tweak(first: PoseidonTweak, second: PoseidonTweak)
    ensures
        first.digits(2) == second.digits(2) ==> first.value() == second.value(),
{
    if first.digits(2) == second.digits(2) {
        let order = ORDER as nat;
        lemma_digits_of_two_digit_number(first.value(), order, 0);
        lemma_digits_of_two_digit_number(second.value(), order, 0);
        assert(first.digits(2)[0] == second.digits(2)[0]);
        assert(first.digits(2)[1] == second.digits(2)[1]);
        lemma_fundamental_div_mod(first.value() as int, order as int);
        lemma_fundamental_div_mod(second.value() as int, order as int);
    }
}

} // verus!
