//! Conversions between bytes, integers, field elements and chunks.

use crate::bignum::{
    big_add, big_div, big_mul, big_rem, digit_at, le_value, lemma_digit_at_step,
    lemma_digits_of_two_digit_number,
};
use crate::field::ORDER;
use crate::params::{MESSAGE_LENGTH, TWEAK_SEPARATOR_FOR_MESSAGE_HASH};
use vstd::arithmetic::div_mod::*;
use vstd::arithmetic::mul::*;
use vstd::arithmetic::power::*;
use vstd::arithmetic::power2::*;
use vstd::bits::*;
use vstd::prelude::*;
use vstd::slice::slice_to_vec;

verus! {

/// The first `count` digits of `value` in base [`ORDER`], least significant
/// first.
pub open spec fn field_digits(value: nat, count: nat) -> Seq<u32> {
    Seq::new(count, |i: int| digit_at(value, ORDER as nat, i as nat) as u32)
}

/// Writes the message, read as a little-endian number, in base [`ORDER`]:
/// element `i` of the result is digit `i`, least significant first. Digits
/// beyond the `N` requested are dropped.
pub fn encode_message<const N: usize>(message: &[u8; MESSAGE_LENGTH]) -> (out: [u32; N])
    ensures
        out@ == field_digits(le_value(message@), N as nat),
{
    let ghost value = le_value(message@);
    let mut out = [0u32;N];
    let mut acc: Vec<u8> = slice_to_vec(message.as_slice());
    proof {
        lemma_pow0(ORDER as int);
    }
    let mut i: usize = 0;
    while i < N
        invariant
            0 <= i <= N,
            le_value(acc@) as int == value as int / pow(ORDER as int, i as nat),
            forall|j: int| 0 <= j < i ==> out[j] as nat == digit_at(value, ORDER as nat, j as nat),
        decreases N - i,
    {
        let digit = big_rem(acc.as_slice(), ORDER as u64);
        let next = big_div(acc.as_slice(), ORDER as u64);
        proof {
            lemma_digit_at_step(value, ORDER as nat, i as nat);
        }
        out[i] = digit as u32;
        acc = next;
        i += 1;
    }
    assert(out@ =~= field_digits(value, N as nat));
    out
}

/// The number that the message hash takes as its tweak: the epoch shifted
/// up by one byte, with the separator of the message hash in the low byte.
pub open spec fn message_tweak_value(epoch: u32) -> nat {
    (epoch as nat) * 256 + (TWEAK_SEPARATOR_FOR_MESSAGE_HASH as nat)
}

/// Writes [`message_tweak_value`] of the epoch in base [`ORDER`], least
/// significant digit first. The number has two digits; further elements are
/// zero.
pub fn encode_epoch<const N: usize>(epoch: u32) -> (out: [u32; N])
    ensures
        out@ == field_digits(message_tweak_value(epoch), N as nat),
{
    let wide: u64 = epoch as u64;
    let separator: u64 = TWEAK_SEPARATOR_FOR_MESSAGE_HASH as u64;
    let acc: u64 = (wide << 8) | separator;
    assert(acc == wide * 256 + 2) by (bit_vector)
        requires
            acc == (wide << 8) | separator,
            separator == 2,
            wide < 0x1_0000_0000,
    ;
    let mut result = [0u32;N];
    if N > 0 {
        result[0] = (acc % (ORDER as u64)) as u32;
    }
    if N > 1 {
        result[1] = (acc / (ORDER as u64)) as u32;
    }
    proof {
        assert forall|i: int| 0 <= i < N implies result[i] as nat == digit_at(
            message_tweak_value(epoch),
            ORDER as nat,
            i as nat,
        ) by {
            lemma_digits_of_two_digit_number(message_tweak_value(epoch), ORDER as nat, i as nat);
        }
        assert(result@ =~= field_digits(message_tweak_value(epoch), N as nat));
    }
    result
}

/// The number that field elements spell in base [`ORDER`], most significant
/// element first.
pub open spec fn be_field_value(elements: Seq<u32>) -> nat
    decreases elements.len(),
{
    if elements.len() == 0 {
        0
    } else {
        be_field_value(elements.drop_last()) * (ORDER as nat) + (elements.last() % ORDER) as nat
    }
}

/// The first `count` digits of `value` in `base`, least significant first,
/// each kept to its low eight bits. With a base up to 256 that is the digit
/// itself.
pub open spec fn byte_digits(value: nat, base: nat, count: nat) -> Seq<u8> {
    Seq::new(count, |i: int| (digit_at(value, base, i as nat) % 256) as u8)
}

/// Reads the field elements as one number, most significant element first,
/// and writes it in base `BASE`: element `i` of the result is digit `i`, least
/// significant first, kept to its low eight bits.
pub fn decode_to_chunks<const DIMENSION: usize, const BASE: usize, const HASH_LEN: usize>(
    field_elements: &[u32; HASH_LEN],
) -> (out: [u8; DIMENSION])
    requires
        BASE >= 1,
    ensures
        out@ == byte_digits(be_field_value(field_elements@), BASE as nat, DIMENSION as nat),
{
    let mut acc: Vec<u8> = Vec::new();
    let mut k: usize = 0;
    while k < HASH_LEN
        invariant
            0 <= k <= HASH_LEN,
            le_value(acc@) == be_field_value(field_elements@.take(k as int)),
        decreases HASH_LEN - k,
    {
        let scaled = big_mul(acc.as_slice(), ORDER as u64);
        let canonical: u32 = field_elements[k] % ORDER;
        acc = big_add(scaled.as_slice(), canonical as u64);
        proof {
            assert(field_elements@.take(k + 1).drop_last() == field_elements@.take(k as int));
        }
        k += 1;
    }
    proof {
        assert(field_elements@.take(HASH_LEN as int) == field_elements@);
    }
    let ghost value = be_field_value(field_elements@);
    let base: u64 = BASE as u64;
    let mut out = [0u8;DIMENSION];
    proof {
        lemma_pow0(BASE as int);
    }
    let mut i: usize = 0;
    while i < DIMENSION
        invariant
            0 <= i <= DIMENSION,
            base == BASE,
            BASE >= 1,
            le_value(acc@) as int == value as int / pow(BASE as int, i as nat),
            forall|j: int|
                0 <= j < i ==> out[j] as nat == digit_at(value, BASE as nat, j as nat) % 256,
        decreases DIMENSION - i,
    {
        let digit: u64 = big_rem(acc.as_slice(), base);
        let next = big_div(acc.as_slice(), base);
        proof {
            lemma_digit_at_step(value, BASE as nat, i as nat);
        }
        let chunk: u8 = #[verifier::truncate] (digit as u8);
        assert(chunk == digit % 256) by (bit_vector)
            requires
                chunk == #[verifier::truncate] (digit as u8),
        ;
        out[i] = chunk;
        acc = next;
        i += 1;
    }
    assert(out@ =~= byte_digits(value, BASE as nat, DIMENSION as nat));
    out
}

/// The eight bytes of `value`, least significant first.
pub fn to_le_bytes(value: u64) -> (out: [u8; 8])
    ensures
        le_value(out@) == value,
{
    let mut out = [0u8;8];
    let mut rest: u64 = value;
    proof {
        lemma2_to64();
        assert(out@.take(0) =~= Seq::<u8>::empty());
        assert(rest * pow2(0) == rest);
    }
    let mut i: usize = 0;
    while i < 8
        invariant
            0 <= i <= 8,
            le_value(out@.take(i as int)) + rest * pow2((8 * i) as nat) == value,
        decreases 8 - i,
    {
        let ghost before = out@;
        let ghost high = pow2((8 * i) as nat);
        let byte: u8 = (rest % 256) as u8;
        out[i] = byte;
        proof {
            assert(out@.take(i + 1).drop_last() =~= before.take(i as int));
            lemma_pow2_adds((8 * i) as nat, 8);
            lemma2_to64();
            assert(rest * high == byte * high + (rest / 256) * (high * 256)) by (nonlinear_arith)
                requires
                    byte == rest % 256,
            ;
        }
        rest = rest / 256;
        i += 1;
    }
    proof {
        lemma2_to64_rest();
        assert(out@.take(8) =~= out@);
        assert(rest == 0) by (nonlinear_arith)
            requires
                rest * 0x1_0000_0000_0000_0000 <= value,
                value < 0x1_0000_0000_0000_0000,
        ;
    }
    out
}

/// How many chunks of `chunk_size` bits it takes to hold `byte_count` bytes.
pub open spec fn chunk_count(byte_count: nat, chunk_size: nat) -> nat {
    ((8 * byte_count + chunk_size - 1) / (chunk_size as int)) as nat
}

/// Bits `chunk_size * index` and up, `chunk_size` of them, of `value`.
pub open spec fn bit_window(value: nat, chunk_size: nat, index: nat) -> nat {
    (value / pow2(chunk_size * index)) % pow2(chunk_size)
}

/// A window of `chunk_size` bits is a digit in base `2^chunk_size`.
pub proof fn lemma_bit_window_is_digit(value: nat, chunk_size: nat, index: nat)
    ensures
        bit_window(value, chunk_size, index) == digit_at(value, pow2(chunk_size), index),
{
    lemma_pow2(chunk_size);
    lemma_pow2(chunk_size * index);
    lemma_pow_multiplies(2, chunk_size, index);
    lemma_pow2_pos(chunk_size);
    lemma_pow2_pos(chunk_size * index);
}

/// Adding a multiple of `2^(low + chunk_size)` leaves the window at `low`
/// as it was.
proof fn lemma_window_ignores_high_bits(value: nat, extra: nat, low: nat, high: nat, chunk_size: nat)
    requires
        high >= low + chunk_size,
    ensures
        ((value + extra * pow2(high)) / pow2(low)) % pow2(chunk_size) == (value / pow2(low))
            % pow2(chunk_size),
{
    let rest = (high - low - chunk_size) as nat;
    lemma_pow2_adds(low, chunk_size + rest);
    lemma_pow2_adds(chunk_size, rest);
    lemma_pow2_pos(low);
    lemma_pow2_pos(chunk_size);
    let lo = pow2(low) as int;
    let cs = pow2(chunk_size) as int;
    let t = (extra * pow2(rest)) as int;
    assert(extra * pow2(high) == (t * cs) * lo) by (nonlinear_arith)
        requires
            pow2(high) == lo * (cs * pow2(rest)),
            t == extra * pow2(rest),
    ;
    lemma_hoist_over_denominator(value as int, t * cs, lo as nat);
    lemma_mul_is_commutative(t, cs);
    lemma_mod_multiples_vanish(t, value as int / lo, cs);
}

/// Adding a multiple of `2^high` adds its quotient to the bits above `low`.
proof fn lemma_shift_absorbs_high_bits(value: nat, extra: nat, low: nat, high: nat)
    requires
        high >= low,
    ensures
        (value + extra * pow2(high)) / pow2(low) == value / pow2(low) + extra * pow2(
            (high - low) as nat,
        ),
{
    let rest = (high - low) as nat;
    lemma_pow2_adds(low, rest);
    lemma_pow2_pos(low);
    let lo = pow2(low) as int;
    let t = (extra * pow2(rest)) as int;
    assert(extra * pow2(high) == t * lo) by (nonlinear_arith)
        requires
            pow2(high) == lo * pow2(rest),
            t == extra * pow2(rest),
    ;
    lemma_hoist_over_denominator(value as int, t, lo as nat);
}

/// Cuts the bytes, read as a little-endian number, into chunks of
/// `chunk_size` bits, least significant chunk first; a last chunk takes the
/// bits that are left: the digits of the number in base `2^chunk_size`. Each
/// chunk is kept to its low eight bits, so with `chunk_size` up to 8 it is
/// the chunk itself.
///
/// The accumulator has 32 bits, which bounds `chunk_size` by 25.
pub fn bytes_to_chunks(bytes: &[u8], chunk_size: usize) -> (out: Vec<u8>)
    requires
        1 <= chunk_size <= 25,
    ensures
        out@ == byte_digits(
            le_value(bytes@),
            pow2(chunk_size as nat),
            chunk_count(bytes@.len(), chunk_size as nat),
        ),
{
    let mut out: Vec<u8> = Vec::new();
    let mut acc: u32 = 0;
    let mut bits: usize = 0;
    let width: u32 = chunk_size as u32;
    proof {
        lemma_u32_pow2_no_overflow(chunk_size as nat);
        lemma_u32_shl_is_mul(1, width);
    }
    let mask: u32 = (1u32 << width) - 1;
    assert(mask == low_bits_mask(chunk_size as nat));
    let ghost cs = chunk_size as nat;
    proof {
        lemma2_to64();
        assert(cs * 0 == 0);
        assert(bytes@.take(0) =~= Seq::<u8>::empty());
    }
    let mut k: usize = 0;
    while k < bytes.len()
        invariant
            0 <= k <= bytes@.len(),
            1 <= chunk_size <= 25,
            cs == chunk_size,
            width == chunk_size,
            mask == low_bits_mask(cs),
            cs * out@.len() + bits == 8 * k,
            bits < chunk_size,
            acc as nat == le_value(bytes@.take(k as int)) / pow2(cs * out@.len()),
            acc < pow2(bits as nat),
            forall|j: int|
                0 <= j < out@.len() ==> out@[j] as nat == bit_window(
                    le_value(bytes@.take(k as int)),
                    cs,
                    j as nat,
                ) % 256,
        decreases bytes@.len() - k,
    {
        let byte: u32 = bytes[k] as u32;
        let ghost before = le_value(bytes@.take(k as int));
        let ghost value = le_value(bytes@.take(k + 1));
        let ghost emitted = out@.len();
        let shift: u32 = bits as u32;
        proof {
            assert(bytes@.take(k + 1).drop_last() == bytes@.take(k as int));
            assert(value == before + (byte as nat) * pow2((8 * k) as nat));
            lemma2_to64();
            lemma_pow2_adds(bits as nat, 8);
            if bits < 24 {
                lemma_pow2_strictly_increases(bits as nat, 24);
            }
            assert(byte * pow2(bits as nat) <= 255 * 0x100_0000) by (nonlinear_arith)
                requires
                    byte <= 255,
                    pow2(bits as nat) <= 0x100_0000,
            ;
            lemma_u32_shl_is_mul(byte, shift);
            lemma_u32_shl_is_mul(1, shift);
        }
        let placed: u32 = byte << shift;
        let ghost old_acc = acc as nat;
        let ghost old_bits = bits as nat;
        assert(acc | placed == acc + placed) by (bit_vector)
            requires
                placed == byte << shift,
                acc < (1u32 << shift),
                shift <= 24,
                byte <= 255,
        ;
        acc = acc | placed;
        bits = bits + 8;
        proof {
            lemma2_to64();
            lemma_pow2_adds(old_bits, 8);
            assert(acc < pow2(bits as nat)) by (nonlinear_arith)
                requires
                    acc == old_acc + byte * pow2(old_bits),
                    old_acc < pow2(old_bits),
                    byte <= 255,
                    pow2(bits as nat) == pow2(old_bits) * 256,
            ;
            lemma_shift_absorbs_high_bits(before, byte as nat, cs * emitted, (8 * k) as nat);
            assert forall|j: int| 0 <= j < emitted implies out@[j] as nat == bit_window(
                value,
                cs,
                j as nat,
            ) % 256 by {
                assert(cs * (j as nat) + cs <= cs * emitted) by (nonlinear_arith)
                    requires
                        0 <= j < emitted,
                ;
                lemma_window_ignores_high_bits(
                    before,
                    byte as nat,
                    cs * (j as nat),
                    (8 * k) as nat,
                    cs,
                );
            }
        }
        while bits >= chunk_size
            invariant
                0 <= k < bytes@.len(),
                1 <= chunk_size <= 25,
                cs == chunk_size,
                width == chunk_size,
                mask == low_bits_mask(cs),
                value == le_value(bytes@.take(k + 1)),
                cs * out@.len() + bits == 8 * (k + 1),
                bits <= 32,
                acc as nat == value / pow2(cs * out@.len()),
                acc < pow2(bits as nat),
                forall|j: int|
                    0 <= j < out@.len() ==> out@[j] as nat == bit_window(value, cs, j as nat) % 256,
            decreases bits,
        {
            let ghost done = out@.len();
            let ghost old_out = out@;
            let low: u32 = acc & mask;
            let chunk: u8 = #[verifier::truncate] (low as u8);
            assert(chunk == low % 256) by (bit_vector)
                requires
                    chunk == #[verifier::truncate] (low as u8),
            ;
            proof {
                lemma_u32_pow2_no_overflow(cs);
                lemma_u32_low_bits_mask_is_mod(acc, cs);
                assert(low as nat == (acc as nat) % pow2(cs));
                assert(chunk as nat == bit_window(value, cs, done) % 256);
                lemma_u32_shr_is_div(acc, width);
                lemma_pow2_pos(cs);
                lemma_pow2_pos(cs * done);
                lemma_pow2_adds(cs * done, cs);
                assert(cs * done + cs == cs * (done + 1)) by (nonlinear_arith);
                lemma_div_denominator(value as int, pow2(cs * done) as int, pow2(cs) as int);
                lemma_pow2_adds((bits - chunk_size) as nat, cs);
                lemma_pow2_pos((bits - chunk_size) as nat);
                lemma_mul_is_commutative(
                    pow2(cs) as int,
                    pow2((bits - chunk_size) as nat) as int,
                );
                assert((bits - chunk_size) as nat + cs == bits as nat);
                lemma_multiply_divide_lt(
                    acc as int,
                    pow2(cs) as int,
                    pow2((bits - chunk_size) as nat) as int,
                );
            }
            out.push(chunk);
            acc = acc >> width;
            bits = bits - chunk_size;
            proof {
                assert(out@[done as int] as nat == bit_window(value, cs, done) % 256);
                assert forall|j: int| 0 <= j < out@.len() implies out@[j] as nat == bit_window(
                    value,
                    cs,
                    j as nat,
                ) % 256 by {
                    if j < done {
                        assert(out@[j] == old_out[j]);
                    }
                }
            }
        }
        k += 1;
    }
    let ghost value = le_value(bytes@);
    let ghost whole = out@.len();
    proof {
        assert(bytes@.take(bytes@.len() as int) == bytes@);
    }
    if bits > 0 {
        let low: u32 = acc & mask;
        let chunk: u8 = #[verifier::truncate] (low as u8);
        assert(chunk == low % 256) by (bit_vector)
            requires
                chunk == #[verifier::truncate] (low as u8),
        ;
        proof {
            lemma_u32_pow2_no_overflow(cs);
            lemma_u32_low_bits_mask_is_mod(acc, cs);
            assert(low as nat == (acc as nat) % pow2(cs));
            assert(chunk as nat == bit_window(value, cs, whole) % 256);
        }
        out.push(chunk);
    }
    proof {
        let total = (8 * bytes@.len() + cs - 1) as int;
        if bits > 0 {
            assert(total == (whole + 1) * cs + (bits - 1)) by (nonlinear_arith)
                requires
                    total == 8 * bytes@.len() + cs - 1,
                    cs * whole + bits == 8 * bytes@.len(),
            ;
            lemma_fundamental_div_mod_converse(total, cs as int, (whole + 1) as int, bits - 1);
        } else {
            assert(total == whole * cs + (cs - 1)) by (nonlinear_arith)
                requires
                    total == 8 * bytes@.len() + cs - 1,
                    cs * whole + bits == 8 * bytes@.len(),
                    bits == 0,
            ;
            lemma_fundamental_div_mod_converse(total, cs as int, whole as int, cs - 1);
        }
        assert forall|j: int| 0 <= j < out@.len() implies out@[j] as nat == digit_at(
            value,
            pow2(cs),
            j as nat,
        ) % 256 by {
            lemma_bit_window_is_digit(value, cs, j as nat);
        }
        assert(out@ =~= byte_digits(value, pow2(cs), chunk_count(bytes@.len(), cs)));
    }
    out
}

} // verus!
