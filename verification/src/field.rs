//! The KoalaBear prime field, on canonical `u32` representatives.

use vstd::prelude::*;

verus! {

/// The KoalaBear prime, `2^31 - 2^24 + 1`.
pub const ORDER: u32 = 0x7f00_0001;

/// Every element of `s` is a canonical representative, below [`ORDER`].
pub open spec fn all_canonical(s: Seq<u32>) -> bool {
    forall|i: int| 0 <= i < s.len() ==> s[i] < ORDER
}

/// The canonical representative of the sum of two field elements.
pub open spec fn field_add_spec(a: u32, b: u32) -> u32 {
    ((a as int + b as int) % (ORDER as int)) as u32
}

/// Adds two field elements. Any `u32` is accepted; the sum is canonical.
pub fn field_add(a: u32, b: u32) -> (sum: u32)
    ensures
        sum == field_add_spec(a, b),
        sum < ORDER,
{
    let wide: u64 = a as u64 + b as u64;
    (wide % (ORDER as u64)) as u32
}

} // verus!
