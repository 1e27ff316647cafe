//! The packed bit storage behind the grid: `fixedbitset::FixedBitSet`,
//! declared to the verifier as an opaque type whose contents are abstracted
//! as a sequence of booleans, one per bit.

use vstd::prelude::*;
use fixedbitset::FixedBitSet;

verus! {

#[verifier::external_type_specification]
#[verifier::external_body]
pub struct ExFixedBitSet(FixedBitSet);

/// The bits a `FixedBitSet` holds, in index order, as many as it was sized for.
pub uninterp spec fn bit_seq(s: FixedBitSet) -> Seq<bool>;

/// Relies on `FixedBitSet::with_capacity`: a set of exactly `n` bits, all
/// initially clear.
#[verifier::external_body]
pub(crate) fn bits_with_capacity(n: usize) -> (r: FixedBitSet)
    ensures
        bit_seq(r).len() == n,
        forall|i: int| 0 <= i < n ==> !bit_seq(r)[i],
{
    FixedBitSet::with_capacity(n)
}

/// Relies on `FixedBitSet::set`: writes the one addressed bit and nothing
/// else; it panics when the index is at or past the set's size, so that
/// index is required to be in range.
#[verifier::external_body]
pub(crate) fn bits_set(s: &mut FixedBitSet, i: usize, value: bool)
    requires
        i < bit_seq(*old(s)).len(),
    ensures
        bit_seq(*final(s)) == bit_seq(*old(s)).update(i as int, value),
{
    s.set(i, value)
}

/// Relies on `FixedBitSet::contains`: reads the addressed bit; an index at or
/// past the set's size reads as clear.
#[verifier::external_body]
pub(crate) fn bits_get(s: &FixedBitSet, i: usize) -> (r: bool)
    ensures
        r == (i < bit_seq(*s).len() && bit_seq(*s)[i as int]),
{
    s.contains(i)
}

/// Relies on `<FixedBitSet as Clone>::clone`: an exact copy, bit for bit.
#[verifier::external_body]
pub(crate) fn bits_clone(s: &FixedBitSet) -> (r: FixedBitSet)
    ensures
        bit_seq(r) == bit_seq(*s),
{
    s.clone()
}

/// Relies on `FixedBitSet::as_slice`: a borrowed view of the backing `u32`
/// blocks, 32 bits per block, bit `i` of the set stored at bit `i % 32` of
/// block `i / 32`.
#[verifier::external_body]
pub(crate) fn bits_as_slice(s: &FixedBitSet) -> (r: &[u32])
    ensures
        r@.len() == (bit_seq(*s).len() + 31) / 32,
        forall|i: int|
            0 <= i < bit_seq(*s).len() ==> (bit_seq(*s)[i] <==> (r@[i / 32] >> ((i % 32) as u32))
                & 1u32 == 1u32),
{
    s.as_slice()
}

} // verus!
