//! What this crate assumes of `fixedbitset::FixedBitSet`.
//!
//! Nothing in this file is proved. Each item states, over the sequence of
//! bits that a set holds, what the `fixedbitset` source shows of one of its
//! functions.

use fixedbitset::FixedBitSet;
use vstd::prelude::*;

verus! {

/// `fixedbitset::FixedBitSet`, taken as it is: the verifier sees no field of
/// it, only what the items below say.
#[verifier::external_type_specification]
#[verifier::external_body]
pub struct ExFixedBitSet(FixedBitSet);

/// The bits that a set holds, in index order. Its length is the set's length
/// in bits, set and unset bits alike.
pub uninterp spec fn bits_of(set: FixedBitSet) -> Seq<bool>;

/// `FixedBitSet::with_capacity`: a set of `bits` bits, all of them unset.
pub assume_specification[ FixedBitSet::with_capacity ](bits: usize) -> (set: FixedBitSet)
    ensures
        bits_of(set) == Seq::new(bits as nat, |i: int| false),
;

/// `FixedBitSet::set`: writes `enabled` to the bit at `bit` and leaves every
/// other bit and the length as they were. The call panics for a `bit` at or
/// past the length, which `requires` leaves out.
pub assume_specification[ FixedBitSet::set ](set: &mut FixedBitSet, bit: usize, enabled: bool)
    requires
        bit < bits_of(*old(set)).len(),
    ensures
        bits_of(*final(set)) == bits_of(*old(set)).update(bit as int, enabled),
;

/// `FixedBitSet::clone`: a set that holds the same bits.
pub assume_specification[ <FixedBitSet as Clone>::clone ](set: &FixedBitSet) -> (copy: FixedBitSet)
    ensures
        bits_of(copy) == bits_of(*set),
;

/// `Index::index` of `FixedBitSet`, written `set[bit]`: the bit at `bit`,
/// for a `bit` inside the set. Nothing is claimed for a `bit` at or past
/// the length.
#[verifier::external_body]
pub(crate) fn bit_at(set: &FixedBitSet, bit: usize) -> (enabled: bool)
    ensures
        bit < bits_of(*set).len() ==> enabled == bits_of(*set)[bit as int],
{
    set[bit]
}

/// Whether `blocks` holds `bits` packed 32 to a block: bit `i` of the
/// sequence is bit `i % 32` of block `i / 32`, counted from the least
/// significant, and there are just enough blocks to hold every bit.
pub open spec fn packs(blocks: Seq<u32>, bits: Seq<bool>) -> bool {
    &&& blocks.len() == (bits.len() + 31) / 32
    &&& forall|i: int|
        0 <= i < bits.len() ==> #[trigger] bits[i] == (blocks[i / 32] & (1u32 << ((i % 32) as u32))
            != 0)
}

/// `FixedBitSet::as_slice`: the blocks in which the set stores its bits.
pub assume_specification[ FixedBitSet::as_slice ](set: &FixedBitSet) -> (blocks: &[u32])
    ensures
        packs(blocks@, bits_of(*set)),
;

} // verus!
