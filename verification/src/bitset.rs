//! What this library relies on from the `fixedbitset` crate.
//!
//! None of the contracts in this file is proved: each one restates what the
//! named function of `fixedbitset` does, over [`bit_seq`].

use fixedbitset::FixedBitSet;
use vstd::prelude::*;

verus! {

/// `fixedbitset::FixedBitSet`, declared so that it can stand in signatures
/// and fields. Nothing inside a value is visible here: [`bit_seq`] names what
/// it holds.
#[verifier::external_type_specification]
#[verifier::external_body]
pub struct ExFixedBitSet(fixedbitset::FixedBitSet);

/// The bits of a `FixedBitSet` in index order: one entry per bit of its
/// length, `true` where the bit is enabled.
pub uninterp spec fn bit_seq(set: FixedBitSet) -> Seq<bool>;

/// Whether bit `i` is set in a packing of bits into 32-bit blocks: bit
/// `i % 32`, counted from the least significant, of block `i / 32`.
pub open spec fn packed_bit(blocks: Seq<u32>, i: int) -> bool {
    blocks[i / 32] & (1u32 << ((i % 32) as u32)) != 0
}

/// `FixedBitSet::with_capacity`: a set of `bits` bits, all of them disabled.
pub assume_specification[ fixedbitset::FixedBitSet::with_capacity ](bits: usize) -> (set:
    FixedBitSet)
    ensures
        bit_seq(set).len() == bits,
        forall|i: int| 0 <= i < bits ==> !(#[trigger] bit_seq(set)[i]),
;

/// `FixedBitSet::contains`: whether `bit` is enabled. Nothing is claimed
/// here of a `bit` at or past the length.
pub assume_specification[ fixedbitset::FixedBitSet::contains ](
    set: &FixedBitSet,
    bit: usize,
) -> (enabled: bool)
    ensures
        bit < bit_seq(*set).len() ==> enabled == bit_seq(*set)[bit as int],
;

/// `FixedBitSet::set`: gives `bit` the value `enabled` and leaves every other
/// bit as it was. The call panics when `bit` is not below the length.
pub assume_specification[ fixedbitset::FixedBitSet::set ](
    set: &mut FixedBitSet,
    bit: usize,
    enabled: bool,
)
    requires
        bit < bit_seq(*old(set)).len(),
    ensures
        bit_seq(*final(set)) == bit_seq(*old(set)).update(bit as int, enabled),
;

/// `FixedBitSet::toggle`: inverts `bit` and leaves every other bit as it was.
/// The call panics when `bit` is not below the length.
pub assume_specification[ fixedbitset::FixedBitSet::toggle ](set: &mut FixedBitSet, bit: usize)
    requires
        bit < bit_seq(*old(set)).len(),
    ensures
        bit_seq(*final(set)) == bit_seq(*old(set)).update(
            bit as int,
            !bit_seq(*old(set))[bit as int],
        ),
;

/// `Clone::clone` of a `FixedBitSet`: a set with the same bits.
pub assume_specification[ <fixedbitset::FixedBitSet as Clone>::clone ](set: &FixedBitSet) -> (copy:
    FixedBitSet)
    ensures
        bit_seq(copy) == bit_seq(*set),
;

/// `FixedBitSet::as_slice`: the blocks that store the bits, 32 bits to a
/// block and as many blocks as the length needs, bit `i` of the set at
/// position `i % 32` of block `i / 32`. Nothing is claimed here of the
/// positions of the last block that lie past the length.
pub assume_specification[ fixedbitset::FixedBitSet::as_slice ](set: &FixedBitSet) -> (blocks: &[u32])
    ensures
        blocks@.len() == (bit_seq(*set).len() + 31) / 32,
        forall|i: int|
            0 <= i < bit_seq(*set).len() ==> #[trigger] bit_seq(*set)[i] == packed_bit(blocks@, i),
;

} // verus!
