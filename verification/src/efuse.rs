//! One-time programmable fuses.

use crate::bus::{rd, Bus, Mmio};
use crate::registry::Registry;
use vstd::arithmetic::power2::pow2;
use vstd::prelude::*;

verus! {

/// A named field of fuse bits.
#[derive(Debug)]
pub struct EfuseCell {
    pub name: String,
    /// Byte offset of the word that holds the field.
    pub offset: usize,
    /// Lowest bit of the field.
    pub bit_offset: u32,
    /// Number of bits.
    pub bit_count: u32,
}

/// The field of `count` bits from bit `offset` on.
pub open spec fn field(word: u32, offset: u32, count: u32) -> int {
    (word as int / pow2(offset as nat) as int) % pow2(count as nat) as int
}

impl Clone for EfuseCell {
    fn clone(&self) -> (r: Self)
        ensures
            r == *self,
    {
        EfuseCell {
            name: self.name.clone(),
            offset: self.offset,
            bit_offset: self.bit_offset,
            bit_count: self.bit_count,
        }
    }
}

impl EfuseCell {
    /// The field lies in a word.
    pub open spec fn wf(&self) -> bool {
        self.bit_offset < 32 && self.bit_count < 32
    }

    /// The value of the field in a word.
    pub fn extract(&self, word: u32) -> (r: u32)
        requires
            self.wf(),
        ensures
            r == field(word, self.bit_offset, self.bit_count),
    {
        proof {
            vstd::bits::lemma_u32_pow2_no_overflow(self.bit_count as nat);
            vstd::bits::lemma_u32_pow2_no_overflow(self.bit_offset as nat);
            vstd::bits::lemma_u32_shl_is_mul(1u32, self.bit_count);
            vstd::bits::lemma_u32_shr_is_div(word, self.bit_offset);
            vstd::bits::lemma_u32_low_bits_mask_is_mod(
                word >> self.bit_offset,
                self.bit_count as nat,
            );
        }
        let mask: u32 = (1u32 << self.bit_count) - 1;
        (word >> self.bit_offset) & mask
    }
}

/// A field of no more bits than a word has is smaller than the next power of
/// two.
pub proof fn field_is_small(word: u32, offset: u32, count: u32)
    requires
        offset < 32,
        count < 32,
    ensures
        0 <= field(word, offset, count) < pow2(count as nat),
{
    vstd::bits::lemma_u32_pow2_no_overflow(count as nat);
}

/// A block of fuses.
pub struct AppleEfuse {
    pub base: usize,
}

impl AppleEfuse {
    pub fn new(base: usize) -> (r: Self)
        ensures
            r.base == base,
    {
        AppleEfuse { base }
    }

    pub fn read32<M: Mmio>(&self, bus: &mut Bus<M>, offset: usize) -> (r: u32)
        requires
            self.base + offset <= usize::MAX,
        ensures
            final(bus).ops() == old(bus).ops().push(rd(self.base, offset as int, r)),
    {
        bus.read32(self.base + offset)
    }

    /// Read the word of a field and take the field out of it.
    pub fn read_cell<M: Mmio>(&self, bus: &mut Bus<M>, cell: &EfuseCell) -> (r: u32)
        requires
            cell.wf(),
            self.base + cell.offset <= usize::MAX,
        ensures
            exists|word: u32|
                final(bus).ops() == old(bus).ops().push(
                    #[trigger] rd(self.base, cell.offset as int, word),
                ) && r == field(word, cell.bit_offset, cell.bit_count),
    {
        let word: u32 = self.read32(bus, cell.offset);
        assert(bus.ops() == old(bus).ops().push(rd(self.base, cell.offset as int, word)));
        cell.extract(word)
    }
}

/// A probed block of fuses by identifier.
pub fn get_apple_efuse(registry: &Registry<AppleEfuse>, id: u32) -> (r: Option<&AppleEfuse>)
    ensures
        r is Some <==> id < registry@.len(),
        r is Some ==> *r->0 == registry@[id as int].1,
{
    registry.get(id)
}

} // verus!
