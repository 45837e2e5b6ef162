//! Physical and virtual addresses.
//!
//! The two kinds are separate types. A physical address becomes a virtual
//! one, and back, only by the offset of the direct map, which the caller
//! passes along once the boot code has learnt it.
pub mod frames;
pub mod swap;

use vstd::prelude::*;
use crate::bits::{bit, field, get_bit, get_field, set_field, with_field, low_mask, lemma_field_bound};

verus! {

/// First bit of the index that a virtual address holds for `level`
/// (levels count from 1, the level of the smallest page).
pub open spec fn vpn_shift(level: int) -> u64 {
    (12 + 9 * (level - 1)) as u64
}

/// An address in physical memory.
#[derive(Clone, Copy, Debug, PartialEq, Eq, Structural)]
pub struct PhysicalAddress(pub u64);

impl PhysicalAddress {
    pub fn new(val: u64) -> (r: Self)
        ensures
            r.0 == val,
    {
        Self(val)
    }

    pub fn addr(&self) -> (r: u64)
        ensures
            r == self.0,
    {
        self.0
    }

    /// The address at which the direct map shows this physical address.
    pub fn to_virt(&self, hhdm_offset: u64) -> (r: VirtualAddress)
        requires
            self.0 + hhdm_offset <= u64::MAX,
        ensures
            r.0 == self.0 + hhdm_offset,
    {
        VirtualAddress::new(self.0 + hhdm_offset)
    }
}

/// An address in a virtual address space: a page offset in the low 12 bits
/// and above it one 9-bit table index per level.
#[derive(Clone, Copy, Debug, PartialEq, Eq, Structural)]
pub struct VirtualAddress(pub u64);

impl VirtualAddress {
    /// The table index that this address holds for `level`.
    pub open spec fn spec_vpn(self, level: int) -> int {
        field(self.0, vpn_shift(level), 9) as int
    }

    pub fn new(bits: u64) -> (r: Self)
        ensures
            r.0 == bits,
    {
        Self(bits)
    }

    pub fn addr(&self) -> (r: u64)
        ensures
            r == self.0,
    {
        self.0
    }

    /// Offset inside the smallest page.
    pub fn page_offset(&self) -> (r: u64)
        ensures
            r == field(self.0, 0, 12),
    {
        get_field(self.0, 0, 12)
    }

    pub fn set_page_offset(&mut self, val: u64)
        ensures
            final(self).0 == with_field(old(self).0, 0, 12, val),
    {
        self.0 = set_field(self.0, 0, 12, val);
    }

    /// The table index for level `idx`, where 1 is the level of the smallest
    /// page and 5 the highest level there is.
    pub fn vpn(&self, idx: usize) -> (r: usize)
        requires
            1 <= idx <= 5,
        ensures
            r == self.spec_vpn(idx as int),
            r < 512,
    {
        let shift: u64 = 12 + 9 * (idx as u64 - 1);
        let v: u64 = get_field(self.0, shift, 9);
        proof {
            lemma_field_bound(self.0, shift, 9);
            assert(low_mask(9) == 511) by (bit_vector);
        }
        v as usize
    }

    /// Writes the index field number `idx`, counted from 0 at the lowest.
    pub fn set_vpn(&mut self, idx: usize, val: u64)
        requires
            idx <= 4,
        ensures
            final(self).0 == with_field(old(self).0, vpn_shift(idx as int + 1), 9, val),
    {
        let shift: u64 = 12 + 9 * (idx as u64);
        self.0 = set_field(self.0, shift, 9, val);
    }

    /// The number that a pointer to this address holds.
    pub fn to_ptr(&self) -> (r: u64)
        ensures
            r == self.0,
    {
        self.0
    }

    /// The number that a pointer for writing to this address holds.
    pub fn to_mut_ptr(&mut self) -> (r: u64)
        ensures
            r == old(self).0,
            final(self).0 == old(self).0,
    {
        self.0
    }

    /// Whether the address lies in the kernel's half: its highest bit is set.
    pub fn is_kern(&self) -> (r: bool)
        ensures
            r == bit(self.0, 63),
            r == (self.0 >= 0x8000_0000_0000_0000),
    {
        let raw: u64 = self.0;
        assert(((raw >> 63) & !(0xffff_ffff_ffff_ffffu64 << 1) == 1) == (raw
            >= 0x8000_0000_0000_0000u64)) by (bit_vector);
        get_bit(self.0, 63)
    }

    /// The physical address that the direct map shows at this address.
    pub fn to_phys(self, hhdm_offset: u64) -> (r: PhysicalAddress)
        requires
            self.0 >= hhdm_offset,
        ensures
            r.0 == self.0 - hhdm_offset,
    {
        PhysicalAddress::new(self.0 - hhdm_offset)
    }
}

/// A table index is below 512.
pub proof fn lemma_vpn_range(vaddr: VirtualAddress, level: int)
    requires
        1 <= level <= 5,
    ensures
        0 <= vaddr.spec_vpn(level) < 512,
{
    lemma_field_bound(vaddr.0, vpn_shift(level), 9);
    assert(low_mask(9) == 511) by (bit_vector);
}


} // verus!
