//! The control registers that the kernel reads and writes, as plain
//! values: reading them from and writing them to the processor is the
//! caller's part.
use vstd::prelude::*;
use crate::bits::{bit, field, get_bit, get_field, lemma_field_bound, low_mask, set_bit, set_field, with_bit, with_field};
use crate::mem::{PhysicalAddress, VirtualAddress};
use crate::paging::size::Mode;
use crate::scheduler::thread::Privilege;

verus! {

/// The register that selects the address space: the frame number of the
/// top table in bits 0 to 43, the address space number in bits 44 to 59,
/// the paging mode in bits 60 to 63.
#[derive(Clone, Copy, Debug, PartialEq, Eq, Structural)]
pub struct Satp(pub u64);

impl Satp {
    pub open spec fn spec_ppn(self) -> u64 {
        field(self.0, 0, 44)
    }

    pub open spec fn spec_asid(self) -> u64 {
        field(self.0, 44, 16)
    }

    pub open spec fn spec_mode_raw(self) -> u64 {
        field(self.0, 60, 4)
    }

    /// Whether the mode field holds the code of a paging mode.
    pub open spec fn mode_known(self) -> bool {
        self.spec_mode_raw() == 0 || 8 <= self.spec_mode_raw() <= 11
    }

    pub fn ppn(&self) -> (r: u64)
        ensures
            r == self.spec_ppn(),
            r < 0x1000_0000_0000,
    {
        proof {
            lemma_field_bound(self.0, 0, 44);
            assert(low_mask(44) == 0xfff_ffff_ffff) by (bit_vector);
        }
        get_field(self.0, 0, 44)
    }

    pub fn set_ppn(&mut self, val: u64)
        ensures
            final(self).0 == with_field(old(self).0, 0, 44, val),
    {
        self.0 = set_field(self.0, 0, 44, val);
    }

    pub fn asid(&self) -> (r: u64)
        ensures
            r == self.spec_asid(),
    {
        get_field(self.0, 44, 16)
    }

    pub fn set_asid(&mut self, val: u64)
        ensures
            final(self).0 == with_field(old(self).0, 44, 16, val),
    {
        self.0 = set_field(self.0, 44, 16, val);
    }

    pub fn mode_raw(&self) -> (r: u64)
        ensures
            r == self.spec_mode_raw(),
    {
        get_field(self.0, 60, 4)
    }

    pub fn set_mode_raw(&mut self, val: u64)
        ensures
            final(self).0 == with_field(old(self).0, 60, 4, val),
    {
        self.0 = set_field(self.0, 60, 4, val);
    }

    /// The physical address of the top table.
    pub fn phys(&self) -> (r: PhysicalAddress)
        ensures
            r.0 == self.spec_ppn() * 0x1000,
    {
        let n: u64 = self.ppn();
        assert(n * 0x1000 == n << 12) by (bit_vector)
            requires
                n < 0x1000_0000_0000,
        ;
        PhysicalAddress::new(n << 12)
    }

    /// Points the register at the top table in the frame that holds `addr`.
    pub fn set_phys(&mut self, addr: PhysicalAddress)
        ensures
            final(self).0 == with_field(old(self).0, 0, 44, addr.0 >> 12),
    {
        self.set_ppn(addr.addr() >> 12);
    }

    /// The paging mode that the register selects.
    pub fn mode(&self) -> (r: Mode)
        requires
            self.mode_known(),
        ensures
            r.spec_code() == self.spec_mode_raw(),
    {
        let raw = self.mode_raw();
        if raw == 0 {
            Mode::Bare
        } else if raw == 8 {
            Mode::Sv39
        } else if raw == 9 {
            Mode::Sv48
        } else if raw == 10 {
            Mode::Sv57
        } else {
            Mode::Sv64
        }
    }
}

/// The register that holds the address a trap is about.
#[derive(Clone, Copy, Debug, PartialEq, Eq, Structural)]
pub struct Stval(pub u64);

impl Stval {
    /// The register with the value read from the processor.
    pub fn new(val: u64) -> (r: Self)
        ensures
            r.0 == val,
    {
        Stval(val)
    }

    pub fn addr(&self) -> (r: VirtualAddress)
        ensures
            r.0 == self.0,
    {
        VirtualAddress::new(self.0)
    }
}

/// The status register: interrupts on in bit 1, the privilege that a
/// return from a trap goes to in bit 8, the state of the floating point
/// registers in bits 13 and 14.
#[derive(Clone, Copy, Debug, PartialEq, Eq, Structural)]
pub struct Sstatus(pub u64);

/// The state of the floating point registers that asks for them to be
/// saved.
pub const FS_DIRTY: u64 = 3;

impl Sstatus {
    pub fn sie(&self) -> (r: bool)
        ensures
            r == bit(self.0, 1),
    {
        get_bit(self.0, 1)
    }

    pub fn set_sie(&mut self, val: bool)
        ensures
            final(self).0 == with_bit(old(self).0, 1, val),
    {
        self.0 = set_bit(self.0, 1, val);
    }

    pub fn spp(&self) -> (r: bool)
        ensures
            r == bit(self.0, 8),
    {
        get_bit(self.0, 8)
    }

    pub fn set_spp(&mut self, val: bool)
        ensures
            final(self).0 == with_bit(old(self).0, 8, val),
    {
        self.0 = set_bit(self.0, 8, val);
    }

    pub fn fs(&self) -> (r: u64)
        ensures
            r == field(self.0, 13, 2),
    {
        get_field(self.0, 13, 2)
    }

    /// Whether the floating point registers were written since they were
    /// last saved, so that a trap has to save them.
    pub fn fp_dirty(&self) -> (r: bool)
        ensures
            r == (field(self.0, 13, 2) == FS_DIRTY),
    {
        self.fs() == FS_DIRTY
    }
}

/// The interrupt enable register: software interrupts in bit 1, the timer
/// in bit 5, external interrupts in bit 9.
#[derive(Clone, Copy, Debug, PartialEq, Eq, Structural)]
pub struct Sie(pub u16);

impl Sie {
    pub fn ssie(&self) -> (r: bool)
        ensures
            r == bit(self.0 as u64, 1),
    {
        get_bit(self.0 as u64, 1)
    }

    pub fn stie(&self) -> (r: bool)
        ensures
            r == bit(self.0 as u64, 5),
    {
        get_bit(self.0 as u64, 5)
    }

    pub fn seie(&self) -> (r: bool)
        ensures
            r == bit(self.0 as u64, 9),
    {
        get_bit(self.0 as u64, 9)
    }

    /// The register with the bit at `index` set to `val`, for an index
    /// below 16.
    fn with(&self, index: u64, val: bool) -> (r: Sie)
        requires
            index < 16,
        ensures
            r.0 as u64 == with_bit(self.0 as u64, index, val),
    {
        let raw: u64 = self.0 as u64;
        let next: u64 = set_bit(raw, index, val);
        assert(with_field(
            raw,
            index,
            1,
            if val {
                1u64
            } else {
                0u64
            },
        ) < 0x1_0000) by {
            let v: u64 = if val {
                1
            } else {
                0
            };
            assert(((raw & !((!(0xffff_ffff_ffff_ffffu64 << 1)) << index)) | ((v & (!(
            0xffff_ffff_ffff_ffffu64 << 1))) << index)) < 0x1_0000) by (bit_vector)
                requires
                    raw < 0x1_0000,
                    index < 16,
            ;
        }
        Sie(next as u16)
    }

    pub fn set_ssie(&mut self, val: bool)
        ensures
            final(self).0 as u64 == with_bit(old(self).0 as u64, 1, val),
    {
        *self = self.with(1, val);
    }

    pub fn set_stie(&mut self, val: bool)
        ensures
            final(self).0 as u64 == with_bit(old(self).0 as u64, 5, val),
    {
        *self = self.with(5, val);
    }

    pub fn set_seie(&mut self, val: bool)
        ensures
            final(self).0 as u64 == with_bit(old(self).0 as u64, 9, val),
    {
        *self = self.with(9, val);
    }
}

/// The status register that makes a return from a trap go to code of the
/// privilege given: `status` with bit 8 set for the kernel's privilege and
/// clear for user code.
pub fn set_mode(status: Sstatus, mode: Privilege) -> (r: Sstatus)
    ensures
        r.0 == with_bit(status.0, 8, mode == Privilege::Supervisor),
{
    let spp = match mode {
        Privilege::User => false,
        Privilege::Supervisor => true,
    };
    let mut sstatus = status;
    sstatus.set_spp(spp);
    sstatus
}

} // verus!
