//! Trap causes, as the processor reports them and as the kernel sorts
//! them, and the registers saved on a trap.
use vstd::prelude::*;
use crate::mem::VirtualAddress;

verus! {

/// The kind of access that trapped.
#[derive(Clone, Copy, Debug, PartialEq, Eq, Structural)]
pub enum AccessFault {
    Load,
    Store,
    Exec,
}

/// A trap that the running code brought about.
#[derive(Clone, Copy, Debug, PartialEq, Eq, Structural)]
pub enum TrapInternal {
    UnalignedAccess(AccessFault),
    InvalidAccess(AccessFault),
    PageFault(AccessFault),
    UnknownInstruction,
    Breakpoint,
    SystemCall,
}

/// A trap that came from outside the running code.
#[derive(Clone, Copy, Debug, PartialEq, Eq, Structural)]
pub enum TrapExternal {
    InterProcInt,
    Timer,
    ExternalDevice,
}

/// Why the processor trapped.
#[derive(Clone, Copy, Debug, PartialEq, Eq, Structural)]
pub enum TrapCause {
    External(TrapExternal),
    Internal(TrapInternal),
}

/// The cause of a trap as the processor names it.
#[derive(Clone, Copy, Debug, PartialEq, Eq, Structural)]
pub enum Cause {
    UnalignedInst,
    InvalidInstrAddr,
    IllegalInstr,
    Breakpoint,
    UnalignedLoad,
    InvalidLoad,
    UnalignedStore,
    InvalidStore,
    Ecall,
    InstrPageFault,
    LoadPageFault,
    StorePageFault,
    InterProcInt,
    TimerInt,
    ExtInt,
    PlatformInt,
}

impl Cause {
    /// The number that the cause register holds for this cause.
    pub open spec fn spec_code(self) -> u64 {
        match self {
            Cause::UnalignedInst => 0x0,
            Cause::InvalidInstrAddr => 0x1,
            Cause::IllegalInstr => 0x2,
            Cause::Breakpoint => 0x3,
            Cause::UnalignedLoad => 0x4,
            Cause::InvalidLoad => 0x5,
            Cause::UnalignedStore => 0x6,
            Cause::InvalidStore => 0x7,
            Cause::Ecall => 0x8,
            Cause::InstrPageFault => 0xC,
            Cause::LoadPageFault => 0xD,
            Cause::StorePageFault => 0xF,
            Cause::InterProcInt => 0x8000_0000_0000_0001,
            Cause::TimerInt => 0x8000_0000_0000_0005,
            Cause::ExtInt => 0x8000_0000_0000_0009,
            Cause::PlatformInt => 0x8000_0000_0000_000A,
        }
    }

    /// The cause that the kernel sorts this one under; none for an
    /// interrupt of the platform's own.
    pub open spec fn spec_classify(self) -> Option<TrapCause> {
        match self {
            Cause::Breakpoint => Some(TrapCause::Internal(TrapInternal::Breakpoint)),
            Cause::IllegalInstr => Some(TrapCause::Internal(TrapInternal::UnknownInstruction)),
            Cause::LoadPageFault => Some(
                TrapCause::Internal(TrapInternal::PageFault(AccessFault::Load)),
            ),
            Cause::StorePageFault => Some(
                TrapCause::Internal(TrapInternal::PageFault(AccessFault::Store)),
            ),
            Cause::InstrPageFault => Some(
                TrapCause::Internal(TrapInternal::PageFault(AccessFault::Exec)),
            ),
            Cause::UnalignedLoad => Some(
                TrapCause::Internal(TrapInternal::UnalignedAccess(AccessFault::Load)),
            ),
            Cause::UnalignedStore => Some(
                TrapCause::Internal(TrapInternal::UnalignedAccess(AccessFault::Store)),
            ),
            Cause::UnalignedInst => Some(
                TrapCause::Internal(TrapInternal::UnalignedAccess(AccessFault::Exec)),
            ),
            Cause::InvalidLoad => Some(
                TrapCause::Internal(TrapInternal::InvalidAccess(AccessFault::Load)),
            ),
            Cause::InvalidStore => Some(
                TrapCause::Internal(TrapInternal::InvalidAccess(AccessFault::Store)),
            ),
            Cause::InvalidInstrAddr => Some(
                TrapCause::Internal(TrapInternal::InvalidAccess(AccessFault::Exec)),
            ),
            Cause::Ecall => Some(TrapCause::Internal(TrapInternal::SystemCall)),
            Cause::ExtInt => Some(TrapCause::External(TrapExternal::ExternalDevice)),
            Cause::InterProcInt => Some(TrapCause::External(TrapExternal::InterProcInt)),
            Cause::TimerInt => Some(TrapCause::External(TrapExternal::Timer)),
            Cause::PlatformInt => None,
        }
    }

    /// The number that the cause register holds for this cause.
    pub fn code(&self) -> (r: u64)
        ensures
            r == self.spec_code(),
    {
        match self {
            Cause::UnalignedInst => 0x0,
            Cause::InvalidInstrAddr => 0x1,
            Cause::IllegalInstr => 0x2,
            Cause::Breakpoint => 0x3,
            Cause::UnalignedLoad => 0x4,
            Cause::InvalidLoad => 0x5,
            Cause::UnalignedStore => 0x6,
            Cause::InvalidStore => 0x7,
            Cause::Ecall => 0x8,
            Cause::InstrPageFault => 0xC,
            Cause::LoadPageFault => 0xD,
            Cause::StorePageFault => 0xF,
            Cause::InterProcInt => 0x8000_0000_0000_0001,
            Cause::TimerInt => 0x8000_0000_0000_0005,
            Cause::ExtInt => 0x8000_0000_0000_0009,
            Cause::PlatformInt => 0x8000_0000_0000_000A,
        }
    }

    /// The cause that the number in the cause register stands for. A
    /// number that stands for none of the others is an interrupt of the
    /// platform's own.
    pub fn from_code(code: u64) -> (r: Self)
        ensures
            r != Cause::PlatformInt ==> r.spec_code() == code,
            r == Cause::PlatformInt <==> forall|c: Cause|
                c != Cause::PlatformInt ==> #[trigger] c.spec_code() != code,
    {
        let r = if code == 0x0 {
            Cause::UnalignedInst
        } else if code == 0x1 {
            Cause::InvalidInstrAddr
        } else if code == 0x2 {
            Cause::IllegalInstr
        } else if code == 0x3 {
            Cause::Breakpoint
        } else if code == 0x4 {
            Cause::UnalignedLoad
        } else if code == 0x5 {
            Cause::InvalidLoad
        } else if code == 0x6 {
            Cause::UnalignedStore
        } else if code == 0x7 {
            Cause::InvalidStore
        } else if code == 0x8 {
            Cause::Ecall
        } else if code == 0xC {
            Cause::InstrPageFault
        } else if code == 0xD {
            Cause::LoadPageFault
        } else if code == 0xF {
            Cause::StorePageFault
        } else if code == 0x8000_0000_0000_0001 {
            Cause::InterProcInt
        } else if code == 0x8000_0000_0000_0005 {
            Cause::TimerInt
        } else if code == 0x8000_0000_0000_0009 {
            Cause::ExtInt
        } else {
            Cause::PlatformInt
        };
        proof {
            if r != Cause::PlatformInt {
                assert(r.spec_code() == code);
            }
        }
        r
    }

    /// Sorts the processor's cause under the kernel's kinds of trap. An
    /// interrupt of the platform's own has no kind.
    pub fn classify(&self) -> (r: Option<TrapCause>)
        ensures
            r == self.spec_classify(),
            r is None <==> *self == Cause::PlatformInt,
    {
        match self {
            Cause::Breakpoint => Some(TrapCause::Internal(TrapInternal::Breakpoint)),
            Cause::IllegalInstr => Some(TrapCause::Internal(TrapInternal::UnknownInstruction)),
            Cause::LoadPageFault => Some(
                TrapCause::Internal(TrapInternal::PageFault(AccessFault::Load)),
            ),
            Cause::StorePageFault => Some(
                TrapCause::Internal(TrapInternal::PageFault(AccessFault::Store)),
            ),
            Cause::InstrPageFault => Some(
                TrapCause::Internal(TrapInternal::PageFault(AccessFault::Exec)),
            ),
            Cause::UnalignedLoad => Some(
                TrapCause::Internal(TrapInternal::UnalignedAccess(AccessFault::Load)),
            ),
            Cause::UnalignedStore => Some(
                TrapCause::Internal(TrapInternal::UnalignedAccess(AccessFault::Store)),
            ),
            Cause::UnalignedInst => Some(
                TrapCause::Internal(TrapInternal::UnalignedAccess(AccessFault::Exec)),
            ),
            Cause::InvalidLoad => Some(
                TrapCause::Internal(TrapInternal::InvalidAccess(AccessFault::Load)),
            ),
            Cause::InvalidStore => Some(
                TrapCause::Internal(TrapInternal::InvalidAccess(AccessFault::Store)),
            ),
            Cause::InvalidInstrAddr => Some(
                TrapCause::Internal(TrapInternal::InvalidAccess(AccessFault::Exec)),
            ),
            Cause::Ecall => Some(TrapCause::Internal(TrapInternal::SystemCall)),
            Cause::ExtInt => Some(TrapCause::External(TrapExternal::ExternalDevice)),
            Cause::InterProcInt => Some(TrapCause::External(TrapExternal::InterProcInt)),
            Cause::TimerInt => Some(TrapCause::External(TrapExternal::Timer)),
            Cause::PlatformInt => None,
        }
    }
}

/// The general registers, in the order in which a trap saves them.
#[derive(Clone, Copy, Debug, PartialEq, Eq, Structural)]
pub struct GeneralRegisters {
    pub ra: u64,
    pub sp: u64,
    pub gp: u64,
    pub tp: u64,
    pub t0: u64,
    pub t1: u64,
    pub t2: u64,
    pub s0: u64,
    pub s1: u64,
    pub a0: u64,
    pub a1: u64,
    pub a2: u64,
    pub a3: u64,
    pub a4: u64,
    pub a5: u64,
    pub a6: u64,
    pub a7: u64,
    pub s2: u64,
    pub s3: u64,
    pub s4: u64,
    pub s5: u64,
    pub s6: u64,
    pub s7: u64,
    pub s8: u64,
    pub s9: u64,
    pub s10: u64,
    pub s11: u64,
    pub t3: u64,
    pub t4: u64,
    pub t5: u64,
    pub t6: u64,
}

impl GeneralRegisters {
    /// All registers zero.
    pub open spec fn zeroed_spec() -> Self {
        GeneralRegisters {
            ra: 0,
            sp: 0,
            gp: 0,
            tp: 0,
            t0: 0,
            t1: 0,
            t2: 0,
            s0: 0,
            s1: 0,
            a0: 0,
            a1: 0,
            a2: 0,
            a3: 0,
            a4: 0,
            a5: 0,
            a6: 0,
            a7: 0,
            s2: 0,
            s3: 0,
            s4: 0,
            s5: 0,
            s6: 0,
            s7: 0,
            s8: 0,
            s9: 0,
            s10: 0,
            s11: 0,
            t3: 0,
            t4: 0,
            t5: 0,
            t6: 0,
        }
    }

    /// All registers zero.
    pub fn zeroed() -> (r: Self)
        ensures
            r == Self::zeroed_spec(),
    {
        GeneralRegisters {
            ra: 0,
            sp: 0,
            gp: 0,
            tp: 0,
            t0: 0,
            t1: 0,
            t2: 0,
            s0: 0,
            s1: 0,
            a0: 0,
            a1: 0,
            a2: 0,
            a3: 0,
            a4: 0,
            a5: 0,
            a6: 0,
            a7: 0,
            s2: 0,
            s3: 0,
            s4: 0,
            s5: 0,
            s6: 0,
            s7: 0,
            s8: 0,
            s9: 0,
            s10: 0,
            s11: 0,
            t3: 0,
            t4: 0,
            t5: 0,
            t6: 0,
        }
    }
}

/// What a trap saves of the interrupted code: the general registers, the
/// address to resume at, and the value that the trap reported.
#[derive(Clone, Copy, Debug, PartialEq, Eq, Structural)]
pub struct TrapFrame {
    pub regs: GeneralRegisters,
    pub sepc: u64,
    pub stval: u64,
}

/// What a saved frame tells of the address that a trap is about.
pub trait Frame {
    /// The address that a page fault is about.
    fn pagefault_addr(&self) -> VirtualAddress;

    /// The address that an invalid access is about.
    fn invalid_addr(&self) -> VirtualAddress;

    /// The address that an unaligned access is about.
    fn unaligned_addr(&self) -> VirtualAddress;
}

impl TrapFrame {
    /// A frame that resumes at `pc` with all registers zero.
    pub fn with_pc(pc: u64) -> (r: Self)
        ensures
            r == (TrapFrame { regs: GeneralRegisters::zeroed_spec(), sepc: pc, stval: 0 }),
    {
        TrapFrame { regs: GeneralRegisters::zeroed(), sepc: pc, stval: 0 }
    }

    /// Sets the stack pointer that the frame resumes with.
    pub fn set_stack(&mut self, sp: u64)
        ensures
            *final(self) == (TrapFrame {
                regs: GeneralRegisters { sp, ..old(self).regs },
                ..*old(self)
            }),
    {
        self.regs.sp = sp;
    }
}

impl Frame for TrapFrame {
    fn pagefault_addr(&self) -> (r: VirtualAddress)
        ensures
            r.0 == self.stval,
    {
        VirtualAddress::new(self.stval)
    }

    fn invalid_addr(&self) -> (r: VirtualAddress)
        ensures
            r.0 == self.stval,
    {
        VirtualAddress::new(self.stval)
    }

    fn unaligned_addr(&self) -> (r: VirtualAddress)
        ensures
            r.0 == self.stval,
    {
        VirtualAddress::new(self.stval)
    }
}

} // verus!
