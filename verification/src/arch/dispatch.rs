//! From a trap to what is done about it.
//!
//! A timer interrupt makes the scheduler take a step. A page fault on a
//! page that is on disk brings the page back. Everything else stops the
//! kernel: the answer says why, and the caller halts.
use vstd::prelude::*;
use crate::arch::trap::{AccessFault, Frame, TrapCause, TrapExternal, TrapFrame, TrapInternal};
use crate::cpu::ThreadCtrlBlock;
use crate::dev::blockdev::disk::Disk;
use crate::dev::blockdev::partition::Partition;
use crate::mem::frames::PhysicalMemory;
use crate::mem::swap::SwapManager;
use crate::mem::{PhysicalAddress, VirtualAddress};
use crate::paging::entry::PageTableEntry;
use crate::paging::root::{PageError, RootTable};
use crate::paging::swapping::SwapState;
use crate::scheduler::sched::{next, Scheduler, Switch};

verus! {

/// All that a page fault may touch: the address space that is loaded, the
/// swap records, the frames, the swap partition with its disk, and the
/// state of the processor.
pub struct Pager<D: Disk> {
    pub root: RootTable,
    pub records: SwapManager,
    pub memory: PhysicalMemory,
    pub part_id: usize,
    pub part: Partition,
    pub disk: D,
    pub tcb: ThreadCtrlBlock,
}

impl<D: Disk> Pager<D> {
    /// The state as the swap transitions see it.
    pub open spec fn state(self) -> SwapState<D> {
        SwapState {
            root: self.root,
            records: self.records,
            memory: self.memory,
            part_id: self.part_id,
            part: self.part,
            disk: self.disk,
        }
    }

    pub open spec fn wf(self) -> bool {
        self.root.wf() && self.root.levels() >= 1 && self.disk.sound()
    }
}

/// How a page fault ended.
#[derive(Clone, Copy, Debug, PartialEq, Eq, Structural)]
pub enum FaultOutcome {
    /// The page was on disk and is back: drop the cached translations and
    /// resume.
    Reloaded,
    /// The entry does not allow the access that trapped: the entry and the
    /// trap contradict each other.
    PermissionMismatch,
    /// The entry allows the access and the page is not on disk: nothing
    /// explains the fault.
    NotSwapped,
    /// The page is on disk and could not be brought back.
    SwapFailed(PageError),
}

/// What is to be done after a trap.
#[derive(Clone, Copy, Debug, PartialEq, Eq, Structural)]
pub enum TrapAction {
    /// Another thread runs: load what the switch names and arm the timer.
    Switch(Switch),
    /// The faulting page is back: drop the cached translations and resume.
    Resume,
    /// Stop: the fault at the address given ended as said.
    Fault(FaultOutcome, VirtualAddress),
    /// Stop: nothing handles this cause.
    Unhandled(TrapCause),
}

/// Whether `entry` allows an access of the kind given.
pub open spec fn allows(entry: PageTableEntry, reason: AccessFault) -> bool {
    match reason {
        AccessFault::Exec => entry.spec_exec(),
        AccessFault::Store => entry.spec_write(),
        AccessFault::Load => entry.spec_read(),
    }
}

/// How a fault of the kind `reason` at `vaddr` ends, when `frame` is
/// offered for the page.
pub open spec fn fault_outcome<D: Disk>(
    pager: Pager<D>,
    reason: AccessFault,
    vaddr: VirtualAddress,
    frame: u64,
) -> FaultOutcome {
    let entry = pager.root.lookup(vaddr).entry;
    if !allows(entry, reason) {
        FaultOutcome::PermissionMismatch
    } else if !entry.spec_swapped() {
        FaultOutcome::NotSwapped
    } else {
        match pager.state().swap_in_result(vaddr, pager.tcb.proc_id, frame) {
            Ok(()) => FaultOutcome::Reloaded,
            Err(e) => FaultOutcome::SwapFailed(e),
        }
    }
}

/// Handles a page fault of the kind `reason` at `vaddr`.
///
/// The entry at which the walk for `vaddr` ends must allow the access that
/// trapped; if it does not, the fault ends there and nothing is looked up
/// or changed. If it does and is marked swapped, the page is brought back
/// into the frame at `frame` for the process that the processor runs. If
/// it is not marked swapped, nothing explains the fault. Only a reload
/// changes anything.
pub fn page_fault<D: Disk>(
    reason: AccessFault,
    vaddr: VirtualAddress,
    pager: &mut Pager<D>,
    frame: PhysicalAddress,
) -> (r: FaultOutcome)
    requires
        old(pager).wf(),
    ensures
        final(pager).wf(),
        r == fault_outcome(*old(pager), reason, vaddr, frame.0),
        r != FaultOutcome::Reloaded ==> final(pager).root == old(pager).root && final(pager).records
            == old(pager).records && final(pager).memory == old(pager).memory,
        r == FaultOutcome::Reloaded ==> final(pager).state().is_swapped_in(
            old(pager).state(),
            vaddr,
            old(pager).tcb.proc_id,
            frame.0,
        ),
        final(pager).part_id == old(pager).part_id,
        final(pager).part == old(pager).part,
        final(pager).disk == old(pager).disk,
        final(pager).tcb == old(pager).tcb,
{
    let entry = pager.root.get_entry(vaddr);
    let allowed = match reason {
        AccessFault::Exec => entry.is_exec(),
        AccessFault::Store => entry.is_write(),
        AccessFault::Load => entry.is_read(),
    };
    if !allowed {
        return FaultOutcome::PermissionMismatch;
    }
    if !entry.swapped() {
        return FaultOutcome::NotSwapped;
    }
    let procid = pager.tcb.proc_id();
    match pager.root.swap_in(
        vaddr,
        procid,
        frame,
        &mut pager.records,
        &mut pager.memory,
        pager.part_id,
        &pager.part,
        &pager.disk,
    ) {
        Ok(()) => FaultOutcome::Reloaded,
        Err(e) => FaultOutcome::SwapFailed(e),
    }
}

/// Decides what is done about a trap.
///
/// A timer interrupt at the time `now` makes the scheduler take a step.
/// A page fault is handled for the address that `regframe` reports, with
/// `frame` offered for the page. Every other cause is left unhandled.
pub fn trap_main<D: Disk>(
    trapcause: TrapCause,
    regframe: &mut TrapFrame,
    sched: &mut Scheduler,
    pager: &mut Pager<D>,
    now: u64,
    freq: usize,
    frame: PhysicalAddress,
) -> (r: TrapAction)
    requires
        old(sched).wf(),
        old(pager).wf(),
    ensures
        final(sched).wf(),
        final(pager).wf(),
        trapcause == TrapCause::External(TrapExternal::Timer) ==> {
            &&& r == TrapAction::Switch(
                Switch {
                    page_table: old(sched).incoming().process.page_table_addr,
                    mode: old(sched).incoming().mode,
                    deadline: (now + old(sched).incoming().spec_time_share(freq)) as u128,
                },
            )
            &&& final(sched).is_after_tick(*old(sched), *old(regframe))
            &&& *final(regframe) == old(sched).incoming().trapframe
            &&& *final(pager) == *old(pager)
        },
        trapcause != TrapCause::External(TrapExternal::Timer) ==> *final(sched) == *old(sched)
            && *final(regframe) == *old(regframe),
        trapcause matches TrapCause::Internal(TrapInternal::PageFault(reason)) ==> {
            let vaddr = VirtualAddress(old(regframe).stval);
            let outcome = fault_outcome(*old(pager), reason, vaddr, frame.0);
            &&& r == if outcome == FaultOutcome::Reloaded {
                TrapAction::Resume
            } else {
                TrapAction::Fault(outcome, vaddr)
            }
            &&& outcome != FaultOutcome::Reloaded ==> *final(pager) == *old(pager)
            &&& outcome == FaultOutcome::Reloaded ==> final(pager).state().is_swapped_in(
                old(pager).state(),
                vaddr,
                old(pager).tcb.proc_id,
                frame.0,
            )
        },
        trapcause != TrapCause::External(TrapExternal::Timer) && !(trapcause matches TrapCause::Internal(
            TrapInternal::PageFault(_),
        )) ==> r == TrapAction::Unhandled(trapcause) && *final(pager) == *old(pager),
{
    match trapcause {
        TrapCause::External(cause) => {
            match cause {
                TrapExternal::Timer => TrapAction::Switch(next(sched, regframe, now, freq)),
                _ => TrapAction::Unhandled(trapcause),
            }
        },
        TrapCause::Internal(cause) => {
            match cause {
                TrapInternal::PageFault(fault) => {
                    let vaddr = regframe.pagefault_addr();
                    match page_fault(fault, vaddr, pager, frame) {
                        FaultOutcome::Reloaded => TrapAction::Resume,
                        outcome => TrapAction::Fault(outcome, vaddr),
                    }
                },
                _ => TrapAction::Unhandled(trapcause),
            }
        },
    }
}

/// A fault on an entry that does not allow the access never gets as far as
/// the swap records: it ends as a contradiction between entry and trap,
/// whatever the records hold and whatever frame is offered.
pub proof fn law_fault_needs_permission<D: Disk>(
    pager: Pager<D>,
    reason: AccessFault,
    vaddr: VirtualAddress,
    frame: u64,
)
    requires
        !allows(pager.root.lookup(vaddr).entry, reason),
    ensures
        fault_outcome(pager, reason, vaddr, frame) == FaultOutcome::PermissionMismatch,
        forall|other: Pager<D>|
            other.root == pager.root ==> #[trigger] fault_outcome(other, reason, vaddr, frame)
                == FaultOutcome::PermissionMismatch,
{
}

} // verus!
