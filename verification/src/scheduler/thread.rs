//! Processes and threads, and how long a thread may run.
use vstd::prelude::*;
use crate::arch::timer::{spec_ticks_from_ms, ticks_from_ms};
use crate::arch::trap::TrapFrame;
use crate::mem::PhysicalAddress;

verus! {

/// The privilege that code runs with.
#[derive(Clone, Copy, Debug, PartialEq, Eq, Structural)]
pub enum Privilege {
    User,
    Supervisor,
}

/// A process: its number and the top table of its address space.
#[derive(Clone, Copy, Debug, PartialEq, Eq, Structural)]
pub struct Proc {
    pub proc_id: usize,
    pub page_table_addr: PhysicalAddress,
}

/// A thread: the process it belongs to, its number in that process, the
/// privilege it runs with, its saved registers and its priority.
#[derive(Clone, Copy, Debug, PartialEq, Eq, Structural)]
pub struct Thread {
    pub process: Proc,
    pub thread_id: usize,
    pub mode: Privilege,
    pub trapframe: TrapFrame,
    pub priority: i8,
    pub priority_mod: i8,
}

/// Milliseconds that a thread of priority `prior` may run: 8, and for a
/// priority above 0 a twelfth of its square on top.
pub open spec fn slice_ms(prior: int) -> int {
    (if prior <= 0 {
        0
    } else {
        prior * prior / 12
    }) + 8
}

impl Thread {
    /// The priority that counts: the thread's own and what was added to it
    /// for fairness.
    pub open spec fn effective_priority(self) -> int {
        self.priority + self.priority_mod
    }

    /// Ticks that the thread may run on a timer of `freq` ticks a second.
    pub open spec fn spec_time_share(self, freq: usize) -> int {
        spec_ticks_from_ms(freq, slice_ms(self.effective_priority()) as usize)
    }

    /// Whether this is the thread that runs when no other is ready.
    pub open spec fn spec_is_idle(self) -> bool {
        self.process.proc_id == 0 && self.thread_id == 0
    }

    /// Ticks that the thread may run on a timer of `freq` ticks a second.
    pub fn time_share(&self, freq: usize) -> (r: u128)
        ensures
            r == self.spec_time_share(freq),
            r == (freq as int / 1000) * slice_ms(self.effective_priority()),
    {
        let prior: i16 = self.priority as i16 + self.priority_mod as i16;
        let ms: usize = if prior <= 0 {
            8
        } else {
            let p: usize = prior as usize;
            assert(p * p <= 254 * 254) by (nonlinear_arith)
                requires
                    p <= 254,
            ;
            (p * p) / 12 + 8
        };
        ticks_from_ms(freq, ms)
    }

    /// Whether this is the thread that runs when no other is ready.
    pub fn is_idle(&self) -> (r: bool)
        ensures
            r == self.spec_is_idle(),
    {
        self.process.proc_id == 0 && self.thread_id == 0
    }
}

/// A higher priority never gets a shorter slice, and a priority of 0 or
/// below gets the 8 milliseconds that every thread gets, no more.
pub proof fn law_slice_monotone(low: int, high: int, freq: usize)
    requires
        low <= high,
    ensures
        slice_ms(low) <= slice_ms(high),
        (freq as int / 1000) * slice_ms(low) <= (freq as int / 1000) * slice_ms(high),
        low <= 0 ==> slice_ms(low) == 8,
        slice_ms(low) >= 8,
{
    if low > 0 {
        assert(low * low <= high * high) by (nonlinear_arith)
            requires
                0 < low <= high,
        ;
        assert(low * low / 12 <= high * high / 12) by (nonlinear_arith)
            requires
                low * low <= high * high,
        ;
    } else if high > 0 {
        assert(high * high / 12 >= 0) by (nonlinear_arith)
            requires
                high > 0,
        ;
    }
    assert((freq as int / 1000) * slice_ms(low) <= (freq as int / 1000) * slice_ms(high))
        by (nonlinear_arith)
        requires
            slice_ms(low) <= slice_ms(high),
            freq as int / 1000 >= 0,
    ;
    if low > 0 {
        assert(low * low / 12 >= 0) by (nonlinear_arith)
            requires
                low > 0,
        ;
    }
}

/// A slice is never longer than fits beside any time the timer can show.
pub proof fn lemma_time_share_bound(thread: Thread, freq: usize)
    ensures
        0 <= thread.spec_time_share(freq) <= 0xffff_ffff_ffff_ffff * 5384,
{
    let p = thread.effective_priority();
    assert(-256 <= p <= 254);
    if p > 0 {
        assert(0 <= p * p / 12 <= 5376) by (nonlinear_arith)
            requires
                0 < p <= 254,
        ;
    }
    let ms = slice_ms(p);
    assert(8 <= ms <= 5384);
    assert(0 <= (freq as int / 1000) * ms <= 0xffff_ffff_ffff_ffff * 5384) by (nonlinear_arith)
        requires
            0 <= freq as int / 1000 <= 0xffff_ffff_ffff_ffff,
            8 <= ms <= 5384,
    ;
}


} // verus!
