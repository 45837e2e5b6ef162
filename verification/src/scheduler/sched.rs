//! The state of the scheduler and the step it takes on each timer tick.
use std::collections::BTreeMap;
use crossbeam_queue::SegQueue;
use vstd::prelude::*;
use vstd::std_specs::btree::*;
use crate::arch::trap::TrapFrame;
use crate::mem::{PhysicalAddress, VirtualAddress};
use crate::paging::entry::{
    lemma_empty_entry, lemma_leaf, EntryKind, PagePermissions, PageTableEntry,
};
use crate::paging::range::{is_map_chain, map_step, mapped_in_turn, PagePair};
use crate::paging::root::{lemma_put_found, lemma_put_keeps, PageError, RootTable};
use crate::paging::size::PageSize;
use crate::paging::table::{
    lemma_agree_parted, lemma_agree_to_two, lemma_walk_level, lemma_walk_to_bottom, Walk,
};
use crate::scheduler::stack::{lemma_stack_pages, stack_page, upper};
use crate::scheduler::queue::{queue_len, queue_new, queue_pop, queue_push, queued};
use crate::scheduler::thread::{Privilege, Proc, Thread};

verus! {

broadcast use {vstd::std_specs::btree::group_btree_axioms, vstd::laws_cmp::group_laws_cmp};

/// Bytes of the stack that a new thread gets.
pub const STACK_BYTES: u64 = 0x10_0000;

/// Pages of the stack that a new thread gets.
pub const STACK_PAGES: usize = 256;

/// What the hardware is to be set to after a tick: the top table to load,
/// the privilege to return to, and the time at which the timer fires next.
#[derive(Clone, Copy, Debug, PartialEq, Eq, Structural)]
pub struct Switch {
    pub page_table: PhysicalAddress,
    pub mode: Privilege,
    pub deadline: u128,
}

/// Why a thread was not spawned.
#[derive(Clone, Copy, Debug, PartialEq, Eq, Structural)]
pub enum SpawnError {
    /// The thread would be thread 0 of process 0: the idle thread.
    IdleThread,
    /// The address space is not the one of the thread's process.
    WrongAddressSpace,
    /// The stack would pass the end of the address space.
    BadStack,
    /// There is not one frame for each page of the stack.
    MissingFrames,
    /// The page with this number of the stack could not be mapped.
    Mapping { page: usize, error: PageError },
}

/// The processes, the threads that are ready, and the thread that runs.
pub struct Scheduler {
    procs: BTreeMap<usize, Proc>,
    queue: SegQueue<Thread>,
    current: Option<Thread>,
    idle_pc: u64,
}

/// The permissions of a stack page for code of the privilege given.
pub open spec fn stack_perms(mode: Privilege) -> PagePermissions {
    PagePermissions {
        read: true,
        write: true,
        execute: false,
        user: mode == Privilege::User,
        global: false,
        dealloc: false,
    }
}

/// The thread that `spawn` makes.
pub open spec fn spawned(
    process: Proc,
    mode: Privilege,
    priority: i8,
    pc: u64,
    thread_id: usize,
    stack_addr: u64,
) -> Thread {
    Thread {
        process,
        thread_id,
        mode,
        trapframe: TrapFrame {
            regs: crate::arch::trap::GeneralRegisters {
                sp: (stack_addr + STACK_BYTES) as u64,
                ..crate::arch::trap::GeneralRegisters::zeroed_spec()
            },
            sepc: pc,
            stval: 0,
        },
        priority,
        priority_mod: 0,
    }
}

/// The pages of the stack at `stack_addr`, each with its frame from
/// `frames`.
pub open spec fn stack_pairs(stack_addr: u64, frames: Seq<PhysicalAddress>) -> Seq<PagePair> {
    Seq::new(
        STACK_PAGES as nat,
        |i: int| PagePair { vaddr: stack_page(stack_addr, i), frame: frames[i].0 },
    )
}

/// Why a spawn is refused before any page is mapped, if it is.
pub open spec fn spawn_refusal(
    root: RootTable,
    process: Proc,
    thread_id: usize,
    stack_addr: u64,
    frames: Seq<PhysicalAddress>,
) -> Option<SpawnError> {
    if process.proc_id == 0 && thread_id == 0 {
        Some(SpawnError::IdleThread)
    } else if root.spec_addr() != process.page_table_addr.0 {
        Some(SpawnError::WrongAddressSpace)
    } else if stack_addr + STACK_BYTES > u64::MAX {
        Some(SpawnError::BadStack)
    } else if frames.len() != STACK_PAGES {
        Some(SpawnError::MissingFrames)
    } else {
        None
    }
}

/// Frames for tables that the pages of a stack from page `index` on may
/// still need, in an address space of `top` levels: before the first page
/// twice what one walk needs; after it once that, as long as a page lies
/// ahead that falls into another table of the lowest level than the page
/// before `index`; and then none.
pub open spec fn tables_ahead(stack_addr: u64, index: int, top: nat) -> int {
    if index == 0 {
        2 * (top - 1)
    } else if index < STACK_PAGES && upper(stack_page(stack_addr, 255)) != upper(
        stack_page(stack_addr, index - 1),
    ) {
        top - 1
    } else {
        0
    }
}

/// Whether a spawn is owed success: nothing refuses it beforehand, the
/// address space has tables, no page of the stack is mapped, and the frames
/// set aside for tables are twice as many as a walk passes tables below the
/// top one.
pub open spec fn spawn_owed(
    root: RootTable,
    process: Proc,
    thread_id: usize,
    stack_addr: u64,
    frames: Seq<PhysicalAddress>,
) -> bool {
    &&& spawn_refusal(root, process, thread_id, stack_addr, frames) is None
    &&& root.levels() >= 1
    &&& forall|i: int|
        0 <= i < STACK_PAGES ==> (#[trigger] root.lookup(stack_page(stack_addr, i))).entry.kind()
            != EntryKind::Page
    &&& root.spare().len() >= 2 * (root.levels() - 1)
}

/// Whether `r`, with the scheduler and the address space as they are left,
/// is what a spawn answers and does.
///
/// A refusal beforehand changes nothing. Otherwise the pages of the stack
/// are mapped one after the other: if all are, the thread joins the ready
/// queue at the end; if one is not, the error names it and says why the
/// address space, as the pages before it left it, refuses it, and the
/// queue is as it was. And where success is owed, the answer is success.
pub open spec fn is_spawn_result(
    r: Result<(), SpawnError>,
    sched_before: Scheduler,
    root_before: RootTable,
    sched_after: Scheduler,
    root_after: RootTable,
    process: Proc,
    mode: Privilege,
    priority: i8,
    pc: u64,
    thread_id: usize,
    stack_addr: u64,
    frames: Seq<PhysicalAddress>,
) -> bool {
    let pairs = stack_pairs(stack_addr, frames);
    let perms = stack_perms(mode);
    &&& sched_after.processes() == sched_before.processes()
    &&& sched_after.running() == sched_before.running()
    &&& sched_after.idle_entry() == sched_before.idle_entry()
    &&& match spawn_refusal(root_before, process, thread_id, stack_addr, frames) {
        Some(e) => r == Err::<(), SpawnError>(e) && root_after == root_before
            && sched_after.ready() == sched_before.ready(),
        None => match r {
            Ok(()) => {
                &&& mapped_in_turn(root_after, root_before, pairs, perms, STACK_PAGES as nat)
                &&& sched_after.ready() == sched_before.ready().push(
                    spawned(process, mode, priority, pc, thread_id, stack_addr),
                )
            },
            Err(SpawnError::Mapping { page, error }) => {
                &&& page < STACK_PAGES
                &&& mapped_in_turn(root_after, root_before, pairs, perms, page as nat)
                &&& root_after.spec_map_result(stack_page(stack_addr, page as int), PageSize::Kilopage)
                    == Err::<(), PageError>(error)
                &&& sched_after.ready() == sched_before.ready()
            },
            Err(_) => false,
        },
    }
    &&& spawn_owed(root_before, process, thread_id, stack_addr, frames) ==> r is Ok
}

impl Scheduler {
    /// The threads that are ready, the one that runs next first.
    pub closed spec fn ready(self) -> Seq<Thread> {
        queued(self.queue)
    }

    /// The thread that runs, none before the first tick.
    pub closed spec fn running(self) -> Option<Thread> {
        self.current
    }

    /// The processes by their numbers.
    pub closed spec fn processes(self) -> Map<usize, Proc> {
        self.procs@
    }

    /// The address at which the idle thread starts.
    pub closed spec fn idle_entry(self) -> u64 {
        self.idle_pc
    }

    /// Whether the kernel's own process, number 0, is there.
    pub open spec fn wf(self) -> bool {
        self.processes().contains_key(0) && self.processes()[0].proc_id == 0
    }

    /// The thread that runs when no other is ready: thread 0 of process 0,
    /// with priority 1.
    pub open spec fn idle(self) -> Thread {
        Thread {
            process: self.processes()[0],
            thread_id: 0,
            mode: Privilege::Supervisor,
            trapframe: TrapFrame {
                regs: crate::arch::trap::GeneralRegisters::zeroed_spec(),
                sepc: self.idle_entry(),
                stval: 0,
            },
            priority: 1,
            priority_mod: 0,
        }
    }

    /// The thread that the next tick lets run: the first that is ready, or
    /// the idle thread.
    pub open spec fn incoming(self) -> Thread {
        if self.ready().len() > 0 {
            self.ready()[0]
        } else {
            self.idle()
        }
    }

    /// The threads that are ready after a tick that finds the registers
    /// `frame`: the first has left, and the thread that ran, with `frame`
    /// as its saved registers, has joined at the end, unless it was the idle
    /// thread or none ran.
    pub open spec fn ready_after_tick(self, frame: TrapFrame) -> Seq<Thread> {
        let rest = if self.ready().len() > 0 {
            self.ready().drop_first()
        } else {
            self.ready()
        };
        match self.running() {
            Some(cur) => {
                let outgoing = Thread { trapframe: frame, ..cur };
                if outgoing.spec_is_idle() {
                    rest
                } else {
                    rest.push(outgoing)
                }
            },
            None => rest,
        }
    }

    /// Whether `self` is `before` one tick later.
    pub open spec fn is_after_tick(self, before: Scheduler, frame: TrapFrame) -> bool {
        &&& self.processes() == before.processes()
        &&& self.idle_entry() == before.idle_entry()
        &&& self.running() == Some(before.incoming())
        &&& self.ready() == before.ready_after_tick(frame)
    }

    /// The number of threads that are ready.
    pub fn ready_count(&self) -> (r: usize)
        ensures
            r == self.ready().len(),
    {
        queue_len(&self.queue)
    }

    /// The thread that runs.
    pub fn current(&self) -> (r: Option<Thread>)
        ensures
            r == self.running(),
    {
        self.current
    }

    /// The process with the number given.
    pub fn process(&self, proc_id: usize) -> (r: Option<Proc>)
        ensures
            r == if self.processes().contains_key(proc_id) {
                Some(self.processes()[proc_id])
            } else {
                None
            },
    {
        match self.procs.get(&proc_id) {
            Some(p) => Some(*p),
            None => None,
        }
    }

    /// Registers a process under its number, unless the number is taken.
    pub fn add_process(&mut self, process: Proc) -> (r: bool)
        requires
            old(self).wf(),
        ensures
            final(self).wf(),
            r == !old(self).processes().contains_key(process.proc_id),
            r ==> final(self).processes() == old(self).processes().insert(process.proc_id, process),
            !r ==> final(self).processes() == old(self).processes(),
            final(self).ready() == old(self).ready(),
            final(self).running() == old(self).running(),
            final(self).idle_entry() == old(self).idle_entry(),
    {
        if self.procs.contains_key(&process.proc_id) {
            return false;
        }
        self.procs.insert(process.proc_id, process);
        true
    }

    /// Makes a thread of `process` that starts at `pc` on a stack of its
    /// own, and puts it at the end of the ready queue.
    ///
    /// The stack is the 256 pages from `stack_addr` on; page `i` is mapped
    /// to `frames[i]`, for reading and writing, for user code where `mode`
    /// is `User`. The thread starts with its stack pointer at the end of
    /// the stack.
    ///
    /// Nothing is spawned where the thread would be thread 0 of process 0,
    /// which is the idle thread; where `root` is not the address space of
    /// `process`; where the stack would pass the end of the address space;
    /// where `frames` does not hold 256 frames; and where a page cannot be
    /// mapped. In the last case the error names the first page that could
    /// not be mapped and says why; the pages before it stay mapped.
    ///
    /// The thread is spawned for sure where none of the first four holds,
    /// no page of the stack is mapped yet, and twice as many frames are
    /// set aside for tables as a walk passes tables below the top one: a
    /// stack lies in two tables of the lowest level at most.
    pub fn spawn(
        &mut self,
        process: Proc,
        root: &mut RootTable,
        mode: Privilege,
        priority: i8,
        pc: u64,
        thread_id: usize,
        stack_addr: u64,
        frames: &Vec<PhysicalAddress>,
    ) -> (r: Result<(), SpawnError>)
        requires
            old(self).wf(),
            old(root).wf(),
        ensures
            final(self).wf(),
            final(root).wf(),
            final(root).keeps_mappings(*old(root)),
            is_spawn_result(
                r,
                *old(self),
                *old(root),
                *final(self),
                *final(root),
                process,
                mode,
                priority,
                pc,
                thread_id,
                stack_addr,
                frames@,
            ),
            r is Ok ==> forall|i: int|
                0 <= i < STACK_PAGES ==> #[trigger] final(root).lookup(stack_page(stack_addr, i))
                    == (Walk {
                    entry: PageTableEntry::leaf(frames@[i].0, stack_perms(mode)),
                    level: 1,
                }),
    {
        if process.proc_id == 0 && thread_id == 0 {
            return Err(SpawnError::IdleThread);
        }
        if root.addr().0 != process.page_table_addr.0 {
            return Err(SpawnError::WrongAddressSpace);
        }
        if stack_addr > u64::MAX - STACK_BYTES {
            return Err(SpawnError::BadStack);
        }
        if frames.len() != STACK_PAGES {
            return Err(SpawnError::MissingFrames);
        }
        let perms = match mode {
            Privilege::Supervisor => PagePermissions::k_write(),
            Privilege::User => PagePermissions::u_write(),
        };
        let ghost owed = spawn_owed(*old(root), process, thread_id, stack_addr, frames@);
        let ghost pairs = stack_pairs(stack_addr, frames@);
        let ghost mut states: Seq<RootTable> = seq![*root];
        let ghost top = root.levels();
        let mut i: usize = 0;
        while i < STACK_PAGES
            invariant
                i <= STACK_PAGES,
                frames@.len() == STACK_PAGES,
                stack_addr + STACK_BYTES <= u64::MAX,
                perms == stack_perms(mode),
                root.wf(),
                root.keeps_mappings(*old(root)),
                root.levels() == top,
                *self == *old(self),
                self.wf(),
                !(process.proc_id == 0 && thread_id == 0),
                old(root).spec_addr() == process.page_table_addr.0,
                pairs == stack_pairs(stack_addr, frames@),
                owed == spawn_owed(*old(root), process, thread_id, stack_addr, frames@),
                is_map_chain(states, *old(root), pairs, perms, i as nat),
                states[i as int] == *root,
                forall|j: int|
                    0 <= j < i ==> #[trigger] root.lookup(stack_page(stack_addr, j)) == (Walk {
                        entry: PageTableEntry::leaf(frames@[j].0, stack_perms(mode)),
                        level: 1,
                    }),
                owed ==> top >= 1,
                owed ==> forall|j: int|
                    i <= j < STACK_PAGES ==> (#[trigger] root.lookup(
                        stack_page(stack_addr, j),
                    )).entry.kind() != EntryKind::Page,
                owed && i >= 1 ==> forall|j: int|
                    i <= j < STACK_PAGES && upper(stack_page(stack_addr, j)) == upper(
                        stack_page(stack_addr, i - 1),
                    ) ==> (#[trigger] root.lookup(stack_page(stack_addr, j))).level == 1,
                owed ==> root.spare().len() >= tables_ahead(stack_addr, i as int, top),
            decreases STACK_PAGES - i,
        {
            let vaddr = VirtualAddress::new(stack_addr + (i as u64) * 0x1000);
            let paddr = frames[i];
            let ghost before = *root;
            proof {
                if root.levels() >= 1 {
                    lemma_walk_level(root.tree(), vaddr, root.levels());
                }
                lemma_leaf(paddr.0, perms);
                assert(vaddr == stack_page(stack_addr, i as int));
                if owed {
                    assert(root.lookup(stack_page(stack_addr, i as int)).entry.kind()
                        != EntryKind::Page);
                    if i >= 1 {
                        lemma_stack_pages(stack_addr, i - 1, i as int);
                        if i < 255 {
                            lemma_stack_pages(stack_addr, i as int, 255);
                        }
                    }
                    assert(root.spare().len() >= root.lookup(vaddr).level - 1);
                    assert(root.spec_map_result(vaddr, PageSize::Kilopage) is Ok);
                }
            }
            match root.map(vaddr, paddr, perms, PageSize::Kilopage) {
                Err(error) => {
                    proof {
                        assert(pairs[i as int].vaddr == vaddr);
                        assert(mapped_in_turn(*root, *old(root), pairs, perms, i as nat));
                    }
                    return Err(SpawnError::Mapping { page: i, error });
                },
                Ok(()) => {},
            }
            proof {
                let leaf = PageTableEntry::leaf(paddr.0, perms);
                assert(pairs[i as int].vaddr == vaddr && pairs[i as int].frame == paddr.0);
                let longer = states.push(*root);
                assert(map_step(longer[i + 1], longer[i as int], pairs[i as int], perms));
                assert forall|k: int| 0 <= k < i + 1 implies #[trigger] map_step(
                    longer[k + 1],
                    longer[k],
                    pairs[k],
                    perms,
                ) by {
                    if k < i {
                        assert(longer[k] == states[k] && longer[k + 1] == states[k + 1]);
                        assert(map_step(states[k + 1], states[k], pairs[k], perms));
                    }
                }
                assert(longer[0] == states[0]);
                assert(is_map_chain(longer, *old(root), pairs, perms, (i + 1) as nat));
                states = longer;
                lemma_put_found(*root, before, vaddr, leaf, 1);
                lemma_put_keeps(*root, before, vaddr, leaf, 1);
                assert forall|j: int| 0 <= j < i + 1 implies #[trigger] root.lookup(
                    stack_page(stack_addr, j),
                ) == (Walk {
                    entry: PageTableEntry::leaf(frames@[j].0, stack_perms(mode)),
                    level: 1,
                }) by {
                    if j < i {
                        assert(before.lookup(stack_page(stack_addr, j)).entry.kind()
                            == EntryKind::Page) by {
                            lemma_leaf(frames@[j].0, stack_perms(mode));
                        }
                    }
                }
                if owed {
                    lemma_empty_entry();
                    let found = before.lookup(vaddr).level;
                    assert forall|j: int| i + 1 <= j < STACK_PAGES implies (#[trigger] root.lookup(
                        stack_page(stack_addr, j),
                    )).entry.kind() != EntryKind::Page by {
                        let other = stack_page(stack_addr, j);
                        lemma_stack_pages(stack_addr, i as int, j);
                        if upper(other) == upper(vaddr) {
                            lemma_agree_parted(other, vaddr, top, 1);
                        } else {
                            lemma_agree_parted(other, vaddr, top, 2);
                        }
                        assert(before.lookup(other).entry.kind() != EntryKind::Page);
                    }
                    assert forall|j: int|
                        i + 1 <= j < STACK_PAGES && upper(stack_page(stack_addr, j)) == upper(
                            stack_page(stack_addr, i as int),
                        ) implies (#[trigger] root.lookup(stack_page(stack_addr, j))).level
                        == 1 by {
                        let other = stack_page(stack_addr, j);
                        lemma_stack_pages(stack_addr, i as int, j);
                        lemma_agree_to_two(other, vaddr, top);
                        if found == 1 {
                            lemma_walk_to_bottom(before.tree(), vaddr, other, top);
                        }
                    }
                    assert(root.spare().len() == before.spare().len() - (found - 1));
                    if i >= 1 {
                        lemma_stack_pages(stack_addr, i - 1, i as int);
                        if i < 255 {
                            lemma_stack_pages(stack_addr, i as int, 255);
                            lemma_stack_pages(stack_addr, i - 1, 255);
                        }
                    }
                    assert(root.spare().len() >= tables_ahead(stack_addr, i + 1, top));
                }
            }
            i += 1;
        }
        let mut trapframe = TrapFrame::with_pc(pc);
        trapframe.set_stack(stack_addr + STACK_BYTES);
        queue_push(
            &mut self.queue,
            Thread { process, thread_id, mode, trapframe, priority, priority_mod: 0 },
        );
        proof {
            assert(mapped_in_turn(*root, *old(root), pairs, perms, STACK_PAGES as nat));
        }
        Ok(())
    }
}

/// Sets the scheduler up: the kernel's own process, number 0, with its top
/// table at `kernel_root`; no thread ready and none running. The idle
/// thread will start at `idle_pc`.
pub fn init_scheduler(kernel_root: PhysicalAddress, idle_pc: u64) -> (r: Scheduler)
    ensures
        r.wf(),
        r.processes() == Map::<usize, Proc>::empty().insert(
            0,
            Proc { proc_id: 0, page_table_addr: kernel_root },
        ),
        r.ready() == Seq::<Thread>::empty(),
        r.running() is None,
        r.idle_entry() == idle_pc,
{
    let mut procs: BTreeMap<usize, Proc> = BTreeMap::new();
    procs.insert(0, Proc { proc_id: 0, page_table_addr: kernel_root });
    Scheduler { procs, queue: queue_new(), current: None, idle_pc }
}

/// Spawns a thread of the kernel's own process, with the kernel's
/// privilege, that starts at `entry`. Everything is as with
/// `Scheduler::spawn`, called for process 0.
pub fn spawn_kernel_thread(
    sched: &mut Scheduler,
    root: &mut RootTable,
    entry: u64,
    priority: i8,
    thread_id: usize,
    stack_addr: u64,
    frames: &Vec<PhysicalAddress>,
) -> (r: Result<(), SpawnError>)
    requires
        old(sched).wf(),
        old(root).wf(),
    ensures
        final(sched).wf(),
        final(root).wf(),
        final(root).keeps_mappings(*old(root)),
        is_spawn_result(
            r,
            *old(sched),
            *old(root),
            *final(sched),
            *final(root),
            old(sched).processes()[0],
            Privilege::Supervisor,
            priority,
            entry,
            thread_id,
            stack_addr,
            frames@,
        ),
        r is Ok ==> forall|i: int|
            0 <= i < STACK_PAGES ==> #[trigger] final(root).lookup(stack_page(stack_addr, i))
                == (Walk {
                entry: PageTableEntry::leaf(frames@[i].0, stack_perms(Privilege::Supervisor)),
                level: 1,
            }),
{
    let process = match sched.process(0) {
        Some(p) => p,
        None => Proc { proc_id: 0, page_table_addr: root.addr() },
    };
    sched.spawn(
        process,
        root,
        Privilege::Supervisor,
        priority,
        entry,
        thread_id,
        stack_addr,
        frames,
    )
}

impl Proc {
    /// Spawns a thread of this process that starts at `pc` with the
    /// privilege `mode`. Everything is as with `Scheduler::spawn`, called
    /// for this process.
    pub fn spawn_thread(
        self,
        sched: &mut Scheduler,
        root: &mut RootTable,
        mode: Privilege,
        priority: i8,
        pc: u64,
        thread_id: usize,
        stack_addr: u64,
        frames: &Vec<PhysicalAddress>,
    ) -> (r: Result<(), SpawnError>)
        requires
            old(sched).wf(),
            old(root).wf(),
        ensures
            final(sched).wf(),
            final(root).wf(),
            final(root).keeps_mappings(*old(root)),
            is_spawn_result(
                r,
                *old(sched),
                *old(root),
                *final(sched),
                *final(root),
                self,
                mode,
                priority,
                pc,
                thread_id,
                stack_addr,
                frames@,
            ),
            r is Ok ==> forall|i: int|
                0 <= i < STACK_PAGES ==> #[trigger] final(root).lookup(stack_page(stack_addr, i))
                    == (Walk {
                    entry: PageTableEntry::leaf(frames@[i].0, stack_perms(mode)),
                    level: 1,
                }),
    {
        sched.spawn(self, root, mode, priority, pc, thread_id, stack_addr, frames)
    }
}

/// One tick of the scheduler, on a timer interrupt that found the
/// registers `frame` at the time `now`.
///
/// The first thread that is ready runs next, or the idle thread where none
/// is. Its saved registers go into `frame`. The thread that ran keeps the
/// registers that were in `frame` and joins the ready queue at the end,
/// unless it is the idle thread. The answer says what to load: the top
/// table and the privilege of the new thread, and the time at which its
/// slice is over.
pub fn next(sched: &mut Scheduler, frame: &mut TrapFrame, now: u64, freq: usize) -> (r: Switch)
    requires
        old(sched).wf(),
    ensures
        final(sched).wf(),
        final(sched).is_after_tick(*old(sched), *old(frame)),
        *final(frame) == old(sched).incoming().trapframe,
        r == (Switch {
            page_table: old(sched).incoming().process.page_table_addr,
            mode: old(sched).incoming().mode,
            deadline: (now + old(sched).incoming().spec_time_share(freq)) as u128,
        }),
{
    let next_thread = match queue_pop(&mut sched.queue) {
        Some(t) => t,
        None => {
            let process = match sched.procs.get(&0) {
                Some(p) => *p,
                None => Proc { proc_id: 0, page_table_addr: PhysicalAddress::new(0) },
            };
            Thread {
                process,
                thread_id: 0,
                mode: Privilege::Supervisor,
                trapframe: TrapFrame::with_pc(sched.idle_pc),
                priority: 1,
                priority_mod: 0,
            }
        },
    };
    let timeshare = next_thread.time_share(freq);
    match sched.current {
        Some(cur_thread) => {
            let old_thread = Thread { trapframe: *frame, ..cur_thread };
            *frame = next_thread.trapframe;
            sched.current = Some(next_thread);
            if !old_thread.is_idle() {
                queue_push(&mut sched.queue, old_thread);
            }
        },
        None => {
            *frame = next_thread.trapframe;
            sched.current = Some(next_thread);
        },
    }
    proof {
        crate::scheduler::thread::lemma_time_share_bound(next_thread, freq);
    }
    Switch {
        page_table: next_thread.process.page_table_addr,
        mode: next_thread.mode,
        deadline: now as u128 + timeshare,
    }
}

/// The time at which the timer is to fire so that the thread that gives up
/// gives way at once: now.
pub fn exit_kthread(now: u64) -> (r: u128)
    ensures
        r == now,
{
    now as u128
}

/// A tick loses no thread: every thread that was ready either runs now or
/// is still ready, in the same order, and the thread that ran has joined
/// the queue at the end unless it was the idle thread.
pub proof fn law_tick_keeps_threads(before: Scheduler, after: Scheduler, frame: TrapFrame)
    requires
        after.is_after_tick(before, frame),
    ensures
        before.ready().len() > 0 ==> after.running() == Some(before.ready()[0]),
        forall|i: int|
            1 <= i < before.ready().len() ==> after.ready()[i - 1] == #[trigger] before.ready()[i],
        before.running() is Some && !before.running()->0.spec_is_idle() ==> after.ready().len()
            > 0 && after.ready().last() == (Thread { trapframe: frame, ..before.running()->0 }),
        after.ready().len() + 1 >= before.ready().len(),
{
}

/// Whether each state is the one before it, one tick later.
pub open spec fn is_run(states: Seq<Scheduler>, frames: Seq<TrapFrame>) -> bool {
    &&& states.len() == frames.len() + 1
    &&& forall|k: int|
        0 <= k < frames.len() ==> (#[trigger] states[k + 1]).is_after_tick(states[k], frames[k])
}

/// A thread that is ready runs after as many ticks as there are threads
/// before it in the queue, and one more: the thread at place `i` of the
/// ready queue is the one that runs after tick `i + 1`.
pub proof fn law_ready_thread_runs(states: Seq<Scheduler>, frames: Seq<TrapFrame>, i: int)
    requires
        is_run(states, frames),
        0 <= i < states[0].ready().len(),
        i < frames.len(),
    ensures
        states[i + 1].running() == Some(states[0].ready()[i]),
{
    lemma_queue_shifts(states, frames, i);
    assert(states[i + 1].is_after_tick(states[i], frames[i]));
    assert(states[i].ready()[0] == states[0].ready()[i]);
}

/// After `k` ticks the threads that were ready at the start and have not
/// run yet stand at the head of the queue, in their order.
pub proof fn lemma_queue_shifts(states: Seq<Scheduler>, frames: Seq<TrapFrame>, k: int)
    requires
        is_run(states, frames),
        0 <= k <= frames.len(),
        k <= states[0].ready().len(),
    ensures
        states[k].ready().len() >= states[0].ready().len() - k,
        forall|j: int|
            0 <= j < states[0].ready().len() - k ==> #[trigger] states[k].ready()[j]
                == states[0].ready()[j + k],
    decreases k,
{
    if k > 0 {
        lemma_queue_shifts(states, frames, k - 1);
        assert(states[k - 1 + 1].is_after_tick(states[k - 1], frames[k - 1]));
        let prev = states[k - 1];
        let cur = states[k];
        assert forall|j: int| 0 <= j < states[0].ready().len() - k implies #[trigger] cur.ready()[j]
            == states[0].ready()[j + k] by {
            assert(prev.ready()[j + 1] == states[0].ready()[j + 1 + (k - 1)]);
        }
    }
}


} // verus!
