use gent_kern::arch::timer::ticks_from_ms;
use gent_kern::arch::trap::TrapFrame;
use gent_kern::mem::{PhysicalAddress, VirtualAddress};
use gent_kern::paging::entry::{Entry, PageTableEntry};
use gent_kern::paging::root::{PageError, RootTable};
use gent_kern::paging::size::Mode;
use gent_kern::scheduler::sched::{
    exit_kthread, init_scheduler, next, spawn_kernel_thread, Scheduler, SpawnError, Switch,
};
use gent_kern::scheduler::thread::{Privilege, Proc, Thread};

const ROOT: u64 = 0x8000_0000;
const IDLE_PC: u64 = 0xffff_ffff_8000_1000;
const FREQ: usize = 10_000_000;

fn kernel_space() -> RootTable {
    let mut root = RootTable::new(PhysicalAddress::new(ROOT), Mode::Sv39, 0).unwrap();
    for i in 0..8u64 {
        assert!(root.add_table_frame(PhysicalAddress::new(0x10_0000 + i * 0x1000)));
    }
    root
}

fn frames(base: u64) -> Vec<PhysicalAddress> {
    (0..256u64).map(|i| PhysicalAddress::new(base + i * 0x1000)).collect()
}

fn thread(priority: i8, priority_mod: i8) -> Thread {
    Thread {
        process: Proc { proc_id: 0, page_table_addr: PhysicalAddress::new(ROOT) },
        thread_id: 1,
        mode: Privilege::Supervisor,
        trapframe: TrapFrame::with_pc(0),
        priority,
        priority_mod,
    }
}

fn two_threads() -> (Scheduler, RootTable) {
    let mut sched = init_scheduler(PhysicalAddress::new(ROOT), IDLE_PC);
    let mut root = kernel_space();
    assert_eq!(
        spawn_kernel_thread(&mut sched, &mut root, 0x1111, 1, 1, 0x4000_0000, &frames(0x100_0000)),
        Ok(())
    );
    assert_eq!(
        spawn_kernel_thread(&mut sched, &mut root, 0x2222, 10, 2, 0x4020_0000, &frames(0x200_0000)),
        Ok(())
    );
    (sched, root)
}

#[test]
fn time_slices_follow_the_formula() {
    assert_eq!(ticks_from_ms(FREQ, 8), 80_000);
    assert_eq!(ticks_from_ms(999, 8), 0);
    assert_eq!(ticks_from_ms(1_999, 3), 3);
    assert_eq!(thread(1, 0).time_share(FREQ), 80_000);
    assert_eq!(thread(3, 0).time_share(FREQ), 80_000);
    assert_eq!(thread(4, 0).time_share(FREQ), 90_000);
    assert_eq!(thread(10, 0).time_share(FREQ), 160_000);
    assert_eq!(thread(10, 2).time_share(FREQ), 200_000);
    assert_eq!(thread(127, 127).time_share(FREQ), 53_840_000);
    assert_eq!(thread(0, 0).time_share(FREQ), 80_000);
    assert_eq!(thread(5, -5).time_share(FREQ), 80_000);
    assert_eq!(thread(-128, -128).time_share(FREQ), 80_000);
}

#[test]
fn higher_priority_never_gets_less() {
    let mut last = 0;
    for p in -128i16..=127 {
        let share = thread(p as i8, 0).time_share(FREQ);
        assert!(share >= last);
        if p <= 0 {
            assert_eq!(share, 80_000);
        }
        last = share;
    }
}

#[test]
fn slices_go_with_the_square_of_the_priority() {
    let (mut sched, _root) = two_threads();
    let mut frame = TrapFrame::with_pc(0);
    let mut now: u64 = 1_000;
    let mut ran = [0u128; 3];
    let mut turns = [0usize; 3];
    for _ in 0..100 {
        let switch = next(&mut sched, &mut frame, now, FREQ);
        let current = sched.current().unwrap();
        ran[current.thread_id] += switch.deadline - now as u128;
        turns[current.thread_id] += 1;
        now = switch.deadline as u64;
    }
    assert_eq!(turns, [0, 50, 50]);
    assert_eq!(ran[1], 50 * 80_000);
    assert_eq!(ran[2], 50 * 160_000);
    assert_eq!(ran[2], 2 * ran[1]);
}

#[test]
fn first_tick_runs_the_head_of_the_queue() {
    let (mut sched, _root) = two_threads();
    assert_eq!(sched.ready_count(), 2);
    assert_eq!(sched.current(), None);
    let mut frame = TrapFrame::with_pc(0xdead);
    let switch = next(&mut sched, &mut frame, 500, FREQ);
    assert_eq!(
        switch,
        Switch { page_table: PhysicalAddress::new(ROOT), mode: Privilege::Supervisor, deadline: 80_500 }
    );
    assert_eq!(frame.sepc, 0x1111);
    assert_eq!(frame.regs.sp, 0x4010_0000);
    assert_eq!(sched.current().unwrap().thread_id, 1);
    assert_eq!(sched.ready_count(), 1);
}

#[test]
fn the_thread_that_ran_waits_at_the_end_with_its_registers() {
    let (mut sched, _root) = two_threads();
    let mut frame = TrapFrame::with_pc(0);
    next(&mut sched, &mut frame, 0, FREQ);
    frame.regs.a0 = 77;
    frame.sepc = 0x1234;
    let switch = next(&mut sched, &mut frame, 100, FREQ);
    assert_eq!(switch.deadline, 160_100);
    assert_eq!(sched.current().unwrap().thread_id, 2);
    assert_eq!(frame.sepc, 0x2222);
    assert_eq!(frame.regs.a0, 0);
    assert_eq!(sched.ready_count(), 1);
    next(&mut sched, &mut frame, 200, FREQ);
    assert_eq!(sched.current().unwrap().thread_id, 1);
    assert_eq!(frame.sepc, 0x1234);
    assert_eq!(frame.regs.a0, 77);
}

#[test]
fn an_empty_queue_runs_the_idle_thread_and_never_queues_it() {
    let mut sched = init_scheduler(PhysicalAddress::new(ROOT), IDLE_PC);
    let mut frame = TrapFrame::with_pc(0);
    let switch = next(&mut sched, &mut frame, 0, FREQ);
    assert_eq!(switch.deadline, 80_000);
    assert_eq!(switch.page_table, PhysicalAddress::new(ROOT));
    let idle = sched.current().unwrap();
    assert!(idle.is_idle());
    assert_eq!((idle.thread_id, idle.process.proc_id, idle.priority), (0, 0, 1));
    assert_eq!(frame.sepc, IDLE_PC);
    next(&mut sched, &mut frame, 0, FREQ);
    assert_eq!(sched.ready_count(), 0);
    assert!(sched.current().unwrap().is_idle());
}

#[test]
fn a_queued_thread_runs_after_those_before_it() {
    let mut sched = init_scheduler(PhysicalAddress::new(ROOT), IDLE_PC);
    let mut root = kernel_space();
    for id in 1..=5usize {
        let stack = 0x4000_0000 + (id as u64) * 0x20_0000;
        assert_eq!(
            spawn_kernel_thread(&mut sched, &mut root, id as u64, 1, id, stack, &frames(0x100_0000 * id as u64)),
            Ok(())
        );
    }
    let mut frame = TrapFrame::with_pc(0);
    for tick in 1..=12usize {
        next(&mut sched, &mut frame, 0, FREQ);
        assert_eq!(sched.current().unwrap().thread_id, (tick - 1) % 5 + 1);
        assert_eq!(sched.ready_count(), 4);
    }
}

#[test]
fn spawn_maps_the_stack_and_queues_the_thread() {
    let mut sched = init_scheduler(PhysicalAddress::new(ROOT), IDLE_PC);
    let mut root = kernel_space();
    let user = Proc { proc_id: 4, page_table_addr: PhysicalAddress::new(ROOT) };
    assert!(sched.add_process(user));
    assert!(!sched.add_process(user));
    assert_eq!(sched.process(4), Some(user));
    assert_eq!(sched.process(5), None);
    let r = user.spawn_thread(&mut sched, &mut root, Privilege::User, 7, 0x40_0000, 9, 0x4000_0000, &frames(0x100_0000));
    assert_eq!(r, Ok(()));
    assert_eq!(sched.ready_count(), 1);
    let first = root.get_entry(VirtualAddress::new(0x4000_0000));
    assert!(first.valid() && first.is_read() && first.is_write() && !first.is_exec() && first.user());
    assert_eq!(root.read(VirtualAddress::new(0x4000_0000)), (Entry::Page(VirtualAddress::new(0x100_0000)), 1));
    assert_eq!(root.read(VirtualAddress::new(0x400f_f000)), (Entry::Page(VirtualAddress::new(0x10f_f000)), 1));
    assert_eq!(root.read(VirtualAddress::new(0x4010_0000)), (Entry::Invalid, 1));
    let mut frame = TrapFrame::with_pc(0);
    let switch = next(&mut sched, &mut frame, 0, FREQ);
    assert_eq!(switch.mode, Privilege::User);
    assert_eq!(switch.deadline, 120_000);
    let t = sched.current().unwrap();
    assert_eq!((t.thread_id, t.process.proc_id, t.priority, t.priority_mod), (9, 4, 7, 0));
    assert_eq!(t.trapframe.regs.sp, 0x4010_0000);
    assert_eq!(t.trapframe.sepc, 0x40_0000);
}

#[test]
fn kernel_stacks_are_not_for_user_code() {
    let (_sched, root) = two_threads();
    let e = root.get_entry(VirtualAddress::new(0x4020_0000));
    assert!(e.valid() && e.is_read() && e.is_write() && !e.user() && !e.dealloc());
    assert_eq!(e.phys(), PhysicalAddress::new(0x200_0000));
}

#[test]
fn spawn_refusals_queue_nothing() {
    let mut sched = init_scheduler(PhysicalAddress::new(ROOT), IDLE_PC);
    let mut root = kernel_space();
    assert_eq!(
        spawn_kernel_thread(&mut sched, &mut root, 0, 1, 0, 0x4000_0000, &frames(0x100_0000)),
        Err(SpawnError::IdleThread)
    );
    let stranger = Proc { proc_id: 2, page_table_addr: PhysicalAddress::new(0x9000_0000) };
    assert_eq!(
        stranger.spawn_thread(&mut sched, &mut root, Privilege::User, 1, 0, 1, 0x4000_0000, &frames(0x100_0000)),
        Err(SpawnError::WrongAddressSpace)
    );
    assert_eq!(
        spawn_kernel_thread(&mut sched, &mut root, 0, 1, 1, 0xffff_ffff_fff0_0001, &frames(0x100_0000)),
        Err(SpawnError::BadStack)
    );
    let mut few = frames(0x100_0000);
    few.pop();
    assert_eq!(
        spawn_kernel_thread(&mut sched, &mut root, 0, 1, 1, 0x4000_0000, &few),
        Err(SpawnError::MissingFrames)
    );
    assert_eq!(root.read(VirtualAddress::new(0x4000_0000)), (Entry::Invalid, 3));
    assert_eq!(spawn_kernel_thread(&mut sched, &mut root, 0, 1, 1, 0x4000_0000, &frames(0x100_0000)), Ok(()));
    let there = root.get_entry(VirtualAddress::new(0x400f_e000));
    let clash = spawn_kernel_thread(&mut sched, &mut root, 0, 1, 2, 0x400f_e000, &frames(0x200_0000));
    assert_eq!(clash, Err(SpawnError::Mapping { page: 0, error: PageError::MappingExists(there) }));
    let mut bare = RootTable::new(PhysicalAddress::new(ROOT), Mode::Sv39, 0).unwrap();
    let dry = spawn_kernel_thread(&mut sched, &mut bare, 0, 1, 3, 0x4000_0000, &frames(0x300_0000));
    assert_eq!(dry, Err(SpawnError::Mapping { page: 0, error: PageError::OutOfMemory }));
    assert_eq!(sched.ready_count(), 1);
    assert_eq!(root.get_entry(VirtualAddress::new(0x4010_0000)), PageTableEntry(0));
}

#[test]
fn giving_up_fires_the_timer_now() {
    assert_eq!(exit_kthread(12_345), 12_345);
}

#[test]
fn a_spawn_with_room_and_frames_succeeds() {
    // A stack that crosses from one gigabyte into the next, in an address
    // space without any table below the top one: it lies in two tables of
    // the lowest level under two tables above them. Four frames for tables
    // are enough, three are not.
    let stack = 0x8000_0000 - 0x8_0000;
    for (pool, expected) in [(4u64, true), (3u64, false)] {
        let mut sched = init_scheduler(PhysicalAddress::new(ROOT), IDLE_PC);
        let mut root = RootTable::new(PhysicalAddress::new(ROOT), Mode::Sv39, 0).unwrap();
        for i in 0..pool {
            assert!(root.add_table_frame(PhysicalAddress::new(0x10_0000 + i * 0x1000)));
        }
        let r = spawn_kernel_thread(&mut sched, &mut root, 0x1111, 1, 1, stack, &frames(0x100_0000));
        assert_eq!(r.is_ok(), expected);
        assert_eq!(sched.ready_count(), if expected { 1 } else { 0 });
        if !expected {
            assert_eq!(r, Err(SpawnError::Mapping { page: 128, error: PageError::OutOfMemory }));
            assert_eq!(
                root.read(VirtualAddress::new(stack + 127 * 0x1000)),
                (Entry::Page(VirtualAddress::new(0x100_0000 + 127 * 0x1000)), 1)
            );
            assert_eq!(root.read(VirtualAddress::new(stack + 128 * 0x1000)), (Entry::Invalid, 3));
            assert_eq!(root.spare_frames(), 1);
        }
    }
}

#[test]
fn a_thread_with_the_idle_threads_name_would_be_lost() {
    let mut sched = init_scheduler(PhysicalAddress::new(ROOT), IDLE_PC);
    let mut root = kernel_space();
    let kernel = sched.process(0).unwrap();
    let r = kernel.spawn_thread(&mut sched, &mut root, Privilege::Supervisor, 1, 0, 0, 0x4000_0000, &frames(0x100_0000));
    assert_eq!(r, Err(SpawnError::IdleThread));
    assert_eq!(sched.ready_count(), 0);
    assert_eq!(root.read(VirtualAddress::new(0x4000_0000)), (Entry::Invalid, 3));
}
