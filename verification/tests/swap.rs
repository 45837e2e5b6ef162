use gent_kern::dev::blockdev::disk::{Disk, DiskError};
use gent_kern::dev::blockdev::partition::Partition;
use gent_kern::dev::blockdev::ramdisk::RamDisk;
use gent_kern::mem::frames::PhysicalMemory;
use gent_kern::mem::swap::{init_swap, SwapError, SwapLocation, SwapManager};
use gent_kern::mem::{PhysicalAddress, VirtualAddress};
use gent_kern::paging::entry::{Entry, PagePermissions};
use gent_kern::paging::root::{PageError, RootTable};
use gent_kern::paging::size::{Mode, PageSize};

fn rw() -> PagePermissions {
    PagePermissions { read: true, write: true, execute: false, user: true, global: false, dealloc: false }
}

struct World {
    root: RootTable,
    records: SwapManager,
    memory: PhysicalMemory,
    part: Partition,
    disk: RamDisk,
}

fn world() -> World {
    let mut root = RootTable::new(PhysicalAddress::new(0x8000_0000), Mode::Sv39, 0).unwrap();
    assert!(root.add_table_frame(PhysicalAddress::new(0x10_0000)));
    assert!(root.add_table_frame(PhysicalAddress::new(0x10_1000)));
    let mut records = init_swap();
    records.register_partition(0);
    World {
        root,
        records,
        memory: PhysicalMemory::new(),
        part: Partition::new(0, 4, 12, 1024),
        disk: RamDisk::new(16, 1024),
    }
}

fn resident(w: &mut World, vaddr: u64, paddr: u64, fill: u8) {
    assert_eq!(
        w.root.map(VirtualAddress::new(vaddr), PhysicalAddress::new(paddr), rw(), PageSize::Kilopage),
        Ok(())
    );
    w.memory.add_frame(PhysicalAddress::new(paddr), vec![fill; 4096]);
}

#[test]
fn evicted_page_comes_back_byte_for_byte() {
    let mut w = world();
    let vaddr = VirtualAddress::new(0x1000);
    resident(&mut w, 0x1000, 0x2000, 0x7E);
    let out = w.root.swap_out(vaddr, 3, 4, &mut w.records, &mut w.memory, 0, &mut w.part, &mut w.disk);
    assert_eq!(out, Ok(PhysicalAddress::new(0x2000)));
    let gone = w.root.get_entry(vaddr);
    assert!(!gone.valid() && gone.swapped() && gone.is_read());
    assert_eq!(w.root.read(vaddr), (Entry::Invalid, 1));
    assert!(!w.memory.has_frame(PhysicalAddress::new(0x2000)));
    assert_eq!(w.records.lookup(3, vaddr), Some(SwapLocation { partition: 0, block: 4 }));
    let mut on_disk = vec![0u8; 4096];
    w.disk.read(&mut on_disk, 4);
    assert!(on_disk.iter().all(|b| *b == 0x7E));

    let back = w.root.swap_in(vaddr, 3, PhysicalAddress::new(0x9000), &mut w.records, &mut w.memory, 0, &w.part, &w.disk);
    assert_eq!(back, Ok(()));
    let entry = w.root.get_entry(vaddr);
    assert!(entry.valid() && !entry.swapped());
    assert!(entry.is_read() && entry.is_write() && entry.user());
    assert_eq!(entry.phys(), PhysicalAddress::new(0x9000));
    let bytes = w.memory.frame(PhysicalAddress::new(0x9000)).unwrap();
    assert_eq!(bytes.len(), 4096);
    assert!(bytes.iter().all(|b| *b == 0x7E));
    assert_eq!(w.records.lookup(3, vaddr), None);
}

#[test]
fn swapping_out_twice_fails_on_the_record() {
    let mut w = world();
    let vaddr = VirtualAddress::new(0x1000);
    resident(&mut w, 0x1000, 0x2000, 0x11);
    let first = w.root.swap_out(vaddr, 3, 4, &mut w.records, &mut w.memory, 0, &mut w.part, &mut w.disk);
    assert_eq!(first, Ok(PhysicalAddress::new(0x2000)));
    let second = w.root.swap_out(vaddr, 3, 8, &mut w.records, &mut w.memory, 0, &mut w.part, &mut w.disk);
    assert_eq!(second, Err(PageError::SwapRecordExists));
    assert_eq!(w.records.lookup(3, vaddr), Some(SwapLocation { partition: 0, block: 4 }));
    let mut untouched = vec![1u8; 1024];
    w.disk.read(&mut untouched, 8);
    assert!(untouched.iter().all(|b| *b == 0));
}

#[test]
fn swap_goes_out_then_in() {
    let mut w = world();
    let vaddr = VirtualAddress::new(0x1000);
    resident(&mut w, 0x1000, 0x2000, 0x42);
    let out = w.root.swap(vaddr, 7, 5, PhysicalAddress::new(0x9000), &mut w.records, &mut w.memory, 0, &mut w.part, &mut w.disk);
    assert_eq!(out, Ok(Some(PhysicalAddress::new(0x2000))));
    assert!(w.root.get_entry(vaddr).swapped());
    let back = w.root.swap(vaddr, 7, 5, PhysicalAddress::new(0x9000), &mut w.records, &mut w.memory, 0, &mut w.part, &mut w.disk);
    assert_eq!(back, Ok(None));
    assert!(w.root.get_entry(vaddr).valid());
    assert_eq!(w.memory.read_byte(PhysicalAddress::new(0x9000), 4095), Some(0x42));
}

#[test]
fn kernel_pages_are_recorded_without_the_process() {
    let mut w = world();
    let vaddr = VirtualAddress::new(0xffff_ffc0_0000_1000);
    resident(&mut w, 0xffff_ffc0_0000_1000, 0x2000, 0x33);
    let out = w.root.swap_out(vaddr, 3, 4, &mut w.records, &mut w.memory, 0, &mut w.part, &mut w.disk);
    assert_eq!(out, Ok(PhysicalAddress::new(0x2000)));
    assert_eq!(w.records.lookup(99, vaddr), Some(SwapLocation { partition: 0, block: 4 }));
    let back = w.root.swap_in(vaddr, 99, PhysicalAddress::new(0x9000), &mut w.records, &mut w.memory, 0, &w.part, &w.disk);
    assert_eq!(back, Ok(()));
    assert_eq!(w.records.lookup(3, vaddr), None);
}

#[test]
fn swap_out_refusals() {
    let mut w = world();
    let vaddr = VirtualAddress::new(0x1000);
    let nothing = w.root.swap_out(vaddr, 3, 4, &mut w.records, &mut w.memory, 0, &mut w.part, &mut w.disk);
    assert_eq!(nothing, Err(PageError::NoMapping));
    resident(&mut w, 0x1000, 0x2000, 0x7E);
    let wrong_part = w.root.swap_out(vaddr, 3, 4, &mut w.records, &mut w.memory, 1, &mut w.part, &mut w.disk);
    assert_eq!(wrong_part, Err(PageError::NoSwapPartition));
    let outside = w.root.swap_out(vaddr, 3, 3, &mut w.records, &mut w.memory, 0, &mut w.part, &mut w.disk);
    assert_eq!(outside, Err(PageError::Disk(DiskError::PartitionRangeError)));
    let past_end = w.root.swap_out(vaddr, 3, 13, &mut w.records, &mut w.memory, 0, &mut w.part, &mut w.disk);
    assert_eq!(past_end, Err(PageError::Disk(DiskError::PartitionRangeError)));
    let mut wide = Partition::new(0, 4, 16, 1024);
    let off_disk = w.root.swap_out(vaddr, 3, 13, &mut w.records, &mut w.memory, 0, &mut wide, &mut w.disk);
    assert_eq!(off_disk, Err(PageError::Disk(DiskError::InvalidBlock)));
    w.memory.remove_frame(PhysicalAddress::new(0x2000));
    let no_bytes = w.root.swap_out(vaddr, 3, 4, &mut w.records, &mut w.memory, 0, &mut w.part, &mut w.disk);
    assert_eq!(no_bytes, Err(PageError::BadFrame));
    w.memory.add_frame(PhysicalAddress::new(0x2000), vec![0u8; 100]);
    let short = w.root.swap_out(vaddr, 3, 4, &mut w.records, &mut w.memory, 0, &mut w.part, &mut w.disk);
    assert_eq!(short, Err(PageError::BadFrame));
    // Nothing changed through all of that.
    assert!(w.root.get_entry(vaddr).valid());
    assert_eq!(w.records.lookup(3, vaddr), None);
    let mut empty = init_swap();
    w.memory.add_frame(PhysicalAddress::new(0x2000), vec![0u8; 4096]);
    let unregistered = w.root.swap_out(vaddr, 3, 4, &mut empty, &mut w.memory, 0, &mut w.part, &mut w.disk);
    assert_eq!(unregistered, Err(PageError::NoSwapPartition));
}

#[test]
fn swap_in_refusals() {
    let mut w = world();
    let vaddr = VirtualAddress::new(0x1000);
    resident(&mut w, 0x1000, 0x2000, 0x7E);
    let frame = PhysicalAddress::new(0x9000);
    let resident_page = w.root.swap_in(vaddr, 3, frame, &mut w.records, &mut w.memory, 0, &w.part, &w.disk);
    assert_eq!(resident_page, Err(PageError::NoSwapRecord));
    assert_eq!(w.records.record(3, vaddr, SwapLocation { partition: 0, block: 4 }), Ok(()));
    let not_evicted = w.root.swap_in(vaddr, 3, frame, &mut w.records, &mut w.memory, 0, &w.part, &w.disk);
    assert_eq!(not_evicted, Err(PageError::NoMapping));
    assert_eq!(w.records.take(3, vaddr), Ok(SwapLocation { partition: 0, block: 4 }));
    let out = w.root.swap_out(vaddr, 3, 4, &mut w.records, &mut w.memory, 0, &mut w.part, &mut w.disk);
    assert_eq!(out, Ok(PhysicalAddress::new(0x2000)));
    let other_part = w.root.swap_in(vaddr, 3, frame, &mut w.records, &mut w.memory, 5, &w.part, &w.disk);
    assert_eq!(other_part, Err(PageError::NoSwapPartition));
    let crooked = w.root.swap_in(vaddr, 3, PhysicalAddress::new(0x9001), &mut w.records, &mut w.memory, 0, &w.part, &w.disk);
    assert_eq!(crooked, Err(PageError::BadFrame));
    w.memory.add_frame(frame, vec![0u8; 4096]);
    let taken = w.root.swap_in(vaddr, 3, frame, &mut w.records, &mut w.memory, 0, &w.part, &w.disk);
    assert_eq!(taken, Err(PageError::BadFrame));
    w.memory.remove_frame(frame);
    let small = Partition::new(0, 4, 2, 1024);
    let refused = w.root.swap_in(vaddr, 3, frame, &mut w.records, &mut w.memory, 0, &small, &w.disk);
    assert_eq!(refused, Err(PageError::Disk(DiskError::PartitionRangeError)));
    assert!(w.root.get_entry(vaddr).swapped());
    assert_eq!(w.records.lookup(3, vaddr), Some(SwapLocation { partition: 0, block: 4 }));
}

#[test]
fn records_are_made_once_and_taken_once() {
    let mut m = SwapManager::new();
    let user = VirtualAddress::new(0x1000);
    let kern = VirtualAddress::new(0xffff_ffff_0000_0000);
    let a = SwapLocation { partition: 0, block: 4 };
    let b = SwapLocation { partition: 1, block: 9 };
    assert_eq!(m.take(1, user), Err(SwapError::NoRecord));
    assert_eq!(m.record(1, user, a), Ok(()));
    assert_eq!(m.record(1, user, b), Err(SwapError::RecordExists));
    assert_eq!(m.lookup(1, user), Some(a));
    assert_eq!(m.lookup(2, user), None);
    assert_eq!(m.record(2, user, b), Ok(()));
    assert_eq!(m.record(1, kern, b), Ok(()));
    assert_eq!(m.record(2, kern, a), Err(SwapError::RecordExists));
    assert_eq!(m.take(1, user), Ok(a));
    assert_eq!(m.take(1, user), Err(SwapError::NoRecord));
    assert_eq!(m.take(2, user), Ok(b));
    assert_eq!(m.take(7, kern), Ok(b));
    assert_eq!(m.swap_target(), None);
    m.register_partition(3);
    m.register_partition(1);
    assert_eq!(m.swap_target(), Some(3));
}

#[test]
fn ramdisk_reads_what_was_written() {
    let mut disk = RamDisk::new(4, 8);
    assert_eq!((disk.blocks(), disk.blocksize(), disk.chs_end()), (4, 8, 0xffff_ffff));
    disk.write(&[1, 2, 3, 4, 5, 6, 7, 8, 9, 10], 1);
    let mut all = vec![0xffu8; 32];
    disk.read(&mut all, 0);
    let mut expected = vec![0u8; 32];
    for i in 0..10 {
        expected[8 + i] = (i + 1) as u8;
    }
    assert_eq!(all, expected);
    let mut two = [0u8; 2];
    disk.read(&mut two, 2);
    assert_eq!(two, [9, 10]);
}

#[test]
fn partition_checks_both_ranges() {
    let mut disk = RamDisk::new(8, 16);
    let mut part = Partition::new(0, 2, 4, 16);
    assert_eq!((part.diskid(), part.blocksize(), part.blocks()), (0, 16, 4));
    assert_eq!(part.blocks_needed(0), 0);
    assert_eq!(part.blocks_needed(16), 1);
    assert_eq!(part.blocks_needed(17), 2);
    assert_eq!(part.write(&mut disk, &[7u8; 64], 2), Ok(()));
    assert_eq!(part.write(&mut disk, &[7u8; 65], 2), Err(DiskError::PartitionRangeError));
    assert_eq!(part.write(&mut disk, &[7u8; 16], 1), Err(DiskError::PartitionRangeError));
    assert_eq!(part.write(&mut disk, &[7u8; 16], 6), Err(DiskError::PartitionRangeError));
    let mut buf = [0u8; 16];
    assert_eq!(part.read(&disk, &mut buf, 5), Ok(()));
    assert_eq!(buf, [7u8; 16]);
    let mut long = Partition::new(0, 2, 10, 16);
    assert_eq!(long.write(&mut disk, &[1u8; 16], 8), Err(DiskError::InvalidBlock));
    assert_eq!(long.write(&mut disk, &[1u8; 17], 7), Err(DiskError::InvalidBlock));
    let mut unsized_part = Partition::new(0, 0, 10, 0);
    assert_eq!(unsized_part.write(&mut disk, &[1u8; 1], 0), Err(DiskError::PartitionRangeError));
    let mut beyond = [9u8; 4];
    assert_eq!(long.read(&disk, &mut beyond, 9), Err(DiskError::InvalidBlock));
    assert_eq!(beyond, [9u8; 4]);
}

#[test]
fn frames_hold_bytes() {
    let mut memory = PhysicalMemory::new();
    let at = PhysicalAddress::new(0x3000);
    assert!(!memory.has_frame(at));
    assert_eq!(memory.read_byte(at, 0), None);
    assert!(!memory.write_byte(at, 0, 1));
    memory.add_frame(at, vec![5u8; 4]);
    assert_eq!(memory.read_byte(at, 3), Some(5));
    assert_eq!(memory.read_byte(at, 4), None);
    assert!(memory.write_byte(at, 3, 9));
    assert!(!memory.write_byte(at, 4, 9));
    assert_eq!(memory.remove_frame(at), Some(vec![5, 5, 5, 9]));
    assert_eq!(memory.remove_frame(at), None);
}

#[test]
fn a_page_that_may_only_be_executed_swaps_like_any_other() {
    let mut w = world();
    let vaddr = VirtualAddress::new(0x1000);
    let exec_only =
        PagePermissions { read: false, write: false, execute: true, user: true, global: false, dealloc: false };
    assert_eq!(w.root.map(vaddr, PhysicalAddress::new(0x2000), exec_only, PageSize::Kilopage), Ok(()));
    w.memory.add_frame(PhysicalAddress::new(0x2000), vec![0x5A; 4096]);
    let out = w.root.swap_out(vaddr, 3, 4, &mut w.records, &mut w.memory, 0, &mut w.part, &mut w.disk);
    assert_eq!(out, Ok(PhysicalAddress::new(0x2000)));
    let back = w.root.swap_in(vaddr, 3, PhysicalAddress::new(0x9000), &mut w.records, &mut w.memory, 0, &w.part, &w.disk);
    assert_eq!(back, Ok(()));
    let entry = w.root.get_entry(vaddr);
    assert!(entry.valid() && !entry.swapped() && entry.is_exec() && !entry.is_read() && !entry.is_write());
    assert_eq!(w.memory.read_byte(PhysicalAddress::new(0x9000), 17), Some(0x5A));
}

#[test]
fn a_page_is_recorded_under_its_first_address() {
    let mut w = world();
    resident(&mut w, 0x1000, 0x2000, 0x66);
    let inside = VirtualAddress::new(0x1abc);
    let out = w.root.swap_out(inside, 3, 4, &mut w.records, &mut w.memory, 0, &mut w.part, &mut w.disk);
    assert_eq!(out, Ok(PhysicalAddress::new(0x2000)));
    assert_eq!(w.records.lookup(3, VirtualAddress::new(0x1000)), Some(SwapLocation { partition: 0, block: 4 }));
    assert_eq!(w.records.lookup(3, inside), None);
    let again = w.root.swap_out(VirtualAddress::new(0x1ff8), 3, 8, &mut w.records, &mut w.memory, 0, &mut w.part, &mut w.disk);
    assert_eq!(again, Err(PageError::SwapRecordExists));
    let elsewhere = VirtualAddress::new(0x1008);
    let back = w.root.swap_in(elsewhere, 3, PhysicalAddress::new(0x9000), &mut w.records, &mut w.memory, 0, &w.part, &w.disk);
    assert_eq!(back, Ok(()));
    assert_eq!(w.records.lookup(3, VirtualAddress::new(0x1000)), None);
    assert_eq!(w.memory.read_byte(PhysicalAddress::new(0x9000), 0), Some(0x66));
}

#[test]
fn an_entry_without_any_permission_cannot_come_back() {
    let mut w = world();
    resident(&mut w, 0x1000, 0x2000, 0x66);
    let vaddr = VirtualAddress::new(0x1000);
    // Not valid, marked swapped, and no access allowed: valid, it would be
    // read as a link.
    w.root.set_entry(vaddr, gent_kern::paging::entry::PageTableEntry(0x200));
    assert_eq!(w.records.record(3, vaddr, SwapLocation { partition: 0, block: 4 }), Ok(()));
    let back = w.root.swap_in(vaddr, 3, PhysicalAddress::new(0x9000), &mut w.records, &mut w.memory, 0, &w.part, &w.disk);
    assert_eq!(back, Err(PageError::NoMapping));
    assert_eq!(w.root.get_entry(vaddr).0, 0x200);
}
