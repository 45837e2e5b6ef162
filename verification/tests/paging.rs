use std::collections::BTreeMap;

use gent_kern::mem::{PhysicalAddress, VirtualAddress};
use gent_kern::mem::frames::PhysicalMemory;
use gent_kern::paging::adopt::links_of;
use gent_kern::paging::discover::{find_upperhalf_mem, Region};
use gent_kern::paging::entry::{Entry, PagePermissions, PageTableEntry};
use gent_kern::paging::range::RangeError;
use gent_kern::paging::root::{PageError, RootTable};
use gent_kern::paging::size::{Mode, PageSize};

fn rw(dealloc: bool) -> PagePermissions {
    PagePermissions { read: true, write: true, execute: false, user: false, global: false, dealloc }
}

fn space(mode: Mode, spare: &[u64]) -> RootTable {
    let mut root = RootTable::new(PhysicalAddress::new(0x8000_0000), mode, 0).unwrap();
    for f in spare {
        assert!(root.add_table_frame(PhysicalAddress::new(*f)));
    }
    root
}

#[test]
fn unmap_hands_the_frame_back_to_the_allocator() {
    let mut root = space(Mode::Sv39, &[0x10_0000, 0x10_1000]);
    let mut memory = PhysicalMemory::new();
    memory.add_frame(PhysicalAddress::new(0x2000), vec![0u8; 4096]);
    let vaddr = VirtualAddress::new(0x1000);
    assert_eq!(root.map(vaddr, PhysicalAddress::new(0x2000), rw(true), PageSize::Kilopage), Ok(()));
    let entry = root.get_entry(vaddr);
    assert!(entry.valid() && entry.is_read() && entry.is_write() && !entry.is_exec());
    assert!(entry.dealloc());
    assert_eq!(entry.phys(), PhysicalAddress::new(0x2000));
    assert!(memory.write_byte(entry.phys(), 10, 0xAB));
    assert_eq!(memory.read_byte(PhysicalAddress::new(0x2000), 10), Some(0xAB));
    assert_eq!(root.unmap(vaddr, PageSize::Kilopage), Ok(Some(PhysicalAddress::new(0x2000))));
    assert_eq!(root.read(vaddr), (Entry::Invalid, 1));
}

#[test]
fn second_map_fails_and_first_stays() {
    let mut root = space(Mode::Sv39, &[0x10_0000, 0x10_1000]);
    let vaddr = VirtualAddress::new(0x1000);
    assert_eq!(root.map(vaddr, PhysicalAddress::new(0x2000), rw(false), PageSize::Kilopage), Ok(()));
    let first = root.get_entry(vaddr);
    let second = root.map(vaddr, PhysicalAddress::new(0x5000), rw(false), PageSize::Kilopage);
    assert_eq!(second, Err(PageError::MappingExists(first)));
    assert_eq!(root.read(vaddr), (Entry::Page(VirtualAddress::new(0x2000)), 1));
    assert_eq!(root.get_entry(vaddr).phys(), PhysicalAddress::new(0x2000));
}

#[test]
fn map_then_unmap_leaves_invalid_at_the_level() {
    let mut root = space(Mode::Sv48, &[0x10_0000, 0x10_1000, 0x10_2000]);
    let vaddr = VirtualAddress::new(0x4020_0000);
    assert_eq!(root.map(vaddr, PhysicalAddress::new(0x60_0000), rw(false), PageSize::Megapage), Ok(()));
    assert_eq!(root.read(vaddr), (Entry::Page(VirtualAddress::new(0x60_0000)), 2));
    assert_eq!(root.unmap(vaddr, PageSize::Megapage), Ok(None));
    assert_eq!(root.read(vaddr), (Entry::Invalid, 2));
    assert_eq!(root.get_entry(vaddr), PageTableEntry(0));
}

#[test]
fn map_takes_one_frame_for_each_missing_table() {
    let mut root = space(Mode::Sv39, &[0x10_0000, 0x10_1000, 0x10_2000]);
    assert_eq!(root.spare_frames(), 3);
    assert_eq!(
        root.map(VirtualAddress::new(0x1000), PhysicalAddress::new(0x2000), rw(false), PageSize::Kilopage),
        Ok(())
    );
    assert_eq!(root.spare_frames(), 1);
    assert_eq!(
        root.map(VirtualAddress::new(0x3000), PhysicalAddress::new(0x4000), rw(false), PageSize::Kilopage),
        Ok(())
    );
    assert_eq!(root.spare_frames(), 1);
    assert_eq!(root.take_table_frame(), Some(PhysicalAddress::new(0x10_0000)));
    assert_eq!(root.take_table_frame(), None);
}

#[test]
fn map_without_frames_fails_and_changes_nothing() {
    let mut root = space(Mode::Sv39, &[0x10_0000]);
    let vaddr = VirtualAddress::new(0x1000);
    assert_eq!(
        root.map(vaddr, PhysicalAddress::new(0x2000), rw(false), PageSize::Kilopage),
        Err(PageError::OutOfMemory)
    );
    assert_eq!(root.spare_frames(), 1);
    assert_eq!(root.read(vaddr), (Entry::Invalid, 3));
}

#[test]
fn map_refuses_a_size_the_mode_lacks() {
    let mut root = space(Mode::Sv39, &[0x10_0000, 0x10_1000]);
    let vaddr = VirtualAddress::new(0x20_0000);
    assert_eq!(
        root.map(vaddr, PhysicalAddress::new(0x40_0000), rw(false), PageSize::Megapage),
        Err(PageError::InvalidSize)
    );
    assert_eq!(root.unmap(vaddr, PageSize::Gigapage), Err(PageError::InvalidSize));
    let mut bare = space(Mode::Bare, &[]);
    assert_eq!(
        bare.map(vaddr, PhysicalAddress::new(0x40_0000), rw(false), PageSize::Kilopage),
        Err(PageError::InvalidSize)
    );
}

#[test]
fn mapping_no_page_does_nothing() {
    let mut root = space(Mode::Sv39, &[0x10_0000, 0x10_1000]);
    let vaddr = VirtualAddress::new(0x1000);
    assert_eq!(root.map(vaddr, PhysicalAddress::new(0x2000), rw(false), PageSize::NoPage), Ok(()));
    assert_eq!(root.spare_frames(), 2);
    assert_eq!(root.read(vaddr), (Entry::Invalid, 3));
    assert_eq!(root.unmap(vaddr, PageSize::NoPage), Ok(None));
}

#[test]
fn unmap_says_what_is_wrong() {
    let mut root = space(Mode::Sv48, &[0x10_0000, 0x10_1000, 0x10_2000]);
    let vaddr = VirtualAddress::new(0x4020_0000);
    assert_eq!(root.unmap(vaddr, PageSize::Kilopage), Err(PageError::NoMapping));
    assert_eq!(root.map(vaddr, PhysicalAddress::new(0x60_0000), rw(false), PageSize::Megapage), Ok(()));
    assert_eq!(root.unmap(vaddr, PageSize::Kilopage), Err(PageError::UnmappingSizeMismatch));
    assert_eq!(root.read(vaddr), (Entry::Page(VirtualAddress::new(0x60_0000)), 2));
}

#[test]
fn other_addresses_keep_their_mappings() {
    let mut root = space(Mode::Sv39, &[0x10_0000, 0x10_1000, 0x10_2000, 0x10_3000]);
    let a = VirtualAddress::new(0x1000);
    let b = VirtualAddress::new(0x4000_2000);
    assert_eq!(root.map(a, PhysicalAddress::new(0x2000), rw(false), PageSize::Kilopage), Ok(()));
    assert_eq!(root.map(b, PhysicalAddress::new(0x7000), rw(true), PageSize::Kilopage), Ok(()));
    assert_eq!(root.read(a), (Entry::Page(VirtualAddress::new(0x2000)), 1));
    assert_eq!(root.unmap(a, PageSize::Kilopage), Ok(None));
    assert_eq!(root.read(b), (Entry::Page(VirtualAddress::new(0x7000)), 1));
    // An address in the table that the first mapping created finds an empty
    // entry at the lowest level now.
    assert_eq!(root.read(VirtualAddress::new(0x5000)), (Entry::Invalid, 1));
}

#[test]
fn read_shows_frames_through_the_direct_map() {
    let mut root = RootTable::new(PhysicalAddress::new(0x8000_0000), Mode::Sv39, 0xffff_8000_0000_0000).unwrap();
    assert!(root.add_table_frame(PhysicalAddress::new(0x10_0000)));
    assert!(root.add_table_frame(PhysicalAddress::new(0x10_1000)));
    let vaddr = VirtualAddress::new(0x1000);
    assert_eq!(root.map(vaddr, PhysicalAddress::new(0x2000), rw(false), PageSize::Kilopage), Ok(()));
    assert_eq!(root.read(vaddr), (Entry::Page(VirtualAddress::new(0xffff_8000_0000_2000)), 1));
    assert_eq!(root.hhdm_offset(), 0xffff_8000_0000_0000);
    assert_eq!(root.addr(), PhysicalAddress::new(0x8000_0000));
    assert_eq!(root.mode(), Mode::Sv39);
}

#[test]
fn new_refuses_what_cannot_be_an_address_space() {
    assert!(RootTable::new(PhysicalAddress::new(0x8000_0000), Mode::Sv64, 0).is_none());
    assert!(RootTable::new(PhysicalAddress::new(0x8000_0001), Mode::Sv39, 0).is_none());
    assert!(RootTable::new(PhysicalAddress::new(0x100_0000_0000_0000), Mode::Sv39, 0).is_none());
    assert!(RootTable::new(PhysicalAddress::new(0x8000_0000), Mode::Bare, 0).is_some());
    assert!(RootTable::new(PhysicalAddress::new(0x8000_0000), Mode::Sv57, 0xff00_0000_0000_0000).is_some());
}

#[test]
fn table_frames_must_be_usable() {
    let mut root = space(Mode::Sv39, &[]);
    assert!(!root.add_table_frame(PhysicalAddress::new(0x1234)));
    assert!(!root.add_table_frame(PhysicalAddress::new(0x100_0000_0000_0000)));
    assert_eq!(root.spare_frames(), 0);
}

#[test]
fn set_entry_replaces_the_entry_found() {
    let mut root = space(Mode::Sv39, &[0x10_0000, 0x10_1000]);
    let vaddr = VirtualAddress::new(0x1000);
    assert_eq!(root.map(vaddr, PhysicalAddress::new(0x2000), rw(false), PageSize::Kilopage), Ok(()));
    let mut entry = root.get_entry(vaddr);
    entry.set_perms(PagePermissions { read: true, write: false, execute: true, user: true, global: false, dealloc: false });
    root.set_entry(vaddr, entry);
    let back = root.get_entry(vaddr);
    assert!(back.is_read() && !back.is_write() && back.is_exec() && back.user());
    assert_eq!(back.phys(), PhysicalAddress::new(0x2000));
}

#[test]
fn map_range_maps_every_page_touched() {
    let mut root = space(Mode::Sv39, &[0x10_0000, 0x10_1000]);
    let r = root.map_range(VirtualAddress::new(0x4000), PhysicalAddress::new(0x9000), rw(true), 0x2001);
    assert_eq!(r, Ok(()));
    assert_eq!(root.read(VirtualAddress::new(0x4000)), (Entry::Page(VirtualAddress::new(0x9000)), 1));
    assert_eq!(root.read(VirtualAddress::new(0x5000)), (Entry::Page(VirtualAddress::new(0xa000)), 1));
    assert_eq!(root.read(VirtualAddress::new(0x6000)), (Entry::Page(VirtualAddress::new(0xb000)), 1));
    assert_eq!(root.read(VirtualAddress::new(0x7000)), (Entry::Invalid, 1));
    let freed = root.unmap_range(VirtualAddress::new(0x4000), 0x2001).unwrap();
    assert_eq!(
        freed,
        vec![PhysicalAddress::new(0x9000), PhysicalAddress::new(0xa000), PhysicalAddress::new(0xb000)]
    );
    assert_eq!(root.read(VirtualAddress::new(0x5000)), (Entry::Invalid, 1));
}

#[test]
fn map_range_stops_at_the_page_that_fails() {
    let mut root = space(Mode::Sv39, &[0x10_0000, 0x10_1000]);
    assert_eq!(
        root.map(VirtualAddress::new(0x5000), PhysicalAddress::new(0x2000), rw(false), PageSize::Kilopage),
        Ok(())
    );
    let there = root.get_entry(VirtualAddress::new(0x5000));
    let r = root.map_range(VirtualAddress::new(0x4000), PhysicalAddress::new(0x9000), rw(false), 0x3000);
    assert_eq!(r, Err(RangeError { page: 1, error: PageError::MappingExists(there) }));
    assert_eq!(root.read(VirtualAddress::new(0x4000)), (Entry::Page(VirtualAddress::new(0x9000)), 1));
    assert_eq!(root.read(VirtualAddress::new(0x6000)), (Entry::Invalid, 1));
    let u = root.unmap_range(VirtualAddress::new(0x4000), 0x3000);
    assert_eq!(u, Err(RangeError { page: 2, error: PageError::NoMapping }));
}

#[test]
fn free_regions_are_found_entry_by_entry() {
    let mut root = space(Mode::Sv39, &[0x10_0000, 0x10_1000]);
    let base: u64 = 0xffff_ffff_7fff_e000;
    assert_eq!(
        root.map(VirtualAddress::new(base), PhysicalAddress::new(0x2000), rw(false), PageSize::Kilopage),
        Ok(())
    );
    let found = find_upperhalf_mem(&root, base);
    assert_eq!(found, vec![Region { addr: base + 0x1000, size: 0x1000 }]);
    assert_eq!(find_upperhalf_mem(&root, 0xffff_ffff_8000_0000), vec![]);
}

#[test]
fn entry_fields_sit_at_their_bits() {
    let mut e = PageTableEntry::empty();
    assert_eq!(e.0, 0);
    e.set_valid(true);
    assert_eq!(e.0, 1);
    e.set_perms(PagePermissions { read: true, write: false, execute: true, user: false, global: true, dealloc: true });
    assert_eq!(e.0, 1 | 2 | 8 | 32 | 256);
    e.set_swapped(true);
    assert_eq!(e.0, 1 | 2 | 8 | 32 | 256 | 512);
    e.set_phys(PhysicalAddress::new(0x1234_5678));
    assert_eq!(e.ppn(), 0x12345);
    assert_eq!(e.phys(), PhysicalAddress::new(0x1234_5000));
    assert_eq!(e.0, (0x12345 << 10) | 1 | 2 | 8 | 32 | 256 | 512);
    assert!(e.valid() && e.is_read() && !e.is_write() && e.is_exec());
    assert!(!e.user() && e.global() && !e.accessed() && !e.dirty() && e.dealloc() && e.swapped());
    e.set_ppn(0xffff_ffff_ffff_ffff);
    assert_eq!(e.ppn(), 0xfff_ffff_ffff);
}

#[test]
fn entries_are_read_as_the_hardware_reads_them() {
    let off = 0xffff_8000_0000_0000;
    assert_eq!(PageTableEntry(0).entry(off), Entry::Invalid);
    assert_eq!(PageTableEntry(0x3 << 10 | 0xe).entry(off), Entry::Invalid);
    assert_eq!(PageTableEntry(0x3 << 10 | 0x1).entry(off), Entry::Table(VirtualAddress::new(off + 0x3000)));
    assert_eq!(PageTableEntry(0x3 << 10 | 0x3).entry(off), Entry::Page(VirtualAddress::new(off + 0x3000)));
    assert_eq!(PageTableEntry(0x3 << 10 | 0x9).entry(0), Entry::Page(VirtualAddress::new(0x3000)));
}

#[test]
fn sizes_and_levels() {
    assert_eq!(PageSize::from_level(0), PageSize::NoPage);
    assert_eq!(PageSize::from_level(1), PageSize::Kilopage);
    assert_eq!(PageSize::from_level(5), PageSize::Petapage);
    assert_eq!(PageSize::Gigapage.to_level(), 3);
    assert_eq!(PageSize::Terapage.bytes(), 0x80_0000_0000);
    assert_eq!(PageSize::from_size(0x20_0000), PageSize::Megapage);
    assert_eq!(PageSize::from_size(0), PageSize::NoPage);
    assert_eq!(PageSize::from_size_ceil(1), PageSize::Kilopage);
    assert_eq!(PageSize::from_size_ceil(0x1000), PageSize::Kilopage);
    assert_eq!(PageSize::from_size_ceil(0x1001), PageSize::Megapage);
    assert_eq!(PageSize::from_size_ceil(0x4000_0001), PageSize::Terapage);
    assert_eq!(PageSize::from_size_ceil(0x1000_0000_0000), PageSize::Petapage);
    assert!(PageSize::Megapage.exceeds(&PageSize::Kilopage));
    assert!(!PageSize::NoPage.exceeds(&PageSize::NoPage));
    assert_eq!(Mode::Sv39.to_level(), 3);
    assert_eq!(Mode::Sv57.to_level(), 5);
    assert_eq!(Mode::Bare.max_size(), PageSize::NoPage);
    assert_eq!(Mode::Sv39.max_size(), PageSize::Kilopage);
    assert_eq!(Mode::Sv48.max_size(), PageSize::Terapage);
    assert_eq!(Mode::Sv48.higher_half(), 0xffff_8000_0000_0000);
    assert_eq!(Mode::Sv57.code(), 10);
}

#[test]
fn addresses_split_into_indices() {
    let v = VirtualAddress::new((5 << 48) | (4 << 39) | (3 << 30) | (2 << 21) | (1 << 12) | 0x123);
    assert_eq!(v.page_offset(), 0x123);
    assert_eq!((v.vpn(1), v.vpn(2), v.vpn(3), v.vpn(4), v.vpn(5)), (1, 2, 3, 4, 5));
    let mut w = VirtualAddress::new(0);
    w.set_vpn(0, 0x1ff);
    assert_eq!(w.addr(), 0x1ff << 12);
    w.set_vpn(4, 0x3ff);
    assert_eq!(w.addr(), (0x1ff << 48) | (0x1ff << 12));
    w.set_page_offset(0x1fff);
    assert_eq!(w.page_offset(), 0xfff);
    assert!(VirtualAddress::new(0x8000_0000_0000_0000).is_kern());
    assert!(!VirtualAddress::new(0x7fff_ffff_ffff_ffff).is_kern());
    assert_eq!(PhysicalAddress::new(0x2000).to_virt(0xffff_8000_0000_0000), VirtualAddress::new(0xffff_8000_0000_2000));
    assert_eq!(VirtualAddress::new(0xffff_8000_0000_2000).to_phys(0xffff_8000_0000_0000), PhysicalAddress::new(0x2000));
    assert_eq!(v.to_ptr(), v.addr());
    assert_eq!(w.to_mut_ptr(), w.addr());
}

#[test]
fn new_tables_lie_in_the_frames_taken_from_the_pool() {
    let mut root = space(Mode::Sv39, &[0x10_0000, 0x10_1000, 0x10_2000]);
    let vaddr = VirtualAddress::new((2 << 30) | (3 << 21) | (4 << 12));
    let before = root.path_tables(vaddr);
    assert_eq!(before.len(), 1);
    assert_eq!(before[0].frame, PhysicalAddress::new(0x8000_0000));
    assert_eq!(before[0].entries, vec![PageTableEntry(0); 512]);
    assert_eq!(root.map(vaddr, PhysicalAddress::new(0x2000), rw(false), PageSize::Kilopage), Ok(()));
    let path = root.path_tables(vaddr);
    let frames: Vec<u64> = path.iter().map(|t| t.frame.addr()).collect();
    assert_eq!(frames, vec![0x8000_0000, 0x10_2000, 0x10_1000]);
    assert_eq!(path[0].entries[2], PageTableEntry((0x102 << 10) | 1));
    assert_eq!(path[1].entries[3], PageTableEntry((0x101 << 10) | 1));
    assert_eq!(path[2].entries[4], PageTableEntry((0x2 << 10) | 0x7));
    for (level, table) in path.iter().enumerate() {
        assert_eq!(table.entries.len(), 512);
        assert_eq!(table.entries.iter().filter(|e| e.0 != 0).count(), 1, "table {}", level);
    }
    assert_eq!(root.spare_frames(), 1);
}

#[test]
fn tables_in_memory_are_taken_over() {
    let link = |frame: u64| ((frame >> 12) << 10) | 1;
    let leaf = |frame: u64| ((frame >> 12) << 10) | 0xf;
    let mut top = vec![0u64; 512];
    top[2] = link(0x5000);
    top[511] = leaf(0x4000_0000);
    let mut middle = vec![0u64; 512];
    middle[3] = link(0x6000);
    let mut bottom = vec![0u64; 512];
    bottom[4] = leaf(0x9000);
    bottom[5] = 0x200;
    let mut tables: BTreeMap<u64, Vec<u64>> = BTreeMap::new();
    tables.insert(0x1000, top.clone());
    tables.insert(0x5000, middle.clone());
    tables.insert(0x6000, bottom.clone());

    assert_eq!(links_of(&top), vec![PhysicalAddress::new(0x5000)]);
    assert_eq!(links_of(&bottom), vec![]);

    let mut root = RootTable::adopt(&tables, PhysicalAddress::new(0x1000), Mode::Sv39, 0).unwrap();
    let mapped = VirtualAddress::new((2 << 30) | (3 << 21) | (4 << 12) | 0x123);
    assert_eq!(root.read(mapped), (Entry::Page(VirtualAddress::new(0x9000)), 1));
    assert_eq!(root.read(VirtualAddress::new((2 << 30) | (3 << 21) | (5 << 12))), (Entry::Invalid, 1));
    assert!(root.get_entry(VirtualAddress::new((2 << 30) | (3 << 21) | (5 << 12))).swapped());
    assert_eq!(root.read(VirtualAddress::new((2 << 30) | (4 << 21))), (Entry::Invalid, 2));
    assert_eq!(root.read(VirtualAddress::new(511 << 30)), (Entry::Page(VirtualAddress::new(0x4000_0000)), 3));
    let frames: Vec<u64> = root.path_tables(mapped).iter().map(|t| t.frame.addr()).collect();
    assert_eq!(frames, vec![0x1000, 0x5000, 0x6000]);
    assert_eq!(root.unmap(mapped, PageSize::Kilopage), Ok(None));

    assert!(RootTable::adopt(&tables, PhysicalAddress::new(0x1000), Mode::Bare, 0).is_none());
    assert!(RootTable::adopt(&tables, PhysicalAddress::new(0x2000), Mode::Sv39, 0).is_none());
    tables.remove(&0x6000);
    assert!(RootTable::adopt(&tables, PhysicalAddress::new(0x1000), Mode::Sv39, 0).is_none());
    tables.insert(0x6000, vec![0u64; 511]);
    assert!(RootTable::adopt(&tables, PhysicalAddress::new(0x1000), Mode::Sv39, 0).is_none());
    let mut deep = vec![0u64; 512];
    deep[0] = link(0x7000);
    tables.insert(0x6000, deep);
    tables.insert(0x7000, vec![0u64; 512]);
    assert!(RootTable::adopt(&tables, PhysicalAddress::new(0x1000), Mode::Sv39, 0).is_none());
    assert!(RootTable::adopt(&tables, PhysicalAddress::new(0x1000), Mode::Sv48, 0).is_some());
}
