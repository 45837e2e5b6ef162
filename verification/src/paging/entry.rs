//! The format of one page-table entry.
//!
//! Bit 0 says whether the entry is valid; bits 1 to 3 allow reading,
//! writing and executing; bits 4 to 7 are the user, global, accessed and
//! dirty flags; bits 8 and 9 belong to software (release the frame on
//! unmap, page is swapped out); bits 10 to 53 hold the frame number.
use vstd::prelude::*;
use crate::bits::{
    bit, field, get_bit, get_field, lemma_field_bound, lemma_field_kept, lemma_field_written,
    low_mask, set_bit, set_field, with_bit, with_field,
};
use crate::mem::{PhysicalAddress, VirtualAddress};

verus! {

/// First address that no frame number can name.
pub const PHYS_LIMIT: u64 = 0x100_0000_0000_0000;

/// What a mapping allows, and whether unmapping releases its frame.
#[derive(Clone, Copy, Debug, PartialEq, Eq, Structural)]
pub struct PagePermissions {
    pub read: bool,
    pub write: bool,
    pub execute: bool,
    pub user: bool,
    pub global: bool,
    pub dealloc: bool,
}

impl PagePermissions {
    /// Whether an entry with these permissions is a mapping and not a link
    /// to a further table.
    pub open spec fn is_leaf(self) -> bool {
        self.read || self.write || self.execute
    }

    /// Read and write for the kernel alone.
    pub fn k_write() -> (r: Self)
        ensures
            r == (PagePermissions {
                read: true,
                write: true,
                execute: false,
                user: false,
                global: false,
                dealloc: false,
            }),
    {
        PagePermissions {
            read: true,
            write: true,
            execute: false,
            user: false,
            global: false,
            dealloc: false,
        }
    }

    /// Read and write for user code.
    pub fn u_write() -> (r: Self)
        ensures
            r == (PagePermissions {
                read: true,
                write: true,
                execute: false,
                user: true,
                global: false,
                dealloc: false,
            }),
    {
        PagePermissions {
            read: true,
            write: true,
            execute: false,
            user: true,
            global: false,
            dealloc: false,
        }
    }
}

/// What an entry is, as the hardware reads it.
#[derive(Clone, Copy, Debug, PartialEq, Eq, Structural)]
pub enum EntryKind {
    Invalid,
    Table,
    Page,
}

/// What an entry is, with the place in the direct map that it names.
#[derive(Clone, Copy, Debug, PartialEq, Eq, Structural)]
pub enum Entry {
    Page(VirtualAddress),
    Table(VirtualAddress),
    Invalid,
}

/// One entry of a page table.
#[derive(Clone, Copy, Debug, PartialEq, Eq, Structural)]
pub struct PageTableEntry(pub u64);

impl PageTableEntry {
    pub open spec fn spec_valid(self) -> bool {
        bit(self.0, 0)
    }

    pub open spec fn spec_read(self) -> bool {
        bit(self.0, 1)
    }

    pub open spec fn spec_write(self) -> bool {
        bit(self.0, 2)
    }

    pub open spec fn spec_exec(self) -> bool {
        bit(self.0, 3)
    }

    pub open spec fn spec_user(self) -> bool {
        bit(self.0, 4)
    }

    pub open spec fn spec_global(self) -> bool {
        bit(self.0, 5)
    }

    pub open spec fn spec_accessed(self) -> bool {
        bit(self.0, 6)
    }

    pub open spec fn spec_dirty(self) -> bool {
        bit(self.0, 7)
    }

    pub open spec fn spec_dealloc(self) -> bool {
        bit(self.0, 8)
    }

    pub open spec fn spec_swapped(self) -> bool {
        bit(self.0, 9)
    }

    pub open spec fn spec_ppn(self) -> u64 {
        field(self.0, 10, 44)
    }

    /// The physical address that the frame number stands for.
    pub open spec fn spec_phys(self) -> u64 {
        (self.spec_ppn() * 0x1000) as u64
    }

    /// The permissions that the entry's flags spell.
    pub open spec fn spec_perms(self) -> PagePermissions {
        PagePermissions {
            read: self.spec_read(),
            write: self.spec_write(),
            execute: self.spec_exec(),
            user: self.spec_user(),
            global: self.spec_global(),
            dealloc: self.spec_dealloc(),
        }
    }

    /// How the hardware reads the entry: not valid, then nothing is there;
    /// valid with a permission, then a mapping; valid without, then a link
    /// to the next table.
    pub open spec fn kind(self) -> EntryKind {
        if !self.spec_valid() {
            EntryKind::Invalid
        } else if self.spec_read() || self.spec_write() || self.spec_exec() {
            EntryKind::Page
        } else {
            EntryKind::Table
        }
    }

    /// The entry with its six permission flags replaced.
    pub open spec fn with_perms(self, perms: PagePermissions) -> PageTableEntry {
        PageTableEntry(
            with_bit(
                with_bit(
                    with_bit(
                        with_bit(
                            with_bit(with_bit(self.0, 1, perms.read), 2, perms.write),
                            3,
                            perms.execute,
                        ),
                        4,
                        perms.user,
                    ),
                    5,
                    perms.global,
                ),
                8,
                perms.dealloc,
            ),
        )
    }

    /// The entry with its frame number naming `paddr`.
    pub open spec fn with_phys(self, paddr: u64) -> PageTableEntry {
        PageTableEntry(with_field(self.0, 10, 44, paddr >> 12))
    }

    pub open spec fn with_valid(self, val: bool) -> PageTableEntry {
        PageTableEntry(with_bit(self.0, 0, val))
    }

    pub open spec fn with_swapped(self, val: bool) -> PageTableEntry {
        PageTableEntry(with_bit(self.0, 9, val))
    }

    /// The valid entry that maps the frame at `paddr` with `perms`.
    pub open spec fn leaf(paddr: u64, perms: PagePermissions) -> PageTableEntry {
        PageTableEntry(0).with_perms(perms).with_phys(paddr).with_valid(true)
    }

    /// The valid entry that links to the table at `paddr`.
    pub open spec fn link(paddr: u64) -> PageTableEntry {
        PageTableEntry(0).with_phys(paddr).with_valid(true)
    }

    /// What the entry is, with the place that `hhdm_offset` gives its
    /// frame. The place is counted in 64 bits: a sum that does not fit
    /// wraps round.
    pub open spec fn spec_entry(self, hhdm_offset: u64) -> Entry {
        match self.kind() {
            EntryKind::Invalid => Entry::Invalid,
            EntryKind::Page => Entry::Page(
                VirtualAddress(self.spec_phys().wrapping_add(hhdm_offset)),
            ),
            EntryKind::Table => Entry::Table(
                VirtualAddress(self.spec_phys().wrapping_add(hhdm_offset)),
            ),
        }
    }

    /// The entry that maps nothing and holds nothing.
    pub fn empty() -> (r: Self)
        ensures
            r.0 == 0,
    {
        PageTableEntry(0)
    }

    pub fn valid(&self) -> (r: bool)
        ensures
            r == self.spec_valid(),
    {
        get_bit(self.0, 0)
    }

    pub fn set_valid(&mut self, val: bool)
        ensures
            *final(self) == old(self).with_valid(val),
    {
        self.0 = set_bit(self.0, 0, val);
    }

    pub fn is_read(&self) -> (r: bool)
        ensures
            r == self.spec_read(),
    {
        get_bit(self.0, 1)
    }

    pub fn is_write(&self) -> (r: bool)
        ensures
            r == self.spec_write(),
    {
        get_bit(self.0, 2)
    }

    pub fn is_exec(&self) -> (r: bool)
        ensures
            r == self.spec_exec(),
    {
        get_bit(self.0, 3)
    }

    pub fn user(&self) -> (r: bool)
        ensures
            r == self.spec_user(),
    {
        get_bit(self.0, 4)
    }

    pub fn global(&self) -> (r: bool)
        ensures
            r == self.spec_global(),
    {
        get_bit(self.0, 5)
    }

    pub fn accessed(&self) -> (r: bool)
        ensures
            r == self.spec_accessed(),
    {
        get_bit(self.0, 6)
    }

    pub fn dirty(&self) -> (r: bool)
        ensures
            r == self.spec_dirty(),
    {
        get_bit(self.0, 7)
    }

    pub fn dealloc(&self) -> (r: bool)
        ensures
            r == self.spec_dealloc(),
    {
        get_bit(self.0, 8)
    }

    pub fn swapped(&self) -> (r: bool)
        ensures
            r == self.spec_swapped(),
    {
        get_bit(self.0, 9)
    }

    pub fn set_swapped(&mut self, val: bool)
        ensures
            *final(self) == old(self).with_swapped(val),
    {
        self.0 = set_bit(self.0, 9, val);
    }

    pub fn ppn(&self) -> (r: u64)
        ensures
            r == self.spec_ppn(),
            r < 0x1000_0000_0000,
    {
        proof {
            lemma_field_bound(self.0, 10, 44);
            assert(low_mask(44) == 0xfff_ffff_ffff) by (bit_vector);
        }
        get_field(self.0, 10, 44)
    }

    pub fn set_ppn(&mut self, val: u64)
        ensures
            final(self).0 == with_field(old(self).0, 10, 44, val),
    {
        self.0 = set_field(self.0, 10, 44, val);
    }

    /// Replaces the six permission flags and leaves the rest of the entry.
    pub fn set_perms(&mut self, perms: PagePermissions)
        ensures
            *final(self) == old(self).with_perms(perms),
            final(self).spec_perms() == perms,
            final(self).spec_valid() == old(self).spec_valid(),
            final(self).spec_swapped() == old(self).spec_swapped(),
            final(self).spec_accessed() == old(self).spec_accessed(),
            final(self).spec_dirty() == old(self).spec_dirty(),
            final(self).spec_ppn() == old(self).spec_ppn(),
    {
        let ghost before = *self;
        self.0 = set_bit(self.0, 1, perms.read);
        self.0 = set_bit(self.0, 2, perms.write);
        self.0 = set_bit(self.0, 3, perms.execute);
        self.0 = set_bit(self.0, 4, perms.user);
        self.0 = set_bit(self.0, 5, perms.global);
        self.0 = set_bit(self.0, 8, perms.dealloc);
        proof {
            lemma_with_perms(before, perms);
        }
    }

    /// Points the entry at the frame that holds `val`; the offset inside
    /// the frame is dropped.
    pub fn set_phys(&mut self, val: PhysicalAddress)
        ensures
            *final(self) == old(self).with_phys(val.0),
    {
        self.set_ppn(val.addr() >> 12);
    }

    /// The physical address of the frame that the entry names.
    pub fn phys(&self) -> (r: PhysicalAddress)
        ensures
            r.0 == self.spec_phys(),
            r.0 < PHYS_LIMIT,
            r.0 % 0x1000 == 0,
    {
        let n: u64 = self.ppn();
        assert(n * 0x1000 == n << 12 && (n << 12) % 0x1000 == 0) by (bit_vector)
            requires
                n < 0x1000_0000_0000,
        ;
        PhysicalAddress::new(n << 12)
    }

    /// Classifies the entry, and gives the place of its frame in the direct
    /// map that starts at `hhdm_offset`.
    pub fn entry(&self, hhdm_offset: u64) -> (r: Entry)
        ensures
            r == self.spec_entry(hhdm_offset),
            (r is Invalid) == (self.kind() == EntryKind::Invalid),
            (r is Page) == (self.kind() == EntryKind::Page),
            (r is Table) == (self.kind() == EntryKind::Table),
    {
        let phys = self.phys();
        if self.valid() {
            let addr: u64 = phys.addr().wrapping_add(hhdm_offset);
            if self.is_read() || self.is_write() || self.is_exec() {
                Entry::Page(VirtualAddress::new(addr))
            } else {
                Entry::Table(VirtualAddress::new(addr))
            }
        } else {
            Entry::Invalid
        }
    }
}

/// The single-bit fields of a word read back from `with_perms` as the
/// permissions that were written, and every other field is as before.
pub proof fn lemma_with_perms(e: PageTableEntry, perms: PagePermissions)
    ensures
        e.with_perms(perms).spec_perms() == perms,
        e.with_perms(perms).spec_valid() == e.spec_valid(),
        e.with_perms(perms).spec_swapped() == e.spec_swapped(),
        e.with_perms(perms).spec_accessed() == e.spec_accessed(),
        e.with_perms(perms).spec_dirty() == e.spec_dirty(),
        e.with_perms(perms).spec_ppn() == e.spec_ppn(),
{
    let b = |v: bool| -> u64 { if v { 1u64 } else { 0u64 } };
    let w1 = with_bit(e.0, 1, perms.read);
    let w2 = with_bit(w1, 2, perms.write);
    let w3 = with_bit(w2, 3, perms.execute);
    let w4 = with_bit(w3, 4, perms.user);
    let w5 = with_bit(w4, 5, perms.global);
    let w6 = with_bit(w5, 8, perms.dealloc);
    assert(e.with_perms(perms).0 == w6);
    assert(1u64 & low_mask(1) == 1 && 0u64 & low_mask(1) == 0) by (bit_vector);
    lemma_written_bit(e.0, 1, perms.read);
    lemma_written_bit(w1, 2, perms.write);
    lemma_written_bit(w2, 3, perms.execute);
    lemma_written_bit(w3, 4, perms.user);
    lemma_written_bit(w4, 5, perms.global);
    lemma_written_bit(w5, 8, perms.dealloc);
    lemma_kept_all(e.0, 1, perms.read);
    lemma_kept_all(w1, 2, perms.write);
    lemma_kept_all(w2, 3, perms.execute);
    lemma_kept_all(w3, 4, perms.user);
    lemma_kept_all(w4, 5, perms.global);
    lemma_kept_all(w5, 8, perms.dealloc);
}

/// A bit that was just written reads back as written.
pub proof fn lemma_written_bit(raw: u64, index: u64, val: bool)
    requires
        index < 64,
    ensures
        bit(with_bit(raw, index, val), index) == val,
{
    let v: u64 = if val {
        1
    } else {
        0
    };
    lemma_field_written(raw, index, 1, v);
    assert(1u64 & low_mask(1) == 1 && 0u64 & low_mask(1) == 0) by (bit_vector);
}

/// Writing one of the flag bits leaves the other flag bits and the frame
/// number as they were.
pub proof fn lemma_kept_all(raw: u64, index: u64, val: bool)
    requires
        index < 10,
    ensures
        forall|j: u64| j < 10 && j != index ==> bit(#[trigger] with_bit(raw, index, val), j) == bit(raw, j),
        field(with_bit(raw, index, val), 10, 44) == field(raw, 10, 44),
{
    let v: u64 = if val {
        1
    } else {
        0
    };
    assert forall|j: u64| j < 10 && j != index implies bit(with_bit(raw, index, val), j) == bit(
        raw,
        j,
    ) by {
        lemma_field_kept(raw, index, 1, v, j, 1);
    }
    lemma_field_kept(raw, index, 1, v, 10, 44);
}

/// Every flag of an entry, in one value.
pub open spec fn flags(e: PageTableEntry) -> Seq<bool> {
    seq![
        e.spec_valid(),
        e.spec_read(),
        e.spec_write(),
        e.spec_exec(),
        e.spec_user(),
        e.spec_global(),
        e.spec_accessed(),
        e.spec_dirty(),
        e.spec_dealloc(),
        e.spec_swapped(),
    ]
}

/// The entry of all zeroes is invalid, carries no flag and names frame 0.
pub proof fn lemma_empty_entry()
    ensures
        PageTableEntry(0).kind() == EntryKind::Invalid,
        !PageTableEntry(0).spec_valid(),
        !PageTableEntry(0).spec_swapped(),
        !PageTableEntry(0).spec_read(),
        PageTableEntry(0).spec_ppn() == 0,
{
    assert(forall|j: u64| j < 64 ==> (#[trigger] (0u64 >> j)) & !(0xffff_ffff_ffff_ffffu64 << 1) == 0)
        by (bit_vector);
    assert(0u64 >> 0 == 0u64 >> 0u64);
    assert((0u64 >> 10) & !(0xffff_ffff_ffff_ffffu64 << 44) == 0) by (bit_vector);
}

/// Changing the valid bit changes nothing else.
pub proof fn lemma_with_valid(e: PageTableEntry, val: bool)
    ensures
        e.with_valid(val).spec_valid() == val,
        e.with_valid(val).spec_perms() == e.spec_perms(),
        e.with_valid(val).spec_swapped() == e.spec_swapped(),
        e.with_valid(val).spec_accessed() == e.spec_accessed(),
        e.with_valid(val).spec_dirty() == e.spec_dirty(),
        e.with_valid(val).spec_ppn() == e.spec_ppn(),
        e.with_valid(val).spec_phys() == e.spec_phys(),
        !val ==> e.with_valid(val).kind() == EntryKind::Invalid,
{
    lemma_written_bit(e.0, 0, val);
    lemma_kept_all(e.0, 0, val);
}

/// Changing the swapped bit changes nothing else.
pub proof fn lemma_with_swapped(e: PageTableEntry, val: bool)
    ensures
        e.with_swapped(val).spec_swapped() == val,
        e.with_swapped(val).spec_valid() == e.spec_valid(),
        e.with_swapped(val).spec_perms() == e.spec_perms(),
        e.with_swapped(val).spec_accessed() == e.spec_accessed(),
        e.with_swapped(val).spec_dirty() == e.spec_dirty(),
        e.with_swapped(val).spec_ppn() == e.spec_ppn(),
        e.with_swapped(val).spec_phys() == e.spec_phys(),
        e.with_swapped(val).kind() == e.kind(),
{
    lemma_written_bit(e.0, 9, val);
    lemma_kept_all(e.0, 9, val);
}

/// Changing the frame number changes no flag, and a frame's own address
/// reads back as it was written.
pub proof fn lemma_with_phys(e: PageTableEntry, paddr: u64)
    ensures
        flags(e.with_phys(paddr)) == flags(e),
        e.with_phys(paddr).spec_perms() == e.spec_perms(),
        e.with_phys(paddr).kind() == e.kind(),
        paddr % 0x1000 == 0 && paddr < PHYS_LIMIT ==> e.with_phys(paddr).spec_phys() == paddr,
{
    let v: u64 = paddr >> 12;
    assert forall|j: u64| j < 10 implies bit(with_field(e.0, 10, 44, v), j) == bit(e.0, j) by {
        lemma_field_kept(e.0, 10, 44, v, j, 1);
    }
    lemma_field_written(e.0, 10, 44, v);
    if paddr % 0x1000 == 0 && paddr < PHYS_LIMIT {
        assert(((paddr >> 12) & !(0xffff_ffff_ffff_ffffu64 << 44)) * 0x1000 == paddr) by (bit_vector)
            requires
                paddr % 0x1000 == 0,
                paddr < 0x100_0000_0000_0000u64,
        ;
    }
}

/// What `leaf` builds: a valid entry with exactly the permissions given,
/// not swapped, naming the frame given.
pub proof fn lemma_leaf(paddr: u64, perms: PagePermissions)
    ensures
        PageTableEntry::leaf(paddr, perms).spec_valid(),
        PageTableEntry::leaf(paddr, perms).spec_perms() == perms,
        !PageTableEntry::leaf(paddr, perms).spec_swapped(),
        !PageTableEntry::leaf(paddr, perms).spec_accessed(),
        !PageTableEntry::leaf(paddr, perms).spec_dirty(),
        perms.is_leaf() ==> PageTableEntry::leaf(paddr, perms).kind() == EntryKind::Page,
        paddr % 0x1000 == 0 && paddr < PHYS_LIMIT ==> PageTableEntry::leaf(paddr, perms).spec_phys()
            == paddr,
{
    let e0 = PageTableEntry(0);
    let e1 = e0.with_perms(perms);
    let e2 = e1.with_phys(paddr);
    lemma_empty_entry();
    assert(!e0.spec_accessed() && !e0.spec_dirty()) by {
        assert(forall|j: u64| j < 64 ==> (#[trigger] (0u64 >> j)) & !(0xffff_ffff_ffff_ffffu64 << 1) == 0)
            by (bit_vector);
    }
    lemma_with_perms(e0, perms);
    lemma_with_phys(e1, paddr);
    assert(flags(e2) == flags(e1));
    assert(flags(e2)[6] == flags(e1)[6] && flags(e2)[7] == flags(e1)[7] && flags(e2)[9] == flags(
        e1,
    )[9]);
    lemma_with_valid(e2, true);
}

/// What `link` builds: a valid entry without permissions, which the
/// hardware reads as a pointer to the table at the frame given.
pub proof fn lemma_link(paddr: u64)
    ensures
        PageTableEntry::link(paddr).kind() == EntryKind::Table,
        !PageTableEntry::link(paddr).spec_swapped(),
        paddr % 0x1000 == 0 && paddr < PHYS_LIMIT ==> PageTableEntry::link(paddr).spec_phys()
            == paddr,
{
    let e0 = PageTableEntry(0);
    let e1 = e0.with_phys(paddr);
    lemma_empty_entry();
    assert(!e0.spec_write() && !e0.spec_exec()) by {
        assert(forall|j: u64| j < 64 ==> (#[trigger] (0u64 >> j)) & !(0xffff_ffff_ffff_ffffu64 << 1) == 0)
            by (bit_vector);
    }
    lemma_with_phys(e0, paddr);
    assert(flags(e1)[9] == flags(e0)[9]);
    lemma_with_valid(e1, true);
}


} // verus!
