//! An address space: the top table, the paging mode, and the frames set
//! aside for tables yet to come.
use std::collections::BTreeMap;
use vstd::prelude::*;
use crate::paging::adopt::readable;
use crate::dev::blockdev::disk::DiskError;
use crate::mem::{PhysicalAddress, VirtualAddress};
use crate::paging::entry::{
    lemma_leaf, Entry, EntryKind, PagePermissions, PageTableEntry, PHYS_LIMIT,
};
use crate::paging::size::{Mode, PageSize};
use crate::paging::table::{
    agree_down, frames_of, frames_usable, images_of, lemma_empty_table, lemma_walk_level, placed,
    taken, PageTable, TableImage, Walk,
};

verus! {

/// Why a change to the page table was refused.
#[derive(Clone, Copy, Debug, PartialEq, Eq, Structural)]
pub enum PageError {
    /// The address is mapped already, by the entry given.
    MappingExists(PageTableEntry),
    /// Nothing is mapped at the address.
    NoMapping,
    /// A page is mapped at the address, but not one of the size given.
    UnmappingSizeMismatch,
    /// The paging mode has no pages of the size given.
    InvalidSize,
    /// A table was needed and no frame was left for it.
    OutOfMemory,
    /// The page is on disk already.
    SwapRecordExists,
    /// The page is not on disk.
    NoSwapRecord,
    /// The partition is not the one that the page goes to or lies on.
    NoSwapPartition,
    /// The frame cannot be used: its bytes are not at hand, or it is taken,
    /// or no entry can name it.
    BadFrame,
    /// The partition refused the transfer.
    Disk(DiskError),
}

/// The top of an address space.
pub struct RootTable {
    table: PageTable,
    addr: u64,
    mode: Mode,
    hhdm_offset: u64,
    spare: Vec<u64>,
}

impl RootTable {
    /// The top table with all that hangs below it.
    pub closed spec fn tree(self) -> PageTable {
        self.table
    }

    /// The physical address of the top table.
    pub closed spec fn spec_addr(self) -> u64 {
        self.addr
    }

    pub closed spec fn spec_mode(self) -> Mode {
        self.mode
    }

    /// The offset of the direct map.
    pub closed spec fn spec_hhdm(self) -> u64 {
        self.hhdm_offset
    }

    /// The frames set aside for new tables; the next one to be used is the
    /// last.
    pub closed spec fn spare(self) -> Seq<u64> {
        self.spare@
    }

    /// Number of levels of the table tree.
    pub open spec fn levels(self) -> nat {
        self.spec_mode().spec_level()
    }

    /// Whether the address space is in order: the mode is one the
    /// architecture defines, the tables form a well-formed tree of as many
    /// levels as the mode has, and the frames set aside can each hold a
    /// table.
    pub open spec fn wf(self) -> bool {
        &&& self.spec_mode().defined()
        &&& self.levels() >= 1 ==> self.tree().wf(self.levels())
        &&& frames_usable(self.spare())
    }

    /// The end of the walk for `vaddr` from the top table.
    pub open spec fn lookup(self, vaddr: VirtualAddress) -> Walk {
        self.tree().walk(vaddr, self.levels())
    }

    /// The frames of the tables that the walk for `vaddr` passes, from the
    /// top table down.
    pub open spec fn table_frames(self, vaddr: VirtualAddress) -> Seq<u64> {
        frames_of(self.tree().path(vaddr, self.levels(), self.spec_addr()))
    }

    /// Whether this address space is `before` with `entry` put at level
    /// `target` on the path of `vaddr`: every walk ends as `placed` says;
    /// the tables that were linked in on the way lie in the frames taken
    /// from the pool; and mode, root and direct map are the same.
    pub open spec fn is_put(
        self,
        before: RootTable,
        vaddr: VirtualAddress,
        entry: PageTableEntry,
        target: nat,
    ) -> bool {
        &&& self.spec_mode() == before.spec_mode()
        &&& self.spec_addr() == before.spec_addr()
        &&& self.spec_hhdm() == before.spec_hhdm()
        &&& self.spare() == before.spare().take(
            before.spare().len() - (before.lookup(vaddr).level - target),
        )
        &&& self.table_frames(vaddr) == before.table_frames(vaddr) + taken(
            before.spare(),
            before.lookup(vaddr).level - target,
        )
        &&& forall|other: VirtualAddress| #[trigger]
            self.lookup(other) == placed(
                before.lookup(other),
                agree_down(other, vaddr, self.levels(), target),
                before.lookup(vaddr).level,
                target,
                entry,
            )
    }

    /// Whether every address that `before` maps is mapped the same way
    /// here.
    pub open spec fn keeps_mappings(self, before: RootTable) -> bool {
        &&& self.spec_mode() == before.spec_mode()
        &&& self.spec_addr() == before.spec_addr()
        &&& self.spec_hhdm() == before.spec_hhdm()
        &&& forall|other: VirtualAddress|
            before.lookup(other).entry.kind() == EntryKind::Page ==> #[trigger] self.lookup(other)
                == before.lookup(other)
    }

    /// What `map` answers.
    pub open spec fn spec_map_result(self, vaddr: VirtualAddress, size: PageSize) -> Result<
        (),
        PageError,
    > {
        if size.spec_level() > self.spec_mode().spec_max_size().spec_level() {
            Err(PageError::InvalidSize)
        } else if size == PageSize::NoPage {
            Ok(())
        } else if self.lookup(vaddr).entry.kind() == EntryKind::Page {
            Err(PageError::MappingExists(self.lookup(vaddr).entry))
        } else if self.spare().len() < self.lookup(vaddr).level - size.spec_level() {
            Err(PageError::OutOfMemory)
        } else {
            Ok(())
        }
    }

    /// What `unmap` answers.
    pub open spec fn spec_unmap_result(self, vaddr: VirtualAddress, size: PageSize) -> Result<
        Option<PhysicalAddress>,
        PageError,
    > {
        let found = self.lookup(vaddr);
        if size.spec_level() > self.spec_mode().spec_max_size().spec_level() {
            Err(PageError::InvalidSize)
        } else if size == PageSize::NoPage {
            Ok(None)
        } else if found.entry.kind() != EntryKind::Page {
            Err(PageError::NoMapping)
        } else if found.level != size.spec_level() {
            Err(PageError::UnmappingSizeMismatch)
        } else if found.entry.spec_dealloc() {
            Ok(Some(PhysicalAddress(found.entry.spec_phys())))
        } else {
            Ok(None)
        }
    }

    /// An address space in which nothing is mapped, with its top table at
    /// `addr` and the direct map at `hhdm_offset`. There is none where the
    /// mode is not defined, and where `addr` is no frame that an entry can
    /// name.
    pub fn new(addr: PhysicalAddress, mode: Mode, hhdm_offset: u64) -> (r: Option<Self>)
        ensures
            r is Some <==> mode.defined() && addr.0 % 0x1000 == 0 && addr.0 < PHYS_LIMIT,
            r is Some ==> {
                let s = r->0;
                &&& s.wf()
                &&& s.spec_addr() == addr.0
                &&& s.spec_mode() == mode
                &&& s.spec_hhdm() == hhdm_offset
                &&& s.spare().len() == 0
                &&& s.tree().is_empty()
            },
    {
        let sv64 = match mode {
            Mode::Sv64 => true,
            _ => false,
        };
        if sv64 || addr.0 % 0x1000 != 0 || addr.0 >= PHYS_LIMIT {
            return None;
        }
        let table = PageTable::new();
        proof {
            if mode.spec_level() >= 1 {
                lemma_empty_table(table, mode.spec_level());
            }
        }
        Some(RootTable { table, addr: addr.0, mode, hhdm_offset, spare: Vec::new() })
    }

    /// The address space whose tables are in memory already, with the top
    /// table at `addr`. `tables` holds the entries of every table, by the
    /// address of its frame. There is none where the mode is `Bare` or not
    /// defined, where `addr` is no frame that an entry can name, and where
    /// the tables from the top down are not all there or a table of the
    /// lowest level links on.
    pub fn adopt(
        tables: &BTreeMap<u64, Vec<u64>>,
        addr: PhysicalAddress,
        mode: Mode,
        hhdm_offset: u64,
    ) -> (r: Option<Self>)
        ensures
            r is Some <==> mode.defined() && mode.spec_level() >= 1 && addr.0 % 0x1000 == 0
                && addr.0 < PHYS_LIMIT && readable(tables@, addr.0, mode.spec_level()),
            r is Some ==> {
                let s = r->0;
                &&& s.wf()
                &&& s.spec_addr() == addr.0
                &&& s.spec_mode() == mode
                &&& s.spec_hhdm() == hhdm_offset
                &&& s.spare().len() == 0
                &&& s.tree().mirrors(tables@, addr.0, mode.spec_level())
            },
    {
        let level: usize = match mode {
            Mode::Sv39 => 3,
            Mode::Sv48 => 4,
            Mode::Sv57 => 5,
            _ => {
                return None;
            },
        };
        if addr.0 % 0x1000 != 0 || addr.0 >= PHYS_LIMIT {
            return None;
        }
        match PageTable::from_memory(tables, addr.0, level) {
            Some(table) => Some(
                RootTable { table, addr: addr.0, mode, hhdm_offset, spare: Vec::new() },
            ),
            None => None,
        }
    }

    /// The physical address of the top table.
    pub fn addr(&self) -> (r: PhysicalAddress)
        ensures
            r.0 == self.spec_addr(),
    {
        PhysicalAddress::new(self.addr)
    }

    pub fn mode(&self) -> (r: Mode)
        ensures
            r == self.spec_mode(),
    {
        self.mode
    }

    /// The offset of the direct map.
    pub fn hhdm_offset(&self) -> (r: u64)
        ensures
            r == self.spec_hhdm(),
    {
        self.hhdm_offset
    }

    /// Number of frames set aside for new tables.
    pub fn spare_frames(&self) -> (r: usize)
        ensures
            r == self.spare().len(),
    {
        self.spare.len()
    }

    /// Sets `frame` aside for a table yet to come. A frame that does not
    /// start on a 4 KiB boundary, or that no entry can name, is refused.
    pub fn add_table_frame(&mut self, frame: PhysicalAddress) -> (r: bool)
        requires
            old(self).wf(),
        ensures
            final(self).wf(),
            r == (frame.0 % 0x1000 == 0 && frame.0 < PHYS_LIMIT),
            r ==> final(self).spare() == old(self).spare().push(frame.0),
            !r ==> final(self).spare() == old(self).spare(),
            final(self).tree() == old(self).tree(),
            final(self).spec_mode() == old(self).spec_mode(),
            final(self).spec_addr() == old(self).spec_addr(),
            final(self).spec_hhdm() == old(self).spec_hhdm(),
    {
        if frame.0 % 0x1000 != 0 || frame.0 >= PHYS_LIMIT {
            return false;
        }
        self.spare.push(frame.0);
        true
    }

    /// Takes back the frame that would be used next for a table.
    pub fn take_table_frame(&mut self) -> (r: Option<PhysicalAddress>)
        requires
            old(self).wf(),
        ensures
            final(self).wf(),
            old(self).spare().len() == 0 ==> r is None && final(self).spare() == old(self).spare(),
            old(self).spare().len() > 0 ==> r == Some(PhysicalAddress(old(self).spare().last()))
                && final(self).spare() == old(self).spare().drop_last(),
            final(self).tree() == old(self).tree(),
            final(self).spec_mode() == old(self).spec_mode(),
            final(self).spec_addr() == old(self).spec_addr(),
            final(self).spec_hhdm() == old(self).spec_hhdm(),
    {
        match self.spare.pop() {
            Some(f) => Some(PhysicalAddress::new(f)),
            None => None,
        }
    }

    /// Walks down for `vaddr` and returns the first entry that is no link.
    pub fn get_entry(&self, vaddr: VirtualAddress) -> (r: PageTableEntry)
        requires
            self.wf(),
            self.levels() >= 1,
        ensures
            r == self.lookup(vaddr).entry,
            r.kind() != EntryKind::Table,
    {
        let level = self.mode.to_level();
        self.table.find(vaddr, level).0
    }

    /// Walks down for `vaddr` and returns what the first entry that is no
    /// link is, with the level at which it was found.
    pub fn read(&self, vaddr: VirtualAddress) -> (r: (Entry, usize))
        requires
            self.wf(),
            self.levels() >= 1,
        ensures
            r.0 == self.lookup(vaddr).entry.spec_entry(self.spec_hhdm()),
            r.1 == self.lookup(vaddr).level,
            1 <= r.1 <= self.levels(),
            !(r.0 is Table),
            (r.0 is Page) == (self.lookup(vaddr).entry.kind() == EntryKind::Page),
    {
        let level = self.mode.to_level();
        let found = self.table.find(vaddr, level);
        (found.0.entry(self.hhdm_offset), found.1)
    }

    /// The tables that the walk for `vaddr` passes, from the top table
    /// down, each with the frame in which it is to lie. This is what has to
    /// be in memory for the hardware to walk as `lookup` does.
    pub fn path_tables(&self, vaddr: VirtualAddress) -> (r: Vec<TableImage>)
        requires
            self.wf(),
            self.levels() >= 1,
        ensures
            images_of(r@) == self.tree().path(vaddr, self.levels(), self.spec_addr()),
    {
        let mut out: Vec<TableImage> = Vec::new();
        let level = self.mode.to_level();
        self.table.collect_path(vaddr, level, PhysicalAddress::new(self.addr), &mut out);
        proof {
            assert(images_of(Seq::<TableImage>::empty()) + self.tree().path(
                vaddr,
                self.levels(),
                self.spec_addr(),
            ) =~= self.tree().path(vaddr, self.levels(), self.spec_addr()));
        }
        out
    }

    /// Puts `entry` in place of the entry at which the walk for `vaddr`
    /// ends. A link cannot be put this way.
    pub fn set_entry(&mut self, vaddr: VirtualAddress, entry: PageTableEntry)
        requires
            old(self).wf(),
            old(self).levels() >= 1,
            entry.kind() != EntryKind::Table,
        ensures
            final(self).wf(),
            final(self).is_put(*old(self), vaddr, entry, old(self).lookup(vaddr).level),
    {
        let level = self.mode.to_level();
        let found = self.table.find(vaddr, level);
        proof {
            assert(self.spare@.take(self.spare@.len() as int) =~= self.spare@);
        }
        self.table.install(vaddr, level, found.1, entry, &mut self.spare);
    }

    /// Maps the page of `size` at `vaddr` to the frame at `paddr`.
    ///
    /// A size that the mode does not have is refused; mapping no page does
    /// nothing. Where the walk for `vaddr` ends at a mapping, the call
    /// fails with that entry. Where it ends above the level of `size`, a
    /// new table is linked in for each level in between, each at a frame
    /// from the pool, and the call fails if the pool has too few. Nothing
    /// changes when the call fails.
    ///
    /// Where the page is put in, the permissions must allow something: an
    /// entry without any would read as a link. And no table may hang where
    /// the page is to go.
    pub fn map(
        &mut self,
        vaddr: VirtualAddress,
        paddr: PhysicalAddress,
        perms: PagePermissions,
        size: PageSize,
    ) -> (r: Result<(), PageError>)
        requires
            old(self).wf(),
            size != PageSize::NoPage && old(self).spec_map_result(vaddr, size) is Ok
                ==> perms.is_leaf(),
            size != PageSize::NoPage && size.spec_level() <= old(
                self,
            ).spec_mode().spec_max_size().spec_level() ==> old(self).lookup(vaddr).level
                >= size.spec_level(),
        ensures
            final(self).wf(),
            r == old(self).spec_map_result(vaddr, size),
            r is Err || size == PageSize::NoPage ==> *final(self) == *old(self),
            r is Ok && size != PageSize::NoPage ==> final(self).is_put(
                *old(self),
                vaddr,
                PageTableEntry::leaf(paddr.0, perms),
                size.spec_level(),
            ),
    {
        if size.exceeds(&self.mode.max_size()) {
            return Err(PageError::InvalidSize);
        }
        let target = size.to_level();
        if target == 0 {
            return Ok(());
        }
        let level = self.mode.to_level();
        let found = self.table.find(vaddr, level);
        if found.0.valid() {
            return Err(PageError::MappingExists(found.0));
        }
        if self.spare.len() < found.1 - target {
            return Err(PageError::OutOfMemory);
        }
        let mut entry = PageTableEntry::empty();
        entry.set_perms(perms);
        entry.set_phys(paddr);
        entry.set_valid(true);
        proof {
            lemma_leaf(paddr.0, perms);
            assert(frames_usable(self.spare@.take(self.spare@.len() - (found.1 - target))));
        }
        self.table.install(vaddr, level, target, entry, &mut self.spare);
        Ok(())
    }

    /// Removes the mapping of the page of `size` at `vaddr`.
    ///
    /// Answers with the frame to hand back to the allocator, if the mapping
    /// was marked for that. A size that the mode does not have is refused;
    /// unmapping no page does nothing. The call fails where nothing is
    /// mapped at `vaddr`, and where what is mapped there is a page of
    /// another size. Nothing changes when it fails.
    ///
    /// No table may hang where the page is looked for: taking down a whole
    /// subtree is not offered.
    pub fn unmap(&mut self, vaddr: VirtualAddress, size: PageSize) -> (r: Result<
        Option<PhysicalAddress>,
        PageError,
    >)
        requires
            old(self).wf(),
            size != PageSize::NoPage && size.spec_level() <= old(
                self,
            ).spec_mode().spec_max_size().spec_level() ==> old(self).lookup(vaddr).level
                >= size.spec_level(),
        ensures
            final(self).wf(),
            r == old(self).spec_unmap_result(vaddr, size),
            r is Err || size == PageSize::NoPage ==> *final(self) == *old(self),
            r is Ok && size != PageSize::NoPage ==> final(self).is_put(
                *old(self),
                vaddr,
                PageTableEntry(0),
                size.spec_level(),
            ),
    {
        if size.exceeds(&self.mode.max_size()) {
            return Err(PageError::InvalidSize);
        }
        let target = size.to_level();
        if target == 0 {
            return Ok(None);
        }
        let level = self.mode.to_level();
        let found = self.table.find(vaddr, level);
        if !found.0.valid() {
            return Err(PageError::NoMapping);
        }
        if found.1 != target {
            return Err(PageError::UnmappingSizeMismatch);
        }
        let released = if found.0.dealloc() {
            Some(found.0.phys())
        } else {
            None
        };
        proof {
            crate::paging::entry::lemma_empty_entry();
            assert(self.spare@.take(self.spare@.len() as int) =~= self.spare@);
        }
        self.table.install(vaddr, level, target, PageTableEntry::empty(), &mut self.spare);
        Ok(released)
    }
}

/// Two walks for the same address agree at every level.
pub proof fn lemma_agree_self(vaddr: VirtualAddress, top: nat, floor: nat)
    requires
        floor >= 1,
        floor <= top + 1,
    ensures
        agree_down(vaddr, vaddr, top, floor) == floor,
    decreases top,
{
    if top >= floor {
        lemma_agree_self(vaddr, (top - 1) as nat, floor);
    }
}

/// After an entry was put on the path of an address, the walk for that
/// address ends at that entry.
pub proof fn lemma_put_found(
    after: RootTable,
    before: RootTable,
    vaddr: VirtualAddress,
    entry: PageTableEntry,
    target: nat,
)
    requires
        before.wf(),
        before.levels() >= 1,
        after.is_put(before, vaddr, entry, target),
        1 <= target <= before.lookup(vaddr).level,
    ensures
        after.lookup(vaddr) == (Walk { entry, level: target }),
{
    lemma_walk_level(before.tree(), vaddr, before.levels());
    lemma_agree_self(vaddr, after.levels(), target);
}

/// Putting an entry where no page was mapped leaves every mapping that
/// there was.
pub proof fn lemma_put_keeps(
    after: RootTable,
    before: RootTable,
    vaddr: VirtualAddress,
    entry: PageTableEntry,
    target: nat,
)
    requires
        before.wf(),
        before.levels() >= 1,
        after.is_put(before, vaddr, entry, target),
        before.lookup(vaddr).entry.kind() != EntryKind::Page,
        1 <= target <= before.lookup(vaddr).level,
    ensures
        after.keeps_mappings(before),
{
    lemma_walk_level(before.tree(), vaddr, before.levels());
    assert forall|other: VirtualAddress|
        before.lookup(other).entry.kind() == EntryKind::Page implies #[trigger] after.lookup(other)
        == before.lookup(other) by {
        if agree_down(other, vaddr, before.levels(), target) <= before.lookup(vaddr).level {
            crate::paging::table::lemma_walk_same_slot(
                before.tree(),
                vaddr,
                other,
                before.levels(),
                target,
            );
        }
    }
}

/// Mapping a page and unmapping it again leaves nothing at the address: a
/// walk for it ends at an empty entry at the level of the page's size.
/// And the frame is handed back exactly where the mapping was marked for
/// that.
pub proof fn law_map_then_unmap(
    start: RootTable,
    mapped: RootTable,
    unmapped: RootTable,
    vaddr: VirtualAddress,
    paddr: PhysicalAddress,
    perms: PagePermissions,
    size: PageSize,
)
    requires
        start.wf(),
        mapped.wf(),
        perms.is_leaf(),
        size != PageSize::NoPage,
        paddr.0 % 0x1000 == 0,
        paddr.0 < PHYS_LIMIT,
        start.lookup(vaddr).level >= size.spec_level(),
        start.spec_map_result(vaddr, size) is Ok,
        mapped.is_put(start, vaddr, PageTableEntry::leaf(paddr.0, perms), size.spec_level()),
        unmapped.is_put(mapped, vaddr, PageTableEntry(0), size.spec_level()),
    ensures
        mapped.lookup(vaddr) == (Walk {
            entry: PageTableEntry::leaf(paddr.0, perms),
            level: size.spec_level(),
        }),
        mapped.spec_unmap_result(vaddr, size) == Ok::<Option<PhysicalAddress>, PageError>(
            if perms.dealloc {
                Some(paddr)
            } else {
                None
            },
        ),
        unmapped.lookup(vaddr) == (Walk { entry: PageTableEntry(0), level: size.spec_level() }),
        unmapped.lookup(vaddr).entry.kind() == EntryKind::Invalid,
        unmapped.spare() == mapped.spare(),
{
    lemma_leaf(paddr.0, perms);
    crate::paging::entry::lemma_empty_entry();
    lemma_put_found(mapped, start, vaddr, PageTableEntry::leaf(paddr.0, perms), size.spec_level());
    lemma_put_found(unmapped, mapped, vaddr, PageTableEntry(0), size.spec_level());
    assert(mapped.spare().take(mapped.spare().len() as int) =~= mapped.spare());
}

/// A second mapping of an address that is mapped fails with the entry that
/// is there, whatever frame and size it asks for, as long as the mode has
/// the size.
pub proof fn law_map_twice(
    start: RootTable,
    mapped: RootTable,
    vaddr: VirtualAddress,
    paddr: PhysicalAddress,
    perms: PagePermissions,
    size: PageSize,
    again: PageSize,
)
    requires
        start.wf(),
        perms.is_leaf(),
        size != PageSize::NoPage,
        again != PageSize::NoPage,
        again.spec_level() <= start.spec_mode().spec_max_size().spec_level(),
        start.lookup(vaddr).level >= size.spec_level(),
        start.spec_map_result(vaddr, size) is Ok,
        mapped.is_put(start, vaddr, PageTableEntry::leaf(paddr.0, perms), size.spec_level()),
    ensures
        mapped.spec_map_result(vaddr, again) == Err::<(), PageError>(
            PageError::MappingExists(PageTableEntry::leaf(paddr.0, perms)),
        ),
{
    lemma_leaf(paddr.0, perms);
    lemma_put_found(mapped, start, vaddr, PageTableEntry::leaf(paddr.0, perms), size.spec_level());
}

} // verus!
