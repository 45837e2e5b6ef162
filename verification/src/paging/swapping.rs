//! Moving a page to disk and back.
//!
//! A page is resident (a valid entry, a frame behind it), evicted (the
//! entry invalid and marked swapped, a record of where the bytes lie) or
//! not there at all. Swapping out takes a resident page to evicted,
//! swapping in takes it back. The caller gets the blocks and the frame
//! from the allocators beforehand, and hands back what is set free.
use vstd::prelude::*;
use crate::dev::blockdev::disk::{overwritten, Disk};
use crate::dev::blockdev::partition::Partition;
use crate::mem::frames::PhysicalMemory;
use crate::mem::swap::{SwapLocation, SwapManager};
use crate::mem::{PhysicalAddress, VirtualAddress};
use crate::paging::entry::{
    lemma_with_phys, lemma_with_swapped, lemma_with_valid, flags, EntryKind, PageTableEntry,
    PHYS_LIMIT,
};
use crate::paging::root::{PageError, RootTable};
use crate::paging::size::PageSize;
use crate::paging::table::lemma_walk_level;

verus! {

/// The entry of a page that has gone to disk: not valid, marked swapped,
/// all else as it was.
pub open spec fn evicted(entry: PageTableEntry) -> PageTableEntry {
    entry.with_valid(false).with_swapped(true)
}

/// The entry of a page that has come back from disk into the frame at
/// `frame`: valid, not marked swapped, permissions as they were.
pub open spec fn reloaded(entry: PageTableEntry, frame: u64) -> PageTableEntry {
    entry.with_swapped(false).with_phys(frame).with_valid(true)
}

/// Whether an entry stands for a page on disk: it is not valid and is
/// marked swapped.
pub open spec fn is_evicted(entry: PageTableEntry) -> bool {
    !entry.spec_valid() && entry.spec_swapped()
}

/// Whether an entry stands for a page in memory: it is a valid mapping.
pub open spec fn is_resident(entry: PageTableEntry) -> bool {
    entry.kind() == EntryKind::Page
}

/// Whether an entry allows any access at all. One that allows none cannot
/// be made valid: the hardware would read it as a link to a table.
pub open spec fn allows_something(entry: PageTableEntry) -> bool {
    entry.spec_read() || entry.spec_write() || entry.spec_exec()
}

/// The first address of the page of level `level` that `vaddr` lies in.
/// Under this address the page is recorded while it is on disk.
pub open spec fn page_start(vaddr: VirtualAddress, level: nat) -> VirtualAddress {
    let bytes = PageSize::spec_from_level(level).spec_bytes();
    if bytes == 0 {
        vaddr
    } else {
        VirtualAddress((vaddr.0 - (vaddr.0 as int) % (bytes as int)) as u64)
    }
}

/// What was at hand before a swap: the address space, the records, the
/// frames, the partition that takes part and its disk.
pub ghost struct SwapState<D> {
    pub root: RootTable,
    pub records: SwapManager,
    pub memory: PhysicalMemory,
    pub part_id: usize,
    pub part: Partition,
    pub disk: D,
}

impl<D: Disk> SwapState<D> {
    /// The size of the page that a walk for `vaddr` ends at.
    pub open spec fn size_at(self, vaddr: VirtualAddress) -> PageSize {
        PageSize::spec_from_level(self.root.lookup(vaddr).level)
    }

    /// The address under which the page that `vaddr` lies in is recorded:
    /// the first address of the page at which the walk for `vaddr` ends.
    pub open spec fn key_at(self, vaddr: VirtualAddress) -> VirtualAddress {
        page_start(vaddr, self.root.lookup(vaddr).level)
    }

    /// What swapping out the page at `vaddr` of process `procid` to the
    /// blocks from `block` on answers: the frame set free, or why not.
    pub open spec fn swap_out_result(self, vaddr: VirtualAddress, procid: u128, block: usize) -> Result<
        PhysicalAddress,
        PageError,
    > {
        let entry = self.root.lookup(vaddr).entry;
        let bytes = self.size_at(vaddr).spec_bytes();
        if self.records.record_of(procid, self.key_at(vaddr)) is Some {
            Err(PageError::SwapRecordExists)
        } else if !is_resident(entry) {
            Err(PageError::NoMapping)
        } else if self.records.partitions().len() == 0 || self.records.partitions()[0]
            != self.part_id {
            Err(PageError::NoSwapPartition)
        } else if !self.memory.frames().contains_key(entry.spec_phys())
            || self.memory.frames()[entry.spec_phys()].len() != bytes {
            Err(PageError::BadFrame)
        } else {
            match self.part.transfer_result(self.disk, bytes, block as nat) {
                Err(e) => Err(PageError::Disk(e)),
                Ok(()) => Ok(PhysicalAddress(entry.spec_phys())),
            }
        }
    }

    /// What swapping in the page at `vaddr` of process `procid` into the
    /// frame at `frame` answers.
    pub open spec fn swap_in_result(self, vaddr: VirtualAddress, procid: u128, frame: u64) -> Result<
        (),
        PageError,
    > {
        let entry = self.root.lookup(vaddr).entry;
        let bytes = self.size_at(vaddr).spec_bytes();
        let record = self.records.record_of(procid, self.key_at(vaddr));
        if record is None {
            Err(PageError::NoSwapRecord)
        } else if !is_evicted(entry) || !allows_something(entry) {
            Err(PageError::NoMapping)
        } else if record->0.partition != self.part_id {
            Err(PageError::NoSwapPartition)
        } else if frame % 0x1000 != 0 || frame >= PHYS_LIMIT || bytes > usize::MAX
            || self.memory.frames().contains_key(frame) {
            Err(PageError::BadFrame)
        } else {
            match self.part.transfer_result(self.disk, bytes, record->0.block as nat) {
                Err(e) => Err(PageError::Disk(e)),
                Ok(()) => Ok(()),
            }
        }
    }

    /// Whether `self` is what `before` becomes when the page at `vaddr` of
    /// process `procid` goes to the blocks from `block` on: the entry is
    /// `evicted`, the record is made, the bytes of the frame are on the
    /// disk and the frame is gone from memory.
    pub open spec fn is_swapped_out(
        self,
        before: SwapState<D>,
        vaddr: VirtualAddress,
        procid: u128,
        block: usize,
    ) -> bool {
        let found = before.root.lookup(vaddr);
        let phys = found.entry.spec_phys();
        &&& self.root.is_put(before.root, vaddr, evicted(found.entry), found.level)
        &&& self.records.is_changed(
            before.records,
            procid,
            before.key_at(vaddr),
            Some(SwapLocation { partition: before.part_id, block }),
        )
        &&& self.memory.frames() == before.memory.frames().remove(phys)
        &&& self.disk.contents() == overwritten(
            before.disk.contents(),
            block * before.disk.spec_blocksize(),
            before.memory.frames()[phys],
        )
        &&& self.disk.spec_blocksize() == before.disk.spec_blocksize()
        &&& self.disk.spec_blocks() == before.disk.spec_blocks()
        &&& self.part == before.part
        &&& self.part_id == before.part_id
    }

    /// Whether `self` is what `before` becomes when the page at `vaddr` of
    /// process `procid` comes back into the frame at `frame`: the entry is
    /// `reloaded`, the record is gone, and the frame holds the bytes that
    /// the record pointed to.
    pub open spec fn is_swapped_in(
        self,
        before: SwapState<D>,
        vaddr: VirtualAddress,
        procid: u128,
        frame: u64,
    ) -> bool {
        let found = before.root.lookup(vaddr);
        let at = before.records.record_of(procid, before.key_at(vaddr))->0.block
            * before.disk.spec_blocksize();
        &&& self.root.is_put(before.root, vaddr, reloaded(found.entry, frame), found.level)
        &&& self.records.is_changed(before.records, procid, before.key_at(vaddr), None)
        &&& self.memory.frames() == before.memory.frames().insert(
            frame,
            before.disk.contents().subrange(at, at + before.size_at(vaddr).spec_bytes()),
        )
        &&& self.disk.contents() == before.disk.contents()
        &&& self.disk.spec_blocksize() == before.disk.spec_blocksize()
        &&& self.disk.spec_blocks() == before.disk.spec_blocks()
        &&& self.part == before.part
        &&& self.part_id == before.part_id
    }
}

impl RootTable {
    /// Moves the page at `vaddr` of process `procid` to the partition
    /// `part_id`, into the blocks from `block` on, and answers with the
    /// frame that is free now.
    ///
    /// The page is recorded under its first address, for the process, or
    /// for no process where it lies in the kernel's half.
    ///
    /// The call fails, and changes nothing, where the page has a record
    /// already; where no page is mapped at `vaddr`; where the partition is
    /// not the one registered first; where the bytes of the frame are not
    /// at hand in full; and where the partition refuses the transfer.
    pub fn swap_out<D: Disk>(
        &mut self,
        vaddr: VirtualAddress,
        procid: u128,
        block: usize,
        records: &mut SwapManager,
        memory: &mut PhysicalMemory,
        part_id: usize,
        part: &mut Partition,
        disk: &mut D,
    ) -> (r: Result<PhysicalAddress, PageError>)
        requires
            old(self).wf(),
            old(self).levels() >= 1,
            old(disk).sound(),
        ensures
            final(self).wf(),
            final(disk).sound(),
            r == (SwapState {
                root: *old(self),
                records: *old(records),
                memory: *old(memory),
                part_id,
                part: *old(part),
                disk: *old(disk),
            }).swap_out_result(vaddr, procid, block),
            r is Err ==> *final(self) == *old(self),
            r is Err ==> *final(records) == *old(records),
            r is Err ==> *final(memory) == *old(memory),
            r is Err ==> final(disk).contents() == old(disk).contents(),
            *final(part) == *old(part),
            final(disk).spec_blocksize() == old(disk).spec_blocksize(),
            final(disk).spec_blocks() == old(disk).spec_blocks(),
            r is Ok ==> (SwapState {
                root: *final(self),
                records: *final(records),
                memory: *final(memory),
                part_id,
                part: *final(part),
                disk: *final(disk),
            }).is_swapped_out(
                SwapState {
                    root: *old(self),
                    records: *old(records),
                    memory: *old(memory),
                    part_id,
                    part: *old(part),
                    disk: *old(disk),
                },
                vaddr,
                procid,
                block,
            ),
    {
        let entry = self.get_entry(vaddr);
        let level = self.read(vaddr).1;
        let size = PageSize::from_level(level);
        let bytes_in_page: u64 = size.bytes();
        assert(bytes_in_page >= 0x1000);
        let rest: u64 = vaddr.0 % bytes_in_page;
        assert(rest <= vaddr.0) by (nonlinear_arith)
            requires
                rest == vaddr.0 as int % bytes_in_page as int,
                bytes_in_page > 0,
        ;
        let key = VirtualAddress::new(vaddr.0 - rest);
        if records.lookup(procid, key).is_some() {
            return Err(PageError::SwapRecordExists);
        }
        if !entry.valid() {
            return Err(PageError::NoMapping);
        }
        match records.swap_target() {
            Some(first) => {
                if first != part_id {
                    return Err(PageError::NoSwapPartition);
                }
            },
            None => {
                return Err(PageError::NoSwapPartition);
            },
        }
        let phys = entry.phys();
        let bytes = match memory.frame(phys) {
            Some(b) => b,
            None => {
                return Err(PageError::BadFrame);
            },
        };
        if bytes.len() as u64 != size.bytes() {
            return Err(PageError::BadFrame);
        }
        match part.write(disk, bytes.as_slice(), block) {
            Err(e) => {
                return Err(PageError::Disk(e));
            },
            Ok(()) => {},
        }
        let mut gone = entry;
        gone.set_valid(false);
        gone.set_swapped(true);
        proof {
            lemma_with_valid(entry, false);
            lemma_with_swapped(entry.with_valid(false), true);
        }
        self.set_entry(vaddr, gone);
        let made = records.record(procid, key, SwapLocation { partition: part_id, block });
        memory.remove_frame(phys);
        Ok(phys)
    }

    /// Brings the page at `vaddr` of process `procid` back from the
    /// partition `part_id` into the frame at `frame`.
    ///
    /// The call fails, and changes nothing, where the page has no record
    /// under its first address; where the entry at `vaddr` does not stand
    /// for a page on disk, or allows no access at all, so that it cannot be
    /// made valid; where the partition is not the one in the record; where
    /// the frame cannot be named by an entry or holds something already;
    /// and where the partition refuses the transfer.
    pub fn swap_in<D: Disk>(
        &mut self,
        vaddr: VirtualAddress,
        procid: u128,
        frame: PhysicalAddress,
        records: &mut SwapManager,
        memory: &mut PhysicalMemory,
        part_id: usize,
        part: &Partition,
        disk: &D,
    ) -> (r: Result<(), PageError>)
        requires
            old(self).wf(),
            old(self).levels() >= 1,
            disk.sound(),
        ensures
            final(self).wf(),
            r == (SwapState {
                root: *old(self),
                records: *old(records),
                memory: *old(memory),
                part_id,
                part: *part,
                disk: *disk,
            }).swap_in_result(vaddr, procid, frame.0),
            r is Err ==> *final(self) == *old(self),
            r is Err ==> *final(records) == *old(records),
            r is Err ==> *final(memory) == *old(memory),
            r is Ok ==> (SwapState {
                root: *final(self),
                records: *final(records),
                memory: *final(memory),
                part_id,
                part: *part,
                disk: *disk,
            }).is_swapped_in(
                SwapState {
                    root: *old(self),
                    records: *old(records),
                    memory: *old(memory),
                    part_id,
                    part: *part,
                    disk: *disk,
                },
                vaddr,
                procid,
                frame.0,
            ),
    {
        let entry = self.get_entry(vaddr);
        let level = self.read(vaddr).1;
        let size = PageSize::from_level(level);
        let bytes_in_page: u64 = size.bytes();
        assert(bytes_in_page >= 0x1000);
        let rest: u64 = vaddr.0 % bytes_in_page;
        assert(rest <= vaddr.0) by (nonlinear_arith)
            requires
                rest == vaddr.0 as int % bytes_in_page as int,
                bytes_in_page > 0,
        ;
        let key = VirtualAddress::new(vaddr.0 - rest);
        let location = match records.lookup(procid, key) {
            Some(l) => l,
            None => {
                return Err(PageError::NoSwapRecord);
            },
        };
        if entry.valid() || !entry.swapped() || !(entry.is_read() || entry.is_write()
            || entry.is_exec()) {
            return Err(PageError::NoMapping);
        }
        if location.partition != part_id {
            return Err(PageError::NoSwapPartition);
        }
        if frame.0 % 0x1000 != 0 || frame.0 >= PHYS_LIMIT || size.bytes() > usize::MAX as u64
            || memory.has_frame(frame) {
            return Err(PageError::BadFrame);
        }
        let count: usize = size.bytes() as usize;
        let mut buffer: Vec<u8> = vec![0u8; count];
        match part.read(disk, buffer.as_mut_slice(), location.block) {
            Err(e) => {
                return Err(PageError::Disk(e));
            },
            Ok(()) => {},
        }
        let mut back = entry;
        back.set_swapped(false);
        back.set_phys(frame);
        back.set_valid(true);
        proof {
            lemma_with_swapped(entry, false);
            lemma_with_phys(entry.with_swapped(false), frame.0);
            let mid = entry.with_swapped(false).with_phys(frame.0);
            assert(flags(mid)[1] == flags(entry.with_swapped(false))[1]);
            assert(flags(mid)[2] == flags(entry.with_swapped(false))[2]);
            assert(flags(mid)[3] == flags(entry.with_swapped(false))[3]);
            lemma_with_valid(mid, true);
        }
        self.set_entry(vaddr, back);
        let taken = records.take(procid, key);
        memory.add_frame(frame, buffer);
        Ok(())
    }

    /// Swaps the page at `vaddr` of process `procid`: in, into the frame at
    /// `frame`, where its entry is marked swapped; out, to the blocks from
    /// `block` on, where it is not. After swapping out the answer holds the
    /// frame that is free now.
    pub fn swap<D: Disk>(
        &mut self,
        vaddr: VirtualAddress,
        procid: u128,
        block: usize,
        frame: PhysicalAddress,
        records: &mut SwapManager,
        memory: &mut PhysicalMemory,
        part_id: usize,
        part: &mut Partition,
        disk: &mut D,
    ) -> (r: Result<Option<PhysicalAddress>, PageError>)
        requires
            old(self).wf(),
            old(self).levels() >= 1,
            old(disk).sound(),
        ensures
            final(self).wf(),
            final(disk).sound(),
            r is Err ==> *final(self) == *old(self),
            r is Err ==> *final(records) == *old(records),
            r is Err ==> *final(memory) == *old(memory),
            r is Err ==> final(disk).contents() == old(disk).contents(),
            *final(part) == *old(part),
            final(disk).spec_blocksize() == old(disk).spec_blocksize(),
            final(disk).spec_blocks() == old(disk).spec_blocks(),
            old(self).lookup(vaddr).entry.spec_swapped() ==> {
                let before = SwapState {
                    root: *old(self),
                    records: *old(records),
                    memory: *old(memory),
                    part_id,
                    part: *old(part),
                    disk: *old(disk),
                };
                &&& r is Ok == before.swap_in_result(vaddr, procid, frame.0) is Ok
                &&& r is Err ==> r->Err_0 == before.swap_in_result(vaddr, procid, frame.0)->Err_0
                &&& r is Ok ==> r->Ok_0 is None && (SwapState {
                    root: *final(self),
                    records: *final(records),
                    memory: *final(memory),
                    part_id,
                    part: *final(part),
                    disk: *final(disk),
                }).is_swapped_in(before, vaddr, procid, frame.0)
            },
            !old(self).lookup(vaddr).entry.spec_swapped() ==> {
                let before = SwapState {
                    root: *old(self),
                    records: *old(records),
                    memory: *old(memory),
                    part_id,
                    part: *old(part),
                    disk: *old(disk),
                };
                &&& r is Ok == before.swap_out_result(vaddr, procid, block) is Ok
                &&& r is Err ==> r->Err_0 == before.swap_out_result(vaddr, procid, block)->Err_0
                &&& r is Ok ==> r->Ok_0 == Some(before.swap_out_result(vaddr, procid, block)->Ok_0)
                    && (SwapState {
                    root: *final(self),
                    records: *final(records),
                    memory: *final(memory),
                    part_id,
                    part: *final(part),
                    disk: *final(disk),
                }).is_swapped_out(before, vaddr, procid, block)
            },
    {
        let entry = self.get_entry(vaddr);
        if entry.swapped() {
            match self.swap_in(vaddr, procid, frame, records, memory, part_id, part, disk) {
                Ok(()) => Ok(None),
                Err(e) => Err(e),
            }
        } else {
            match self.swap_out(vaddr, procid, block, records, memory, part_id, part, disk) {
                Ok(freed) => Ok(Some(freed)),
                Err(e) => Err(e),
            }
        }
    }
}

/// What becomes of an entry that goes to disk and comes back: it stands
/// for a page on disk in between, and afterwards it is a valid mapping of
/// the new frame with the permissions it had.
pub proof fn lemma_evicted_reloaded(entry: PageTableEntry, frame: u64)
    requires
        is_resident(entry),
    ensures
        is_evicted(evicted(entry)),
        allows_something(evicted(entry)),
        evicted(entry).spec_perms() == entry.spec_perms(),
        evicted(entry).spec_phys() == entry.spec_phys(),
        is_resident(reloaded(evicted(entry), frame)),
        !reloaded(evicted(entry), frame).spec_swapped(),
        reloaded(evicted(entry), frame).spec_perms() == entry.spec_perms(),
        frame % 0x1000 == 0 && frame < PHYS_LIMIT ==> reloaded(evicted(entry), frame).spec_phys()
            == frame,
{
    let a = entry.with_valid(false);
    let b = a.with_swapped(true);
    lemma_with_valid(entry, false);
    lemma_with_swapped(a, true);
    let c = b.with_swapped(false);
    let d = c.with_phys(frame);
    lemma_with_swapped(b, false);
    lemma_with_phys(c, frame);
    assert(flags(d)[1] == flags(c)[1] && flags(d)[2] == flags(c)[2] && flags(d)[3] == flags(c)[3]
        && flags(d)[9] == flags(c)[9]);
    lemma_with_valid(d, true);
}

/// A page that is swapped out and at once swapped in again has the bytes
/// it had, in the new frame; its record is gone; and it is mapped as
/// before, but for the frame. The swap in succeeds whenever the frame it is
/// given is free, can be named by an entry, and is not too large to count.
pub proof fn law_swap_round_trip<D: Disk>(
    start: SwapState<D>,
    out: SwapState<D>,
    back: SwapState<D>,
    vaddr: VirtualAddress,
    procid: u128,
    block: usize,
    frame: u64,
)
    requires
        start.root.wf(),
        start.root.levels() >= 1,
        start.disk.sound(),
        start.swap_out_result(vaddr, procid, block) is Ok,
        out.is_swapped_out(start, vaddr, procid, block),
        frame % 0x1000 == 0,
        frame < PHYS_LIMIT,
        !out.memory.frames().contains_key(frame),
        start.size_at(vaddr).spec_bytes() <= usize::MAX,
        back.is_swapped_in(out, vaddr, procid, frame),
    ensures
        out.swap_in_result(vaddr, procid, frame) == Ok::<(), PageError>(()),
        back.memory.frames().contains_key(frame),
        back.memory.frames()[frame] == start.memory.frames()[start.root.lookup(
            vaddr,
        ).entry.spec_phys()],
        back.records.record_of(procid, start.key_at(vaddr)) is None,
        back.key_at(vaddr) == start.key_at(vaddr),
        back.root.lookup(vaddr).level == start.root.lookup(vaddr).level,
        is_resident(back.root.lookup(vaddr).entry),
        !back.root.lookup(vaddr).entry.spec_swapped(),
        back.root.lookup(vaddr).entry.spec_perms() == start.root.lookup(vaddr).entry.spec_perms(),
        back.root.lookup(vaddr).entry.spec_phys() == frame,
        back.disk.contents() == out.disk.contents(),
{
    let found = start.root.lookup(vaddr);
    let phys = found.entry.spec_phys();
    let bytes = start.size_at(vaddr).spec_bytes();
    let data = start.memory.frames()[phys];
    let at = block * start.disk.spec_blocksize();
    lemma_walk_level(start.root.tree(), vaddr, start.root.levels());
    lemma_evicted_reloaded(found.entry, frame);
    crate::paging::root::lemma_put_found(
        out.root,
        start.root,
        vaddr,
        evicted(found.entry),
        found.level,
    );
    crate::mem::swap::lemma_changed(
        out.records,
        start.records,
        procid,
        start.key_at(vaddr),
        Some(SwapLocation { partition: start.part_id, block }),
    );
    assert(out.root.lookup(vaddr).level == found.level);
    assert(out.size_at(vaddr) == start.size_at(vaddr));
    assert(out.part.transfer_result(out.disk, bytes, block as nat) == start.part.transfer_result(
        start.disk,
        bytes,
        block as nat,
    ));
    assert(out.swap_in_result(vaddr, procid, frame) == Ok::<(), PageError>(()));
    start.disk.lemma_sound();
    assert(out.disk.contents().subrange(at, at + bytes) =~= data);
    crate::mem::swap::lemma_changed(back.records, out.records, procid, out.key_at(vaddr), None);
    assert(out.root.levels() == start.root.levels());
    assert(back.root.lookup(vaddr) == crate::paging::table::placed(
        out.root.lookup(vaddr),
        crate::paging::table::agree_down(vaddr, vaddr, back.root.levels(), found.level),
        found.level,
        found.level,
        reloaded(evicted(found.entry), frame),
    ));
    crate::paging::root::lemma_agree_self(vaddr, back.root.levels(), found.level);
}

/// A page that has been swapped out cannot be swapped out again: until it
/// is swapped in, every further attempt fails on the record that is there,
/// whatever blocks it is offered.
pub proof fn law_no_double_eviction<D: Disk>(
    start: SwapState<D>,
    out: SwapState<D>,
    vaddr: VirtualAddress,
    procid: u128,
    block: usize,
    again: usize,
)
    requires
        start.root.wf(),
        start.root.levels() >= 1,
        start.swap_out_result(vaddr, procid, block) is Ok,
        out.is_swapped_out(start, vaddr, procid, block),
    ensures
        out.swap_out_result(vaddr, procid, again) == Err::<PhysicalAddress, PageError>(
            PageError::SwapRecordExists,
        ),
        out.records.record_of(procid, start.key_at(vaddr)) == Some(
            SwapLocation { partition: start.part_id, block },
        ),
        out.key_at(vaddr) == start.key_at(vaddr),
{
    lemma_walk_level(start.root.tree(), vaddr, start.root.levels());
    crate::paging::root::lemma_put_found(
        out.root,
        start.root,
        vaddr,
        evicted(start.root.lookup(vaddr).entry),
        start.root.lookup(vaddr).level,
    );
    crate::mem::swap::lemma_changed(
        out.records,
        start.records,
        procid,
        start.key_at(vaddr),
        Some(SwapLocation { partition: start.part_id, block }),
    );
}


/// Every address of a page names the page by the same first address: two
/// addresses whose walks end at the same level, and that lie in the same
/// page of that level's size, are recorded under one address.
pub proof fn law_one_key_for_a_page<D: Disk>(
    state: SwapState<D>,
    vaddr: VirtualAddress,
    other: VirtualAddress,
)
    requires
        state.root.lookup(other).level == state.root.lookup(vaddr).level,
        state.size_at(vaddr).spec_bytes() > 0,
        other.0 as int / state.size_at(vaddr).spec_bytes() as int == vaddr.0 as int / state.size_at(
            vaddr,
        ).spec_bytes() as int,
    ensures
        state.key_at(other) == state.key_at(vaddr),
{
    let bytes = state.size_at(vaddr).spec_bytes() as int;
    vstd::arithmetic::div_mod::lemma_fundamental_div_mod(vaddr.0 as int, bytes);
    vstd::arithmetic::div_mod::lemma_fundamental_div_mod(other.0 as int, bytes);
}


} // verus!
