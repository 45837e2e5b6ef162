//! One page table and the tables below it.
//!
//! A table has 512 slots. A slot holds an entry and, where the entry is a
//! link, the table that the link leads to. A walk starts at some level,
//! picks at each table the slot that the address selects for that level,
//! and ends at the first entry that is no link.
use vstd::prelude::*;
use crate::mem::{PhysicalAddress, VirtualAddress};
use crate::paging::entry::{
    lemma_empty_entry, lemma_link, EntryKind, PageTableEntry, PHYS_LIMIT,
};

verus! {

/// One slot of a table.
pub struct Slot {
    pub entry: PageTableEntry,
    pub next: Option<Box<PageTable>>,
}

/// A table of 512 slots.
pub struct PageTable {
    pub slots: Vec<Slot>,
}

/// A table as it lies in its frame: the address of the frame and the 512
/// entries.
pub struct TableImage {
    pub frame: PhysicalAddress,
    pub entries: Vec<PageTableEntry>,
}

impl TableImage {
    /// The address of the frame and the entries.
    pub open spec fn image(self) -> (u64, Seq<PageTableEntry>) {
        (self.frame.0, self.entries@)
    }
}

/// The frames and entries of the tables in `images`, in order.
pub open spec fn images_of(images: Seq<TableImage>) -> Seq<(u64, Seq<PageTableEntry>)> {
    Seq::new(images.len(), |i: int| images[i].image())
}

/// Where a walk ended: the entry found and the level of the table that
/// holds it.
pub ghost struct Walk {
    pub entry: PageTableEntry,
    pub level: nat,
}

/// The lowest level `k`, not below `floor`, such that `a` and `b` select
/// the same slot at every level from `k` up to `top`. It is `top + 1` where
/// they part at `top` already.
pub open spec fn agree_down(a: VirtualAddress, b: VirtualAddress, top: nat, floor: nat) -> nat
    decreases top,
{
    if top < floor || top == 0 {
        floor
    } else if a.spec_vpn(top as int) != b.spec_vpn(top as int) {
        top + 1
    } else {
        agree_down(a, b, (top - 1) as nat, floor)
    }
}

/// What a walk for some address finds after an entry was put at level
/// `target` on the path of another address. `prev` is what the walk found
/// before, `k` the level down to which the two addresses agree, `l0` the
/// level at which the other address's walk ended before.
///
/// If the two part above `l0`, nothing changed for this address. If they
/// agree down to `target`, the walk finds the new entry. Between the two,
/// the walk follows the new links as far as the addresses agree and then
/// finds an empty entry in a new table.
pub open spec fn placed(prev: Walk, k: nat, l0: nat, target: nat, entry: PageTableEntry) -> Walk {
    if k > l0 {
        prev
    } else if k == target {
        Walk { entry, level: target }
    } else {
        Walk { entry: PageTableEntry(0), level: (k - 1) as nat }
    }
}

/// The frames in which the tables of a path lie, in order.
pub open spec fn frames_of(path: Seq<(u64, Seq<PageTableEntry>)>) -> Seq<u64> {
    Seq::new(path.len(), |i: int| path[i].0)
}

/// The last `count` frames of `spare`, the last first: the order in which
/// they are taken.
pub open spec fn taken(spare: Seq<u64>, count: int) -> Seq<u64> {
    Seq::new(count as nat, |i: int| spare[spare.len() - 1 - i])
}

/// Whether every frame in `frames` starts on a 4 KiB boundary and can be
/// named by an entry.
pub open spec fn frames_usable(frames: Seq<u64>) -> bool {
    forall|i: int| 0 <= i < frames.len() ==> frames[i] % 0x1000 == 0 && frames[i] < PHYS_LIMIT
}

impl PageTable {
    /// Whether the table is a well-formed table of `level`: it has 512
    /// slots, a slot holds a table below it exactly where its entry is a
    /// link, links occur above level 1 only, and the tables below are
    /// well-formed tables of the next level down.
    pub open spec fn wf(self, level: nat) -> bool
        decreases level,
    {
        &&& self.slots@.len() == 512
        &&& forall|i: int|
            0 <= i < 512 ==> match (#[trigger] self.slots@[i]).next {
                Some(b) => level > 1 && self.slots@[i].entry.kind() == EntryKind::Table && (*b).wf(
                    (level - 1) as nat,
                ),
                None => self.slots@[i].entry.kind() != EntryKind::Table,
            }
    }

    /// Whether every slot is empty.
    pub open spec fn is_empty(self) -> bool {
        &&& self.slots@.len() == 512
        &&& forall|i: int|
            0 <= i < 512 ==> (#[trigger] self.slots@[i]).entry == PageTableEntry(0)
                && self.slots@[i].next is None
    }

    /// The end of the walk for `vaddr` that starts at this table, a table of
    /// `level`.
    pub open spec fn walk(self, vaddr: VirtualAddress, level: nat) -> Walk
        decreases level,
    {
        let slot = self.slots@[vaddr.spec_vpn(level as int)];
        match slot.next {
            Some(b) if level > 1 => (*b).walk(vaddr, (level - 1) as nat),
            _ => Walk { entry: slot.entry, level },
        }
    }

    /// The entries of the table, slot by slot.
    pub open spec fn entries(self) -> Seq<PageTableEntry> {
        Seq::new(self.slots@.len(), |i: int| self.slots@[i].entry)
    }

    /// The tables that the walk for `vaddr` passes, from this one, which
    /// lies in the frame at `frame`, down to the one at which the walk
    /// ends. Each comes with the frame it lies in, which is the frame that
    /// the link to it names.
    pub open spec fn path(self, vaddr: VirtualAddress, level: nat, frame: u64) -> Seq<
        (u64, Seq<PageTableEntry>),
    >
        decreases level,
    {
        let slot = self.slots@[vaddr.spec_vpn(level as int)];
        match slot.next {
            Some(b) if level > 1 => seq![(frame, self.entries())] + (*b).path(
                vaddr,
                (level - 1) as nat,
                slot.entry.spec_phys(),
            ),
            _ => seq![(frame, self.entries())],
        }
    }

    /// Appends to `out` the tables that the walk for `vaddr` passes, each
    /// with the frame it lies in.
    pub fn collect_path(
        &self,
        vaddr: VirtualAddress,
        level: usize,
        frame: PhysicalAddress,
        out: &mut Vec<TableImage>,
    )
        requires
            self.wf(level as nat),
            1 <= level <= 5,
        ensures
            images_of(final(out)@) == images_of(old(out)@) + self.path(
                vaddr,
                level as nat,
                frame.0,
            ),
        decreases level,
    {
        let mut entries: Vec<PageTableEntry> = Vec::new();
        let mut i: usize = 0;
        while i < 512
            invariant
                i <= 512,
                self.slots@.len() == 512,
                entries@.len() == i,
                forall|j: int| 0 <= j < i ==> entries@[j] == self.slots@[j].entry,
            decreases 512 - i,
        {
            entries.push(self.slots[i].entry);
            i += 1;
        }
        proof {
            assert(entries@ =~= self.entries());
        }
        let ghost before = out@;
        out.push(TableImage { frame, entries });
        proof {
            assert(images_of(out@) =~= images_of(before) + seq![(frame.0, self.entries())]);
        }
        let index = vaddr.vpn(level);
        let slot = &self.slots[index];
        match &slot.next {
            Some(b) => {
                let ghost mid = out@;
                b.collect_path(vaddr, level - 1, slot.entry.phys(), out);
                proof {
                    assert(images_of(out@) =~= images_of(before) + self.path(
                        vaddr,
                        level as nat,
                        frame.0,
                    ));
                }
            },
            None => {},
        }
    }

    /// A table in which every slot is empty.
    pub fn new() -> (r: Self)
        ensures
            r.is_empty(),
    {
        let mut slots: Vec<Slot> = Vec::new();
        let mut i: usize = 0;
        while i < 512
            invariant
                i <= 512,
                slots@.len() == i,
                forall|j: int|
                    0 <= j < i ==> (#[trigger] slots@[j]).entry == PageTableEntry(0) && slots@[j].next
                        is None,
            decreases 512 - i,
        {
            slots.push(Slot { entry: PageTableEntry::empty(), next: None });
            i += 1;
        }
        PageTable { slots }
    }

    /// The entry in slot `index`.
    pub fn index(&self, index: usize) -> (r: PageTableEntry)
        requires
            index < self.slots@.len(),
        ensures
            r == self.slots@[index as int].entry,
    {
        self.slots[index].entry
    }

    /// Walks down for `vaddr` and returns the first entry that is no link,
    /// with the level of its table.
    pub fn find(&self, vaddr: VirtualAddress, level: usize) -> (r: (PageTableEntry, usize))
        requires
            self.wf(level as nat),
            1 <= level <= 5,
        ensures
            r.0 == self.walk(vaddr, level as nat).entry,
            r.1 == self.walk(vaddr, level as nat).level,
            1 <= r.1 <= level,
            r.0.kind() != EntryKind::Table,
        decreases level,
    {
        let i = vaddr.vpn(level);
        let slot = &self.slots[i];
        match &slot.next {
            Some(b) => b.find(vaddr, level - 1),
            None => (slot.entry, level),
        }
    }

    /// Puts `entry` at level `target` on the path of `vaddr`, in place of the
    /// entry at which the walk for `vaddr` ends. Where that walk ends above
    /// `target`, empty tables are linked in below it, one for each level in
    /// between, each at a frame taken from the end of `spare`.
    pub fn install(
        &mut self,
        vaddr: VirtualAddress,
        level: usize,
        target: usize,
        entry: PageTableEntry,
        spare: &mut Vec<u64>,
    )
        requires
            old(self).wf(level as nat),
            1 <= target <= level <= 5,
            old(self).walk(vaddr, level as nat).level >= target,
            entry.kind() != EntryKind::Table,
            old(spare)@.len() >= old(self).walk(vaddr, level as nat).level - target,
            frames_usable(old(spare)@),
        ensures
            final(self).wf(level as nat),
            forall|frame: u64|
                frames_of(#[trigger] final(self).path(vaddr, level as nat, frame)) == frames_of(
                    old(self).path(vaddr, level as nat, frame),
                ) + taken(
                    old(spare)@,
                    old(self).walk(vaddr, level as nat).level - target,
                ),
            final(spare)@ == old(spare)@.take(
                old(spare)@.len() - (old(self).walk(vaddr, level as nat).level - target),
            ),
            forall|other: VirtualAddress| #[trigger]
                final(self).walk(other, level as nat) == placed(
                    old(self).walk(other, level as nat),
                    agree_down(other, vaddr, level as nat, target as nat),
                    old(self).walk(vaddr, level as nat).level,
                    target as nat,
                    entry,
                ),
        decreases level,
    {
        let ghost before = *self;
        let ghost spare_before = spare@;
        let ghost l0 = before.walk(vaddr, level as nat).level;
        let i = vaddr.vpn(level);
        proof {
            lemma_walk_level(before, vaddr, level as nat);
        }
        let slot = self.slots.remove(i);
        match slot.next {
            Some(mut child) => {
                let ghost child_before = *child;
                proof {
                    lemma_walk_level(child_before, vaddr, (level - 1) as nat);
                }
                child.install(vaddr, level - 1, target, entry, spare);
                let ghost child_after = *child;
                self.slots.insert(i, Slot { entry: slot.entry, next: Some(child) });
                proof {
                    assert(self.slots@ =~= before.slots@.update(
                        i as int,
                        Slot { entry: slot.entry, next: Some(child) },
                    ));
                    assert forall|j: int| 0 <= j < 512 implies match (#[trigger] self.slots@[j]).next {
                        Some(b) => level > 1 && self.slots@[j].entry.kind() == EntryKind::Table
                            && (*b).wf((level - 1) as nat),
                        None => self.slots@[j].entry.kind() != EntryKind::Table,
                    } by {
                        if j != i {
                            assert(self.slots@[j] == before.slots@[j]);
                        }
                    }
                    assert forall|frame: u64|
                        frames_of(#[trigger] self.path(vaddr, level as nat, frame)) == frames_of(
                            before.path(vaddr, level as nat, frame),
                        ) + taken(spare_before, l0 - target) by {
                        let below = slot.entry.spec_phys();
                        let a = child_after.path(vaddr, (level - 1) as nat, below);
                        let b = child_before.path(vaddr, (level - 1) as nat, below);
                        assert(frames_of(a) == frames_of(b) + taken(spare_before, l0 - target));
                        assert(frames_of(seq![(frame, self.entries())] + a) =~= seq![frame]
                            + frames_of(a));
                        assert(frames_of(seq![(frame, before.entries())] + b) =~= seq![frame]
                            + frames_of(b));
                        assert(frames_of(self.path(vaddr, level as nat, frame)) =~= frames_of(
                            before.path(vaddr, level as nat, frame),
                        ) + taken(spare_before, l0 - target));
                    }
                    assert forall|other: VirtualAddress| #[trigger]
                        self.walk(other, level as nat) == placed(
                            before.walk(other, level as nat),
                            agree_down(other, vaddr, level as nat, target as nat),
                            l0,
                            target as nat,
                            entry,
                        ) by {
                        crate::mem::lemma_vpn_range(other, level as int);
                        if other.spec_vpn(level as int) != i {
                            assert(self.slots@[other.spec_vpn(level as int)] == before.slots@[other.spec_vpn(
                                level as int,
                            )]);
                        } else {
                            assert(self.walk(other, level as nat) == child_after.walk(
                                other,
                                (level - 1) as nat,
                            ));
                            assert(before.walk(other, level as nat) == child_before.walk(
                                other,
                                (level - 1) as nat,
                            ));
                        }
                    }
                }
            },
            None => {
                if level == target {
                    self.slots.insert(i, Slot { entry, next: None });
                    proof {
                        assert(self.slots@ =~= before.slots@.update(
                            i as int,
                            Slot { entry, next: None },
                        ));
                        assert(spare@ =~= spare_before.take(spare_before.len() as int));
                        assert forall|frame: u64|
                            frames_of(#[trigger] self.path(vaddr, level as nat, frame))
                                == frames_of(before.path(vaddr, level as nat, frame)) + taken(
                                spare_before,
                                l0 - target,
                            ) by {
                            assert(frames_of(self.path(vaddr, level as nat, frame)) =~= frames_of(
                                before.path(vaddr, level as nat, frame),
                            ) + taken(spare_before, 0));
                        }
                        assert forall|j: int| 0 <= j < 512 implies match (#[trigger] self.slots@[j]).next {
                            Some(b) => level > 1 && self.slots@[j].entry.kind() == EntryKind::Table
                                && (*b).wf((level - 1) as nat),
                            None => self.slots@[j].entry.kind() != EntryKind::Table,
                        } by {
                            if j != i {
                                assert(self.slots@[j] == before.slots@[j]);
                            }
                        }
                        assert forall|other: VirtualAddress| #[trigger]
                            self.walk(other, level as nat) == placed(
                                before.walk(other, level as nat),
                                agree_down(other, vaddr, level as nat, target as nat),
                                l0,
                                target as nat,
                                entry,
                            ) by {
                            crate::mem::lemma_vpn_range(other, level as int);
                            if other.spec_vpn(level as int) != i {
                                assert(self.slots@[other.spec_vpn(level as int)]
                                    == before.slots@[other.spec_vpn(level as int)]);
                            } else {
                                assert(agree_down(
                                    other,
                                    vaddr,
                                    (level - 1) as nat,
                                    target as nat,
                                ) == target);
                            }
                        }
                    }
                } else {
                    let frame = spare.pop().unwrap();
                    assert(frame == spare_before.last());
                    let mut child = PageTable::new();
                    let ghost child_before = child;
                    proof {
                        lemma_empty_table(child_before, (level - 1) as nat);
                        lemma_empty_walk(child_before, vaddr, (level - 1) as nat);
                    }
                    child.install(vaddr, level - 1, target, entry, spare);
                    let ghost child_after = child;
                    let mut link = PageTableEntry::empty();
                    link.set_phys(PhysicalAddress::new(frame));
                    link.set_valid(true);
                    proof {
                        lemma_link(frame);
                    }
                    self.slots.insert(i, Slot { entry: link, next: Some(Box::new(child)) });
                    proof {
                        assert(self.slots@ =~= before.slots@.update(
                            i as int,
                            Slot { entry: link, next: Some(Box::new(child)) },
                        ));
                        let mid = spare_before.drop_last();
                        assert(spare@ =~= spare_before.take(
                            spare_before.len() - (level - target),
                        ));
                        assert(frames_usable(mid));
                        assert forall|top: u64|
                            frames_of(#[trigger] self.path(vaddr, level as nat, top)) == frames_of(
                                before.path(vaddr, level as nat, top),
                            ) + taken(spare_before, l0 - target) by {
                            let a = child_after.path(vaddr, (level - 1) as nat, frame);
                            let b = child_before.path(vaddr, (level - 1) as nat, frame);
                            assert(link.spec_phys() == frame);
                            assert(frames_of(a) == frames_of(b) + taken(mid, level - 1 - target));
                            crate::mem::lemma_vpn_range(vaddr, level - 1);
                            assert(child_before.slots@[vaddr.spec_vpn(level - 1)].next is None);
                            assert(b =~= seq![(frame, child_before.entries())]);
                            assert(frames_of(b) =~= seq![frame]);
                            assert(frames_of(seq![(top, self.entries())] + a) =~= seq![top]
                                + frames_of(a));
                            assert(frames_of(before.path(vaddr, level as nat, top)) =~= seq![top]);
                            assert(seq![frame] + taken(mid, level - 1 - target) =~= taken(
                                spare_before,
                                level - target,
                            ));
                            assert(frames_of(self.path(vaddr, level as nat, top)) =~= seq![top]
                                + (seq![frame] + taken(mid, level - 1 - target)));
                        }
                        assert forall|j: int| 0 <= j < 512 implies match (#[trigger] self.slots@[j]).next {
                            Some(b) => level > 1 && self.slots@[j].entry.kind() == EntryKind::Table
                                && (*b).wf((level - 1) as nat),
                            None => self.slots@[j].entry.kind() != EntryKind::Table,
                        } by {
                            if j != i {
                                assert(self.slots@[j] == before.slots@[j]);
                            }
                        }
                        assert forall|other: VirtualAddress| #[trigger]
                            self.walk(other, level as nat) == placed(
                                before.walk(other, level as nat),
                                agree_down(other, vaddr, level as nat, target as nat),
                                l0,
                                target as nat,
                                entry,
                            ) by {
                            crate::mem::lemma_vpn_range(other, level as int);
                            if other.spec_vpn(level as int) != i {
                                assert(self.slots@[other.spec_vpn(level as int)]
                                    == before.slots@[other.spec_vpn(level as int)]);
                            } else {
                                lemma_empty_walk(child_before, other, (level - 1) as nat);
                                lemma_agree_bounds(other, vaddr, (level - 1) as nat, target as nat);
                                assert(self.walk(other, level as nat) == child_after.walk(
                                    other,
                                    (level - 1) as nat,
                                ));
                            }
                        }
                    }
                }
            },
        }
    }
}

/// A walk that starts at `level` ends at a level from 1 to `level`, at an
/// entry that is no link.
pub proof fn lemma_walk_level(table: PageTable, vaddr: VirtualAddress, level: nat)
    requires
        table.wf(level),
        1 <= level <= 5,
    ensures
        1 <= table.walk(vaddr, level).level <= level,
        table.walk(vaddr, level).entry.kind() != EntryKind::Table,
    decreases level,
{
    crate::mem::lemma_vpn_range(vaddr, level as int);
    let slot = table.slots@[vaddr.spec_vpn(level as int)];
    match slot.next {
        Some(b) => {
            lemma_walk_level(*b, vaddr, (level - 1) as nat);
        },
        None => {},
    }
}

/// An empty table is a well-formed table of every level.
pub proof fn lemma_empty_table(table: PageTable, level: nat)
    requires
        table.is_empty(),
        level >= 1,
    ensures
        table.wf(level),
{
    lemma_empty_entry();
    assert forall|i: int| 0 <= i < 512 implies match (#[trigger] table.slots@[i]).next {
        Some(b) => level > 1 && table.slots@[i].entry.kind() == EntryKind::Table && (*b).wf(
            (level - 1) as nat,
        ),
        None => table.slots@[i].entry.kind() != EntryKind::Table,
    } by {}
}

/// In an empty table every walk ends at once, at an empty entry.
pub proof fn lemma_empty_walk(table: PageTable, vaddr: VirtualAddress, level: nat)
    requires
        table.is_empty(),
        1 <= level <= 5,
    ensures
        table.walk(vaddr, level) == (Walk { entry: PageTableEntry(0), level }),
{
    crate::mem::lemma_vpn_range(vaddr, level as int);
}

/// `agree_down` stays between `floor` and `top + 1`.
pub proof fn lemma_agree_bounds(a: VirtualAddress, b: VirtualAddress, top: nat, floor: nat)
    requires
        floor <= top + 1,
    ensures
        floor <= agree_down(a, b, top, floor) <= top + 1,
    decreases top,
{
    if top < floor || top == 0 {
    } else if a.spec_vpn(top as int) != b.spec_vpn(top as int) {
    } else {
        lemma_agree_bounds(a, b, (top - 1) as nat, floor);
    }
}

/// Two addresses that agree down to the level at which the walk for one of
/// them ends find the same entry.
pub proof fn lemma_walk_same_slot(
    table: PageTable,
    vaddr: VirtualAddress,
    other: VirtualAddress,
    level: nat,
    floor: nat,
)
    requires
        table.wf(level),
        1 <= floor <= level <= 5,
        agree_down(other, vaddr, level, floor) <= table.walk(vaddr, level).level,
    ensures
        table.walk(other, level) == table.walk(vaddr, level),
    decreases level,
{
    crate::mem::lemma_vpn_range(vaddr, level as int);
    lemma_walk_level(table, vaddr, level);
    let slot = table.slots@[vaddr.spec_vpn(level as int)];
    match slot.next {
        Some(b) => {
            lemma_walk_level(*b, vaddr, (level - 1) as nat);
            if level - 1 >= floor {
                lemma_walk_same_slot(*b, vaddr, other, (level - 1) as nat, floor);
            } else {
                lemma_agree_bounds(other, vaddr, (level - 1) as nat, floor);
            }
        },
        None => {},
    }
}


/// Where two addresses select the same slot at every level from 2 up and
/// part at level 1, they agree down to level 2 and no further.
pub proof fn lemma_agree_to_two(a: VirtualAddress, b: VirtualAddress, top: nat)
    requires
        1 <= top <= 5,
        forall|l: int| 2 <= l <= top ==> a.spec_vpn(l) == b.spec_vpn(l),
        a.spec_vpn(1) != b.spec_vpn(1),
    ensures
        agree_down(a, b, top, 1) == 2,
    decreases top,
{
    if top > 1 {
        lemma_agree_to_two(a, b, (top - 1) as nat);
    }
}

/// Where two addresses part at some level, they agree down to above that
/// level at most.
pub proof fn lemma_agree_parted(a: VirtualAddress, b: VirtualAddress, top: nat, at: int)
    requires
        1 <= at <= top <= 5,
        a.spec_vpn(at) != b.spec_vpn(at),
    ensures
        agree_down(a, b, top, 1) > at,
    decreases top,
{
    if top > at && a.spec_vpn(top as int) == b.spec_vpn(top as int) {
        lemma_agree_parted(a, b, (top - 1) as nat, at);
    }
}

/// Where the walk for one address gets down to level 1, so does the walk
/// for every address that selects the same slots above level 1.
pub proof fn lemma_walk_to_bottom(
    table: PageTable,
    vaddr: VirtualAddress,
    other: VirtualAddress,
    level: nat,
)
    requires
        table.wf(level),
        1 <= level <= 5,
        table.walk(vaddr, level).level == 1,
        forall|l: int| 2 <= l <= level ==> vaddr.spec_vpn(l) == other.spec_vpn(l),
    ensures
        table.walk(other, level).level == 1,
    decreases level,
{
    crate::mem::lemma_vpn_range(vaddr, level as int);
    crate::mem::lemma_vpn_range(other, level as int);
    if level > 1 {
        let slot = table.slots@[vaddr.spec_vpn(level as int)];
        match slot.next {
            Some(b) => {
                lemma_walk_to_bottom(*b, vaddr, other, (level - 1) as nat);
            },
            None => {},
        }
    }
}


} // verus!
