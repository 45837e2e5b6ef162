//! Taking over page tables that are in memory already.
//!
//! The caller reads the tables from memory, frame by frame, and hands them
//! over as plain entries. What is built from them walks exactly as the
//! hardware walks the tables in memory.
use std::collections::BTreeMap;
use vstd::prelude::*;
use vstd::std_specs::btree::*;
use crate::mem::{PhysicalAddress, VirtualAddress};
use crate::paging::entry::{EntryKind, PageTableEntry};
use crate::paging::table::{PageTable, Slot, Walk};

verus! {

broadcast use {vstd::std_specs::btree::group_btree_axioms, vstd::laws_cmp::group_laws_cmp};

/// Whether `tables` holds a table of 512 entries at `frame`.
pub open spec fn holds_table(tables: Map<u64, Vec<u64>>, frame: u64) -> bool {
    tables.contains_key(frame) && tables[frame]@.len() == 512
}

/// Whether the tables from the one at `frame` down, a table of `level`,
/// are all in `tables` and link on above level 1 only.
pub open spec fn readable(tables: Map<u64, Vec<u64>>, frame: u64, level: nat) -> bool
    decreases level,
{
    &&& holds_table(tables, frame)
    &&& forall|i: int|
        0 <= i < 512 ==> (PageTableEntry(#[trigger] tables[frame]@[i]).kind() == EntryKind::Table
            ==> level > 1 && readable(
            tables,
            PageTableEntry(tables[frame]@[i]).spec_phys(),
            (level - 1) as nat,
        ))
}

/// The frames that the entries given link to, in the order of the entries.
pub open spec fn spec_links(entries: Seq<u64>) -> Seq<PhysicalAddress>
    decreases entries.len(),
{
    if entries.len() == 0 {
        Seq::empty()
    } else {
        let rest = spec_links(entries.drop_last());
        if PageTableEntry(entries.last()).kind() == EntryKind::Table {
            rest.push(PhysicalAddress(PageTableEntry(entries.last()).spec_phys()))
        } else {
            rest
        }
    }
}

/// The frames of the tables that the entries of one table link to: what
/// has to be read next.
pub fn links_of(entries: &[u64]) -> (r: Vec<PhysicalAddress>)
    ensures
        r@ == spec_links(entries@),
{
    let mut out: Vec<PhysicalAddress> = Vec::new();
    let mut i: usize = 0;
    while i < entries.len()
        invariant
            i <= entries@.len(),
            out@ == spec_links(entries@.take(i as int)),
        decreases entries@.len() - i,
    {
        let entry = PageTableEntry(entries[i]);
        proof {
            assert(entries@.take(i + 1).drop_last() =~= entries@.take(i as int));
        }
        if entry.valid() && !(entry.is_read() || entry.is_write() || entry.is_exec()) {
            out.push(entry.phys());
        }
        i += 1;
    }
    proof {
        assert(entries@.take(entries@.len() as int) =~= entries@);
    }
    out
}

impl PageTable {
    /// Whether this table and those below it hold what `tables` holds from
    /// `frame` down: the same entries, and below each link the table at the
    /// frame that the link names.
    pub open spec fn mirrors(self, tables: Map<u64, Vec<u64>>, frame: u64, level: nat) -> bool
        decreases level,
    {
        &&& holds_table(tables, frame)
        &&& self.slots@.len() == 512
        &&& forall|i: int|
            0 <= i < 512 ==> {
                let slot = #[trigger] self.slots@[i];
                &&& slot.entry.0 == tables[frame]@[i]
                &&& match slot.next {
                    Some(b) => level > 1 && slot.entry.kind() == EntryKind::Table && (*b).mirrors(
                        tables,
                        slot.entry.spec_phys(),
                        (level - 1) as nat,
                    ),
                    None => slot.entry.kind() != EntryKind::Table,
                }
            }
    }

    /// Builds the table of `level` that lies at `frame`, with all that
    /// hangs below it, from the entries in `tables`. There is none where a
    /// table that is linked to is missing or has not 512 entries, and
    /// where a table of level 1 links on.
    pub fn from_memory(tables: &BTreeMap<u64, Vec<u64>>, frame: u64, level: usize) -> (r: Option<
        PageTable,
    >)
        requires
            1 <= level <= 5,
        ensures
            r is Some <==> readable(tables@, frame, level as nat),
            r is Some ==> r->0.mirrors(tables@, frame, level as nat) && r->0.wf(level as nat),
        decreases level,
    {
        let entries = match tables.get(&frame) {
            Some(e) => e,
            None => {
                return None;
            },
        };
        if entries.len() != 512 {
            return None;
        }
        let mut slots: Vec<Slot> = Vec::new();
        let mut i: usize = 0;
        while i < 512
            invariant
                i <= 512,
                1 <= level <= 5,
                holds_table(tables@, frame),
                entries@ == tables@[frame]@,
                slots@.len() == i,
                forall|j: int|
                    0 <= j < i ==> {
                        let slot = #[trigger] slots@[j];
                        &&& slot.entry.0 == entries@[j]
                        &&& match slot.next {
                            Some(b) => level > 1 && slot.entry.kind() == EntryKind::Table
                                && (*b).mirrors(
                                tables@,
                                slot.entry.spec_phys(),
                                (level - 1) as nat,
                            ) && (*b).wf((level - 1) as nat),
                            None => slot.entry.kind() != EntryKind::Table,
                        }
                    },
                forall|j: int|
                    0 <= j < i ==> (PageTableEntry(#[trigger] entries@[j]).kind()
                        == EntryKind::Table ==> level > 1 && readable(
                        tables@,
                        PageTableEntry(entries@[j]).spec_phys(),
                        (level - 1) as nat,
                    )),
            decreases 512 - i,
        {
            let entry = PageTableEntry(entries[i]);
            let links = entry.valid() && !(entry.is_read() || entry.is_write() || entry.is_exec());
            if links {
                if level == 1 {
                    return None;
                }
                match PageTable::from_memory(tables, entry.phys().0, level - 1) {
                    Some(child) => {
                        slots.push(Slot { entry, next: Some(Box::new(child)) });
                    },
                    None => {
                        return None;
                    },
                }
            } else {
                slots.push(Slot { entry, next: None });
            }
            i += 1;
        }
        let table = PageTable { slots };
        proof {
            assert forall|j: int| 0 <= j < 512 implies match (#[trigger] table.slots@[j]).next {
                Some(b) => level > 1 && table.slots@[j].entry.kind() == EntryKind::Table
                    && (*b).wf((level - 1) as nat),
                None => table.slots@[j].entry.kind() != EntryKind::Table,
            } by {}
        }
        Some(table)
    }
}

/// Where the hardware's walk for `vaddr` ends, in the tables that `tables`
/// holds, from the table of `level` at `frame` on.
pub open spec fn memory_walk(
    tables: Map<u64, Vec<u64>>,
    frame: u64,
    vaddr: VirtualAddress,
    level: nat,
) -> Walk
    decreases level,
{
    let entry = PageTableEntry(tables[frame]@[vaddr.spec_vpn(level as int)]);
    if level > 1 && entry.kind() == EntryKind::Table {
        memory_walk(tables, entry.spec_phys(), vaddr, (level - 1) as nat)
    } else {
        Walk { entry, level }
    }
}

/// Tables that were taken over walk as the tables in memory do: for every
/// address the walk ends at the same entry at the same level.
pub proof fn law_adopted_walks_as_memory(
    table: PageTable,
    tables: Map<u64, Vec<u64>>,
    frame: u64,
    vaddr: VirtualAddress,
    level: nat,
)
    requires
        table.mirrors(tables, frame, level),
        1 <= level <= 5,
    ensures
        table.walk(vaddr, level) == memory_walk(tables, frame, vaddr, level),
    decreases level,
{
    crate::mem::lemma_vpn_range(vaddr, level as int);
    let slot = table.slots@[vaddr.spec_vpn(level as int)];
    match slot.next {
        Some(b) => {
            law_adopted_walks_as_memory(
                *b,
                tables,
                slot.entry.spec_phys(),
                vaddr,
                (level - 1) as nat,
            );
        },
        None => {},
    }
}


} // verus!
