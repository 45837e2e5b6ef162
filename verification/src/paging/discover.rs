//! Finding what is free in the upper half of an address space.
use vstd::prelude::*;
use crate::mem::VirtualAddress;
use crate::paging::entry::{Entry, EntryKind};
use crate::paging::root::RootTable;
use crate::paging::size::PageSize;
use crate::paging::table::lemma_walk_level;

verus! {

/// Where the search for free address space ends: the start of the
/// kernel's own image.
pub const UPPER_HALF_END: u64 = 0xffff_ffff_8000_0000;

/// A run of addresses.
#[derive(Clone, Copy, Debug, PartialEq, Eq, Structural)]
pub struct Region {
    pub addr: u64,
    pub size: u64,
}

/// How far the entry that a walk for `addr` ends at reaches: the bytes of a
/// page of the level at which the walk ends.
pub open spec fn stride(root: RootTable, addr: u64) -> nat {
    PageSize::spec_from_level(root.lookup(VirtualAddress(addr)).level).spec_bytes()
}

/// The regions from `addr` up to `limit` at which nothing is mapped. The
/// search goes from entry to entry: each entry found accounts for as many
/// bytes as a page of its level has, and counts as free if it is invalid.
/// It ends at `limit`, or where the next step would pass the end of the
/// address space.
pub open spec fn free_regions(root: RootTable, addr: u64, limit: u64) -> Seq<Region>
    decreases
            (if addr < limit {
                limit - addr
            } else {
                0
            }),
{
    if addr >= limit || stride(root, addr) == 0 {
        Seq::empty()
    } else {
        let here = if root.lookup(VirtualAddress(addr)).entry.kind() == EntryKind::Invalid {
            seq![Region { addr, size: stride(root, addr) as u64 }]
        } else {
            Seq::empty()
        };
        if addr + stride(root, addr) > u64::MAX {
            here
        } else {
            here + free_regions(root, (addr + stride(root, addr)) as u64, limit)
        }
    }
}

/// Lists the regions from `base` up to the kernel's image at which nothing
/// is mapped, in rising order. These are what the allocator of virtual
/// addresses may hand out.
pub fn find_upperhalf_mem(root: &RootTable, base: u64) -> (r: Vec<Region>)
    requires
        root.wf(),
        root.levels() >= 1,
    ensures
        r@ == free_regions(*root, base, UPPER_HALF_END),
{
    let mut found: Vec<Region> = Vec::new();
    let mut addr: u64 = base;
    let mut done: bool = false;
    while addr < UPPER_HALF_END && !done
        invariant
            root.wf(),
            root.levels() >= 1,
            !done ==> found@ + free_regions(*root, addr, UPPER_HALF_END) == free_regions(
                *root,
                base,
                UPPER_HALF_END,
            ),
            done ==> found@ == free_regions(*root, base, UPPER_HALF_END),
        decreases
                (if addr < UPPER_HALF_END && !done {
                    UPPER_HALF_END - addr
                } else {
                    0
                }),
    {
        let vaddr = VirtualAddress::new(addr);
        proof {
            lemma_walk_level(root.tree(), vaddr, root.levels());
        }
        let (entry, level) = root.read(vaddr);
        let size: u64 = PageSize::from_level(level).bytes();
        assert(0x1000 <= size <= 0x1000_0000_0000);
        assert(size == stride(*root, addr));
        let ghost before = found@;
        match entry {
            Entry::Invalid => {
                found.push(Region { addr, size });
            },
            _ => {},
        }
        if addr > u64::MAX - size {
            proof {
                assert(before + free_regions(*root, addr, UPPER_HALF_END) =~= found@);
            }
            done = true;
        } else {
            proof {
                assert(before + free_regions(*root, addr, UPPER_HALF_END) =~= found@ + free_regions(
                    *root,
                    (addr + size) as u64,
                    UPPER_HALF_END,
                ));
            }
            addr += size;
        }
    }
    proof {
        assert(found@ + Seq::<Region>::empty() =~= found@);
    }
    found
}

} // verus!
