//! Mapping and unmapping a run of pages.
use vstd::prelude::*;
use crate::mem::{PhysicalAddress, VirtualAddress};
use crate::paging::entry::{lemma_empty_entry, lemma_leaf, EntryKind, PagePermissions, PageTableEntry};
use crate::paging::root::{lemma_put_found, lemma_put_keeps, PageError, RootTable};
use crate::paging::size::PageSize;
use crate::paging::table::{agree_down, lemma_walk_level, lemma_walk_same_slot, Walk};

verus! {

/// A page of a run that could not be handled, and why.
#[derive(Clone, Copy, Debug, PartialEq, Eq, Structural)]
pub struct RangeError {
    pub page: u64,
    pub error: PageError,
}

/// Number of 4 KiB pages that `bytes` bytes touch, counted from a page
/// boundary.
pub open spec fn pages_of(bytes: u64) -> nat {
    ((bytes + 0xfff) / 0x1000) as nat
}

/// The address of page `index` of the run that starts at `base`.
pub open spec fn page_at(base: u64, index: int) -> u64 {
    (base + index * 0x1000) as u64
}

/// A page and the frame it is to be mapped to.
pub ghost struct PagePair {
    pub vaddr: VirtualAddress,
    pub frame: u64,
}

/// The pages of the run from `vaddr` on with the frames from `paddr` on.
pub open spec fn run_pairs(vaddr: u64, paddr: u64, count: nat) -> Seq<PagePair> {
    Seq::new(
        count,
        |i: int| PagePair { vaddr: VirtualAddress(page_at(vaddr, i)), frame: page_at(paddr, i) },
    )
}

/// Whether `next` is what `cur` becomes when the page of `pair` is mapped
/// in it, as a page of the smallest size, with success.
pub open spec fn map_step(
    next: RootTable,
    cur: RootTable,
    pair: PagePair,
    perms: PagePermissions,
) -> bool {
    &&& cur.wf()
    &&& cur.spec_map_result(pair.vaddr, PageSize::Kilopage) is Ok
    &&& next.is_put(cur, pair.vaddr, PageTableEntry::leaf(pair.frame, perms), 1)
}

/// Whether `next` is what `cur` becomes when the page at `vaddr` is
/// unmapped in it with success.
pub open spec fn unmap_step(next: RootTable, cur: RootTable, vaddr: VirtualAddress) -> bool {
    &&& cur.wf()
    &&& cur.spec_unmap_result(vaddr, PageSize::Kilopage) is Ok
    &&& next.is_put(cur, vaddr, PageTableEntry(0), 1)
}

/// Whether `states` are the address spaces that mapping the first `n` of
/// `pages` one after the other goes through, from `before` on: each
/// mapping, of a page of the smallest size, has success and leads to the
/// next state.
pub open spec fn is_map_chain(
    states: Seq<RootTable>,
    before: RootTable,
    pages: Seq<PagePair>,
    perms: PagePermissions,
    n: nat,
) -> bool {
    &&& states.len() == n + 1
    &&& states[0] == before
    &&& forall|k: int|
        0 <= k < n ==> #[trigger] map_step(states[k + 1], states[k], pages[k], perms)
}

/// Whether `after` is what `before` becomes when the first `n` of `pages`
/// are mapped one after the other as pages of the smallest size, each
/// mapping with success.
pub open spec fn mapped_in_turn(
    after: RootTable,
    before: RootTable,
    pages: Seq<PagePair>,
    perms: PagePermissions,
    n: nat,
) -> bool {
    exists|states: Seq<RootTable>| #[trigger]
        is_map_chain(states, before, pages, perms, n) && states[n as int] == after
}

/// Whether `states` are the address spaces that unmapping the first `n`
/// pages from `vaddr` on one after the other goes through, from `before`
/// on: each unmapping has success and leads to the next state.
pub open spec fn is_unmap_chain(states: Seq<RootTable>, before: RootTable, vaddr: u64, n: nat) -> bool {
    &&& states.len() == n + 1
    &&& states[0] == before
    &&& forall|k: int|
        0 <= k < n ==> #[trigger] unmap_step(
            states[k + 1],
            states[k],
            VirtualAddress(page_at(vaddr, k)),
        )
}

/// Whether `after` is what `before` becomes when the first `n` pages from
/// `vaddr` on are unmapped one after the other, each with success.
pub open spec fn unmapped_in_turn(after: RootTable, before: RootTable, vaddr: u64, n: nat) -> bool {
    exists|states: Seq<RootTable>| #[trigger]
        is_unmap_chain(states, before, vaddr, n) && states[n as int] == after
}

/// The frames that unmapping the first `count` pages from `vaddr` on sets
/// free: those of the pages whose mapping is marked for that, in order.
pub open spec fn released_of(root: RootTable, vaddr: u64, count: nat) -> Seq<PhysicalAddress>
    decreases count,
{
    if count == 0 {
        Seq::empty()
    } else {
        let entry = root.lookup(VirtualAddress(page_at(vaddr, count - 1))).entry;
        let rest = released_of(root, vaddr, (count - 1) as nat);
        if entry.spec_dealloc() {
            rest.push(PhysicalAddress(entry.spec_phys()))
        } else {
            rest
        }
    }
}

impl RootTable {
    /// Whether the first `count` pages from `vaddr` on are mapped here to
    /// the frames from `paddr` on, with `perms`.
    pub open spec fn maps_run(self, vaddr: u64, paddr: u64, perms: PagePermissions, count: nat) -> bool {
        forall|i: int|
            0 <= i < count ==> #[trigger] self.lookup(VirtualAddress(page_at(vaddr, i))) == (Walk {
                entry: PageTableEntry::leaf(page_at(paddr, i), perms),
                level: 1,
            })
    }

    /// Whether nothing is mapped here at the first `count` pages from
    /// `vaddr` on: each walk ends at an empty entry at the lowest level.
    pub open spec fn run_is_empty(self, vaddr: u64, count: nat) -> bool {
        forall|i: int|
            0 <= i < count ==> #[trigger] self.lookup(VirtualAddress(page_at(vaddr, i))) == (Walk {
                entry: PageTableEntry(0),
                level: 1,
            })
    }

    /// Whether every address that shares its page with none of the first
    /// `count` pages from `vaddr` on is looked up here as in `before`.
    pub open spec fn same_outside_run(self, before: RootTable, vaddr: u64, count: nat) -> bool {
        forall|other: VirtualAddress|
            (forall|i: int|
                0 <= i < count ==> agree_down(
                    other,
                    VirtualAddress(#[trigger] page_at(vaddr, i)),
                    self.levels(),
                    1,
                ) > 1) ==> #[trigger] self.lookup(other) == before.lookup(other)
    }

    /// Maps the 4 KiB pages that the `bytes` bytes from `vaddr` on touch to
    /// the frames from `paddr` on, one after the other.
    ///
    /// Stops at the first page that cannot be mapped, and says which and
    /// why. The pages before it stay mapped, and nothing else was done: the
    /// address space is as the mappings before that page left it.
    pub fn map_range(
        &mut self,
        vaddr: VirtualAddress,
        paddr: PhysicalAddress,
        perms: PagePermissions,
        bytes: u64,
    ) -> (r: Result<(), RangeError>)
        requires
            old(self).wf(),
            perms.is_leaf(),
            vaddr.0 + bytes + 0xfff <= u64::MAX,
            paddr.0 + bytes + 0xfff <= u64::MAX,
        ensures
            final(self).wf(),
            final(self).keeps_mappings(*old(self)),
            r is Ok ==> final(self).maps_run(vaddr.0, paddr.0, perms, pages_of(bytes)),
            r is Ok ==> mapped_in_turn(
                *final(self),
                *old(self),
                run_pairs(vaddr.0, paddr.0, pages_of(bytes)),
                perms,
                pages_of(bytes),
            ),
            r is Err ==> {
                &&& r->Err_0.page < pages_of(bytes)
                &&& mapped_in_turn(
                    *final(self),
                    *old(self),
                    run_pairs(vaddr.0, paddr.0, pages_of(bytes)),
                    perms,
                    r->Err_0.page as nat,
                )
                &&& final(self).maps_run(vaddr.0, paddr.0, perms, r->Err_0.page as nat)
                &&& final(self).spec_map_result(
                    VirtualAddress(page_at(vaddr.0, r->Err_0.page as int)),
                    PageSize::Kilopage,
                ) == Err::<(), PageError>(r->Err_0.error)
            },
    {
        let count: u64 = (bytes + 0xfff) / 0x1000;
        let mut i: u64 = 0;
        let ghost mut states: Seq<RootTable> = seq![*self];
        while i < count
            invariant
                i <= count,
                count == pages_of(bytes),
                vaddr.0 + bytes + 0xfff <= u64::MAX,
                paddr.0 + bytes + 0xfff <= u64::MAX,
                perms.is_leaf(),
                self.wf(),
                self.keeps_mappings(*old(self)),
                self.maps_run(vaddr.0, paddr.0, perms, i as nat),
                is_map_chain(
                    states,
                    *old(self),
                    run_pairs(vaddr.0, paddr.0, pages_of(bytes)),
                    perms,
                    i as nat,
                ),
                states[i as int] == *self,
            decreases count - i,
        {
            let va = VirtualAddress::new(vaddr.0 + i * 0x1000);
            let pa = PhysicalAddress::new(paddr.0 + i * 0x1000);
            let ghost before = *self;
            proof {
                if self.levels() >= 1 {
                    lemma_walk_level(self.tree(), va, self.levels());
                }
                lemma_leaf(pa.0, perms);
            }
            match self.map(va, pa, perms, PageSize::Kilopage) {
                Err(error) => {
                    return Err(RangeError { page: i, error });
                },
                Ok(()) => {},
            }
            proof {
                let leaf = PageTableEntry::leaf(pa.0, perms);
                let pairs = run_pairs(vaddr.0, paddr.0, pages_of(bytes));
                assert(pairs[i as int].vaddr == va && pairs[i as int].frame == pa.0);
                let longer = states.push(*self);
                assert(map_step(longer[i + 1], longer[i as int], pairs[i as int], perms));
                assert forall|k: int| 0 <= k < i + 1 implies #[trigger] map_step(
                    longer[k + 1],
                    longer[k],
                    pairs[k],
                    perms,
                ) by {
                    if k < i {
                        assert(longer[k] == states[k] && longer[k + 1] == states[k + 1]);
                        assert(map_step(states[k + 1], states[k], pairs[k], perms));
                    }
                }
                assert(longer[0] == states[0]);
                states = longer;
                lemma_put_found(*self, before, va, leaf, 1);
                lemma_put_keeps(*self, before, va, leaf, 1);
                assert forall|j: int| 0 <= j < i + 1 implies #[trigger] self.lookup(
                    VirtualAddress(page_at(vaddr.0, j)),
                ) == (Walk { entry: PageTableEntry::leaf(page_at(paddr.0, j), perms), level: 1 }) by {
                    if j < i {
                        lemma_leaf(page_at(paddr.0, j), perms);
                        assert(before.lookup(VirtualAddress(page_at(vaddr.0, j))).entry.kind()
                            == EntryKind::Page);
                    }
                }
            }
            i += 1;
        }
        Ok(())
    }

    /// Unmaps the 4 KiB pages that the `bytes` bytes from `vaddr` on touch,
    /// one after the other, and answers with the frames to hand back to the
    /// allocator.
    ///
    /// Stops at the first page that cannot be unmapped, and says which and
    /// why. The pages before it stay unmapped, and nothing else was done.
    pub fn unmap_range(&mut self, vaddr: VirtualAddress, bytes: u64) -> (r: Result<
        Vec<PhysicalAddress>,
        RangeError,
    >)
        requires
            old(self).wf(),
            old(self).levels() >= 1,
            vaddr.0 + bytes + 0xfff <= u64::MAX,
        ensures
            final(self).wf(),
            final(self).spec_mode() == old(self).spec_mode(),
            r is Ok ==> {
                &&& unmapped_in_turn(*final(self), *old(self), vaddr.0, pages_of(bytes))
                &&& final(self).run_is_empty(vaddr.0, pages_of(bytes))
                &&& final(self).same_outside_run(*old(self), vaddr.0, pages_of(bytes))
                &&& r->Ok_0@ == released_of(*old(self), vaddr.0, pages_of(bytes))
            },
            r is Err ==> {
                &&& r->Err_0.page < pages_of(bytes)
                &&& unmapped_in_turn(*final(self), *old(self), vaddr.0, r->Err_0.page as nat)
                &&& final(self).run_is_empty(vaddr.0, r->Err_0.page as nat)
                &&& final(self).same_outside_run(*old(self), vaddr.0, r->Err_0.page as nat)
                &&& final(self).spec_unmap_result(
                    VirtualAddress(page_at(vaddr.0, r->Err_0.page as int)),
                    PageSize::Kilopage,
                ) == Err::<Option<PhysicalAddress>, PageError>(r->Err_0.error)
            },
    {
        let count: u64 = (bytes + 0xfff) / 0x1000;
        let mut released: Vec<PhysicalAddress> = Vec::new();
        let mut i: u64 = 0;
        let ghost mut states: Seq<RootTable> = seq![*self];
        while i < count
            invariant
                i <= count,
                count == pages_of(bytes),
                vaddr.0 + bytes + 0xfff <= u64::MAX,
                self.wf(),
                self.levels() >= 1,
                self.spec_mode() == old(self).spec_mode(),
                self.run_is_empty(vaddr.0, i as nat),
                self.same_outside_run(*old(self), vaddr.0, i as nat),
                released@ == released_of(*old(self), vaddr.0, i as nat),
                is_unmap_chain(states, *old(self), vaddr.0, i as nat),
                states[i as int] == *self,
            decreases count - i,
        {
            let va = VirtualAddress::new(vaddr.0 + i * 0x1000);
            let ghost before = *self;
            proof {
                lemma_walk_level(self.tree(), va, self.levels());
            }
            match self.unmap(va, PageSize::Kilopage) {
                Err(error) => {
                    return Err(RangeError { page: i, error });
                },
                Ok(freed) => {
                    proof {
                        let longer = states.push(*self);
                        assert(unmap_step(longer[i + 1], longer[i as int], va));
                        assert forall|k: int| 0 <= k < i + 1 implies #[trigger] unmap_step(
                            longer[k + 1],
                            longer[k],
                            VirtualAddress(page_at(vaddr.0, k)),
                        ) by {
                            if k < i {
                                assert(longer[k] == states[k] && longer[k + 1] == states[k + 1]);
                                assert(unmap_step(
                                    states[k + 1],
                                    states[k],
                                    VirtualAddress(page_at(vaddr.0, k)),
                                ));
                            }
                        }
                        assert(longer[0] == states[0]);
                        states = longer;
                        lemma_empty_entry();
                        // The page was mapped, so it shares its slot with none
                        // of the pages that are empty by now.
                        assert forall|k: int| 0 <= k < i implies agree_down(
                            va,
                            VirtualAddress(#[trigger] page_at(vaddr.0, k)),
                            before.levels(),
                            1,
                        ) > 1 by {
                            let vk = VirtualAddress(page_at(vaddr.0, k));
                            assert(before.lookup(vk) == (Walk { entry: PageTableEntry(0), level: 1 }));
                            crate::paging::table::lemma_agree_bounds(va, vk, before.levels(), 1);
                            if agree_down(va, vk, before.levels(), 1) <= 1 {
                                lemma_walk_same_slot(before.tree(), vk, va, before.levels(), 1);
                            }
                        }
                        assert(before.lookup(va) == old(self).lookup(va));
                        lemma_put_found(*self, before, va, PageTableEntry(0), 1);
                        assert forall|j: int| 0 <= j < i + 1 implies #[trigger] self.lookup(
                            VirtualAddress(page_at(vaddr.0, j)),
                        ) == (Walk { entry: PageTableEntry(0), level: 1 }) by {
                            let vj = VirtualAddress(page_at(vaddr.0, j));
                            crate::paging::table::lemma_agree_bounds(vj, va, before.levels(), 1);
                            if j < i {
                                assert(before.lookup(vj) == (Walk {
                                    entry: PageTableEntry(0),
                                    level: 1,
                                }));
                            }
                        }
                        assert forall|other: VirtualAddress|
                            (forall|k: int|
                                0 <= k < i + 1 ==> agree_down(
                                    other,
                                    VirtualAddress(#[trigger] page_at(vaddr.0, k)),
                                    self.levels(),
                                    1,
                                ) > 1) implies #[trigger] self.lookup(other) == old(self).lookup(
                            other,
                        ) by {
                            assert(agree_down(
                                other,
                                VirtualAddress(page_at(vaddr.0, i as int)),
                                self.levels(),
                                1,
                            ) > 1);
                            assert(before.lookup(other) == old(self).lookup(other));
                        }
                    }
                    match freed {
                        Some(frame) => {
                            released.push(frame);
                        },
                        None => {},
                    }
                },
            }
            i += 1;
        }
        Ok(released)
    }
}

} // verus!
