//! The record of the pages that are on disk.
//!
//! A page is named by its first address. A page of the kernel's half is
//! known by that address alone; any other page by the process that owns it
//! and that address. The two kinds are kept apart. Beside the records stands the list of the partitions that
//! may take swapped pages.
use std::collections::BTreeMap;
use vstd::prelude::*;
use vstd::std_specs::btree::*;
use crate::mem::VirtualAddress;

verus! {

broadcast use {vstd::std_specs::btree::group_btree_axioms, vstd::laws_cmp::group_laws_cmp};

/// Where a swapped page lies: the partition and the first block.
#[derive(Clone, Copy, Debug, PartialEq, Eq, Structural)]
pub struct SwapLocation {
    pub partition: usize,
    pub block: usize,
}

/// Why the swap records refused a change.
#[derive(Clone, Copy, Debug, PartialEq, Eq, Structural)]
pub enum SwapError {
    /// The page has a record already.
    RecordExists,
    /// The page has no record.
    NoRecord,
}

/// The records of the swapped pages and the partitions to swap to.
pub struct SwapManager {
    user: BTreeMap<(u128, u64), SwapLocation>,
    kernel: BTreeMap<u64, SwapLocation>,
    parts: Vec<usize>,
}

impl SwapManager {
    /// The records of the pages that belong to a process.
    pub closed spec fn user_records(self) -> Map<(u128, u64), SwapLocation> {
        self.user@
    }

    /// The records of the kernel's pages.
    pub closed spec fn kernel_records(self) -> Map<u64, SwapLocation> {
        self.kernel@
    }

    /// The partitions that may take swapped pages, in the order in which
    /// they were registered.
    pub closed spec fn partitions(self) -> Seq<usize> {
        self.parts@
    }

    /// The record of the page that starts at `vaddr`, of process `procid`,
    /// if it has one.
    pub open spec fn record_of(self, procid: u128, vaddr: VirtualAddress) -> Option<SwapLocation> {
        if vaddr.0 >= 0x8000_0000_0000_0000 {
            if self.kernel_records().contains_key(vaddr.0) {
                Some(self.kernel_records()[vaddr.0])
            } else {
                None
            }
        } else {
            if self.user_records().contains_key((procid, vaddr.0)) {
                Some(self.user_records()[(procid, vaddr.0)])
            } else {
                None
            }
        }
    }

    /// The records with the one for `vaddr` of `procid` set to `entry`, or
    /// removed where `entry` is `None`.
    pub open spec fn is_changed(
        self,
        before: SwapManager,
        procid: u128,
        vaddr: VirtualAddress,
        entry: Option<SwapLocation>,
    ) -> bool {
        &&& self.partitions() == before.partitions()
        &&& if vaddr.0 >= 0x8000_0000_0000_0000 {
            &&& self.user_records() == before.user_records()
            &&& self.kernel_records() == match entry {
                Some(loc) => before.kernel_records().insert(vaddr.0, loc),
                None => before.kernel_records().remove(vaddr.0),
            }
        } else {
            &&& self.kernel_records() == before.kernel_records()
            &&& self.user_records() == match entry {
                Some(loc) => before.user_records().insert((procid, vaddr.0), loc),
                None => before.user_records().remove((procid, vaddr.0)),
            }
        }
    }

    /// No records and no partitions.
    pub fn new() -> (r: Self)
        ensures
            r.user_records() == Map::<(u128, u64), SwapLocation>::empty(),
            r.kernel_records() == Map::<u64, SwapLocation>::empty(),
            r.partitions() == Seq::<usize>::empty(),
    {
        SwapManager { user: BTreeMap::new(), kernel: BTreeMap::new(), parts: Vec::new() }
    }

    /// Registers partition `id` as one that may take swapped pages.
    pub fn register_partition(&mut self, id: usize)
        ensures
            final(self).partitions() == old(self).partitions().push(id),
            final(self).user_records() == old(self).user_records(),
            final(self).kernel_records() == old(self).kernel_records(),
    {
        self.parts.push(id);
    }

    /// The partition that the next swapped page goes to: the one that was
    /// registered first.
    pub fn swap_target(&self) -> (r: Option<usize>)
        ensures
            r == if self.partitions().len() == 0 {
                None
            } else {
                Some(self.partitions()[0])
            },
    {
        if self.parts.len() == 0 {
            None
        } else {
            Some(self.parts[0])
        }
    }

    /// The record of the page at `vaddr` of process `procid`, if it has one.
    pub fn lookup(&self, procid: u128, vaddr: VirtualAddress) -> (r: Option<SwapLocation>)
        ensures
            r == self.record_of(procid, vaddr),
    {
        if vaddr.is_kern() {
            match self.kernel.get(&vaddr.0) {
                Some(loc) => Some(*loc),
                None => None,
            }
        } else {
            match self.user.get(&(procid, vaddr.0)) {
                Some(loc) => Some(*loc),
                None => None,
            }
        }
    }

    /// Records that the page at `vaddr` of process `procid` lies at
    /// `location`. A page that has a record keeps it, and the call fails.
    pub fn record(&mut self, procid: u128, vaddr: VirtualAddress, location: SwapLocation) -> (r:
        Result<(), SwapError>)
        ensures
            old(self).record_of(procid, vaddr) is Some ==> r == Err::<(), SwapError>(
                SwapError::RecordExists,
            ) && *final(self) == *old(self),
            old(self).record_of(procid, vaddr) is None ==> r == Ok::<(), SwapError>(())
                && final(self).is_changed(*old(self), procid, vaddr, Some(location)),
    {
        if self.lookup(procid, vaddr).is_some() {
            return Err(SwapError::RecordExists);
        }
        if vaddr.is_kern() {
            self.kernel.insert(vaddr.0, location);
        } else {
            self.user.insert((procid, vaddr.0), location);
        }
        Ok(())
    }

    /// Removes the record of the page at `vaddr` of process `procid` and
    /// returns where the page lies. The call fails where there is none.
    pub fn take(&mut self, procid: u128, vaddr: VirtualAddress) -> (r: Result<
        SwapLocation,
        SwapError,
    >)
        ensures
            old(self).record_of(procid, vaddr) is None ==> r == Err::<SwapLocation, SwapError>(
                SwapError::NoRecord,
            ) && *final(self) == *old(self),
            old(self).record_of(procid, vaddr) is Some ==> r == Ok::<SwapLocation, SwapError>(
                old(self).record_of(procid, vaddr)->0,
            ) && final(self).is_changed(*old(self), procid, vaddr, None),
    {
        if self.lookup(procid, vaddr).is_none() {
            return Err(SwapError::NoRecord);
        }
        let found = if vaddr.is_kern() {
            self.kernel.remove(&vaddr.0)
        } else {
            self.user.remove(&(procid, vaddr.0))
        };
        match found {
            Some(loc) => Ok(loc),
            None => Err(SwapError::NoRecord),
        }
    }
}

/// Sets up the swap records: none yet, and no partition to swap to.
pub fn init_swap() -> (r: SwapManager)
    ensures
        r.user_records() == Map::<(u128, u64), SwapLocation>::empty(),
        r.kernel_records() == Map::<u64, SwapLocation>::empty(),
        r.partitions() == Seq::<usize>::empty(),
{
    SwapManager::new()
}

/// After a change to one page's record, that page has the new record and
/// every other page has the record it had.
pub proof fn lemma_changed(
    after: SwapManager,
    before: SwapManager,
    procid: u128,
    vaddr: VirtualAddress,
    entry: Option<SwapLocation>,
)
    requires
        after.is_changed(before, procid, vaddr, entry),
    ensures
        after.record_of(procid, vaddr) == entry,
        forall|p: u128, v: VirtualAddress|
            !(v == vaddr && (p == procid || v.0 >= 0x8000_0000_0000_0000))
                ==> #[trigger] after.record_of(p, v) == before.record_of(p, v),
{
}

} // verus!
