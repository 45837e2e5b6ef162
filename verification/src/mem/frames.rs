//! The contents of the frames that hold data.
use std::collections::BTreeMap;
use vstd::prelude::*;
use vstd::std_specs::btree::*;
use crate::mem::PhysicalAddress;

verus! {

broadcast use {vstd::std_specs::btree::group_btree_axioms, vstd::laws_cmp::group_laws_cmp};

/// The frames that hold data, each known by the address of its first byte.
pub struct PhysicalMemory {
    frames: BTreeMap<u64, Vec<u8>>,
}

impl PhysicalMemory {
    /// The bytes of each frame.
    pub closed spec fn frames(self) -> Map<u64, Seq<u8>> {
        Map::new(|a: u64| self.frames@.contains_key(a), |a: u64| self.frames@[a]@)
    }

    /// Memory without any frame.
    pub fn new() -> (r: Self)
        ensures
            r.frames() == Map::<u64, Seq<u8>>::empty(),
    {
        let r = PhysicalMemory { frames: BTreeMap::new() };
        assert(r.frames() =~= Map::<u64, Seq<u8>>::empty());
        r
    }

    /// Whether there is a frame at `addr`.
    pub fn has_frame(&self, addr: PhysicalAddress) -> (r: bool)
        ensures
            r == self.frames().contains_key(addr.0),
    {
        self.frames.contains_key(&addr.0)
    }

    /// The bytes of the frame at `addr`.
    pub fn frame(&self, addr: PhysicalAddress) -> (r: Option<&Vec<u8>>)
        ensures
            r is Some == self.frames().contains_key(addr.0),
            r is Some ==> r->0@ == self.frames()[addr.0],
    {
        self.frames.get(&addr.0)
    }

    /// Puts a frame with the bytes given at `addr`, in place of any that is
    /// there.
    pub fn add_frame(&mut self, addr: PhysicalAddress, bytes: Vec<u8>)
        ensures
            final(self).frames() == old(self).frames().insert(addr.0, bytes@),
    {
        self.frames.insert(addr.0, bytes);
        assert(self.frames() =~= old(self).frames().insert(addr.0, bytes@));
    }

    /// Takes the frame at `addr` away and returns its bytes.
    pub fn remove_frame(&mut self, addr: PhysicalAddress) -> (r: Option<Vec<u8>>)
        ensures
            r is Some == old(self).frames().contains_key(addr.0),
            r is Some ==> r->0@ == old(self).frames()[addr.0],
            final(self).frames() == old(self).frames().remove(addr.0),
    {
        let r = self.frames.remove(&addr.0);
        assert(self.frames() =~= old(self).frames().remove(addr.0));
        r
    }

    /// The byte at `offset` in the frame at `addr`, if there is one.
    pub fn read_byte(&self, addr: PhysicalAddress, offset: usize) -> (r: Option<u8>)
        ensures
            r == if self.frames().contains_key(addr.0) && offset < self.frames()[addr.0].len() {
                Some(self.frames()[addr.0][offset as int])
            } else {
                None
            },
    {
        match self.frames.get(&addr.0) {
            Some(bytes) => {
                if offset < bytes.len() {
                    Some(bytes[offset])
                } else {
                    None
                }
            },
            None => None,
        }
    }

    /// Writes `val` at `offset` in the frame at `addr`. Answers whether
    /// there is such a byte; if not, nothing changes.
    pub fn write_byte(&mut self, addr: PhysicalAddress, offset: usize, val: u8) -> (r: bool)
        ensures
            r == (old(self).frames().contains_key(addr.0) && offset < old(
                self,
            ).frames()[addr.0].len()),
            r ==> final(self).frames() == old(self).frames().insert(
                addr.0,
                old(self).frames()[addr.0].update(offset as int, val),
            ),
            !r ==> final(self).frames() == old(self).frames(),
    {
        match self.frames.remove(&addr.0) {
            Some(mut bytes) => {
                let ok = offset < bytes.len();
                if ok {
                    bytes.set(offset, val);
                }
                self.frames.insert(addr.0, bytes);
                if ok {
                    assert(self.frames() =~= old(self).frames().insert(
                        addr.0,
                        old(self).frames()[addr.0].update(offset as int, val),
                    ));
                } else {
                    assert(self.frames() =~= old(self).frames());
                }
                ok
            },
            None => {
                assert(self.frames() =~= old(self).frames());
                false
            },
        }
    }
}

} // verus!
