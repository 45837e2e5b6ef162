//! A disk kept in memory.
use vstd::prelude::*;
use crate::dev::blockdev::disk::{overwritten, Disk};

verus! {

/// A disk whose blocks are bytes in memory.
pub struct RamDisk {
    buffer: Vec<u8>,
    blocksize: usize,
    blocks: usize,
}

impl RamDisk {
    /// A disk of `blocks` blocks of `blocksize` bytes, all zero.
    pub fn new(blocks: usize, blocksize: usize) -> (r: Self)
        requires
            blocks * blocksize <= usize::MAX,
        ensures
            r.sound(),
            r.spec_blocks() == blocks,
            r.spec_blocksize() == blocksize,
            r.spec_chs_end() == 0xffff_ffff,
            r.contents() == Seq::new((blocks * blocksize) as nat, |i: int| 0u8),
    {
        assert(blocksize * blocks == blocks * blocksize) by (nonlinear_arith);
        let totalsize: usize = blocksize * blocks;
        let mut buffer: Vec<u8> = Vec::new();
        let mut i: usize = 0;
        while i < totalsize
            invariant
                i <= totalsize,
                buffer@.len() == i,
                forall|j: int| 0 <= j < i ==> buffer@[j] == 0u8,
            decreases totalsize - i,
        {
            buffer.push(0);
            i += 1;
        }
        assert(buffer@ =~= Seq::new((blocks * blocksize) as nat, |i: int| 0u8));
        Self { buffer, blocksize, blocks }
    }
}

impl Disk for RamDisk {
    closed spec fn contents(&self) -> Seq<u8> {
        self.buffer@
    }

    closed spec fn spec_blocksize(&self) -> nat {
        self.blocksize as nat
    }

    closed spec fn spec_blocks(&self) -> nat {
        self.blocks as nat
    }

    closed spec fn spec_chs_end(&self) -> u32 {
        0xffff_ffff
    }

    closed spec fn sound(&self) -> bool {
        self.buffer@.len() == self.blocks * self.blocksize && self.buffer@.len() <= usize::MAX
    }

    proof fn lemma_sound(&self) {
    }

    fn blocks(&self) -> (r: usize) {
        self.blocks
    }

    fn blocksize(&self) -> (r: usize) {
        self.blocksize
    }

    fn chs_end(&self) -> (r: u32) {
        0xffff_ffff
    }

    fn read(&self, buffer: &mut [u8], block: usize) {
        let total: usize = self.buffer.len();
        assert(block * self.blocksize <= self.blocks * self.blocksize) by (nonlinear_arith)
            requires
                block < self.blocks,
        ;
        let base: usize = block * self.blocksize;
        let n: usize = buffer.len();
        let mut index: usize = 0;
        while index < n
            invariant
                index <= n,
                buffer@.len() == n,
                base + n <= self.buffer@.len(),
                self.buffer@.len() <= usize::MAX,
                forall|j: int| 0 <= j < index ==> buffer@[j] == self.buffer@[base + j],
            decreases n - index,
        {
            buffer[index] = self.buffer[base + index];
            index += 1;
        }
        assert(buffer@ =~= self.buffer@.subrange(base as int, base + n));
    }

    fn write(&mut self, data: &[u8], block: usize) {
        let total: usize = self.buffer.len();
        assert(block * self.blocksize <= self.blocks * self.blocksize) by (nonlinear_arith)
            requires
                block < self.blocks,
        ;
        let base: usize = block * self.blocksize;
        let n: usize = data.len();
        let ghost before = self.buffer@;
        let mut index: usize = 0;
        while index < n
            invariant
                index <= n,
                data@.len() == n,
                base + n <= self.buffer@.len(),
                self.buffer@.len() <= usize::MAX,
                self.buffer@.len() == before.len(),
                self.blocks == old(self).blocks,
                self.blocksize == old(self).blocksize,
                forall|j: int| 0 <= j < index ==> self.buffer@[base + j] == data@[j],
                forall|j: int|
                    0 <= j < before.len() && !(base <= j < base + index) ==> self.buffer@[j]
                        == before[j],
            decreases n - index,
        {
            self.buffer.set(base + index, data[index]);
            index += 1;
        }
        assert(self.buffer@ =~= overwritten(before, base as int, data@));
    }
}

} // verus!
