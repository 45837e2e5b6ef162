//! A partition: a run of blocks on one disk.
use vstd::prelude::*;
use crate::dev::blockdev::disk::{overwritten, Disk, DiskError};

verus! {

/// Number of blocks of `blocksize` bytes that hold `bytes` bytes.
pub open spec fn blocks_for(bytes: nat, blocksize: nat) -> nat {
    if blocksize == 0 {
        0
    } else {
        ((bytes + blocksize - 1) / blocksize as int) as nat
    }
}

/// Whether `disk` has room for `bytes` bytes from the start of `block` on.
pub open spec fn disk_takes<D: Disk>(disk: D, bytes: nat, block: nat) -> bool {
    block < disk.spec_blocks() && block * disk.spec_blocksize() + bytes
        <= disk.spec_blocks() * disk.spec_blocksize()
}

/// A run of blocks on the disk `disk_id`, from block `base` on.
#[derive(Clone, Copy, Debug, PartialEq, Eq, Structural)]
pub struct Partition {
    pub disk_id: usize,
    pub blocksize: usize,
    pub blocks: usize,
    pub base: usize,
}

impl Partition {
    /// Whether `bytes` bytes from the start of `block` on stay inside the
    /// partition.
    pub open spec fn holds(self, bytes: nat, block: nat) -> bool {
        &&& self.blocksize > 0
        &&& self.base <= block
        &&& block + blocks_for(bytes, self.blocksize as nat) <= self.base + self.blocks
    }

    /// What a transfer of `bytes` bytes at `block` answers.
    pub open spec fn transfer_result<D: Disk>(self, disk: D, bytes: nat, block: nat) -> Result<
        (),
        DiskError,
    > {
        if !self.holds(bytes, block) {
            Err(DiskError::PartitionRangeError)
        } else if !disk_takes(disk, bytes, block) {
            Err(DiskError::InvalidBlock)
        } else {
            Ok(())
        }
    }

    pub fn new(disk_id: usize, block_base: usize, blocks: usize, blocksize: usize) -> (r: Self)
        ensures
            r == (Partition { disk_id, blocksize, blocks, base: block_base }),
    {
        Self { disk_id, blocksize, blocks, base: block_base }
    }

    pub fn diskid(&self) -> (r: usize)
        ensures
            r == self.disk_id,
    {
        self.disk_id
    }

    pub fn blocksize(&self) -> (r: usize)
        ensures
            r == self.blocksize,
    {
        self.blocksize
    }

    pub fn blocks(&self) -> (r: usize)
        ensures
            r == self.blocks,
    {
        self.blocks
    }

    /// Number of blocks of this partition that hold `bytes` bytes.
    pub fn blocks_needed(&self, bytes: usize) -> (r: usize)
        requires
            self.blocksize > 0,
        ensures
            r == blocks_for(bytes as nat, self.blocksize as nat),
    {
        let whole: usize = bytes / self.blocksize;
        let rest: usize = bytes % self.blocksize;
        proof {
            lemma_blocks_for(bytes as nat, self.blocksize as nat);
        }
        if rest == 0 {
            whole
        } else {
            assert(whole < usize::MAX) by (nonlinear_arith)
                requires
                    whole == bytes as int / self.blocksize as int,
                    bytes <= usize::MAX,
                    bytes as int % self.blocksize as int != 0,
                    self.blocksize > 0,
            ;
            whole + 1
        }
    }

    /// Whether a transfer of `bytes` bytes at `block` is in order.
    fn check<D: Disk>(&self, disk: &D, bytes: usize, block: usize) -> (r: Result<(), DiskError>)
        requires
            disk.sound(),
        ensures
            r == self.transfer_result(*disk, bytes as nat, block as nat),
    {
        if self.blocksize == 0 || block < self.base {
            return Err(DiskError::PartitionRangeError);
        }
        let off: usize = block - self.base;
        if off > self.blocks {
            return Err(DiskError::PartitionRangeError);
        }
        let need: usize = self.blocks_needed(bytes);
        if need > self.blocks - off {
            return Err(DiskError::PartitionRangeError);
        }
        let dblocks: usize = disk.blocks();
        let dsize: usize = disk.blocksize();
        proof {
            disk.lemma_sound();
        }
        if block >= dblocks {
            return Err(DiskError::InvalidBlock);
        }
        let left: usize = dblocks - block;
        assert(left * dsize + block * dsize == dblocks * dsize) by (nonlinear_arith)
            requires
                left + block == dblocks,
        ;
        assert(left * dsize <= dblocks * dsize) by (nonlinear_arith)
            requires
                left <= dblocks,
        ;
        if bytes > left * dsize {
            return Err(DiskError::InvalidBlock);
        }
        Ok(())
    }

    /// Writes `data` to the disk from the start of `block` on, if that stays
    /// inside the partition and on the disk.
    pub fn write<D: Disk>(&mut self, disk: &mut D, data: &[u8], block: usize) -> (r: Result<
        (),
        DiskError,
    >)
        requires
            old(disk).sound(),
        ensures
            *final(self) == *old(self),
            final(disk).sound(),
            final(disk).spec_blocks() == old(disk).spec_blocks(),
            final(disk).spec_blocksize() == old(disk).spec_blocksize(),
            final(disk).spec_chs_end() == old(disk).spec_chs_end(),
            r == old(self).transfer_result(*old(disk), data@.len(), block as nat),
            r is Err ==> final(disk).contents() == old(disk).contents(),
            r is Ok ==> final(disk).contents() == overwritten(
                old(disk).contents(),
                block * old(disk).spec_blocksize(),
                data@,
            ),
    {
        match self.check(disk, data.len(), block) {
            Err(e) => Err(e),
            Ok(()) => {
                proof {
                    disk.lemma_sound();
                }
                disk.write(data, block);
                Ok(())
            },
        }
    }

    /// Fills `data` from the disk from the start of `block` on, if that
    /// stays inside the partition and on the disk.
    pub fn read<D: Disk>(&self, disk: &D, data: &mut [u8], block: usize) -> (r: Result<
        (),
        DiskError,
    >)
        requires
            disk.sound(),
        ensures
            r == self.transfer_result(*disk, old(data)@.len(), block as nat),
            final(data)@.len() == old(data)@.len(),
            r is Err ==> final(data)@ == old(data)@,
            r is Ok ==> final(data)@ == disk.contents().subrange(
                block * disk.spec_blocksize(),
                block * disk.spec_blocksize() + old(data)@.len(),
            ),
    {
        match self.check(disk, data.len(), block) {
            Err(e) => Err(e),
            Ok(()) => {
                proof {
                    disk.lemma_sound();
                }
                disk.read(data, block);
                Ok(())
            },
        }
    }
}

/// Rounding up the quotient: one block more where a rest is left.
pub proof fn lemma_blocks_for(bytes: nat, blocksize: nat)
    requires
        blocksize > 0,
    ensures
        blocks_for(bytes, blocksize) == if bytes % blocksize == 0 {
            bytes / blocksize
        } else {
            bytes / blocksize + 1
        },
        blocks_for(bytes, blocksize) * blocksize >= bytes,
{
    let q = bytes / blocksize;
    let r = bytes % blocksize;
    assert(bytes == q * blocksize + r) by {
        vstd::arithmetic::div_mod::lemma_fundamental_div_mod(bytes as int, blocksize as int);
        assert(q * blocksize == blocksize * q) by (nonlinear_arith);
    }
    if r == 0 {
        assert((q * blocksize + blocksize - 1) / blocksize as int == q) by (nonlinear_arith)
            requires
                blocksize > 0,
        ;
    } else {
        assert((q * blocksize + r + blocksize - 1) / blocksize as int == q + 1) by (nonlinear_arith)
            requires
                blocksize > 0,
                0 < r < blocksize,
        ;
        assert((q + 1) * blocksize >= q * blocksize + r) by (nonlinear_arith)
            requires
                r < blocksize,
        ;
    }
}

} // verus!
