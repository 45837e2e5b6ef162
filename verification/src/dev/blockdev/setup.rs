//! Bringing up the block devices: a disk in memory with a swap partition.
use vstd::prelude::*;
use crate::dev::blockdev::disk::Disk;
use crate::dev::blockdev::gpt::init::{gpt_image, init_disk_gpt};
use crate::dev::blockdev::partition::Partition;
use crate::dev::blockdev::ramdisk::RamDisk;
use crate::mem::swap::SwapManager;

verus! {

/// Number of blocks of the disk in memory.
pub const RAMDISK_BLOCKS: usize = 16;

/// Bytes in a block of the disk in memory.
pub const RAMDISK_BLOCKSIZE: usize = 1024;

/// Makes the disk in memory, puts a partition table on it, and registers
/// partition 0, which starts at block 4 of disk 0, as the one to swap to.
/// Answers with the disk and the partition.
pub fn init(records: &mut SwapManager) -> (r: (RamDisk, Partition))
    ensures
        r.0.sound(),
        r.0.spec_blocks() == RAMDISK_BLOCKS,
        r.0.spec_blocksize() == RAMDISK_BLOCKSIZE,
        r.0.contents() == gpt_image(
            Seq::new((RAMDISK_BLOCKS * RAMDISK_BLOCKSIZE) as nat, |i: int| 0u8),
            RAMDISK_BLOCKS as nat,
            RAMDISK_BLOCKSIZE as nat,
            0xffff_ffff,
        ),
        r.1 == (Partition {
            disk_id: 0,
            blocksize: RAMDISK_BLOCKSIZE,
            blocks: RAMDISK_BLOCKS,
            base: 4,
        }),
        final(records).partitions() == old(records).partitions().push(0),
        final(records).user_records() == old(records).user_records(),
        final(records).kernel_records() == old(records).kernel_records(),
{
    let mut ramdisk = RamDisk::new(RAMDISK_BLOCKS, RAMDISK_BLOCKSIZE);
    init_disk_gpt(&mut ramdisk);
    let partition = Partition::new(0, 4, ramdisk.blocks(), ramdisk.blocksize());
    records.register_partition(0);
    (ramdisk, partition)
}

} // verus!
