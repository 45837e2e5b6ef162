//! What a disk has to offer.
use vstd::prelude::*;

verus! {

/// Why a partition refused a transfer.
#[derive(Clone, Copy, Debug, PartialEq, Eq, Structural)]
pub enum DiskError {
    /// The transfer would pass the end of the disk.
    InvalidBlock,
    /// The transfer would leave the partition.
    PartitionRangeError,
}

/// `disk` with `data` written over it from position `at` on.
pub open spec fn overwritten(disk: Seq<u8>, at: int, data: Seq<u8>) -> Seq<u8> {
    Seq::new(
        disk.len(),
        |i: int|
            if at <= i < at + data.len() {
                data[i - at]
            } else {
                disk[i]
            },
    )
}

/// A disk: a run of blocks of one size, read and written from a block on.
pub trait Disk {
    /// All bytes of the disk, block after block.
    spec fn contents(&self) -> Seq<u8>;

    /// Number of bytes in a block.
    spec fn spec_blocksize(&self) -> nat;

    /// Number of blocks.
    spec fn spec_blocks(&self) -> nat;

    /// The last cylinder, head and sector, or all ones where the disk has no
    /// such geometry.
    spec fn spec_chs_end(&self) -> u32;

    /// Whether the disk holds as many bytes as its blocks take.
    spec fn sound(&self) -> bool;

    /// A sound disk holds as many bytes as its blocks take, and no more
    /// than can be counted.
    proof fn lemma_sound(&self)
        requires
            self.sound(),
        ensures
            self.contents().len() == self.spec_blocks() * self.spec_blocksize(),
            self.contents().len() <= usize::MAX,
    ;

    fn blocksize(&self) -> (r: usize)
        requires
            self.sound(),
        ensures
            r == self.spec_blocksize(),
    ;

    fn blocks(&self) -> (r: usize)
        requires
            self.sound(),
        ensures
            r == self.spec_blocks(),
    ;

    /// The last cylinder, head and sector, or all ones where the disk has no
    /// such geometry.
    fn chs_end(&self) -> (r: u32)
        requires
            self.sound(),
        ensures
            r == self.spec_chs_end(),
    ;

    /// Writes `data` from the start of `block` on.
    fn write(&mut self, data: &[u8], block: usize)
        requires
            old(self).sound(),
            block < old(self).spec_blocks(),
            block * old(self).spec_blocksize() + data@.len() <= old(self).contents().len(),
        ensures
            final(self).sound(),
            final(self).spec_blocksize() == old(self).spec_blocksize(),
            final(self).spec_blocks() == old(self).spec_blocks(),
            final(self).spec_chs_end() == old(self).spec_chs_end(),
            final(self).contents() == overwritten(
                old(self).contents(),
                block * old(self).spec_blocksize(),
                data@,
            ),
    ;

    /// Fills `buffer` with the bytes from the start of `block` on.
    fn read(&self, buffer: &mut [u8], block: usize)
        requires
            self.sound(),
            block < self.spec_blocks(),
            block * self.spec_blocksize() + old(buffer)@.len() <= self.contents().len(),
        ensures
            final(buffer)@ == self.contents().subrange(
                block * self.spec_blocksize(),
                block * self.spec_blocksize() + old(buffer)@.len(),
            ),
    ;
}

} // verus!
