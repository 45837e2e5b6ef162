//! Putting a partition table on a disk: a protective first block, the
//! header in block 1, and in block 3 the one entry, a swap partition from
//! block 4 to the end of the disk.
use vstd::prelude::*;
use vstd::string::StringSliceAdditionalSpecFns;
use crate::dev::blockdev::disk::{overwritten, Disk};
use crate::dev::blockdev::gpt::crc::spec_crc32;
use crate::dev::blockdev::gpt::structs::{
    le_bytes, push_le, push_zeros, zeros, GPTHeader, GPTPart, GPTPartType,
};

verus! {

/// The number of the swap partition.
pub const SWAP_PART_GUID: u128 = 0xc31345c1_bbe82ca6_39519f54_bed57569;

/// The number of the disk.
pub const DISK_GUID: u128 = 0x052428fa_e046c21b_4c7fcff4_d186f5d4;

/// The name of the swap partition, "GENT SWAP PART", filled up with zeroes
/// to 72 bytes.
pub open spec fn swap_part_name() -> Seq<u8> {
    seq![71u8, 69u8, 78u8, 84u8, 32u8, 83u8, 87u8, 65u8, 80u8, 32u8, 80u8, 65u8, 82u8, 84u8]
        + zeros(58)
}

/// The 128 bytes of the entry for the swap partition of a disk of `blocks`
/// blocks.
pub open spec fn swap_part_bytes(blocks: nat) -> Seq<u8> {
    le_bytes(GPTPartType::SwapPart.spec_guid(), 16) + le_bytes(SWAP_PART_GUID, 16) + le_bytes(4, 8)
        + le_bytes((blocks - 1) as u128, 8) + le_bytes(0, 8) + swap_part_name()
}

/// The header for a disk of `blocks` blocks, before its own checksum is
/// filled in.
pub open spec fn plain_header(blocks: nat) -> GPTHeader {
    GPTHeader {
        host_lba: 1,
        alt_lba: 2,
        first_lba: 4,
        last_lba: (blocks - 1) as u64,
        disk_guid: DISK_GUID,
        part_lba: 3,
        part_num: 1,
        part_checksum: spec_crc32(swap_part_bytes(blocks)),
        ..GPTHeader::spec_default()
    }
}

/// The header for a disk of `blocks` blocks.
pub open spec fn full_header(blocks: nat) -> GPTHeader {
    GPTHeader { crc32: spec_crc32(plain_header(blocks).spec_bytes()), ..plain_header(blocks) }
}

/// The last block of the disk as the first block names it: four bytes, all
/// ones where the number does not fit.
pub open spec fn mbr_last_block(blocks: nat) -> Seq<u8> {
    if blocks >= 0xffff_ffff {
        seq![0xffu8, 0xffu8, 0xffu8, 0xffu8]
    } else {
        le_bytes(blocks as u128, 4)
    }
}

/// The end of the disk in cylinders, heads and sectors as the first block
/// names it: three bytes, all ones where the disk has no such geometry.
pub open spec fn mbr_chs_end(chs_end: u32) -> Seq<u8> {
    if chs_end == 0xffff_ffff {
        seq![0xffu8, 0xffu8, 0xffu8]
    } else {
        le_bytes(chs_end as u128, 3)
    }
}

/// The first block of the disk: one partition of the protective kind over
/// the whole disk, and the mark 55 AA at the end.
pub open spec fn mbr_block(blocks: nat, chs_end: u32) -> Seq<u8> {
    zeros(448) + seq![0x02u8, 0x00u8, 0xEEu8] + mbr_chs_end(chs_end) + seq![
        0x01u8,
        0x00u8,
        0x00u8,
        0x00u8,
    ] + mbr_last_block(blocks) + zeros(48) + seq![0x55u8, 0xAAu8]
}

/// What is on the disk after the table was put on it. A first block that
/// carries the mark stays as it is.
pub open spec fn gpt_image(before: Seq<u8>, blocks: nat, blocksize: nat, chs_end: u32) -> Seq<u8> {
    let marked = before[510] == 0x55 && before[511] == 0xAA;
    let first = if marked {
        before
    } else {
        overwritten(before, 0, mbr_block(blocks, chs_end))
    };
    let second = overwritten(first, (1 * blocksize) as int, full_header(blocks).spec_bytes());
    overwritten(second, (3 * blocksize) as int, swap_part_bytes(blocks))
}

/// Writes the entry `part` into block `lba`.
pub fn gpt_part<D: Disk>(disk: &mut D, part: &GPTPart, lba: usize)
    requires
        old(disk).sound(),
        part.wf(),
        lba < old(disk).spec_blocks(),
        lba * old(disk).spec_blocksize() + 128 <= old(disk).contents().len(),
    ensures
        final(disk).sound(),
        final(disk).spec_blocks() == old(disk).spec_blocks(),
        final(disk).spec_blocksize() == old(disk).spec_blocksize(),
        final(disk).spec_chs_end() == old(disk).spec_chs_end(),
        final(disk).contents() == overwritten(
            old(disk).contents(),
            lba * old(disk).spec_blocksize(),
            part.spec_bytes(),
        ),
{
    let array = part.to_bytes();
    disk.write(array.as_slice(), lba)
}

/// Writes `header` into the block that it names as its own.
pub fn gpt_header<D: Disk>(disk: &mut D, header: GPTHeader)
    requires
        old(disk).sound(),
        header.host_lba < old(disk).spec_blocks(),
        header.host_lba * old(disk).spec_blocksize() + 112 <= old(disk).contents().len(),
    ensures
        final(disk).sound(),
        final(disk).spec_blocks() == old(disk).spec_blocks(),
        final(disk).spec_blocksize() == old(disk).spec_blocksize(),
        final(disk).spec_chs_end() == old(disk).spec_chs_end(),
        final(disk).contents() == overwritten(
            old(disk).contents(),
            header.host_lba * old(disk).spec_blocksize(),
            header.spec_bytes(),
        ),
{
    let array = header.to_bytes();
    let blocks: usize = disk.blocks();
    disk.write(array.as_slice(), header.host_lba as usize);
}

/// Builds the first block for a disk of `blocks` blocks.
fn build_mbr(blocks: usize, chs_end: u32) -> (r: Vec<u8>)
    ensures
        r@ == mbr_block(blocks as nat, chs_end),
        r@.len() == 512,
{
    let mut block: Vec<u8> = Vec::new();
    push_zeros(&mut block, 448);
    block.push(0x02);
    block.push(0x00);
    block.push(0xEE);
    if chs_end == 0xffff_ffff {
        block.push(0xff);
        block.push(0xff);
        block.push(0xff);
    } else {
        push_le(&mut block, chs_end as u128, 3);
    }
    block.push(0x01);
    block.push(0x00);
    block.push(0x00);
    block.push(0x00);
    if blocks >= 0xffff_ffff {
        block.push(0xff);
        block.push(0xff);
        block.push(0xff);
        block.push(0xff);
    } else {
        push_le(&mut block, blocks as u128, 4);
    }
    push_zeros(&mut block, 48);
    block.push(0x55);
    block.push(0xAA);
    proof {
        assert(block@ =~= mbr_block(blocks as nat, chs_end));
    }
    block
}

/// Puts a partition table on the disk: the first block, unless it carries
/// the mark 55 AA already; the header in block 1; and in block 3 the entry
/// of a swap partition that runs from block 4 to the last block.
///
/// The disk needs four blocks at least, of 128 bytes at least.
pub fn init_disk_gpt<D: Disk>(disk: &mut D)
    requires
        old(disk).sound(),
        old(disk).spec_blocks() >= 4,
        old(disk).spec_blocksize() >= 128,
    ensures
        final(disk).sound(),
        final(disk).spec_blocks() == old(disk).spec_blocks(),
        final(disk).spec_blocksize() == old(disk).spec_blocksize(),
        final(disk).spec_chs_end() == old(disk).spec_chs_end(),
        final(disk).contents() == gpt_image(
            old(disk).contents(),
            old(disk).spec_blocks(),
            old(disk).spec_blocksize(),
            old(disk).spec_chs_end(),
        ),
{
    let blocks: usize = disk.blocks();
    let blocksize: usize = disk.blocksize();
    proof {
        disk.lemma_sound();
        assert(blocks * blocksize >= 4 * blocksize) by (nonlinear_arith)
            requires
                blocks >= 4,
        ;
    }
    let mut block: Vec<u8> = vec![0u8; 512];
    disk.read(block.as_mut_slice(), 0);
    proof {
        assert(block@[510] == disk.contents()[510]);
        assert(block@[511] == disk.contents()[511]);
    }
    if !((block[510] == 0x55) && (block[511] == 0xAA)) {
        let chs_blocks = disk.chs_end();
        let fresh = build_mbr(blocks, chs_blocks);
        disk.write(fresh.as_slice(), 0);
    }
    let mut part = GPTPart::default();
    part.start_lba = 4;
    part.end_lba = (blocks - 1) as u64;
    part.type_guid = GPTPartType::SwapPart;
    part.unique_guid = SWAP_PART_GUID;
    proof {
        reveal_strlit("GENT SWAP PART");
        vstd::string::is_ascii_spec_bytes("GENT SWAP PART");
        assert("GENT SWAP PART".spec_bytes() =~= seq![
            71u8,
            69u8,
            78u8,
            84u8,
            32u8,
            83u8,
            87u8,
            65u8,
            80u8,
            32u8,
            80u8,
            65u8,
            82u8,
            84u8,
        ]);
    }
    part.set_name("GENT SWAP PART");
    proof {
        assert(zeros(72).skip(14) =~= zeros(58));
        assert(part.part_name@ =~= swap_part_name());
        assert(part.spec_bytes() =~= swap_part_bytes(blocks as nat));
    }
    let mut header = GPTHeader::default();
    header.host_lba = 1;
    header.alt_lba = 2;
    header.first_lba = 4;
    header.last_lba = (blocks - 1) as u64;
    header.disk_guid = DISK_GUID;
    header.part_lba = 3;
    header.part_num = 1;
    header.part_checksum = part.crc32();
    header.crc32 = header.crc32();
    assert(header == full_header(blocks as nat));
    proof {
        disk.lemma_sound();
        assert(disk.spec_blocks() * disk.spec_blocksize() >= 4 * disk.spec_blocksize())
            by (nonlinear_arith)
            requires
                disk.spec_blocks() >= 4,
        ;
    }
    assert(header.host_lba * disk.spec_blocksize() == disk.spec_blocksize()) by (nonlinear_arith)
        requires
            header.host_lba == 1,
    ;
    gpt_header(disk, header);
    proof {
        disk.lemma_sound();
        assert(disk.spec_blocks() * disk.spec_blocksize() >= 4 * disk.spec_blocksize())
            by (nonlinear_arith)
            requires
                disk.spec_blocks() >= 4,
        ;
    }
    gpt_part(disk, &part, 3);
}

} // verus!
