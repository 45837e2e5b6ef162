use gent_kern::dev::blockdev::disk::Disk;
use gent_kern::dev::blockdev::gpt::crc::{crc32, crc32_compute_table};
use gent_kern::dev::blockdev::gpt::init::init_disk_gpt;
use gent_kern::dev::blockdev::gpt::structs::{GPTHeader, GPTPart, GPTPartType};
use gent_kern::dev::blockdev::partition::Partition;
use gent_kern::dev::blockdev::ramdisk::RamDisk;
use gent_kern::dev::blockdev::setup::init;
use gent_kern::mem::swap::init_swap;

fn block(disk: &RamDisk, lba: usize, len: usize) -> Vec<u8> {
    let mut out = vec![0u8; len];
    disk.read(&mut out, lba);
    out
}

#[test]
fn checksum_values() {
    let table = crc32_compute_table();
    assert_eq!(table.len(), 256);
    assert_eq!((table[0], table[1], table[2], table[255]), (0x0, 0x0623_3697, 0x05c4_5641, 0x0560_fb57));
    assert_eq!(crc32(b""), 0x0);
    assert_eq!(crc32(b"a"), 0xf9b2_971a);
    assert_eq!(crc32(b"123456789"), 0xfc4f_2be9);
    assert_eq!(crc32(&[0u8; 128]), 0xffe9_32d7);
}

#[test]
fn a_fresh_disk_gets_all_three_blocks() {
    let mut disk = RamDisk::new(16, 1024);
    init_disk_gpt(&mut disk);

    let mbr = block(&disk, 0, 512);
    let mut expected = vec![0u8; 512];
    expected[448] = 0x02;
    expected[450] = 0xEE;
    expected[451] = 0xff;
    expected[452] = 0xff;
    expected[453] = 0xff;
    expected[454] = 0x01;
    expected[458] = 16;
    expected[510] = 0x55;
    expected[511] = 0xAA;
    assert_eq!(mbr, expected);

    let header = block(&disk, 1, 112);
    assert_eq!(&header[0..8], b"EFI PART");
    assert_eq!(&header[8..12], &[0, 0, 1, 0]);
    assert_eq!(&header[12..16], &[112, 0, 0, 0]);
    assert_eq!(&header[16..20], &0xfa27_d439u32.to_le_bytes());
    assert_eq!(&header[20..24], &[0; 4]);
    assert_eq!(&header[24..32], &1u64.to_le_bytes());
    assert_eq!(&header[32..40], &2u64.to_le_bytes());
    assert_eq!(&header[40..48], &4u64.to_le_bytes());
    assert_eq!(&header[48..56], &15u64.to_le_bytes());
    assert_eq!(&header[56..64], &[0; 8]);
    assert_eq!(&header[64..80], &0x052428fa_e046c21b_4c7fcff4_d186f5d4u128.to_le_bytes());
    assert_eq!(&header[80..88], &3u64.to_le_bytes());
    assert_eq!(&header[88..92], &1u32.to_le_bytes());
    assert_eq!(&header[92..96], &128u32.to_le_bytes());
    assert_eq!(&header[96..100], &0xfaf8_9781u32.to_le_bytes());
    assert_eq!(&header[100..112], &[0; 12]);

    let part = block(&disk, 3, 128);
    assert_eq!(&part[0..16], &0x33766656_ea736a11_ddf8b054_35cc0685u128.to_le_bytes());
    assert_eq!(&part[16..32], &0xc31345c1_bbe82ca6_39519f54_bed57569u128.to_le_bytes());
    assert_eq!(&part[32..40], &4u64.to_le_bytes());
    assert_eq!(&part[40..48], &15u64.to_le_bytes());
    assert_eq!(&part[48..56], &[0; 8]);
    assert_eq!(&part[56..70], b"GENT SWAP PART");
    assert_eq!(&part[70..128], &[0u8; 58]);

    assert_eq!(block(&disk, 2, 1024), vec![0u8; 1024]);
    assert_eq!(block(&disk, 4, 1024), vec![0u8; 1024]);
}

#[test]
fn a_marked_first_block_is_kept() {
    let mut disk = RamDisk::new(8, 512);
    let mut mine = vec![0x11u8; 512];
    mine[510] = 0x55;
    mine[511] = 0xAA;
    disk.write(&mine, 0);
    init_disk_gpt(&mut disk);
    assert_eq!(block(&disk, 0, 512), mine);
    assert_eq!(&block(&disk, 1, 8)[..], b"EFI PART");
    assert_eq!(&block(&disk, 1, 56)[48..56], &7u64.to_le_bytes());
}

#[test]
fn a_half_marked_first_block_is_replaced() {
    let mut disk = RamDisk::new(4, 128);
    let mut mine = vec![0x11u8; 512];
    mine[510] = 0x55;
    disk.write(&mine, 0);
    init_disk_gpt(&mut disk);
    let first = block(&disk, 0, 128);
    assert_eq!(first, vec![0u8; 128]);
    // The header lies over the second quarter of what the first block wrote.
    assert_eq!(&block(&disk, 1, 8)[..], b"EFI PART");
    assert_eq!(&block(&disk, 3, 128)[56..60], b"GENT");
}

#[test]
fn entries_and_headers_lie_lowest_byte_first() {
    let mut part = GPTPart::default();
    assert_eq!(part.to_bytes(), vec![0u8; 128]);
    part.type_guid = GPTPartType::EFISysPart;
    part.unique_guid = 0x0102;
    part.start_lba = 0x0a0b;
    part.end_lba = u64::MAX;
    part.attributes = 1 << 63;
    part.set_name("abc");
    part.set_name("xy");
    let bytes = part.to_bytes();
    assert_eq!(&bytes[0..16], &0xC12A7328_F81F11D2_BA4B00A0_C93EC93Bu128.to_le_bytes());
    assert_eq!(&bytes[16..19], &[2, 1, 0]);
    assert_eq!(&bytes[32..35], &[0x0b, 0x0a, 0]);
    assert_eq!(&bytes[40..48], &[0xff; 8]);
    assert_eq!(bytes[55], 0x80);
    assert_eq!(&bytes[56..60], b"xyc\0");
    assert_eq!(part.crc32(), crc32(&bytes));
    assert_eq!(GPTPartType::SwapPart.guid(), 0x33766656_ea736a11_ddf8b054_35cc0685);
    assert_eq!(GPTPartType::Unused.guid(), 0);

    let header = GPTHeader::default();
    let bytes = header.to_bytes();
    assert_eq!(bytes.len(), 112);
    assert_eq!(&bytes[0..8], b"EFI PART");
    assert_eq!((header.rev, header.size, header.part_size), (0x0001_0000, 112, 128));
    assert_eq!(header.crc32(), crc32(&bytes));
}

#[test]
fn block_devices_come_up_with_a_swap_partition() {
    let mut records = init_swap();
    let (disk, part) = init(&mut records);
    assert_eq!((disk.blocks(), disk.blocksize()), (16, 1024));
    assert_eq!(part, Partition::new(0, 4, 16, 1024));
    assert_eq!(records.swap_target(), Some(0));
    assert_eq!(&block(&disk, 1, 8)[..], b"EFI PART");
    assert_eq!(block(&disk, 0, 512)[511], 0xAA);
}
