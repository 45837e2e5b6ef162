use gent_kern::acpi::le::{read_le, read_u16, read_u32, read_u64, read_u8};
use gent_kern::acpi::madt::{
    Aplic, EntryType, Imsic, IterMadt, Madt, MadtEntry, MadtRecord, Plic, RiscvIntController,
};
use gent_kern::acpi::tables::{AddrStruct, Fadt, Rsdp, Rsdt, SdtHeader, SIG_DSDT, SIG_FACP};

fn header(sig: &[u8; 4], len: u32, rev: u8) -> Vec<u8> {
    let mut h = Vec::new();
    h.extend_from_slice(sig);
    h.extend_from_slice(&len.to_le_bytes());
    h.push(rev);
    h.push(0x5a);
    h.extend_from_slice(b"OEMID!");
    h.extend_from_slice(b"TABLE_ID");
    h.extend_from_slice(&7u32.to_le_bytes());
    h.extend_from_slice(&8u32.to_le_bytes());
    h.extend_from_slice(&9u32.to_le_bytes());
    assert_eq!(h.len(), 36);
    h
}

fn sig(name: &[u8; 4]) -> u32 {
    u32::from_le_bytes(*name)
}

#[test]
fn numbers_are_read_lowest_byte_first() {
    let bytes = [0x01, 0x02, 0x03, 0x04, 0x05, 0x06, 0x07, 0x08, 0x09];
    assert_eq!(read_u8(&bytes, 8), 9);
    assert_eq!(read_u16(&bytes, 1), 0x0302);
    assert_eq!(read_u32(&bytes, 2), 0x0605_0403);
    assert_eq!(read_u64(&bytes, 1), 0x0908_0706_0504_0302);
    assert_eq!(read_le(&bytes, 0, 6), 0x0605_0403_0201);
    assert_eq!(read_le(&bytes, 4, 0), 0);
}

#[test]
fn headers_are_read_field_by_field() {
    let bytes = header(b"APIC", 100, 3);
    let h = SdtHeader::parse(&bytes).unwrap();
    assert_eq!(h.name(), sig(b"APIC"));
    assert_eq!((h.len, h.rev, h.checksum), (100, 3, 0x5a));
    assert_eq!(h.oemid, u64::from_le_bytes(*b"OEMID!\0\0"));
    assert_eq!(h.oemtableid, u64::from_le_bytes(*b"TABLE_ID"));
    assert_eq!((h.oemrev, h.creator_id, h.creatorrev), (7, 8, 9));
    assert_eq!(SdtHeader::parse(&bytes[..35]), None);
    assert_eq!(SIG_FACP, sig(b"FACP"));
    assert_eq!(SIG_DSDT, sig(b"DSDT"));
}

#[test]
fn the_root_pointer_picks_the_wide_address_from_revision_one() {
    let mut bytes = Vec::new();
    bytes.extend_from_slice(b"RSD PTR ");
    bytes.push(1);
    bytes.extend_from_slice(b"MAKER!");
    bytes.push(2);
    bytes.extend_from_slice(&0x1000u32.to_le_bytes());
    bytes.extend_from_slice(&36u32.to_le_bytes());
    bytes.extend_from_slice(&0x2_0000_0000u64.to_le_bytes());
    bytes.extend_from_slice(&[3, 0, 0, 0]);
    let rsdp = Rsdp::parse(&bytes).unwrap();
    assert_eq!(rsdp.sig(), u64::from_le_bytes(*b"RSD PTR "));
    assert_eq!(rsdp.oemid(), u64::from_le_bytes(*b"MAKER!\0\0"));
    assert_eq!((rsdp.rev, rsdp.len, rsdp.ext_checksum), (2, 36, 3));
    assert_eq!(rsdp.rsdt(), 0x2_0000_0000);
    bytes[15] = 0;
    assert_eq!(Rsdp::parse(&bytes).unwrap().rsdt(), 0x1000);
    assert_eq!(Rsdp::parse(&bytes[..20]), None);
}

#[test]
fn the_root_table_lists_addresses() {
    let mut bytes = header(b"XSDT", 36 + 3 * 8 + 5, 1);
    for addr in [0x1000u64, 0x2000, 0x3000] {
        bytes.extend_from_slice(&addr.to_le_bytes());
    }
    bytes.extend_from_slice(&[0xee; 5]);
    let rsdt = Rsdt::parse(&bytes).unwrap();
    assert_eq!(rsdt.name(), sig(b"XSDT"));
    assert_eq!(rsdt.entries(), 3);
    assert_eq!(rsdt.header_ptr(1), 0x2000);
    let mut it = rsdt.into_iter();
    assert_eq!(it.next(&rsdt), Some(0x1000));
    assert_eq!(it.next(&rsdt), Some(0x2000));
    assert_eq!(it.next(&rsdt), Some(0x3000));
    assert_eq!(it.next(&rsdt), None);
    assert_eq!(it.next(&rsdt), None);

    let names: Vec<SdtHeader> = [b"APIC", b"FACP", b"APIC"]
        .iter()
        .map(|n| SdtHeader::parse(&header(n, 36, 1)).unwrap())
        .collect();
    let mut fadt_bytes = header(b"FACP", 44, 1);
    fadt_bytes.extend_from_slice(&0x11u32.to_le_bytes());
    fadt_bytes.extend_from_slice(&0x7000u32.to_le_bytes());
    let fadt = Fadt::parse(&fadt_bytes).unwrap();
    assert_eq!((fadt.firmwarectl, fadt.dsdt), (0x11, 0x7000));
    assert_eq!(fadt.get_table(SIG_DSDT), 0x7000);
    assert_eq!(rsdt.get_table(&names, Some(fadt), sig(b"APIC")), 0x1000);
    assert_eq!(rsdt.get_table(&names, Some(fadt), sig(b"FACP")), 0x2000);
    assert_eq!(rsdt.get_table(&names, Some(fadt), sig(b"DSDT")), 0x7000);
    assert_eq!(rsdt.get_table(&names, None, sig(b"DSDT")), 0);
    assert_eq!(rsdt.get_table(&names, Some(fadt), sig(b"RHCT")), 0);
    let no_facp: Vec<SdtHeader> = names.iter().map(|h| SdtHeader { sig: sig(b"APIC"), ..*h }).collect();
    assert_eq!(rsdt.get_table(&no_facp, Some(fadt), sig(b"DSDT")), 0);

    let mut narrow = header(b"RSDT", 36 + 8, 0);
    narrow.extend_from_slice(&0x1000u32.to_le_bytes());
    narrow.extend_from_slice(&0x2000u32.to_le_bytes());
    let old = Rsdt::parse(&narrow).unwrap();
    assert_eq!(old.entries(), 2);
    assert_eq!(old.header_ptr(1), 0x2000);

    assert!(Rsdt::parse(&header(b"XSDT", 35, 1)).is_none());
    assert!(Rsdt::parse(&header(b"XSDT", 37, 1)).is_none());
    assert!(Fadt::parse(&fadt_bytes[..43]).is_none());
}

#[test]
fn addresses_in_tables() {
    let bytes = [0xff, 1, 64, 0, 4, 0x00, 0x10, 0, 0, 0, 0, 0, 0x80];
    assert_eq!(
        AddrStruct::parse(&bytes, 1),
        Some(AddrStruct { addr_space: 1, bit_width: 64, bit_offset: 0, access_size: 4, addr: 0x8000_0000_0000_1000 })
    );
    assert_eq!(AddrStruct::parse(&bytes, 2), None);
    assert_eq!(AddrStruct::parse(&bytes[..5], 0), None);
}

fn madt_bytes() -> Vec<u8> {
    // A controller of a hart, an IMSIC, and an APLIC, one after the other.
    let mut bytes = header(b"APIC", 44 + 36 + 16 + 36, 1);
    bytes.extend_from_slice(&0u32.to_le_bytes());
    bytes.extend_from_slice(&1u32.to_le_bytes());
    let mut rintc = vec![0x18, 36, 1, 0];
    rintc.extend_from_slice(&1u32.to_le_bytes());
    rintc.extend_from_slice(&5u64.to_le_bytes());
    rintc.extend_from_slice(&6u32.to_le_bytes());
    rintc.extend_from_slice(&0x0300_0002u32.to_le_bytes());
    rintc.extend_from_slice(&0x2800_0000u64.to_le_bytes());
    rintc.extend_from_slice(&0x1000u32.to_le_bytes());
    assert_eq!(rintc.len(), 36);
    bytes.extend_from_slice(&rintc);
    bytes.extend_from_slice(&[0x19, 16, 1, 0, 0, 0, 0, 0, 255, 0, 63, 0, 1, 2, 3, 4]);
    let mut aplic = vec![0x1A, 36, 1, 9];
    aplic.extend_from_slice(&0u32.to_le_bytes());
    aplic.extend_from_slice(b"APLIC001");
    aplic.extend_from_slice(&2u16.to_le_bytes());
    aplic.extend_from_slice(&96u16.to_le_bytes());
    aplic.extend_from_slice(&0u32.to_le_bytes());
    aplic.extend_from_slice(&0xd00_0000u64.to_le_bytes());
    aplic.extend_from_slice(&0x8000u32.to_le_bytes());
    assert_eq!(aplic.len(), 36);
    bytes.extend_from_slice(&aplic);
    bytes
}

#[test]
fn entries_are_found_one_after_the_other() {
    let bytes = madt_bytes();
    let madt = Madt::parse(&bytes).unwrap();
    assert_eq!((madt.lapic_addr, madt.flags), (0, 1));
    assert_eq!(madt.first_entry(), 0);
    let e0 = madt.entry(0).unwrap();
    let e1 = madt.entry(1).unwrap();
    let e2 = madt.entry(2).unwrap();
    assert_eq!(e0, MadtRecord { at: 0, entry: MadtEntry { etype: EntryType::RiscvIntController, len: 36 } });
    assert_eq!(e1, MadtRecord { at: 36, entry: MadtEntry { etype: EntryType::Imsic, len: 16 } });
    assert_eq!(e2, MadtRecord { at: 52, entry: MadtEntry { etype: EntryType::Aplic, len: 36 } });
    assert_eq!(e2.entry.etype(), EntryType::Aplic);
    assert_eq!(madt.entry(3), None);
    assert_eq!(madt.entry(100), None);

    let mut it: IterMadt = madt.iter();
    let mut seen = Vec::new();
    while let Some(r) = it.next(&madt) {
        seen.push(r.at);
    }
    assert_eq!(seen, vec![0, 36, 52]);
    assert!(Madt::parse(&bytes[..43]).is_none());
}

#[test]
fn an_entry_of_no_known_kind_is_not_an_entry() {
    let mut bytes = madt_bytes();
    bytes[44 + 36] = 0x15;
    let madt = Madt::parse(&bytes).unwrap();
    assert!(madt.entry(0).is_some());
    assert_eq!(madt.entry(1), None);
    assert_eq!(madt.entry(2).unwrap().at, 52);
    assert_eq!(EntryType::from_code(0x15), None);
    assert_eq!(EntryType::from_code(0x1C), None);
    for kind in [EntryType::BIOPic, EntryType::LPCPic, EntryType::RiscvIntController, EntryType::Imsic, EntryType::Aplic, EntryType::Plic] {
        assert_eq!(EntryType::from_code(kind.code()), Some(kind));
    }
    assert_eq!(MadtEntry::parse(&[0x1B], 0), None);
    assert_eq!(MadtEntry::parse(&[0, 0x1B, 4], 1), Some(MadtEntry { etype: EntryType::Plic, len: 4 }));
}

#[test]
fn controllers_are_read_from_their_entries() {
    let bytes = madt_bytes();
    let madt = Madt::parse(&bytes).unwrap();
    let body = &bytes[44..];
    let e0 = madt.entry(0).unwrap();
    let rintc = RiscvIntController::from_entry(&e0.entry, body, e0.at).unwrap();
    assert_eq!((rintc.version, rintc.res, rintc.flags, rintc.hartid), (1, 0, 1, 5));
    assert_eq!((rintc.acpi_proc_id, rintc.imsic_addr, rintc.imsic_size), (6, 0x2800_0000, 0x1000));
    assert_eq!((rintc.idc_id(), rintc.plic_id()), (2, 3));
    assert!(rintc.supported());
    assert_eq!(Imsic::from_entry(&e0.entry, body, e0.at), None);

    let e1 = madt.entry(1).unwrap();
    let imsic = Imsic::from_entry(&e1.entry, body, e1.at).unwrap();
    assert_eq!((imsic.smode_int_ids, imsic.guest_int_ids), (255, 63));
    assert_eq!((imsic.guest_idx, imsic.hart_idx, imsic.group_idx, imsic.group_idx_shift), (1, 2, 3, 4));
    assert!(imsic.supported());

    let e2 = madt.entry(2).unwrap();
    let aplic = Aplic::from_entry(&e2.entry, body, e2.at).unwrap();
    assert_eq!((aplic.version, aplic.aplic_id, aplic.idcs, aplic.ext_ints), (1, 9, 2, 96));
    assert_eq!(aplic.hard_id, u64::from_le_bytes(*b"APLIC001"));
    assert_eq!((aplic.aplic_addr, aplic.aplic_size), (0xd00_0000, 0x8000));
    assert!(aplic.supported());
    assert_eq!(Aplic::from_entry(&e2.entry, body, e2.at + 1), None);
    assert_eq!(Plic::from_entry(&e2.entry, body, e2.at), None);
}

#[test]
fn support_goes_by_version_or_length() {
    let entry = |etype, len| MadtEntry { etype, len };
    let aplic = |version, len| Aplic {
        entry: entry(EntryType::Aplic, len),
        version,
        aplic_id: 0,
        flags: 0,
        hard_id: 0,
        idcs: 0,
        ext_ints: 0,
        int_base: 0,
        aplic_addr: 0,
        aplic_size: 0,
    };
    assert!(aplic(1, 0).supported());
    assert!(aplic(2, 36).supported());
    assert!(!aplic(2, 35).supported());
    let plic = |version, len| Plic {
        entry: entry(EntryType::Plic, len),
        version,
        plic_id: 0,
        hard_id: 0,
        ext_int: 0,
        max_priority: 0,
        flags: 0,
        plic_size: 0,
        plic_addr: 0,
        int_base: 0,
    };
    assert!(plic(1, 1).supported());
    assert!(plic(0, 36).supported());
    assert!(!plic(0, 16).supported());
    let imsic = |version, res, len| Imsic {
        entry: entry(EntryType::Imsic, len),
        version,
        res,
        flags: 0,
        smode_int_ids: 0,
        guest_int_ids: 0,
        guest_idx: 0,
        hart_idx: 0,
        group_idx: 0,
        group_idx_shift: 0,
    };
    assert!(imsic(2, 0, 0).supported());
    assert!(imsic(1, 1, 0).supported());
    assert!(imsic(2, 1, 16).supported());
    assert!(!imsic(2, 1, 36).supported());
    let plic_body = {
        let mut b = vec![0x1B, 36, 1, 4];
        b.extend_from_slice(b"PLIC0001");
        b.extend_from_slice(&96u16.to_le_bytes());
        b.extend_from_slice(&7u16.to_le_bytes());
        b.extend_from_slice(&0u32.to_le_bytes());
        b.extend_from_slice(&0x60_0000u32.to_le_bytes());
        b.extend_from_slice(&0xc00_0000u64.to_le_bytes());
        b.extend_from_slice(&0u32.to_le_bytes());
        b
    };
    let p = Plic::from_entry(&entry(EntryType::Plic, 36), &plic_body, 0).unwrap();
    assert_eq!((p.plic_id, p.ext_int, p.max_priority, p.plic_size, p.plic_addr), (4, 96, 7, 0x60_0000, 0xc00_0000));
}
