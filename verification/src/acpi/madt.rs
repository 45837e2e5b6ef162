//! The table of interrupt controllers.
use vstd::prelude::*;
use crate::acpi::le::{le_at, read_u16, read_u32, read_u64, read_u8};
use crate::acpi::tables::SdtHeader;

verus! {

/// Bytes of the table before its first entry.
pub const MADT_FIXED_BYTES: usize = 44;

/// The kind of an entry.
#[derive(Clone, Copy, Debug, PartialEq, Eq, Structural)]
pub enum EntryType {
    BIOPic,
    LPCPic,
    RiscvIntController,
    Imsic,
    Aplic,
    Plic,
}

impl EntryType {
    /// The number that marks an entry of this kind.
    pub open spec fn spec_code(self) -> u8 {
        match self {
            EntryType::BIOPic => 0x16,
            EntryType::LPCPic => 0x17,
            EntryType::RiscvIntController => 0x18,
            EntryType::Imsic => 0x19,
            EntryType::Aplic => 0x1A,
            EntryType::Plic => 0x1B,
        }
    }

    /// The kind that the number `code` marks; for a number that marks
    /// none, no kind in particular.
    pub open spec fn spec_from_code(code: u8) -> EntryType {
        if code == 0x16 {
            EntryType::BIOPic
        } else if code == 0x17 {
            EntryType::LPCPic
        } else if code == 0x18 {
            EntryType::RiscvIntController
        } else if code == 0x19 {
            EntryType::Imsic
        } else if code == 0x1A {
            EntryType::Aplic
        } else {
            EntryType::Plic
        }
    }

    /// The number that marks an entry of this kind.
    pub fn code(&self) -> (r: u8)
        ensures
            r == self.spec_code(),
    {
        match self {
            EntryType::BIOPic => 0x16,
            EntryType::LPCPic => 0x17,
            EntryType::RiscvIntController => 0x18,
            EntryType::Imsic => 0x19,
            EntryType::Aplic => 0x1A,
            EntryType::Plic => 0x1B,
        }
    }

    /// The kind that the number `code` marks, if it marks one.
    pub fn from_code(code: u8) -> (r: Option<Self>)
        ensures
            r == if 0x16 <= code <= 0x1B {
                Some(Self::spec_from_code(code))
            } else {
                None
            },
            r is Some ==> r->0.spec_code() == code,
    {
        if code == 0x16 {
            Some(EntryType::BIOPic)
        } else if code == 0x17 {
            Some(EntryType::LPCPic)
        } else if code == 0x18 {
            Some(EntryType::RiscvIntController)
        } else if code == 0x19 {
            Some(EntryType::Imsic)
        } else if code == 0x1A {
            Some(EntryType::Aplic)
        } else if code == 0x1B {
            Some(EntryType::Plic)
        } else {
            None
        }
    }
}

/// The start of every entry: its kind and its length in bytes.
#[derive(Clone, Copy, Debug, PartialEq, Eq, Structural)]
pub struct MadtEntry {
    pub etype: EntryType,
    pub len: u8,
}

impl MadtEntry {
    pub fn etype(&self) -> (r: EntryType)
        ensures
            r == self.etype,
    {
        self.etype
    }

    /// The start of the entry at `off`. There is none where the two bytes
    /// are not there, and where the first marks no kind.
    pub open spec fn spec_parse(bytes: Seq<u8>, off: int) -> Option<MadtEntry> {
        if 0 <= off && off + 2 <= bytes.len() && 0x16 <= bytes[off] <= 0x1B {
            Some(MadtEntry { etype: EntryType::spec_from_code(bytes[off]), len: bytes[off + 1] })
        } else {
            None
        }
    }

    /// Reads the start of the entry at `off`.
    pub fn parse(bytes: &[u8], off: usize) -> (r: Option<MadtEntry>)
        ensures
            r == Self::spec_parse(bytes@, off as int),
    {
        if bytes.len() < 2 || off > bytes.len() - 2 {
            return None;
        }
        match EntryType::from_code(read_u8(bytes, off)) {
            Some(etype) => Some(MadtEntry { etype, len: read_u8(bytes, off + 1) }),
            None => None,
        }
    }
}

/// An entry found in a table: where it starts among the bytes of the
/// entries, and its kind and length.
#[derive(Clone, Copy, Debug, PartialEq, Eq, Structural)]
pub struct MadtRecord {
    pub at: usize,
    pub entry: MadtEntry,
}

/// The table of interrupt controllers: the fixed part, and the bytes of
/// the entries behind it.
pub struct Madt {
    pub header: SdtHeader,
    pub lapic_addr: u32,
    pub flags: u32,
    pub body: Vec<u8>,
}

/// The place up to which the entries of a table have been gone through.
#[derive(Clone, Copy, Debug, PartialEq, Eq, Structural)]
pub struct IterMadt {
    pub cur: usize,
}

/// Where entry `index` starts among the bytes `body` of the entries of a
/// table of `table_len` bytes, counted from the first entry which starts at
/// `at`; nothing where the entries end before.
///
/// The first entry is always there. An entry has a next one if it ends
/// before the table does.
pub open spec fn entry_offset(body: Seq<u8>, table_len: int, at: int, index: nat) -> Option<int>
    decreases index,
{
    if index == 0 {
        Some(at)
    } else if !(0 <= at && at + 1 < body.len()) {
        None
    } else if MADT_FIXED_BYTES + at + body[at + 1] >= table_len {
        None
    } else {
        entry_offset(body, table_len, at + body[at + 1], (index - 1) as nat)
    }
}

impl Madt {
    /// Where the first entry starts.
    pub fn first_entry(&self) -> (r: usize)
        ensures
            r == 0,
    {
        0
    }

    /// Where entry `index` starts among the bytes of the entries.
    pub open spec fn spec_entry_offset(self, index: nat) -> Option<int> {
        entry_offset(self.body@, self.header.len as int, 0, index)
    }

    /// Reads the table from `bytes`. There is none where fewer than 44
    /// bytes are given.
    pub fn parse(bytes: &[u8]) -> (r: Option<Madt>)
        ensures
            r is Some <==> bytes@.len() >= MADT_FIXED_BYTES,
            r is Some ==> r->0.header == SdtHeader::spec_parse(bytes@) && r->0.lapic_addr == le_at(
                bytes@,
                36,
                4,
            ) && r->0.flags == le_at(bytes@, 40, 4) && r->0.body@ == bytes@.skip(
                MADT_FIXED_BYTES as int,
            ),
    {
        if bytes.len() < MADT_FIXED_BYTES {
            return None;
        }
        let header = match SdtHeader::parse(bytes) {
            Some(h) => h,
            None => {
                return None;
            },
        };
        let mut body: Vec<u8> = Vec::new();
        let mut i: usize = MADT_FIXED_BYTES;
        while i < bytes.len()
            invariant
                MADT_FIXED_BYTES <= i <= bytes@.len(),
                body@ == bytes@.subrange(MADT_FIXED_BYTES as int, i as int),
            decreases bytes@.len() - i,
        {
            body.push(bytes[i]);
            proof {
                assert(body@ =~= bytes@.subrange(MADT_FIXED_BYTES as int, i + 1));
            }
            i += 1;
        }
        proof {
            assert(body@ =~= bytes@.skip(MADT_FIXED_BYTES as int));
        }
        Some(Madt { header, lapic_addr: read_u32(bytes, 36), flags: read_u32(bytes, 40), body })
    }

    /// Entry `index` of the table: where it starts among the bytes of the
    /// entries, and its kind and length. There is none where the entries
    /// end before it, where its two first bytes are not among the bytes
    /// given, and where its first byte marks no kind.
    pub open spec fn spec_entry(self, index: nat) -> Option<MadtRecord> {
        match self.spec_entry_offset(index) {
            Some(at) => match MadtEntry::spec_parse(self.body@, at) {
                Some(entry) => Some(MadtRecord { at: at as usize, entry }),
                None => None,
            },
            None => None,
        }
    }

    /// Entry `index` of the table.
    pub fn entry(&self, index: usize) -> (r: Option<MadtRecord>)
        ensures
            r == self.spec_entry(index as nat),
    {
        let body = self.body.as_slice();
        let mut at: usize = 0;
        let mut left: usize = index;
        while left > 0
            invariant
                body@ == self.body@,
                left <= index,
                at <= body@.len() || left == 0,
                self.spec_entry_offset(index as nat) == entry_offset(
                    self.body@,
                    self.header.len as int,
                    at as int,
                    left as nat,
                ),
            decreases left,
        {
            if body.len() < 2 || at > body.len() - 2 {
                return None;
            }
            let len: usize = body[at + 1] as usize;
            if MADT_FIXED_BYTES as u128 + at as u128 + len as u128 >= self.header.len as u128 {
                return None;
            }
            if len > body.len() - at {
                // The entry says it ends behind the bytes given: the next
                // one is not among them.
                proof {
                    lemma_offset_outside(
                        self.body@,
                        self.header.len as int,
                        at + len,
                        (left - 1) as nat,
                    );
                }
                return None;
            }
            at = at + len;
            left -= 1;
        }
        match MadtEntry::parse(body, at) {
            Some(e) => Some(MadtRecord { at, entry: e }),
            None => None,
        }
    }

    /// Starts going through the entries.
    pub fn iter(&self) -> (r: IterMadt)
        ensures
            r.cur == 0,
    {
        IterMadt { cur: 0 }
    }
}

/// An entry that would start behind the bytes given is not found, and
/// neither is any after it.
pub proof fn lemma_offset_outside(body: Seq<u8>, table_len: int, at: int, index: nat)
    requires
        at > body.len(),
    ensures
        entry_offset(body, table_len, at, index) is None || entry_offset(
            body,
            table_len,
            at,
            index,
        )->0 > body.len(),
    decreases index,
{
}

impl IterMadt {
    /// The next entry of `madt`, as `Madt::entry` gives it.
    pub fn next(&mut self, madt: &Madt) -> (r: Option<MadtRecord>)
        requires
            old(self).cur < usize::MAX,
        ensures
            final(self).cur == old(self).cur + 1,
            r == madt.spec_entry(old(self).cur as nat),
    {
        self.cur += 1;
        madt.entry(self.cur - 1)
    }
}

/// An advanced platform level interrupt controller.
#[derive(Clone, Copy, Debug, PartialEq, Eq, Structural)]
pub struct Aplic {
    pub entry: MadtEntry,
    pub version: u8,
    pub aplic_id: u8,
    pub flags: u32,
    pub hard_id: u64,
    pub idcs: u16,
    pub ext_ints: u16,
    pub int_base: u32,
    pub aplic_addr: u64,
    pub aplic_size: u32,
}

impl Aplic {
    /// Reads the controller from the entry that starts at `off`. There is
    /// none where the entry is of another kind, and where its 36 bytes are
    /// not all there.
    pub fn from_entry(entry: &MadtEntry, bytes: &[u8], off: usize) -> (r: Option<Self>)
        ensures
            r is Some <==> entry.etype == EntryType::Aplic && off + 36 <= bytes@.len(),
            r is Some ==> r->0 == (Aplic {
                entry: *entry,
                version: bytes@[off + 2],
                aplic_id: bytes@[off + 3],
                flags: le_at(bytes@, off + 4, 4) as u32,
                hard_id: le_at(bytes@, off + 8, 8),
                idcs: le_at(bytes@, off + 16, 2) as u16,
                ext_ints: le_at(bytes@, off + 18, 2) as u16,
                int_base: le_at(bytes@, off + 20, 4) as u32,
                aplic_addr: le_at(bytes@, off + 24, 8),
                aplic_size: le_at(bytes@, off + 32, 4) as u32,
            }),
    {
        let wanted = match entry.etype {
            EntryType::Aplic => true,
            _ => false,
        };
        if !wanted || bytes.len() < 36 || off > bytes.len() - 36 {
            return None;
        }
        Some(
            Aplic {
                entry: *entry,
                version: read_u8(bytes, off + 2),
                aplic_id: read_u8(bytes, off + 3),
                flags: read_u32(bytes, off + 4),
                hard_id: read_u64(bytes, off + 8),
                idcs: read_u16(bytes, off + 16),
                ext_ints: read_u16(bytes, off + 18),
                int_base: read_u32(bytes, off + 20),
                aplic_addr: read_u64(bytes, off + 24),
                aplic_size: read_u32(bytes, off + 32),
            },
        )
    }

    /// Whether the kernel can drive the controller: it is of version 1, or
    /// its entry has the length that version 1 gives it.
    pub fn supported(&self) -> (r: bool)
        ensures
            r == (self.version == 1 || self.entry.len == 36),
    {
        let mut supported = self.version == 1;
        supported = supported || self.entry.len == 36;
        supported
    }
}

/// A platform level interrupt controller.
#[derive(Clone, Copy, Debug, PartialEq, Eq, Structural)]
pub struct Plic {
    pub entry: MadtEntry,
    pub version: u8,
    pub plic_id: u8,
    pub hard_id: u64,
    pub ext_int: u16,
    pub max_priority: u16,
    pub flags: u32,
    pub plic_size: u32,
    pub plic_addr: u64,
    pub int_base: u32,
}

impl Plic {
    /// Reads the controller from the entry that starts at `off`. There is
    /// none where the entry is of another kind, and where its 36 bytes are
    /// not all there.
    pub fn from_entry(entry: &MadtEntry, bytes: &[u8], off: usize) -> (r: Option<Self>)
        ensures
            r is Some <==> entry.etype == EntryType::Plic && off + 36 <= bytes@.len(),
            r is Some ==> r->0 == (Plic {
                entry: *entry,
                version: bytes@[off + 2],
                plic_id: bytes@[off + 3],
                hard_id: le_at(bytes@, off + 4, 8),
                ext_int: le_at(bytes@, off + 12, 2) as u16,
                max_priority: le_at(bytes@, off + 14, 2) as u16,
                flags: le_at(bytes@, off + 16, 4) as u32,
                plic_size: le_at(bytes@, off + 20, 4) as u32,
                plic_addr: le_at(bytes@, off + 24, 8),
                int_base: le_at(bytes@, off + 32, 4) as u32,
            }),
    {
        let wanted = match entry.etype {
            EntryType::Plic => true,
            _ => false,
        };
        if !wanted || bytes.len() < 36 || off > bytes.len() - 36 {
            return None;
        }
        Some(
            Plic {
                entry: *entry,
                version: read_u8(bytes, off + 2),
                plic_id: read_u8(bytes, off + 3),
                hard_id: read_u64(bytes, off + 4),
                ext_int: read_u16(bytes, off + 12),
                max_priority: read_u16(bytes, off + 14),
                flags: read_u32(bytes, off + 16),
                plic_size: read_u32(bytes, off + 20),
                plic_addr: read_u64(bytes, off + 24),
                int_base: read_u32(bytes, off + 32),
            },
        )
    }

    /// Whether the kernel can drive the controller: it is of version 1, or
    /// its entry has the length that version 1 gives it.
    pub fn supported(&self) -> (r: bool)
        ensures
            r == (self.version == 1 || self.entry.len == 36),
    {
        let mut supported = self.version == 1;
        supported = supported || self.entry.len == 36;
        supported
    }
}

/// The interrupt controller of one hart.
#[derive(Clone, Copy, Debug, PartialEq, Eq, Structural)]
pub struct RiscvIntController {
    pub entry: MadtEntry,
    pub version: u8,
    pub res: u8,
    pub flags: u32,
    pub hartid: u64,
    pub acpi_proc_id: u32,
    pub ext_int_id: u32,
    /// Of no meaning where there is no IMSIC.
    pub imsic_addr: u64,
    /// Of no meaning where there is no IMSIC.
    pub imsic_size: u32,
}

impl RiscvIntController {
    /// Reads the controller from the entry that starts at `off`. There is
    /// none where the entry is of another kind, and where its 36 bytes are
    /// not all there.
    pub fn from_entry(entry: &MadtEntry, bytes: &[u8], off: usize) -> (r: Option<Self>)
        ensures
            r is Some <==> entry.etype == EntryType::RiscvIntController && off + 36
                <= bytes@.len(),
            r is Some ==> r->0 == (RiscvIntController {
                entry: *entry,
                version: bytes@[off + 2],
                res: bytes@[off + 3],
                flags: le_at(bytes@, off + 4, 4) as u32,
                hartid: le_at(bytes@, off + 8, 8),
                acpi_proc_id: le_at(bytes@, off + 16, 4) as u32,
                ext_int_id: le_at(bytes@, off + 20, 4) as u32,
                imsic_addr: le_at(bytes@, off + 24, 8),
                imsic_size: le_at(bytes@, off + 32, 4) as u32,
            }),
    {
        let wanted = match entry.etype {
            EntryType::RiscvIntController => true,
            _ => false,
        };
        if !wanted || bytes.len() < 36 || off > bytes.len() - 36 {
            return None;
        }
        Some(
            RiscvIntController {
                entry: *entry,
                version: read_u8(bytes, off + 2),
                res: read_u8(bytes, off + 3),
                flags: read_u32(bytes, off + 4),
                hartid: read_u64(bytes, off + 8),
                acpi_proc_id: read_u32(bytes, off + 16),
                ext_int_id: read_u32(bytes, off + 20),
                imsic_addr: read_u64(bytes, off + 24),
                imsic_size: read_u32(bytes, off + 32),
            },
        )
    }

    /// The number of the controller's IDC, the low 16 bits of its
    /// external interrupt id.
    pub fn idc_id(&self) -> (r: u32)
        ensures
            r == self.ext_int_id & 0xffff,
    {
        self.ext_int_id & 0xffff
    }

    /// The number of the controller's PLIC, the high 8 bits of its
    /// external interrupt id.
    pub fn plic_id(&self) -> (r: u32)
        ensures
            r == self.ext_int_id >> 24,
    {
        self.ext_int_id >> 24
    }

    /// Whether the kernel can drive the controller: its reserved byte is
    /// zero, or it is of version 1, or its entry has the length that
    /// version 1 gives it.
    pub fn supported(&self) -> (r: bool)
        ensures
            r == (self.res == 0 || self.version == 1 || self.entry.len == 36),
    {
        let mut supported = self.res == 0;
        supported = supported || self.version == 1;
        supported = supported || self.entry.len == 36;
        supported
    }
}

/// The incoming message signalled interrupt controller.
#[derive(Clone, Copy, Debug, PartialEq, Eq, Structural)]
pub struct Imsic {
    pub entry: MadtEntry,
    pub version: u8,
    pub res: u8,
    pub flags: u32,
    pub smode_int_ids: u16,
    pub guest_int_ids: u16,
    pub guest_idx: u8,
    pub hart_idx: u8,
    pub group_idx: u8,
    pub group_idx_shift: u8,
}

impl Imsic {
    /// Reads the controller from the entry that starts at `off`. There is
    /// none where the entry is of another kind, and where its 16 bytes are
    /// not all there.
    pub fn from_entry(entry: &MadtEntry, bytes: &[u8], off: usize) -> (r: Option<Self>)
        ensures
            r is Some <==> entry.etype == EntryType::Imsic && off + 16 <= bytes@.len(),
            r is Some ==> r->0 == (Imsic {
                entry: *entry,
                version: bytes@[off + 2],
                res: bytes@[off + 3],
                flags: le_at(bytes@, off + 4, 4) as u32,
                smode_int_ids: le_at(bytes@, off + 8, 2) as u16,
                guest_int_ids: le_at(bytes@, off + 10, 2) as u16,
                guest_idx: bytes@[off + 12],
                hart_idx: bytes@[off + 13],
                group_idx: bytes@[off + 14],
                group_idx_shift: bytes@[off + 15],
            }),
    {
        let wanted = match entry.etype {
            EntryType::Imsic => true,
            _ => false,
        };
        if !wanted || bytes.len() < 16 || off > bytes.len() - 16 {
            return None;
        }
        Some(
            Imsic {
                entry: *entry,
                version: read_u8(bytes, off + 2),
                res: read_u8(bytes, off + 3),
                flags: read_u32(bytes, off + 4),
                smode_int_ids: read_u16(bytes, off + 8),
                guest_int_ids: read_u16(bytes, off + 10),
                guest_idx: read_u8(bytes, off + 12),
                hart_idx: read_u8(bytes, off + 13),
                group_idx: read_u8(bytes, off + 14),
                group_idx_shift: read_u8(bytes, off + 15),
            },
        )
    }

    /// Whether the kernel can drive the controller: its reserved byte is
    /// zero, or it is of version 1, or its entry has the length that
    /// version 1 gives it.
    pub fn supported(&self) -> (r: bool)
        ensures
            r == (self.res == 0 || self.version == 1 || self.entry.len == 16),
    {
        let mut supported = self.res == 0;
        supported = supported || self.version == 1;
        supported = supported || self.entry.len == 16;
        supported
    }
}

} // verus!
