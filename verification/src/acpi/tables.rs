//! The root of the firmware's tables and the header that every table
//! starts with.
use vstd::prelude::*;
use crate::acpi::le::{le_at, read_u32, read_u64, read_u8, read_le};

verus! {

/// Bytes of the header that every table starts with.
pub const SDT_HEADER_BYTES: usize = 36;

/// Bytes of the root pointer.
pub const RSDP_BYTES: usize = 36;

/// "FACP", the name of the table that points to the "DSDT".
pub const SIG_FACP: u32 = 0x5043_4146;

/// "DSDT".
pub const SIG_DSDT: u32 = 0x5444_5344;

/// The header that every table starts with. The name holds four
/// characters, the first in the lowest byte.
#[derive(Clone, Copy, Debug, PartialEq, Eq, Structural)]
pub struct SdtHeader {
    pub sig: u32,
    pub len: u32,
    pub rev: u8,
    pub checksum: u8,
    pub oemid: u64,
    pub oemtableid: u64,
    pub oemrev: u32,
    pub creator_id: u32,
    pub creatorrev: u32,
}

impl SdtHeader {
    /// The header that the first 36 bytes of `bytes` hold.
    pub open spec fn spec_parse(bytes: Seq<u8>) -> SdtHeader {
        SdtHeader {
            sig: le_at(bytes, 0, 4) as u32,
            len: le_at(bytes, 4, 4) as u32,
            rev: bytes[8],
            checksum: bytes[9],
            oemid: le_at(bytes, 10, 6),
            oemtableid: le_at(bytes, 16, 8),
            oemrev: le_at(bytes, 24, 4) as u32,
            creator_id: le_at(bytes, 28, 4) as u32,
            creatorrev: le_at(bytes, 32, 4) as u32,
        }
    }

    /// Reads a header from the start of `bytes`; there is none where fewer
    /// than 36 bytes are given.
    pub fn parse(bytes: &[u8]) -> (r: Option<SdtHeader>)
        ensures
            r == if bytes@.len() >= SDT_HEADER_BYTES {
                Some(Self::spec_parse(bytes@))
            } else {
                None
            },
    {
        if bytes.len() < SDT_HEADER_BYTES {
            return None;
        }
        Some(
            SdtHeader {
                sig: read_u32(bytes, 0),
                len: read_u32(bytes, 4),
                rev: read_u8(bytes, 8),
                checksum: read_u8(bytes, 9),
                oemid: read_le(bytes, 10, 6),
                oemtableid: read_u64(bytes, 16),
                oemrev: read_u32(bytes, 24),
                creator_id: read_u32(bytes, 28),
                creatorrev: read_u32(bytes, 32),
            },
        )
    }

    /// The name of the table: four characters, the first in the lowest
    /// byte.
    pub fn name(&self) -> (r: u32)
        ensures
            r == self.sig,
    {
        self.sig
    }
}

/// The root pointer, from which the firmware's tables are found.
#[derive(Clone, Copy, Debug, PartialEq, Eq, Structural)]
pub struct Rsdp {
    pub sig: u64,
    pub checksum: u8,
    pub oemid: u64,
    pub rev: u8,
    pub rsdt_addr: u32,
    pub len: u32,
    pub xsdt_addr: u64,
    pub ext_checksum: u8,
}

impl Rsdp {
    /// The root pointer that the first 36 bytes of `bytes` hold.
    pub open spec fn spec_parse(bytes: Seq<u8>) -> Rsdp {
        Rsdp {
            sig: le_at(bytes, 0, 8),
            checksum: bytes[8],
            oemid: le_at(bytes, 9, 6),
            rev: bytes[15],
            rsdt_addr: le_at(bytes, 16, 4) as u32,
            len: le_at(bytes, 20, 4) as u32,
            xsdt_addr: le_at(bytes, 24, 8),
            ext_checksum: bytes[32],
        }
    }

    /// The address of the root table: the 64-bit one from revision 1 on,
    /// the 32-bit one before.
    pub open spec fn spec_rsdt(self) -> u64 {
        if self.rev >= 1 {
            self.xsdt_addr
        } else {
            self.rsdt_addr as u64
        }
    }

    /// Reads the root pointer from the start of `bytes`; there is none
    /// where fewer than 36 bytes are given.
    pub fn parse(bytes: &[u8]) -> (r: Option<Rsdp>)
        ensures
            r == if bytes@.len() >= RSDP_BYTES {
                Some(Self::spec_parse(bytes@))
            } else {
                None
            },
    {
        if bytes.len() < RSDP_BYTES {
            return None;
        }
        Some(
            Rsdp {
                sig: read_u64(bytes, 0),
                checksum: read_u8(bytes, 8),
                oemid: read_le(bytes, 9, 6),
                rev: read_u8(bytes, 15),
                rsdt_addr: read_u32(bytes, 16),
                len: read_u32(bytes, 20),
                xsdt_addr: read_u64(bytes, 24),
                ext_checksum: read_u8(bytes, 32),
            },
        )
    }

    /// The address of the root table. It must not be zero.
    pub fn rsdt(&self) -> (r: u64)
        requires
            self.spec_rsdt() != 0,
        ensures
            r == self.spec_rsdt(),
            r != 0,
    {
        if self.rev >= 1 {
            self.xsdt_addr
        } else {
            self.rsdt_addr as u64
        }
    }

    /// The eight characters that mark the root pointer, the first in the
    /// lowest byte.
    pub fn sig(&self) -> (r: u64)
        ensures
            r == self.sig,
    {
        self.sig
    }

    /// The six characters that name the maker, the first in the lowest
    /// byte.
    pub fn oemid(&self) -> (r: u64)
        ensures
            r == self.oemid,
    {
        self.oemid
    }
}

/// The place of something in one of the address spaces of the machine.
#[derive(Clone, Copy, Debug, PartialEq, Eq, Structural)]
pub struct AddrStruct {
    pub addr_space: u8,
    pub bit_width: u8,
    pub bit_offset: u8,
    pub access_size: u8,
    pub addr: u64,
}

impl AddrStruct {
    /// Reads the twelve bytes of an address from `off` on.
    pub fn parse(bytes: &[u8], off: usize) -> (r: Option<AddrStruct>)
        ensures
            r == if off + 12 <= bytes@.len() {
                Some(
                    AddrStruct {
                        addr_space: bytes@[off as int],
                        bit_width: bytes@[off + 1],
                        bit_offset: bytes@[off + 2],
                        access_size: bytes@[off + 3],
                        addr: le_at(bytes@, off + 4, 8),
                    },
                )
            } else {
                None
            },
    {
        if bytes.len() < 12 || off > bytes.len() - 12 {
            return None;
        }
        Some(
            AddrStruct {
                addr_space: read_u8(bytes, off),
                bit_width: read_u8(bytes, off + 1),
                bit_offset: read_u8(bytes, off + 2),
                access_size: read_u8(bytes, off + 3),
                addr: read_u64(bytes, off + 4),
            },
        )
    }
}

/// The table of fixed hardware, as far as the kernel reads it.
#[derive(Clone, Copy, Debug, PartialEq, Eq, Structural)]
pub struct Fadt {
    pub header: SdtHeader,
    pub firmwarectl: u32,
    pub dsdt: u32,
}

impl Fadt {
    /// Reads the table from the start of `bytes`; there is none where
    /// fewer than 44 bytes are given.
    pub fn parse(bytes: &[u8]) -> (r: Option<Fadt>)
        ensures
            r == if bytes@.len() >= 44 {
                Some(
                    Fadt {
                        header: SdtHeader::spec_parse(bytes@),
                        firmwarectl: le_at(bytes@, 36, 4) as u32,
                        dsdt: le_at(bytes@, 40, 4) as u32,
                    },
                )
            } else {
                None
            },
    {
        if bytes.len() < 44 {
            return None;
        }
        match SdtHeader::parse(bytes) {
            Some(header) => Some(
                Fadt { header, firmwarectl: read_u32(bytes, 36), dsdt: read_u32(bytes, 40) },
            ),
            None => None,
        }
    }

    /// The address of the table named `sig` that this table points to.
    /// The one table it points to is the "DSDT".
    pub fn get_table(&self, sig: u32) -> (r: u64)
        requires
            sig == SIG_DSDT,
        ensures
            r == self.dsdt,
    {
        self.dsdt as u64
    }
}

/// The root table: a header and, behind it, the addresses of the other
/// tables.
pub struct Rsdt {
    pub header: SdtHeader,
    pub body: Vec<u8>,
}

/// The place up to which the tables of a root table have been gone
/// through.
#[derive(Clone, Copy, Debug, PartialEq, Eq, Structural)]
pub struct SdtIter {
    pub at: usize,
}

impl Rsdt {
    /// Bytes of one address: 8 from revision 1 on, 4 before.
    pub open spec fn ptr_size(self) -> int {
        if self.header.rev >= 1 {
            8
        } else {
            4
        }
    }

    /// Number of addresses that the table says it holds.
    pub open spec fn spec_entries(self) -> int {
        (self.header.len - SDT_HEADER_BYTES) / self.ptr_size()
    }

    /// Whether the table is as long as it says and holds its addresses in
    /// full.
    pub open spec fn wf(self) -> bool {
        &&& self.header.len >= SDT_HEADER_BYTES
        &&& self.body@.len() == self.header.len - SDT_HEADER_BYTES
    }

    /// Address number `index`.
    pub open spec fn spec_header_ptr(self, index: int) -> u64 {
        le_at(self.body@, index * self.ptr_size(), self.ptr_size())
    }

    /// The index of the first address at which a table of the name `sig`
    /// lies, from `from` on; the number of addresses where there is none.
    pub open spec fn first_named(self, names: Seq<SdtHeader>, sig: u32, from: int) -> int
        decreases self.spec_entries() - from,
    {
        if from >= self.spec_entries() || from < 0 {
            self.spec_entries()
        } else if names[from].sig == sig {
            from
        } else {
            self.first_named(names, sig, from + 1)
        }
    }

    /// What `get_table` answers.
    pub open spec fn spec_get_table(self, names: Seq<SdtHeader>, fadt: Option<Fadt>, sig: u32) -> u64 {
        let wanted = if sig == SIG_DSDT {
            SIG_FACP
        } else {
            sig
        };
        let found = self.first_named(names, wanted, 0);
        if found >= self.spec_entries() {
            0
        } else if sig == SIG_DSDT {
            match fadt {
                Some(f) => f.dsdt as u64,
                None => 0,
            }
        } else {
            self.spec_header_ptr(found)
        }
    }

    /// Reads the root table from `bytes`. There is none where the header
    /// is cut short, where it gives a length below its own, and where
    /// `bytes` is shorter than the length it gives.
    pub fn parse(bytes: &[u8]) -> (r: Option<Rsdt>)
        ensures
            r is Some <==> bytes@.len() >= SDT_HEADER_BYTES && SDT_HEADER_BYTES
                <= SdtHeader::spec_parse(bytes@).len <= bytes@.len(),
            r is Some ==> r->0.wf() && r->0.header == SdtHeader::spec_parse(bytes@) && r->0.body@
                == bytes@.subrange(SDT_HEADER_BYTES as int, r->0.header.len as int),
    {
        let header = match SdtHeader::parse(bytes) {
            Some(h) => h,
            None => {
                return None;
            },
        };
        if (header.len as usize) < SDT_HEADER_BYTES || header.len as usize > bytes.len() {
            return None;
        }
        let mut body: Vec<u8> = Vec::new();
        let mut i: usize = SDT_HEADER_BYTES;
        let end: usize = header.len as usize;
        while i < end
            invariant
                SDT_HEADER_BYTES <= i <= end <= bytes@.len(),
                body@ == bytes@.subrange(SDT_HEADER_BYTES as int, i as int),
            decreases end - i,
        {
            body.push(bytes[i]);
            proof {
                assert(body@ =~= bytes@.subrange(SDT_HEADER_BYTES as int, i + 1));
            }
            i += 1;
        }
        Some(Rsdt { header, body })
    }

    /// The name of the table.
    pub fn name(&self) -> (r: u32)
        ensures
            r == self.header.sig,
    {
        self.header.name()
    }

    /// Number of addresses that the table holds.
    pub fn entries(&self) -> (r: usize)
        requires
            self.wf(),
        ensures
            r == self.spec_entries(),
            r * self.ptr_size() <= self.body@.len(),
    {
        let ptr_size: usize = if self.header.rev >= 1 {
            8
        } else {
            4
        };
        let n: usize = (self.header.len as usize - SDT_HEADER_BYTES) / ptr_size;
        assert(n * ptr_size <= self.header.len - SDT_HEADER_BYTES) by (nonlinear_arith)
            requires
                n == (self.header.len - SDT_HEADER_BYTES) / ptr_size as int,
                ptr_size > 0,
                self.header.len >= SDT_HEADER_BYTES,
        ;
        n
    }

    /// Address number `index`: where the header of table `index` lies.
    pub fn header_ptr(&self, index: usize) -> (r: u64)
        requires
            self.wf(),
            index < self.spec_entries(),
        ensures
            r == self.spec_header_ptr(index as int),
    {
        let n = self.entries();
        let ptr_size: usize = if self.header.rev >= 1 {
            8
        } else {
            4
        };
        assert(index * ptr_size + ptr_size <= n * ptr_size) by (nonlinear_arith)
            requires
                index < n,
        ;
        read_le(self.body.as_slice(), index * ptr_size, ptr_size)
    }

    /// Starts going through the tables.
    pub fn into_iter(&self) -> (r: SdtIter)
        ensures
            r.at == 0,
    {
        SdtIter { at: 0 }
    }

    /// The address of the table named `sig`, or zero where there is none.
    /// `names` holds the header found at each address of this table, in
    /// order. The "DSDT" is found through the "FACP": where that is among
    /// the tables, the answer is the address that `fadt` holds.
    pub fn get_table(&self, names: &Vec<SdtHeader>, fadt: Option<Fadt>, sig: u32) -> (r: u64)
        requires
            self.wf(),
            names@.len() == self.spec_entries(),
        ensures
            r == self.spec_get_table(names@, fadt, sig),
    {
        let subtable = sig == SIG_DSDT;
        let wanted = if subtable {
            SIG_FACP
        } else {
            sig
        };
        let n = self.entries();
        let mut i: usize = 0;
        let mut found: usize = n;
        while i < n && found == n
            invariant
                self.wf(),
                n == self.spec_entries(),
                names@.len() == n,
                i <= n,
                found == n ==> self.first_named(names@, wanted, 0) == self.first_named(
                    names@,
                    wanted,
                    i as int,
                ),
                found != n ==> found < n && found == self.first_named(names@, wanted, 0),
            decreases n - i + (if found == n { 1int } else { 0int }),
        {
            if names[i].name() == wanted {
                found = i;
            } else {
                i += 1;
            }
        }
        if found == n {
            return 0;
        }
        if subtable {
            match fadt {
                Some(f) => f.get_table(SIG_DSDT),
                None => 0,
            }
        } else {
            self.header_ptr(found)
        }
    }
}

impl SdtIter {
    /// The address of the next table of `rsdt`, if one is left. It must
    /// not be zero.
    pub fn next(&mut self, rsdt: &Rsdt) -> (r: Option<u64>)
        requires
            rsdt.wf(),
            old(self).at < rsdt.spec_entries() ==> rsdt.spec_header_ptr(old(self).at as int) != 0,
        ensures
            old(self).at >= rsdt.spec_entries() ==> r is None && final(self).at == old(self).at,
            old(self).at < rsdt.spec_entries() ==> r == Some(
                rsdt.spec_header_ptr(old(self).at as int),
            ) && final(self).at == old(self).at + 1,
    {
        if self.at >= rsdt.entries() {
            return None;
        }
        let entry = rsdt.header_ptr(self.at);
        self.at += 1;
        Some(entry)
    }
}

} // verus!
