//! The header of a partition table and its entries, and how they lie on
//! disk: every number with its lowest byte first.
use vstd::prelude::*;
use vstd::string::StringSliceAdditionalSpecFns;
use crate::dev::blockdev::gpt::crc::{crc32, spec_crc32};

verus! {

/// Byte `i` of `x`, counted from the lowest.
pub open spec fn le_byte(x: u128, i: nat) -> u8 {
    ((x >> ((8 * i) as u128)) & 0xff) as u8
}

/// The lowest `n` bytes of `x`, lowest first.
pub open spec fn le_bytes(x: u128, n: nat) -> Seq<u8> {
    Seq::new(n, |i: int| le_byte(x, i as nat))
}

/// `n` bytes of zero.
pub open spec fn zeros(n: nat) -> Seq<u8> {
    Seq::new(n, |i: int| 0u8)
}

/// Appends the lowest `n` bytes of `x` to `out`, lowest first.
pub fn push_le(out: &mut Vec<u8>, x: u128, n: usize)
    requires
        n <= 16,
    ensures
        final(out)@ == old(out)@ + le_bytes(x, n as nat),
{
    let mut i: usize = 0;
    while i < n
        invariant
            i <= n <= 16,
            out@ == old(out)@ + le_bytes(x, i as nat),
        decreases n - i,
    {
        let shift: u128 = 8 * (i as u128);
        let byte: u128 = (x >> shift) & 0xff;
        assert((x >> shift) & 0xff <= 0xff) by (bit_vector);
        out.push(byte as u8);
        proof {
            assert(out@ =~= old(out)@ + le_bytes(x, (i + 1) as nat));
        }
        i += 1;
    }
}

/// Appends `n` bytes of zero to `out`.
pub fn push_zeros(out: &mut Vec<u8>, n: usize)
    ensures
        final(out)@ == old(out)@ + zeros(n as nat),
{
    let mut i: usize = 0;
    while i < n
        invariant
            i <= n,
            out@ == old(out)@ + zeros(i as nat),
        decreases n - i,
    {
        out.push(0);
        proof {
            assert(out@ =~= old(out)@ + zeros((i + 1) as nat));
        }
        i += 1;
    }
}

/// What a partition is for.
#[derive(Clone, Copy, Debug, PartialEq, Eq, Structural)]
pub enum GPTPartType {
    Unused,
    EFISysPart,
    MBRPart,
    GeneralPart,
    SwapPart,
}

impl GPTPartType {
    /// The number that stands for the type on disk.
    pub open spec fn spec_guid(self) -> u128 {
        match self {
            GPTPartType::Unused => 0x00,
            GPTPartType::EFISysPart => 0xC12A7328_F81F11D2_BA4B00A0_C93EC93B,
            GPTPartType::MBRPart => 0x024DEE41_33E711D3_9D690008_C781F39F,
            GPTPartType::GeneralPart => 0x750f1f42_f93f12ee_1227e55c_10bb3b96,
            GPTPartType::SwapPart => 0x33766656_ea736a11_ddf8b054_35cc0685,
        }
    }

    /// The number that stands for the type on disk.
    pub fn guid(&self) -> (r: u128)
        ensures
            r == self.spec_guid(),
    {
        match self {
            GPTPartType::Unused => 0x00,
            GPTPartType::EFISysPart => 0xC12A7328_F81F11D2_BA4B00A0_C93EC93B,
            GPTPartType::MBRPart => 0x024DEE41_33E711D3_9D690008_C781F39F,
            GPTPartType::GeneralPart => 0x750f1f42_f93f12ee_1227e55c_10bb3b96,
            GPTPartType::SwapPart => 0x33766656_ea736a11_ddf8b054_35cc0685,
        }
    }
}

/// One entry of the partition table.
pub struct GPTPart {
    pub type_guid: GPTPartType,
    pub unique_guid: u128,
    pub start_lba: u64,
    pub end_lba: u64,
    pub attributes: u64,
    pub part_name: Vec<u8>,
}

impl GPTPart {
    /// Whether the name has the 72 bytes that an entry gives it.
    pub open spec fn wf(self) -> bool {
        self.part_name@.len() == 72
    }

    /// The 128 bytes of the entry on disk.
    pub open spec fn spec_bytes(self) -> Seq<u8> {
        le_bytes(self.type_guid.spec_guid(), 16) + le_bytes(self.unique_guid, 16) + le_bytes(
            self.start_lba as u128,
            8,
        ) + le_bytes(self.end_lba as u128, 8) + le_bytes(self.attributes as u128, 8)
            + self.part_name@
    }

    /// An unused entry: every number zero, the name 72 bytes of zero.
    pub fn default() -> (r: Self)
        ensures
            r.wf(),
            r.type_guid == GPTPartType::Unused,
            r.unique_guid == 0,
            r.start_lba == 0,
            r.end_lba == 0,
            r.attributes == 0,
            r.part_name@ == zeros(72),
    {
        let mut part_name: Vec<u8> = Vec::new();
        push_zeros(&mut part_name, 72);
        assert(part_name@ =~= zeros(72));
        GPTPart {
            type_guid: GPTPartType::Unused,
            unique_guid: 0,
            start_lba: 0,
            end_lba: 0,
            attributes: 0,
            part_name,
        }
    }

    /// Writes the bytes of `name` over the start of the entry's name.
    pub fn set_name(&mut self, name: &str)
        requires
            old(self).wf(),
            name.spec_bytes().len() <= 72,
        ensures
            final(self).wf(),
            final(self).part_name@ == name.spec_bytes() + old(self).part_name@.skip(
                name.spec_bytes().len() as int,
            ),
            final(self).type_guid == old(self).type_guid,
            final(self).unique_guid == old(self).unique_guid,
            final(self).start_lba == old(self).start_lba,
            final(self).end_lba == old(self).end_lba,
            final(self).attributes == old(self).attributes,
    {
        let bytes = name.as_bytes();
        let n: usize = bytes.len();
        let mut index: usize = 0;
        while index < n
            invariant
                index <= n <= 72,
                bytes@.len() == n,
                self.part_name@.len() == 72,
                self.type_guid == old(self).type_guid,
                self.unique_guid == old(self).unique_guid,
                self.start_lba == old(self).start_lba,
                self.end_lba == old(self).end_lba,
                self.attributes == old(self).attributes,
                forall|j: int| 0 <= j < index ==> self.part_name@[j] == bytes@[j],
                forall|j: int| index <= j < 72 ==> self.part_name@[j] == old(self).part_name@[j],
            decreases n - index,
        {
            self.part_name.set(index, bytes[index]);
            index += 1;
        }
        assert(self.part_name@ =~= bytes@ + old(self).part_name@.skip(n as int));
    }

    /// The 128 bytes of the entry on disk.
    pub fn to_bytes(&self) -> (r: Vec<u8>)
        requires
            self.wf(),
        ensures
            r@ == self.spec_bytes(),
            r@.len() == 128,
    {
        let mut out: Vec<u8> = Vec::new();
        push_le(&mut out, self.type_guid.guid(), 16);
        push_le(&mut out, self.unique_guid, 16);
        push_le(&mut out, self.start_lba as u128, 8);
        push_le(&mut out, self.end_lba as u128, 8);
        push_le(&mut out, self.attributes as u128, 8);
        let mut i: usize = 0;
        let ghost head = out@;
        while i < 72
            invariant
                i <= 72,
                self.part_name@.len() == 72,
                out@ == head + self.part_name@.take(i as int),
            decreases 72 - i,
        {
            out.push(self.part_name[i]);
            proof {
                assert(out@ =~= head + self.part_name@.take(i + 1));
            }
            i += 1;
        }
        proof {
            assert(self.part_name@.take(72) =~= self.part_name@);
            assert(out@ =~= self.spec_bytes());
        }
        out
    }

    /// The checksum of the entry as it lies on disk.
    pub fn crc32(&self) -> (r: u32)
        requires
            self.wf(),
        ensures
            r == spec_crc32(self.spec_bytes()),
    {
        let bytes = self.to_bytes();
        crc32(bytes.as_slice())
    }
}

/// The header of the partition table.
#[derive(Clone, Copy, Debug, PartialEq, Eq, Structural)]
pub struct GPTHeader {
    /// The eight bytes that mark a header: "EFI PART", lowest byte first.
    pub sig: u64,
    /// The revision, 0x00010000.
    pub rev: u32,
    /// The size of the header in bytes, 112.
    pub size: u32,
    /// The checksum of the header.
    pub crc32: u32,
    /// The block that holds this header.
    pub host_lba: u64,
    /// The block that holds the other copy of the header.
    pub alt_lba: u64,
    /// The first block that partitions may use.
    pub first_lba: u64,
    /// The last block that partitions may use.
    pub last_lba: u64,
    /// The number of the disk.
    pub disk_guid: u128,
    /// The block at which the entries start.
    pub part_lba: u64,
    /// The number of entries.
    pub part_num: u32,
    /// The size of an entry in bytes, 128.
    pub part_size: u32,
    /// The checksum of the entries.
    pub part_checksum: u32,
}

/// "EFI PART", read as a number with its lowest byte first.
pub const GPT_SIG: u64 = 0x5452_4150_2049_4645;

impl GPTHeader {
    /// The header of an empty table.
    pub open spec fn spec_default() -> GPTHeader {
        GPTHeader {
            sig: GPT_SIG,
            rev: 0x0001_0000,
            size: 112,
            crc32: 0,
            host_lba: 0,
            alt_lba: 0,
            first_lba: 0,
            last_lba: 0,
            disk_guid: 0,
            part_lba: 0,
            part_num: 0,
            part_size: 128,
            part_checksum: 0,
        }
    }

    /// The 112 bytes of the header on disk. The number of the disk starts
    /// on a multiple of 16, after eight bytes left free, and eight more are
    /// left free at the end.
    pub open spec fn spec_bytes(self) -> Seq<u8> {
        le_bytes(self.sig as u128, 8) + le_bytes(self.rev as u128, 4) + le_bytes(
            self.size as u128,
            4,
        ) + le_bytes(self.crc32 as u128, 4) + zeros(4) + le_bytes(self.host_lba as u128, 8)
            + le_bytes(self.alt_lba as u128, 8) + le_bytes(self.first_lba as u128, 8) + le_bytes(
            self.last_lba as u128,
            8,
        ) + zeros(8) + le_bytes(self.disk_guid, 16) + le_bytes(self.part_lba as u128, 8)
            + le_bytes(self.part_num as u128, 4) + le_bytes(self.part_size as u128, 4) + le_bytes(
            self.part_checksum as u128,
            4,
        ) + zeros(4) + zeros(8)
    }

    /// The header of an empty table.
    pub fn default() -> (r: Self)
        ensures
            r == Self::spec_default(),
    {
        GPTHeader {
            sig: GPT_SIG,
            rev: 0x0001_0000,
            size: 112,
            crc32: 0,
            host_lba: 0,
            alt_lba: 0,
            first_lba: 0,
            last_lba: 0,
            disk_guid: 0,
            part_lba: 0,
            part_num: 0,
            part_size: 128,
            part_checksum: 0,
        }
    }

    /// The 112 bytes of the header on disk.
    pub fn to_bytes(&self) -> (r: Vec<u8>)
        ensures
            r@ == self.spec_bytes(),
            r@.len() == 112,
    {
        let mut out: Vec<u8> = Vec::new();
        push_le(&mut out, self.sig as u128, 8);
        push_le(&mut out, self.rev as u128, 4);
        push_le(&mut out, self.size as u128, 4);
        push_le(&mut out, self.crc32 as u128, 4);
        push_zeros(&mut out, 4);
        push_le(&mut out, self.host_lba as u128, 8);
        push_le(&mut out, self.alt_lba as u128, 8);
        push_le(&mut out, self.first_lba as u128, 8);
        push_le(&mut out, self.last_lba as u128, 8);
        push_zeros(&mut out, 8);
        push_le(&mut out, self.disk_guid, 16);
        push_le(&mut out, self.part_lba as u128, 8);
        push_le(&mut out, self.part_num as u128, 4);
        push_le(&mut out, self.part_size as u128, 4);
        push_le(&mut out, self.part_checksum as u128, 4);
        push_zeros(&mut out, 4);
        push_zeros(&mut out, 8);
        proof {
            assert(out@ =~= self.spec_bytes());
        }
        out
    }

    /// The checksum of the header as it lies on disk.
    pub fn crc32(&self) -> (r: u32)
        ensures
            r == spec_crc32(self.spec_bytes()),
    {
        let bytes = self.to_bytes();
        crc32(bytes.as_slice())
    }
}

} // verus!
