//! The checksum of the partition table.
use vstd::prelude::*;

verus! {

/// One step of the checksum register: shift right by one bit, and mix the
/// polynomial in where a one fell out.
pub open spec fn crc_shift(acc: u32) -> u32 {
    if acc & 1 == 1 {
        0x04c1_1db7 ^ (acc >> 1)
    } else {
        acc >> 1
    }
}

/// `n` steps of the checksum register.
pub open spec fn crc_shifts(acc: u32, n: nat) -> u32
    decreases n,
{
    if n == 0 {
        acc
    } else {
        crc_shift(crc_shifts(acc, (n - 1) as nat))
    }
}

/// Entry `n` of the checksum table: eight steps from `n`.
pub open spec fn crc_table_entry(n: u32) -> u32 {
    crc_shifts(n, 8)
}

/// The checksum register after the bytes of `buf`, starting from `acc`.
pub open spec fn crc_fold(acc: u32, buf: Seq<u8>) -> u32
    decreases buf.len(),
{
    if buf.len() == 0 {
        acc
    } else {
        let a = crc_fold(acc, buf.drop_last());
        (a >> 8) ^ crc_table_entry((a & 0xff) ^ (buf.last() as u32))
    }
}

/// The checksum of `buf`: the register starts with all ones, and the
/// result is its complement.
pub open spec fn spec_crc32(buf: Seq<u8>) -> u32 {
    !crc_fold(0xffff_ffff, buf)
}

/// The checksum table: 256 entries, entry `n` eight steps from `n`.
pub fn crc32_compute_table() -> (r: Vec<u32>)
    ensures
        r@.len() == 256,
        forall|n: int| 0 <= n < 256 ==> r@[n] == crc_table_entry(n as u32),
{
    let mut table: Vec<u32> = Vec::new();
    let mut n: u32 = 0;
    while n < 256
        invariant
            n <= 256,
            table@.len() == n,
            forall|k: int| 0 <= k < n ==> table@[k] == crc_table_entry(k as u32),
        decreases 256 - n,
    {
        let mut acc: u32 = n;
        let mut i: usize = 0;
        while i < 8
            invariant
                i <= 8,
                acc == crc_shifts(n, i as nat),
            decreases 8 - i,
        {
            acc = if acc & 1 == 1 {
                0x04c1_1db7 ^ (acc >> 1)
            } else {
                acc >> 1
            };
            i += 1;
        }
        table.push(acc);
        n += 1;
    }
    table
}

/// The checksum of `buf`.
pub fn crc32(buf: &[u8]) -> (r: u32)
    ensures
        r == spec_crc32(buf@),
{
    let table = crc32_compute_table();
    let mut acc: u32 = 0xffff_ffff;
    let mut i: usize = 0;
    while i < buf.len()
        invariant
            i <= buf@.len(),
            table@.len() == 256,
            forall|n: int| 0 <= n < 256 ==> table@[n] == crc_table_entry(n as u32),
            acc == crc_fold(0xffff_ffff, buf@.take(i as int)),
        decreases buf@.len() - i,
    {
        let octet: u32 = buf[i] as u32;
        let index: u32 = (acc & 0xff) ^ octet;
        assert((acc & 0xff) ^ octet < 256) by (bit_vector)
            requires
                octet < 256,
        ;
        proof {
            assert(buf@.take(i + 1).drop_last() =~= buf@.take(i as int));
            assert(buf@.take(i + 1).last() == buf@[i as int]);
        }
        acc = (acc >> 8) ^ table[index as usize];
        i += 1;
    }
    proof {
        assert(buf@.take(buf@.len() as int) =~= buf@);
    }
    !acc
}

} // verus!
