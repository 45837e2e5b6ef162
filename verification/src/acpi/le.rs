//! Numbers in a run of bytes, lowest byte first.
use vstd::prelude::*;

verus! {

/// The number that the bytes of `s` spell, lowest byte first.
pub open spec fn le_value(s: Seq<u8>) -> u64
    decreases s.len(),
{
    if s.len() == 0 {
        0
    } else {
        (le_value(s.drop_first()) << 8) | (s[0] as u64)
    }
}

/// The number that the `n` bytes of `bytes` from `off` on spell.
pub open spec fn le_at(bytes: Seq<u8>, off: int, n: int) -> u64 {
    le_value(bytes.subrange(off, off + n))
}

/// Reads the number that the `n` bytes from `off` on spell.
pub fn read_le(bytes: &[u8], off: usize, n: usize) -> (r: u64)
    requires
        n <= 8,
        off + n <= bytes@.len(),
    ensures
        r == le_at(bytes@, off as int, n as int),
{
    let total: usize = bytes.len();
    let mut acc: u64 = 0;
    let mut i: usize = n;
    let ghost whole = bytes@.subrange(off as int, off + n);
    while i > 0
        invariant
            i <= n <= 8,
            off + n <= bytes@.len(),
            bytes@.len() <= usize::MAX,
            whole == bytes@.subrange(off as int, off + n),
            acc == le_value(whole.skip(i as int)),
        decreases i,
    {
        i -= 1;
        proof {
            assert(whole.skip(i as int).drop_first() =~= whole.skip(i + 1));
            assert(whole.skip(i as int)[0] == bytes@[off + i]);
        }
        acc = (acc << 8) | (bytes[off + i] as u64);
    }
    proof {
        assert(whole.skip(0) =~= whole);
    }
    acc
}

/// A number spelt by a few bytes has no bit set above them.
pub proof fn lemma_le_bound(s: Seq<u8>)
    requires
        s.len() <= 4,
    ensures
        s.len() == 0 ==> le_value(s) == 0,
        s.len() <= 1 ==> le_value(s) <= 0xff,
        s.len() <= 2 ==> le_value(s) <= 0xffff,
        s.len() <= 3 ==> le_value(s) <= 0xff_ffff,
        le_value(s) <= 0xffff_ffff,
    decreases s.len(),
{
    if s.len() > 0 {
        lemma_le_bound(s.drop_first());
        let rest = le_value(s.drop_first());
        let b = s[0] as u64;
        assert((rest == 0 ==> ((rest << 8) | b) <= 0xff) && (rest <= 0xff ==> ((rest << 8) | b)
            <= 0xffff) && (rest <= 0xffff ==> ((rest << 8) | b) <= 0xff_ffff) && (rest <= 0xff_ffff
            ==> ((rest << 8) | b) <= 0xffff_ffff)) by (bit_vector)
            requires
                b <= 0xff,
        ;
    }
}

/// Reads the 8-bit number at `off`.
pub fn read_u8(bytes: &[u8], off: usize) -> (r: u8)
    requires
        off + 1 <= bytes@.len(),
    ensures
        r == bytes@[off as int],
{
    bytes[off]
}

/// Reads the 16-bit number at `off`.
pub fn read_u16(bytes: &[u8], off: usize) -> (r: u16)
    requires
        off + 2 <= bytes@.len(),
    ensures
        r == le_at(bytes@, off as int, 2),
{
    proof {
        lemma_le_bound(bytes@.subrange(off as int, off + 2));
    }
    read_le(bytes, off, 2) as u16
}

/// Reads the 32-bit number at `off`.
pub fn read_u32(bytes: &[u8], off: usize) -> (r: u32)
    requires
        off + 4 <= bytes@.len(),
    ensures
        r == le_at(bytes@, off as int, 4),
{
    proof {
        lemma_le_bound(bytes@.subrange(off as int, off + 4));
    }
    read_le(bytes, off, 4) as u32
}

/// Reads the 64-bit number at `off`.
pub fn read_u64(bytes: &[u8], off: usize) -> (r: u64)
    requires
        off + 8 <= bytes@.len(),
    ensures
        r == le_at(bytes@, off as int, 8),
{
    read_le(bytes, off, 8)
}

} // verus!
