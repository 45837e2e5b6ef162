//! Bit fields inside a 64-bit word.
use vstd::prelude::*;

verus! {

/// The word with its `width` lowest bits set, for `width` below 64.
pub open spec fn low_mask(width: u64) -> u64 {
    !(0xffff_ffff_ffff_ffffu64 << width)
}

/// The `width` bits of `raw` that start at bit `lo`.
pub open spec fn field(raw: u64, lo: u64, width: u64) -> u64 {
    (raw >> lo) & low_mask(width)
}

/// `raw` with the `width` bits that start at bit `lo` replaced by the low
/// bits of `val`.
pub open spec fn with_field(raw: u64, lo: u64, width: u64, val: u64) -> u64 {
    (raw & !(low_mask(width) << lo)) | ((val & low_mask(width)) << lo)
}

/// Bit `index` of `raw`.
pub open spec fn bit(raw: u64, index: u64) -> bool {
    field(raw, index, 1) == 1
}

/// `raw` with bit `index` set to `val`.
pub open spec fn with_bit(raw: u64, index: u64, val: bool) -> u64 {
    with_field(
        raw,
        index,
        1,
        if val {
            1
        } else {
            0
        },
    )
}

/// Reads the `width` bits of `raw` that start at bit `lo`.
pub fn get_field(raw: u64, lo: u64, width: u64) -> (r: u64)
    requires
        0 < width < 64,
        lo + width <= 64,
    ensures
        r == field(raw, lo, width),
{
    let mask: u64 = !(0xffff_ffff_ffff_ffffu64 << width);
    (raw >> lo) & mask
}

/// Writes the low `width` bits of `val` into `raw` at bit `lo`.
pub fn set_field(raw: u64, lo: u64, width: u64, val: u64) -> (r: u64)
    requires
        0 < width < 64,
        lo + width <= 64,
    ensures
        r == with_field(raw, lo, width, val),
{
    let mask: u64 = !(0xffff_ffff_ffff_ffffu64 << width);
    (raw & !(mask << lo)) | ((val & mask) << lo)
}

/// Reads bit `index` of `raw`.
pub fn get_bit(raw: u64, index: u64) -> (r: bool)
    requires
        index < 64,
    ensures
        r == bit(raw, index),
{
    get_field(raw, index, 1) == 1
}

/// Sets bit `index` of `raw` to `val`.
pub fn set_bit(raw: u64, index: u64, val: bool) -> (r: u64)
    requires
        index < 64,
    ensures
        r == with_bit(raw, index, val),
{
    set_field(
        raw,
        index,
        1,
        if val {
            1
        } else {
            0
        },
    )
}

/// A field never holds more than its width allows.
pub proof fn lemma_field_bound(raw: u64, lo: u64, width: u64)
    requires
        0 < width < 64,
        lo + width <= 64,
    ensures
        field(raw, lo, width) <= low_mask(width),
        field(raw, lo, width) & low_mask(width) == field(raw, lo, width),
{
    let m = low_mask(width);
    let x = raw >> lo;
    assert(x & m <= m && (x & m) & m == x & m) by (bit_vector);
}

/// A field that was just written reads back as the low bits of what was
/// written.
pub proof fn lemma_field_written(raw: u64, lo: u64, width: u64, val: u64)
    requires
        0 < width < 64,
        lo + width <= 64,
    ensures
        field(with_field(raw, lo, width, val), lo, width) == val & low_mask(width),
{
    assert((((raw & !((!(0xffff_ffff_ffff_ffffu64 << width)) << lo)) | ((val & (!(
    0xffff_ffff_ffff_ffffu64 << width))) << lo)) >> lo) & (!(0xffff_ffff_ffff_ffffu64 << width))
        == val & (!(0xffff_ffff_ffff_ffffu64 << width))) by (bit_vector)
        requires
            0 < width < 64,
            lo + width <= 64,
    ;
}

/// Writing one field leaves every field that does not overlap it as it was.
pub proof fn lemma_field_kept(raw: u64, lo: u64, width: u64, val: u64, lo2: u64, width2: u64)
    requires
        0 < width < 64,
        lo + width <= 64,
        0 < width2 < 64,
        lo2 + width2 <= 64,
        lo + width <= lo2 || lo2 + width2 <= lo,
    ensures
        field(with_field(raw, lo, width, val), lo2, width2) == field(raw, lo2, width2),
{
    assert((((raw & !((!(0xffff_ffff_ffff_ffffu64 << width)) << lo)) | ((val & (!(
    0xffff_ffff_ffff_ffffu64 << width))) << lo)) >> lo2) & (!(0xffff_ffff_ffff_ffffu64 << width2))
        == (raw >> lo2) & (!(0xffff_ffff_ffff_ffffu64 << width2))) by (bit_vector)
        requires
            0 < width < 64,
            lo + width <= 64,
            0 < width2 < 64,
            lo2 + width2 <= 64,
            lo + width <= lo2 || lo2 + width2 <= lo,
    ;
}

} // verus!
