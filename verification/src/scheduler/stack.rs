//! The pages of a thread's stack: 256 pages in a row.
use vstd::prelude::*;
use crate::mem::VirtualAddress;

verus! {

/// The address of page `index` of the stack that starts at `stack_addr`.
pub open spec fn stack_page(stack_addr: u64, index: int) -> VirtualAddress {
    VirtualAddress((stack_addr + index * 0x1000) as u64)
}

/// Which table of the lowest level an address falls into: the address
/// without its index for that level and its offset in the page.
pub open spec fn upper(vaddr: VirtualAddress) -> u64 {
    vaddr.0 >> 21
}

/// Two pages of one stack fall into the same table of the lowest level or
/// into two that follow one another. In the same table they have their
/// own slots; in two tables they part at level 2.
pub proof fn lemma_stack_pages(stack_addr: u64, i: int, j: int)
    requires
        stack_addr + 0x10_0000 <= u64::MAX,
        0 <= i < j < 256,
    ensures
        upper(stack_page(stack_addr, j)) == upper(stack_page(stack_addr, i)) || upper(
            stack_page(stack_addr, j),
        ) == upper(stack_page(stack_addr, i)) + 1,
        upper(stack_page(stack_addr, j)) == upper(stack_page(stack_addr, i)) ==> {
            &&& stack_page(stack_addr, i).spec_vpn(1) != stack_page(stack_addr, j).spec_vpn(1)
            &&& forall|l: int|
                2 <= l <= 5 ==> stack_page(stack_addr, i).spec_vpn(l) == stack_page(
                    stack_addr,
                    j,
                ).spec_vpn(l)
        },
        upper(stack_page(stack_addr, j)) != upper(stack_page(stack_addr, i)) ==> stack_page(
            stack_addr,
            i,
        ).spec_vpn(2) != stack_page(stack_addr, j).spec_vpn(2),
{
    let x: u64 = (stack_addr + i * 0x1000) as u64;
    let d: u64 = (j - i) as u64;
    let y: u64 = (stack_addr + j * 0x1000) as u64;
    assert(y == x + d * 0x1000);
    assert({
        &&& (y >> 21 == x >> 21 || y >> 21 == (x >> 21) + 1)
        &&& (y >> 21 == x >> 21 ==> {
            &&& (x >> 12) & !(0xffff_ffff_ffff_ffffu64 << 9) != (y >> 12) & !(
            0xffff_ffff_ffff_ffffu64 << 9)
            &&& (x >> 21) & !(0xffff_ffff_ffff_ffffu64 << 9) == (y >> 21) & !(
            0xffff_ffff_ffff_ffffu64 << 9)
            &&& (x >> 30) & !(0xffff_ffff_ffff_ffffu64 << 9) == (y >> 30) & !(
            0xffff_ffff_ffff_ffffu64 << 9)
            &&& (x >> 39) & !(0xffff_ffff_ffff_ffffu64 << 9) == (y >> 39) & !(
            0xffff_ffff_ffff_ffffu64 << 9)
            &&& (x >> 48) & !(0xffff_ffff_ffff_ffffu64 << 9) == (y >> 48) & !(
            0xffff_ffff_ffff_ffffu64 << 9)
        })
        &&& (y >> 21 != x >> 21 ==> (x >> 21) & !(0xffff_ffff_ffff_ffffu64 << 9) != (y >> 21) & !(
        0xffff_ffff_ffff_ffffu64 << 9))
    }) by (bit_vector)
        requires
            y == x + d * 0x1000,
            1 <= d < 256,
            x <= 0xffff_ffff_ffff_ffffu64 - d * 0x1000,
    ;
    let a = stack_page(stack_addr, i);
    let b = stack_page(stack_addr, j);
    assert(a.0 == x && b.0 == y);
    assert forall|l: int| 2 <= l <= 5 && upper(b) == upper(a) implies a.spec_vpn(l) == b.spec_vpn(
        l,
    ) by {
        if l == 2 {
        } else if l == 3 {
        } else if l == 4 {
        } else {
        }
    }
}

} // verus!
