//! Address arithmetic that is taken from the `x86_64` crate.

use vstd::prelude::*;
use x86_64::structures::paging::{Page, Size4KiB};
use x86_64::VirtAddr;

verus! {

/// Size in bytes of a page and of a physical frame.
pub const PAGE_SIZE: u64 = 4096;

/// Whether bits 47 to 63 of `addr` are all equal, which is what the processor
/// demands of a virtual address.
pub open spec fn is_canonical(addr: u64) -> bool {
    addr < 0x0000_8000_0000_0000 || addr >= 0xffff_8000_0000_0000
}

/// Whether `first` and `last` lie in the same half of the canonical address
/// space, with `first` not above `last`.
pub open spec fn same_half(first: u64, last: u64) -> bool {
    first <= last && (last < 0x0000_8000_0000_0000 || first >= 0xffff_8000_0000_0000)
}

/// The start address of the 4 KiB page that holds `addr`.
///
/// Trusted: calls `x86_64::VirtAddr::new` and
/// `x86_64::structures::paging::Page::containing_address`. For a canonical
/// address `VirtAddr::new` keeps the value, and `containing_address` clears
/// its low twelve bits.
#[verifier::external_body]
pub(crate) fn page_start_of(addr: u64) -> (start: u64)
    requires
        is_canonical(addr),
    ensures
        start == addr - addr % 4096,
{
    Page::<Size4KiB>::containing_address(VirtAddr::new(addr)).start_address().as_u64()
}

/// The start addresses of the pages from the one at `first` to the one at
/// `last`, both included, in ascending order.
///
/// Trusted: calls `x86_64::structures::paging::Page::range_inclusive` and walks
/// the range it returns. Within one half of the address space that range
/// yields its first page and then each following page until it has yielded
/// the last one.
#[verifier::external_body]
pub(crate) fn page_starts_inclusive(first: u64, last: u64) -> (pages: Vec<u64>)
    requires
        is_canonical(first),
        is_canonical(last),
        same_half(first, last),
        first % 4096 == 0,
        last % 4096 == 0,
        (last - first) / 4096 < usize::MAX / 8,
    ensures
        pages@.len() == (last - first) / 4096 + 1,
        forall|i: int| 0 <= i < pages@.len() ==> #[trigger] pages@[i] == first + 4096 * i,
{
    let start = Page::<Size4KiB>::containing_address(VirtAddr::new(first));
    let end = Page::<Size4KiB>::containing_address(VirtAddr::new(last));
    Page::range_inclusive(start, end).map(|page| page.start_address().as_u64()).collect()
}

} // verus!
