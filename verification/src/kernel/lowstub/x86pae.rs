//! The detector for 32-bit paging with physical address extension.

use vstd::prelude::*;
use crate::architecture::Architecture;
use crate::bytes::{spec_u64_le, u64_le};
use crate::kernel::lowstub::StartBlock;
use crate::types::Address;

verus! {

/// What entry `k` of the kernel's page-directory-pointer table at `base` holds:
/// each of the four entries names one of the four pages that follow the
/// table, as present; the rest of the page is zero.
pub open spec fn expected_entry(base: int, k: int) -> int {
    if k < 4 {
        base + k * 0x1000 + 0x1001
    } else {
        0
    }
}

/// Whether the page at `base` is the kernel's page-directory-pointer table.
pub open spec fn spec_is_pointer_table(mem: Seq<u8>, base: int) -> bool {
    forall|k: int|
        0 <= k < 512 ==> #[trigger] spec_u64_le(mem, base + 8 * k) == expected_entry(base, k)
}

pub fn is_pointer_table(mem: &[u8], base: usize) -> (b: bool)
    requires
        base + 0x1000 <= mem.len(),
    ensures
        b == spec_is_pointer_table(mem@, base as int),
{
    let mut k: usize = 0;
    while k < 512
        invariant
            k <= 512,
            base + 0x1000 <= mem.len(),
            forall|j: int|
                0 <= j < k ==> #[trigger] spec_u64_le(mem@, base + 8 * j) == expected_entry(
                    base as int,
                    j,
                ),
        decreases 512 - k,
    {
        let entry: u64 = u64_le(mem, base + 8 * k);
        let offset: u64 = if k < 4 {
            k as u64 * 0x1000 + 0x1001
        } else {
            0
        };
        let start: u64 = if k < 4 {
            base as u64
        } else {
            0
        };
        if start > u64::MAX - offset || entry != start + offset {
            assert(spec_u64_le(mem@, base + 8 * (k as int)) != expected_entry(
                base as int,
                k as int,
            ));
            return false;
        }
        k = k + 1;
    }
    true
}

/// The first page-directory-pointer table in the whole pages of `mem` from
/// `page` on. It gives its own address as the directory table base, and no
/// anchor.
pub open spec fn spec_find_from(mem: Seq<u8>, page: int) -> Option<StartBlock>
    decreases mem.len() - page * 0x1000,
{
    if page < 0 || (page + 1) * 0x1000 > mem.len() {
        None
    } else if spec_is_pointer_table(mem, page * 0x1000) {
        Some(
            StartBlock {
                arch: Architecture::X86Pae,
                va: Address { value: 0 },
                dtb: Address { value: (page * 0x1000) as u64 },
            },
        )
    } else {
        spec_find_from(mem, page + 1)
    }
}

pub open spec fn spec_find(mem: Seq<u8>) -> Option<StartBlock> {
    spec_find_from(mem, 0)
}

/// Looks for the kernel's page-directory-pointer table in `mem`.
pub fn find(mem: &[u8]) -> (res: Option<StartBlock>)
    ensures
        res == spec_find(mem@),
{
    let pages: usize = mem.len() / 0x1000;
    let mut page: usize = 0;
    while page < pages
        invariant
            pages == mem.len() / 0x1000,
            spec_find(mem@) == spec_find_from(mem@, page as int),
        decreases pages - page,
    {
        let base: usize = page * 0x1000;
        if is_pointer_table(mem, base) {
            return Some(
                StartBlock {
                    arch: Architecture::X86Pae,
                    va: Address::null(),
                    dtb: Address::from_u64(base as u64),
                },
            );
        }
        page = page + 1;
    }
    None
}

} // verus!
