//! The detector for 32-bit paging with 32-bit entries.

use vstd::prelude::*;
use crate::architecture::Architecture;
use crate::bytes::{spec_u32_le, u32_le};
use crate::kernel::lowstub::StartBlock;
use crate::types::Address;

verus! {

/// Offset of the entry of a page directory that maps the directory itself.
pub const SELF_REFERENCE_OFFSET: usize = 0xc00;

/// Whether the low byte of entry `k` is that of a supervisor page: present,
/// writable, accessed and dirty, large or not.
pub open spec fn is_supervisor_entry(mem: Seq<u8>, base: int, k: int) -> bool {
    mem[base + 4 * k] == 0x63 || mem[base + 4 * k] == 0xe3
}

/// The number of supervisor entries from entry 512 up to entry `upto`.
pub open spec fn supervisor_entries(mem: Seq<u8>, base: int, upto: int) -> int
    decreases upto,
{
    if upto <= 512 {
        0
    } else {
        supervisor_entries(mem, base, upto - 1) + if is_supervisor_entry(mem, base, upto - 1) {
            1int
        } else {
            0int
        }
    }
}

/// Whether the page at `base` looks like the kernel's page directory: its first
/// entry is a present, writable, accessed and dirty user entry, the entry at
/// the self-reference offset maps the directory itself, and its upper half
/// has more than sixteen supervisor entries.
pub open spec fn spec_is_page_directory(mem: Seq<u8>, base: int) -> bool {
    &&& mem[base] == 0x67
    &&& spec_u32_le(mem, base + SELF_REFERENCE_OFFSET) & 0xffff_f003 == base + 3
    &&& supervisor_entries(mem, base, 1024) > 16
}

pub fn is_page_directory(mem: &[u8], base: usize) -> (b: bool)
    requires
        base + 0x1000 <= mem.len(),
    ensures
        b == spec_is_page_directory(mem@, base as int),
{
    if mem[base] != 0x67 {
        return false;
    }
    let own: u32 = u32_le(mem, base + SELF_REFERENCE_OFFSET);
    if (own & 0xffff_f003) as u64 != base as u64 + 3 {
        return false;
    }
    let mut count: usize = 0;
    let mut k: usize = 512;
    while k < 1024
        invariant
            512 <= k <= 1024,
            base + 0x1000 <= mem.len(),
            count <= k - 512,
            count == supervisor_entries(mem@, base as int, k as int),
        decreases 1024 - k,
    {
        let low: u8 = mem[base + 4 * k];
        if low == 0x63 || low == 0xe3 {
            count = count + 1;
        }
        k = k + 1;
    }
    count > 16
}

/// The first page directory in the whole pages of `mem` from `page` on. It
/// gives its own address as the directory table base, and no anchor.
pub open spec fn spec_find_from(mem: Seq<u8>, page: int) -> Option<StartBlock>
    decreases mem.len() - page * 0x1000,
{
    if page < 0 || (page + 1) * 0x1000 > mem.len() {
        None
    } else if spec_is_page_directory(mem, page * 0x1000) {
        Some(
            StartBlock {
                arch: Architecture::X86,
                va: Address { value: 0 },
                dtb: Address { value: (page * 0x1000) as u64 },
            },
        )
    } else {
        spec_find_from(mem, page + 1)
    }
}

pub open spec fn spec_find(mem: Seq<u8>) -> Option<StartBlock> {
    spec_find_from(mem, 0)
}

/// Looks for the kernel's page directory in `mem`.
pub fn find(mem: &[u8]) -> (res: Option<StartBlock>)
    ensures
        res == spec_find(mem@),
{
    let pages: usize = mem.len() / 0x1000;
    let mut page: usize = 0;
    while page < pages
        invariant
            pages == mem.len() / 0x1000,
            spec_find(mem@) == spec_find_from(mem@, page as int),
        decreases pages - page,
    {
        let base: usize = page * 0x1000;
        if is_page_directory(mem, base) {
            return Some(
                StartBlock {
                    arch: Architecture::X86,
                    va: Address::null(),
                    dtb: Address::from_u64(base as u64),
                },
            );
        }
        page = page + 1;
    }
    None
}

} // verus!
