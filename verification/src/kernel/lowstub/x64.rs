//! The detectors for long mode: the processor start block that the boot loader
//! leaves in low memory, and the root page table itself.

use vstd::prelude::*;
use crate::architecture::Architecture;
use crate::bytes::{spec_u64_le, u64_le};
use crate::kernel::lowstub::StartBlock;
use crate::types::Address;

verus! {

/// Offset of the kernel entry point in the start block.
pub const KERNEL_ENTRY_OFFSET: usize = 0x70;

/// Offset of the directory table base in the start block.
pub const DTB_OFFSET: usize = 0xa0;

/// The largest physical address that a root table's first entry may name.
pub const MAX_MEMORY: u64 = 0x80_0000_0000;

/// Whether the page at `base` is a processor start block: it begins with the
/// jump of the start-up code, its kernel entry point lies in kernel space, and
/// its directory table base is the address of a page.
pub open spec fn spec_is_start_block(mem: Seq<u8>, base: int) -> bool {
    &&& 0xffff_ffff_ffff_00ff & spec_u64_le(mem, base) == 0x0000_0001_0006_00e9
    &&& 0xffff_f800_0000_0003 & spec_u64_le(mem, base + KERNEL_ENTRY_OFFSET)
        == 0xffff_f800_0000_0000
    &&& 0xffff_ff00_0000_0fff & spec_u64_le(mem, base + DTB_OFFSET) == 0
}

pub fn is_start_block(mem: &[u8], base: usize) -> (b: bool)
    requires
        base + 0x1000 <= mem.len(),
    ensures
        b == spec_is_start_block(mem@, base as int),
{
    0xffff_ffff_ffff_00ff & u64_le(mem, base) == 0x0000_0001_0006_00e9 && 0xffff_f800_0000_0003
        & u64_le(mem, base + KERNEL_ENTRY_OFFSET) == 0xffff_f800_0000_0000
        && 0xffff_ff00_0000_0fff & u64_le(mem, base + DTB_OFFSET) == 0
}

/// What the start block at `base` says: the kernel entry point as the anchor,
/// and the directory table base.
pub open spec fn start_block_at(mem: Seq<u8>, base: int) -> StartBlock {
    StartBlock {
        arch: Architecture::X64,
        va: Address { value: spec_u64_le(mem, base + KERNEL_ENTRY_OFFSET) },
        dtb: Address { value: spec_u64_le(mem, base + DTB_OFFSET) },
    }
}

/// The first start block in the whole pages of `mem` from `page` on.
pub open spec fn spec_find_lowstub_from(mem: Seq<u8>, page: int) -> Option<StartBlock>
    decreases mem.len() - page * 0x1000,
{
    if page < 0 || (page + 1) * 0x1000 > mem.len() {
        None
    } else if spec_is_start_block(mem, page * 0x1000) {
        Some(start_block_at(mem, page * 0x1000))
    } else {
        spec_find_lowstub_from(mem, page + 1)
    }
}

/// The first start block in `mem`; the page at address zero is not looked at.
pub open spec fn spec_find_lowstub(mem: Seq<u8>) -> Option<StartBlock> {
    spec_find_lowstub_from(mem, 1)
}

/// Looks for the processor start block in the low stub.
pub fn find_lowstub(stub: &[u8]) -> (res: Option<StartBlock>)
    ensures
        res == spec_find_lowstub(stub@),
{
    let pages: usize = stub.len() / 0x1000;
    let mut page: usize = 1;
    while page < pages
        invariant
            1 <= page,
            pages == stub.len() / 0x1000,
            spec_find_lowstub(stub@) == spec_find_lowstub_from(stub@, page as int),
        decreases pages - page,
    {
        let base: usize = page * 0x1000;
        if is_start_block(stub, base) {
            return Some(
                StartBlock {
                    arch: Architecture::X64,
                    va: Address::from_u64(u64_le(stub, base + KERNEL_ENTRY_OFFSET)),
                    dtb: Address::from_u64(u64_le(stub, base + DTB_OFFSET)),
                },
            );
        }
        page = page + 1;
    }
    None
}

/// Entry `k` of the table at `base`.
pub open spec fn table_entry(mem: Seq<u8>, base: int, k: int) -> u64 {
    spec_u64_le(mem, base + 8 * k)
}

/// Whether entry `k` of the table at `base` maps the table itself, as a
/// present, writable, accessed and dirty kernel page; the no-execute bit is
/// not looked at.
pub open spec fn is_self_reference(mem: Seq<u8>, base: int, k: int) -> bool {
    (table_entry(mem, base, k) ^ 0x63) & 0x7fff_ffff_ffff_ffff == base as u64
}

/// The number of entries from 256 up to `upto` whose low byte is that of a
/// kernel page: present, writable, accessed and dirty.
pub open spec fn kernel_entries(mem: Seq<u8>, base: int, upto: int) -> int
    decreases upto,
{
    if upto <= 256 {
        0
    } else {
        kernel_entries(mem, base, upto - 1) + if table_entry(mem, base, upto - 1) & 0xff == 0x63 {
            1int
        } else {
            0int
        }
    }
}

/// Whether the page at `base` looks like the kernel's root table: its first
/// entry is a present, writable user entry for a small page inside the memory
/// limit, its upper half has an entry that maps the table itself, and its
/// upper half has at least six kernel entries.
pub open spec fn spec_is_root_table(mem: Seq<u8>, base: int) -> bool {
    &&& table_entry(mem, base, 0) & 0x87 == 0x7
    &&& table_entry(mem, base, 0) & 0x0000_ffff_ffff_f000 <= MAX_MEMORY
    &&& exists|k: int| 256 <= k < 512 && #[trigger] is_self_reference(mem, base, k)
    &&& kernel_entries(mem, base, 512) >= 6
}

pub fn is_root_table(mem: &[u8], base: usize) -> (b: bool)
    requires
        base + 0x1000 <= mem.len(),
    ensures
        b == spec_is_root_table(mem@, base as int),
{
    let first: u64 = u64_le(mem, base);
    if first & 0x87 != 0x7 || first & 0x0000_ffff_ffff_f000 > MAX_MEMORY {
        return false;
    }
    let mut found: bool = false;
    let mut count: usize = 0;
    let mut k: usize = 256;
    while k < 512
        invariant
            256 <= k <= 512,
            base + 0x1000 <= mem.len(),
            count <= k - 256,
            count == kernel_entries(mem@, base as int, k as int),
            found <==> exists|j: int| 256 <= j < k && #[trigger] is_self_reference(
                mem@,
                base as int,
                j,
            ),
        decreases 512 - k,
    {
        let entry: u64 = u64_le(mem, base + 8 * k);
        if (entry ^ 0x63) & 0x7fff_ffff_ffff_ffff == base as u64 {
            found = true;
        }
        assert(is_self_reference(mem@, base as int, k as int) == ((entry ^ 0x63)
            & 0x7fff_ffff_ffff_ffff == base as u64));
        if entry & 0xff == 0x63 {
            count = count + 1;
        }
        k = k + 1;
    }
    found && count >= 6
}

/// The first root table in the whole pages of `mem` from `page` on. It gives
/// its own address as the directory table base, and no anchor.
pub open spec fn spec_find_from(mem: Seq<u8>, page: int) -> Option<StartBlock>
    decreases mem.len() - page * 0x1000,
{
    if page < 0 || (page + 1) * 0x1000 > mem.len() {
        None
    } else if spec_is_root_table(mem, page * 0x1000) {
        Some(
            StartBlock {
                arch: Architecture::X64,
                va: Address { value: 0 },
                dtb: Address { value: (page * 0x1000) as u64 },
            },
        )
    } else {
        spec_find_from(mem, page + 1)
    }
}

pub open spec fn spec_find(mem: Seq<u8>) -> Option<StartBlock> {
    spec_find_from(mem, 0)
}

/// Looks for the kernel's root table in `mem`.
pub fn find(mem: &[u8]) -> (res: Option<StartBlock>)
    ensures
        res == spec_find(mem@),
{
    let pages: usize = mem.len() / 0x1000;
    let mut page: usize = 0;
    while page < pages
        invariant
            pages == mem.len() / 0x1000,
            spec_find(mem@) == spec_find_from(mem@, page as int),
        decreases pages - page,
    {
        let base: usize = page * 0x1000;
        if is_root_table(mem, base) {
            return Some(
                StartBlock {
                    arch: Architecture::X64,
                    va: Address::null(),
                    dtb: Address::from_u64(base as u64),
                },
            );
        }
        page = page + 1;
    }
    None
}

} // verus!
