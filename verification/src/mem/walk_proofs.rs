//! What holds of every walk: the offset inside the page is kept, an absent
//! entry maps nothing, a large page ends the walk, and the addresses of one
//! page are translated alike.

use vstd::prelude::*;
use crate::architecture::Architecture;
use crate::mem::virt_translate::{
    dtb_valid, reads_from, spec_decode_entry, spec_entry_address, spec_entry_index,
    spec_frame_mask, spec_is_leaf, spec_read_entry, walk, walk_from, Step, Walk, ENTRY_PAGE_SIZE,
    ENTRY_PRESENT,
};
use crate::types::{lemma_wrapping_offset_small, Address, Page, PageSize, PhysicalAddress};

verus! {

/// The mask of the address bits that select a byte inside a page.
pub open spec fn offset_mask(size: PageSize) -> u64 {
    (size.bytes() - 1) as u64
}

/// Whether two addresses lie in the same page of the given size.
pub open spec fn same_page(size: PageSize, a: u64, b: u64) -> bool {
    a & !offset_mask(size) == b & !offset_mask(size)
}

/// The physical address of `va` in `page`, for a `va` that the page holds.
pub open spec fn address_in_page(page: Page, va: u64) -> PhysicalAddress {
    PhysicalAddress {
        address: Address { value: page.base.value | (va & offset_mask(page.size)) },
        page_size: page.size,
    }
}

proof fn lemma_leaf_bits(entry: u64, am: u64, va: u64, lo: u64)
    by (bit_vector)
    ensures
        ((entry & (am & !lo)) | (va & lo)) & lo == va & lo,
        (entry & (am & !lo)) & lo == 0,
        ((entry & (am & !lo)) | (va & lo)) == (entry & (am & !lo)) + (va & lo),
{
}

/// Under the offset mask of a page size an address is its remainder by that size.
pub proof fn lemma_offset_mask_is_remainder(size: PageSize, x: u64)
    ensures
        x & offset_mask(size) == x % size.bytes(),
{
    assert(x & 0xfff == x % 0x1000) by (bit_vector);
    assert(x & 0x1f_ffff == x % 0x20_0000) by (bit_vector);
    assert(x & 0x3f_ffff == x % 0x40_0000) by (bit_vector);
    assert(x & 0x3fff_ffff == x % 0x4000_0000) by (bit_vector);
}

proof fn lemma_index_in_page(va: u64, vb: u64, lo: u64, shift: u64, mask: u64)
    by (bit_vector)
    requires
        (lo == 0xfff && shift >= 12) || (lo == 0x1f_ffff && shift >= 21) || (lo == 0x3f_ffff
            && shift >= 22) || (lo == 0x3fff_ffff && shift >= 30),
        shift < 64,
        va & !lo == vb & !lo,
    ensures
        (va >> shift) & mask == (vb >> shift) & mask,
{
}

/// The page that an entry maps is as large as the part of the address space
/// that one entry of its level covers.
proof fn lemma_leaf_geometry(arch: Architecture, level: u8, entry: u64)
    requires
        1 <= level <= arch.levels(),
        spec_is_leaf(arch, level, entry),
    ensures
        offset_mask(arch.leaf_size(level)) == 0xfff && arch.index_shift(level) == 12
            || offset_mask(arch.leaf_size(level)) == 0x1f_ffff && arch.index_shift(level) == 21
            || offset_mask(arch.leaf_size(level)) == 0x3f_ffff && arch.index_shift(level) == 22
            || offset_mask(arch.leaf_size(level)) == 0x3fff_ffff && arch.index_shift(level) == 30,
{
}

/// What an entry that maps a page says: the address keeps the offset that it
/// has inside the page, and the page's base is aligned to the page's size.
pub proof fn lemma_leaf_keeps_offset(arch: Architecture, level: u8, entry: u64, va: u64)
    requires
        spec_decode_entry(arch, level, entry, va) is Leaf,
    ensures
        ({
            let pa = spec_decode_entry(arch, level, entry, va)->Leaf_0;
            let page = spec_decode_entry(arch, level, entry, va)->Leaf_1;
            &&& pa.page_size == page.size
            &&& pa == address_in_page(page, va)
            &&& pa.address.value % page.size.bytes() == va % page.size.bytes()
            &&& page.base.value % page.size.bytes() == 0
            &&& pa.address.value == page.base.value + va % page.size.bytes()
            &&& va & offset_mask(page.size) == va % page.size.bytes()
        }),
{
    let size = arch.leaf_size(level);
    let pa = spec_decode_entry(arch, level, entry, va)->Leaf_0;
    let page = spec_decode_entry(arch, level, entry, va)->Leaf_1;
    lemma_leaf_bits(entry, arch.address_mask(), va, offset_mask(size));
    lemma_offset_mask_is_remainder(size, va);
    lemma_offset_mask_is_remainder(size, pa.address.value);
    lemma_offset_mask_is_remainder(size, page.base.value);
}

/// Offset preservation: where the walk maps an address, the physical address
/// and the virtual address have the same offset inside the page that was
/// found, whatever its size.
pub proof fn lemma_walk_keeps_offset(mem: Seq<u8>, arch: Architecture, dtb: u64, va: u64)
    requires
        walk(mem, arch, dtb, va) is Mapped,
    ensures
        ({
            let pa = walk(mem, arch, dtb, va)->Mapped_0;
            let page = walk(mem, arch, dtb, va)->Mapped_1;
            &&& pa.page_size == page.size
            &&& pa == address_in_page(page, va)
            &&& pa.address.value % page.size.bytes() == va % page.size.bytes()
            &&& page.base.value % page.size.bytes() == 0
            &&& pa.address.value == page.base.value + va % page.size.bytes()
        }),
{
    lemma_walk_from_keeps_offset(mem, arch, arch.levels(), dtb, va);
}

/// Offset preservation for the walk from any table downwards.
pub proof fn lemma_walk_from_keeps_offset(
    mem: Seq<u8>,
    arch: Architecture,
    level: u8,
    table: u64,
    va: u64,
)
    requires
        walk_from(mem, arch, level, table, va) is Mapped,
    ensures
        ({
            let pa = walk_from(mem, arch, level, table, va)->Mapped_0;
            let page = walk_from(mem, arch, level, table, va)->Mapped_1;
            &&& pa.page_size == page.size
            &&& pa == address_in_page(page, va)
            &&& pa.address.value % page.size.bytes() == va % page.size.bytes()
            &&& page.base.value % page.size.bytes() == 0
            &&& pa.address.value == page.base.value + va % page.size.bytes()
        }),
    decreases level,
{
    let entry = spec_read_entry(mem, arch, spec_entry_address(arch, level, table, va))->Some_0;
    match spec_decode_entry(arch, level, entry, va) {
        Step::Leaf(_, _) => lemma_leaf_keeps_offset(arch, level, entry, va),
        Step::Next(next) => lemma_walk_from_keeps_offset(mem, arch, (level - 1) as u8, next, va),
        Step::NotPresent => {},
    }
}

/// An entry whose present bit is clear is never read as a mapping or as a
/// pointer to a table, in any format and at any level.
pub proof fn lemma_absent_entry_decodes_to_not_present(
    arch: Architecture,
    level: u8,
    entry: u64,
    va: u64,
)
    ensures
        spec_decode_entry(arch, level, entry, va) is NotPresent <==> entry & ENTRY_PRESENT == 0,
{
}

/// A walk that comes to an entry whose present bit is clear reports the
/// address as not present; it yields no physical address.
pub proof fn lemma_absent_entry_is_not_present(
    mem: Seq<u8>,
    arch: Architecture,
    level: u8,
    table: u64,
    va: u64,
)
    requires
        level >= 1,
        spec_read_entry(mem, arch, spec_entry_address(arch, level, table, va)) is Some,
        spec_read_entry(mem, arch, spec_entry_address(arch, level, table, va))->Some_0
            & ENTRY_PRESENT == 0,
    ensures
        walk_from(mem, arch, level, table, va) is NotPresent,
        reads_from(mem, arch, level, table, va) == 1,
{
}

/// A present entry with the page-size bit set, at a level where the format has
/// large pages, ends the walk there. The address is the entry's page base with
/// the low bits of the virtual address for that page size, and no table below
/// is looked at: the entry is the one read from its table on, and a memory
/// that holds the same entry gives the same result, whatever else it holds.
pub proof fn lemma_large_page_ends_walk(
    mem: Seq<u8>,
    other: Seq<u8>,
    arch: Architecture,
    level: u8,
    table: u64,
    va: u64,
)
    requires
        arch.maps_large_pages(level),
        spec_read_entry(mem, arch, spec_entry_address(arch, level, table, va)) is Some,
        spec_read_entry(mem, arch, spec_entry_address(arch, level, table, va))->Some_0
            & ENTRY_PRESENT != 0,
        spec_read_entry(mem, arch, spec_entry_address(arch, level, table, va))->Some_0
            & ENTRY_PAGE_SIZE != 0,
        spec_read_entry(other, arch, spec_entry_address(arch, level, table, va))
            == spec_read_entry(mem, arch, spec_entry_address(arch, level, table, va)),
    ensures
        walk_from(mem, arch, level, table, va) is Mapped,
        reads_from(mem, arch, level, table, va) == 1,
        walk_from(other, arch, level, table, va) == walk_from(mem, arch, level, table, va),
        ({
            let entry = spec_read_entry(
                mem,
                arch,
                spec_entry_address(arch, level, table, va),
            )->Some_0;
            let pa = walk_from(mem, arch, level, table, va)->Mapped_0;
            let page = walk_from(mem, arch, level, table, va)->Mapped_1;
            let size = arch.leaf_size(level);
            &&& page.size == size
            &&& size != PageSize::Size4K
            &&& page.base.value == entry & spec_frame_mask(arch, size)
            &&& pa.address.value == page.base.value | (va & offset_mask(size))
            &&& pa.address.value % size.bytes() == va % size.bytes()
        }),
{
    let entry = spec_read_entry(mem, arch, spec_entry_address(arch, level, table, va))->Some_0;
    lemma_leaf_keeps_offset(arch, level, entry, va);
}

/// Whether `table` is aligned as a table at `level` is: to a page, or, for the
/// four-entry table on top of the format with physical address extension, to
/// 32 bytes.
pub open spec fn table_aligned(arch: Architecture, level: u8, table: u64) -> bool {
    table % 0x1000 == 0 || (arch == Architecture::X86Pae && level == 3 && table % 0x20 == 0)
}

/// The entry for an address lies inside its table: its address is the table's
/// base plus the index times the size of an entry, and the sum does not leave
/// the address space.
pub proof fn lemma_entry_address_is_sum(arch: Architecture, level: u8, table: u64, va: u64)
    requires
        1 <= level <= arch.levels(),
        table_aligned(arch, level, table),
    ensures
        spec_entry_address(arch, level, table, va) == table + spec_entry_index(arch, level, va)
            * arch.entry_size(),
        spec_entry_index(arch, level, va) * arch.entry_size() + arch.entry_size() <= 0x1000,
        arch == Architecture::X86Pae && level == 3 ==> spec_entry_index(arch, level, va)
            * arch.entry_size() + arch.entry_size() <= 0x20,
{
    let shifted = va >> arch.index_shift(level);
    let mask = arch.index_mask(level);
    assert(shifted & mask <= mask) by (bit_vector);
    let offset = spec_entry_index(arch, level, va) * arch.entry_size();
    lemma_wrapping_offset_small(table, offset);
}

/// A valid directory table base is aligned as the root table is, and the table
/// that an entry names is aligned to a page.
pub proof fn lemma_tables_aligned(arch: Architecture, level: u8, dtb: u64, entry: u64)
    ensures
        dtb_valid(arch, dtb) ==> table_aligned(arch, arch.levels(), dtb),
        table_aligned(arch, level, entry & arch.address_mask()),
{
    assert((entry & 0xffff_f000) % 0x1000 == 0) by (bit_vector);
    assert((entry & 0x000f_ffff_ffff_f000) % 0x1000 == 0) by (bit_vector);
}

/// A walk reads at least one entry and at most one for each level of the
/// format.
pub proof fn lemma_reads_bounded(mem: Seq<u8>, arch: Architecture, level: u8, table: u64, va: u64)
    requires
        level >= 1,
    ensures
        1 <= reads_from(mem, arch, level, table, va) <= level,
    decreases level,
{
    let at = spec_entry_address(arch, level, table, va);
    if let Some(entry) = spec_read_entry(mem, arch, at) {
        if let Step::Next(next) = spec_decode_entry(arch, level, entry, va) {
            if level > 1 {
                lemma_reads_bounded(mem, arch, (level - 1) as u8, next, va);
            }
        }
    }
}

/// The addresses of one mapped page are translated alike: each to the page's
/// base with its own offset.
pub proof fn lemma_walk_same_page(mem: Seq<u8>, arch: Architecture, dtb: u64, va: u64, vb: u64)
    requires
        walk(mem, arch, dtb, va) is Mapped,
        same_page(walk(mem, arch, dtb, va)->Mapped_1.size, va, vb),
    ensures
        walk(mem, arch, dtb, vb) == Walk::Mapped(
            address_in_page(walk(mem, arch, dtb, va)->Mapped_1, vb),
            walk(mem, arch, dtb, va)->Mapped_1,
        ),
{
    lemma_walk_from_same_page(mem, arch, arch.levels(), dtb, va, vb);
}

proof fn lemma_walk_from_same_page(
    mem: Seq<u8>,
    arch: Architecture,
    level: u8,
    table: u64,
    va: u64,
    vb: u64,
)
    requires
        1 <= level <= arch.levels(),
        walk_from(mem, arch, level, table, va) is Mapped,
        same_page(walk_from(mem, arch, level, table, va)->Mapped_1.size, va, vb),
    ensures
        walk_from(mem, arch, level, table, vb) == Walk::Mapped(
            address_in_page(walk_from(mem, arch, level, table, va)->Mapped_1, vb),
            walk_from(mem, arch, level, table, va)->Mapped_1,
        ),
        ({
            let lo = offset_mask(walk_from(mem, arch, level, table, va)->Mapped_1.size);
            let shift = arch.index_shift(level);
            (lo == 0xfff && shift >= 12) || (lo == 0x1f_ffff && shift >= 21) || (lo == 0x3f_ffff
                && shift >= 22) || (lo == 0x3fff_ffff && shift >= 30)
        }),
    decreases level,
{
    let entry = spec_read_entry(mem, arch, spec_entry_address(arch, level, table, va))->Some_0;
    let page = walk_from(mem, arch, level, table, va)->Mapped_1;
    let lo = offset_mask(page.size);
    match spec_decode_entry(arch, level, entry, va) {
        Step::Leaf(_, _) => {
            lemma_leaf_geometry(arch, level, entry);
        },
        Step::Next(next) => {
            lemma_walk_from_same_page(mem, arch, (level - 1) as u8, next, va, vb);
        },
        Step::NotPresent => {},
    }
    lemma_index_in_page(va, vb, lo, arch.index_shift(level), arch.index_mask(level));
    assert(spec_entry_index(arch, level, va) == spec_entry_index(arch, level, vb));
}

} // verus!
