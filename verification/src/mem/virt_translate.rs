//! The page-table walk: from a virtual address and a directory table base to a
//! physical address and the page that holds it.

use vstd::prelude::*;
use crate::architecture::Architecture;
use crate::bytes::{spec_u32_le, spec_u64_le, u32_le, u64_le};
use crate::error::Error;
use crate::mem::phys::{in_range, PhysicalMemory};
use crate::types::{wrapping_offset, Address, Page, PageSize, PhysicalAddress};

verus! {

/// Bit 0 of an entry: the entry is in use.
pub const ENTRY_PRESENT: u64 = 0x1;

/// Bit 1 of an entry: the page may be written.
pub const ENTRY_WRITABLE: u64 = 0x2;

/// Bit 2 of an entry: user mode may access the page.
pub const ENTRY_USER: u64 = 0x4;

/// Bit 7 of an entry above the page table: the entry maps a page itself.
pub const ENTRY_PAGE_SIZE: u64 = 0x80;

/// Bit 63 of a 64-bit entry: no instruction may be fetched from the page.
pub const ENTRY_NO_EXECUTE: u64 = 0x8000_0000_0000_0000;

/// What one table entry says about an address.
#[derive(Clone, Copy, Debug, PartialEq, Eq, Structural)]
pub enum Step {
    /// The entry is not in use: the address is not mapped.
    NotPresent,
    /// The walk goes on in the table at this physical address, one level down.
    Next(u64),
    /// The entry maps the page that holds the address.
    Leaf(PhysicalAddress, Page),
}

/// What a whole walk says about an address.
pub enum Walk {
    Mapped(PhysicalAddress, Page),
    /// An entry on the way is not in use, or the directory table base is invalid.
    NotPresent,
    /// An entry on the way lies outside the memory.
    Unreadable,
}

/// A directory table base is valid when it is not null and aligned as the
/// format's root table is.
pub open spec fn dtb_valid(arch: Architecture, dtb: u64) -> bool {
    dtb != 0 && dtb % arch.root_alignment() == 0
}

pub open spec fn spec_entry_index(arch: Architecture, level: u8, va: u64) -> u64 {
    (va >> arch.index_shift(level)) & arch.index_mask(level)
}

/// The index of the entry for `va` in a table at `level`.
#[verifier::when_used_as_spec(spec_entry_index)]
pub fn entry_index(arch: Architecture, level: u8, va: u64) -> (i: u64)
    ensures
        i == spec_entry_index(arch, level, va),
        i <= 0x3ff,
{
    let shift: u64 = arch.index_shift(level);
    let mask: u64 = arch.index_mask(level);
    let shifted: u64 = va >> shift;
    assert(shifted & mask <= mask) by (bit_vector);
    shifted & mask
}

pub open spec fn spec_entry_address(arch: Architecture, level: u8, table: u64, va: u64) -> u64 {
    wrapping_offset(table, spec_entry_index(arch, level, va) * arch.entry_size())
}

/// The physical address of the entry for `va` in the table at `table`: the
/// table's base plus the index times the size of an entry.
#[verifier::when_used_as_spec(spec_entry_address)]
pub fn entry_address(arch: Architecture, level: u8, table: u64, va: u64) -> (at: u64)
    ensures
        at == spec_entry_address(arch, level, table, va),
{
    let index: u64 = entry_index(arch, level, va);
    let size: u64 = arch.entry_size() as u64;
    table.wrapping_add(index * size)
}

pub open spec fn spec_frame_mask(arch: Architecture, size: PageSize) -> u64 {
    arch.address_mask() & !((size.bytes() - 1) as u64)
}

/// The bits of an entry that hold the base of a page of the given size.
#[verifier::when_used_as_spec(spec_frame_mask)]
pub fn frame_mask(arch: Architecture, size: PageSize) -> (m: u64)
    ensures
        m == spec_frame_mask(arch, size),
{
    arch.address_mask() & !(size.bytes() - 1)
}

pub open spec fn spec_is_leaf(arch: Architecture, level: u8, entry: u64) -> bool {
    level <= 1 || (arch.maps_large_pages(level) && entry & ENTRY_PAGE_SIZE != 0)
}

pub open spec fn spec_decode_entry(arch: Architecture, level: u8, entry: u64, va: u64) -> Step {
    if entry & ENTRY_PRESENT == 0 {
        Step::NotPresent
    } else if spec_is_leaf(arch, level, entry) {
        let size = arch.leaf_size(level);
        let base = entry & spec_frame_mask(arch, size);
        Step::Leaf(
            PhysicalAddress {
                address: Address { value: base | (va & ((size.bytes() - 1) as u64)) },
                page_size: size,
            },
            Page {
                base: Address { value: base },
                size,
                present: true,
                writable: entry & ENTRY_WRITABLE != 0,
                user: entry & ENTRY_USER != 0,
                no_execute: arch.entry_size() == 8 && entry & ENTRY_NO_EXECUTE != 0,
            },
        )
    } else {
        Step::Next(entry & arch.address_mask())
    }
}

/// Reads one entry. An entry whose present bit is clear maps nothing. The
/// entries of the page table, and those above it whose page-size bit is set
/// where the format has large pages, map a page: the physical address is the
/// entry's page base with the low bits of `va` for that page size. Any other
/// entry names the next table.
#[verifier::when_used_as_spec(spec_decode_entry)]
pub fn decode_entry(arch: Architecture, level: u8, entry: u64, va: u64) -> (s: Step)
    ensures
        s == spec_decode_entry(arch, level, entry, va),
{
    if entry & ENTRY_PRESENT == 0 {
        Step::NotPresent
    } else if level <= 1 || (arch.maps_large_pages(level) && entry & ENTRY_PAGE_SIZE != 0) {
        let size: PageSize = arch.leaf_size(level);
        let base: u64 = entry & frame_mask(arch, size);
        Step::Leaf(
            PhysicalAddress {
                address: Address { value: base | (va & (size.bytes() - 1)) },
                page_size: size,
            },
            Page {
                base: Address { value: base },
                size,
                present: true,
                writable: entry & ENTRY_WRITABLE != 0,
                user: entry & ENTRY_USER != 0,
                no_execute: arch.entry_size() == 8 && entry & ENTRY_NO_EXECUTE != 0,
            },
        )
    } else {
        Step::Next(entry & arch.address_mask())
    }
}

/// The entry at physical address `at`, if it lies inside the memory: a
/// little-endian integer of the format's entry size.
pub open spec fn spec_read_entry(mem: Seq<u8>, arch: Architecture, at: u64) -> Option<u64> {
    if in_range(mem, at, arch.entry_size() as int) {
        if arch.entry_size() == 4 {
            Some(spec_u32_le(mem, at as int) as u64)
        } else {
            Some(spec_u64_le(mem, at as int))
        }
    } else {
        None
    }
}

/// The walk from the table at `table`, which stands at `level`, downwards.
pub open spec fn walk_from(mem: Seq<u8>, arch: Architecture, level: u8, table: u64, va: u64) -> Walk
    decreases level,
{
    if level == 0 {
        Walk::NotPresent
    } else {
        match spec_read_entry(mem, arch, spec_entry_address(arch, level, table, va)) {
            None => Walk::Unreadable,
            Some(entry) => match spec_decode_entry(arch, level, entry, va) {
                Step::NotPresent => Walk::NotPresent,
                Step::Leaf(pa, page) => Walk::Mapped(pa, page),
                Step::Next(next) => walk_from(mem, arch, (level - 1) as u8, next, va),
            },
        }
    }
}

/// The number of entries that the walk from the table at `table` reads: one at
/// each level down to the entry that ends it.
pub open spec fn reads_from(mem: Seq<u8>, arch: Architecture, level: u8, table: u64, va: u64) -> nat
    decreases level,
{
    if level == 0 {
        0
    } else {
        match spec_read_entry(mem, arch, spec_entry_address(arch, level, table, va)) {
            None => 1,
            Some(entry) => match spec_decode_entry(arch, level, entry, va) {
                Step::Next(next) => 1 + reads_from(mem, arch, (level - 1) as u8, next, va),
                _ => 1,
            },
        }
    }
}

/// The number of entries that the translation of `va` reads; none where the
/// directory table base is invalid.
pub open spec fn walk_reads(mem: Seq<u8>, arch: Architecture, dtb: u64, va: u64) -> nat {
    if dtb_valid(arch, dtb) {
        reads_from(mem, arch, arch.levels(), dtb, va)
    } else {
        0
    }
}

/// The translation of `va` under the tables that `dtb` roots in `mem`.
pub open spec fn walk(mem: Seq<u8>, arch: Architecture, dtb: u64, va: u64) -> Walk {
    if dtb_valid(arch, dtb) {
        walk_from(mem, arch, arch.levels(), dtb, va)
    } else {
        Walk::NotPresent
    }
}


/// What a call that reads one entry may return, given the memory it read from.
pub open spec fn entry_read_agrees(
    mem: Seq<u8>,
    dependable: bool,
    arch: Architecture,
    at: u64,
    res: Result<u64, Error>,
) -> bool {
    match res {
        Ok(entry) => spec_read_entry(mem, arch, at) == Some(entry),
        Err(Error::Backend(_)) => dependable ==> spec_read_entry(mem, arch, at) is None,
        Err(_) => false,
    }
}

/// Reads the entry at physical address `at` through the backend.
pub fn read_entry<T: PhysicalMemory>(phys_mem: &mut T, arch: Architecture, at: u64) -> (res: Result<
    u64,
    Error,
>)
    ensures
        final(phys_mem).bytes() == old(phys_mem).bytes(),
        final(phys_mem).dependable() == old(phys_mem).dependable(),
        final(phys_mem).accesses() == old(phys_mem).accesses() + 1,
        entry_read_agrees(old(phys_mem).bytes(), old(phys_mem).dependable(), arch, at, res),
{
    let size: usize = arch.entry_size();
    let from = PhysicalAddress::new(Address::from_u64(at), PageSize::Size4K);
    match phys_mem.phys_read_raw(from, size) {
        Err(fault) => Err(Error::Backend(fault)),
        Ok(data) => {
            if size == 4 {
                Ok(u32_le(data.as_slice(), 0) as u64)
            } else {
                Ok(u64_le(data.as_slice(), 0))
            }
        },
    }
}

/// What a translation may return, given the memory it walked through.
///
/// An invalid directory table base gives `NotPresent` at once. A result other
/// than a backend failure is the one that the walk defines. A backend failure
/// means that a read of an entry failed; a dependable backend fails only on an
/// entry outside its memory.
pub open spec fn translation_agrees(
    mem: Seq<u8>,
    dependable: bool,
    arch: Architecture,
    dtb: u64,
    va: u64,
    res: Result<(PhysicalAddress, Page), Error>,
) -> bool {
    &&& !dtb_valid(arch, dtb) ==> res == Err::<(PhysicalAddress, Page), Error>(Error::NotPresent)
    &&& match res {
        Ok(found) => walk(mem, arch, dtb, va) == Walk::Mapped(found.0, found.1),
        Err(Error::NotPresent) => walk(mem, arch, dtb, va) is NotPresent,
        Err(Error::Backend(_)) => dtb_valid(arch, dtb) && (dependable ==> walk(mem, arch, dtb, va)
            is Unreadable),
        Err(_) => false,
    }
}

/// Whether a translation read as many entries as the walk defines: always,
/// unless a backend that is not dependable failed it, and then no more.
pub open spec fn reads_counted(
    mem: Seq<u8>,
    dependable: bool,
    arch: Architecture,
    dtb: u64,
    va: u64,
    res: Result<(PhysicalAddress, Page), Error>,
    before: nat,
    after: nat,
) -> bool {
    &&& before <= after <= before + walk_reads(mem, arch, dtb, va)
    &&& dependable || !(res is Err && res->Err_0 is Backend) ==> after == before + walk_reads(
        mem,
        arch,
        dtb,
        va,
    )
}

/// A page-table walker for one format. A walker may read fewer entries than
/// the walk defines, where it knows them; it reads nothing for an invalid
/// directory table base.
pub trait VirtualTranslate {
    /// The format whose tables the walker reads.
    spec fn format(&self) -> Architecture;

    /// Translates `addr` under the tables that `dtb` roots in `phys_mem`.
    fn virt_to_phys<T: PhysicalMemory>(
        &mut self,
        phys_mem: &mut T,
        dtb: Address,
        addr: Address,
    ) -> (res: Result<(PhysicalAddress, Page), Error>)
        ensures
            final(self).format() == old(self).format(),
            final(phys_mem).bytes() == old(phys_mem).bytes(),
            final(phys_mem).dependable() == old(phys_mem).dependable(),
            !dtb_valid(old(self).format(), dtb.value) ==> final(phys_mem).accesses() == old(
                phys_mem,
            ).accesses(),
            translation_agrees(
                old(phys_mem).bytes(),
                old(phys_mem).dependable(),
                old(self).format(),
                dtb.value,
                addr.value,
                res,
            ),
    ;
}

/// The walker for the three formats of `Architecture`, chosen when it is made.
#[derive(Clone, Copy, Debug)]
pub struct TranslateArch {
    pub arch: Architecture,
}

impl TranslateArch {
    pub fn new(arch: Architecture) -> (t: TranslateArch)
        ensures
            t.arch == arch,
    {
        TranslateArch { arch }
    }
}

impl VirtualTranslate for TranslateArch {
    open spec fn format(&self) -> Architecture {
        self.arch
    }

    fn virt_to_phys<T: PhysicalMemory>(
        &mut self,
        phys_mem: &mut T,
        dtb: Address,
        addr: Address,
    ) -> (res: Result<(PhysicalAddress, Page), Error>)
        ensures
            reads_counted(
                old(phys_mem).bytes(),
                old(phys_mem).dependable(),
                old(self).arch,
                dtb.value,
                addr.value,
                res,
                old(phys_mem).accesses(),
                final(phys_mem).accesses(),
            ),
    {
        translate(phys_mem, self.arch, dtb, addr)
    }
}

/// Translates `addr` in the format `arch`: walks from the table at `dtb` down
/// to the entry that maps the address, and reads one entry at each level on
/// the way and nothing else.
pub fn translate<T: PhysicalMemory>(
    phys_mem: &mut T,
    arch: Architecture,
    dtb: Address,
    addr: Address,
) -> (res: Result<(PhysicalAddress, Page), Error>)
    ensures
        final(phys_mem).bytes() == old(phys_mem).bytes(),
        final(phys_mem).dependable() == old(phys_mem).dependable(),
        translation_agrees(
            old(phys_mem).bytes(),
            old(phys_mem).dependable(),
            arch,
            dtb.value,
            addr.value,
            res,
        ),
        reads_counted(
            old(phys_mem).bytes(),
            old(phys_mem).dependable(),
            arch,
            dtb.value,
            addr.value,
            res,
            old(phys_mem).accesses(),
            final(phys_mem).accesses(),
        ),
{
    if dtb.is_null() || dtb.as_u64() % arch.root_alignment() != 0 {
        return Err(Error::NotPresent);
    }
    let va: u64 = addr.as_u64();
    let mut level: u8 = arch.levels();
    let mut table: u64 = dtb.as_u64();
    loop
        invariant
            1 <= level <= arch.levels(),
            dtb_valid(arch, dtb.value),
            va == addr.value,
            phys_mem.bytes() == old(phys_mem).bytes(),
            phys_mem.dependable() == old(phys_mem).dependable(),
            walk(phys_mem.bytes(), arch, dtb.value, va) == walk_from(
                phys_mem.bytes(),
                arch,
                level,
                table,
                va,
            ),
            old(phys_mem).accesses() <= phys_mem.accesses(),
            phys_mem.accesses() + reads_from(phys_mem.bytes(), arch, level, table, va) == old(
                phys_mem,
            ).accesses() + walk_reads(phys_mem.bytes(), arch, dtb.value, va),
        decreases level,
    {
        let at: u64 = entry_address(arch, level, table, va);
        let entry: u64 = match read_entry(phys_mem, arch, at) {
            Ok(entry) => entry,
            Err(e) => {
                return Err(e);
            },
        };
        match decode_entry(arch, level, entry, va) {
            Step::NotPresent => {
                return Err(Error::NotPresent);
            },
            Step::Leaf(pa, page) => {
                return Ok((pa, page));
            },
            Step::Next(next) => {
                table = next;
                level = level - 1;
            },
        }
    }
}

} // verus!
