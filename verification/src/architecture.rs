//! The page-table formats and their geometry.
//!
//! Table levels are counted from the leaf: level 1 is the page table, and the
//! root table of a format has the level `levels()`.

use vstd::prelude::*;
use crate::types::PageSize;

verus! {

/// The page-table formats that the walker understands.
#[derive(Clone, Copy, Debug, PartialEq, Eq, Structural)]
pub enum Architecture {
    /// 32-bit paging with 32-bit entries: page directory, page table.
    X86,
    /// 32-bit paging with physical address extension: 64-bit entries and a
    /// four-entry page-directory-pointer table on top.
    X86Pae,
    /// Long mode: four levels of 64-bit entries.
    X64,
}

impl Architecture {
    pub open spec fn spec_bits(self) -> u8 {
        match self {
            Architecture::X86 => 32,
            Architecture::X86Pae => 32,
            Architecture::X64 => 64,
        }
    }

    /// Width of a pointer, in bits.
    #[verifier::when_used_as_spec(spec_bits)]
    pub fn bits(self) -> (b: u8)
        ensures
            b == self.spec_bits(),
    {
        match self {
            Architecture::X86 => 32,
            Architecture::X86Pae => 32,
            Architecture::X64 => 64,
        }
    }

    pub open spec fn spec_levels(self) -> u8 {
        match self {
            Architecture::X86 => 2,
            Architecture::X86Pae => 3,
            Architecture::X64 => 4,
        }
    }

    /// Number of table levels that a translation walks through at most.
    #[verifier::when_used_as_spec(spec_levels)]
    pub fn levels(self) -> (n: u8)
        ensures
            n == self.spec_levels(),
    {
        match self {
            Architecture::X86 => 2,
            Architecture::X86Pae => 3,
            Architecture::X64 => 4,
        }
    }

    pub open spec fn spec_entry_size(self) -> usize {
        match self {
            Architecture::X86 => 4,
            Architecture::X86Pae => 8,
            Architecture::X64 => 8,
        }
    }

    /// Size of one table entry, in bytes.
    #[verifier::when_used_as_spec(spec_entry_size)]
    pub fn entry_size(self) -> (n: usize)
        ensures
            n == self.spec_entry_size(),
    {
        match self {
            Architecture::X86 => 4,
            Architecture::X86Pae => 8,
            Architecture::X64 => 8,
        }
    }

    pub open spec fn spec_page_size(self) -> usize {
        0x1000
    }

    /// Size of the base page, in bytes.
    #[verifier::when_used_as_spec(spec_page_size)]
    pub fn page_size(self) -> (n: usize)
        ensures
            n == 0x1000,
    {
        0x1000
    }

    pub open spec fn spec_root_alignment(self) -> u64 {
        match self {
            Architecture::X86 => 0x1000,
            Architecture::X86Pae => 0x20,
            Architecture::X64 => 0x1000,
        }
    }

    /// The alignment that the root table of the format has.
    #[verifier::when_used_as_spec(spec_root_alignment)]
    pub fn root_alignment(self) -> (n: u64)
        ensures
            n == self.spec_root_alignment(),
    {
        match self {
            Architecture::X86 => 0x1000,
            Architecture::X86Pae => 0x20,
            Architecture::X64 => 0x1000,
        }
    }

    pub open spec fn spec_index_shift(self, level: u8) -> u64 {
        match self {
            Architecture::X86 => if level == 2 { 22 } else { 12 },
            _ => if level == 4 {
                39
            } else if level == 3 {
                30
            } else if level == 2 {
                21
            } else {
                12
            },
        }
    }

    /// Position of the lowest address bit that indexes the table at `level`.
    #[verifier::when_used_as_spec(spec_index_shift)]
    pub fn index_shift(self, level: u8) -> (s: u64)
        ensures
            s == self.spec_index_shift(level),
            s < 64,
    {
        match self {
            Architecture::X86 => if level == 2 { 22 } else { 12 },
            _ => if level == 4 {
                39
            } else if level == 3 {
                30
            } else if level == 2 {
                21
            } else {
                12
            },
        }
    }

    pub open spec fn spec_index_mask(self, level: u8) -> u64 {
        match self {
            Architecture::X86 => 0x3ff,
            Architecture::X86Pae => if level == 3 { 0x3 } else { 0x1ff },
            Architecture::X64 => 0x1ff,
        }
    }

    /// The table index at `level`, once shifted down, is taken under this mask.
    #[verifier::when_used_as_spec(spec_index_mask)]
    pub fn index_mask(self, level: u8) -> (m: u64)
        ensures
            m == self.spec_index_mask(level),
            m <= 0x3ff,
    {
        match self {
            Architecture::X86 => 0x3ff,
            Architecture::X86Pae => if level == 3 { 0x3 } else { 0x1ff },
            Architecture::X64 => 0x1ff,
        }
    }

    pub open spec fn spec_maps_large_pages(self, level: u8) -> bool {
        match self {
            Architecture::X86 => level == 2,
            Architecture::X86Pae => level == 2,
            Architecture::X64 => level == 2 || level == 3,
        }
    }

    /// Whether an entry at `level` may map a page itself, by its page-size bit.
    #[verifier::when_used_as_spec(spec_maps_large_pages)]
    pub fn maps_large_pages(self, level: u8) -> (b: bool)
        ensures
            b == self.spec_maps_large_pages(level),
    {
        match self {
            Architecture::X86 => level == 2,
            Architecture::X86Pae => level == 2,
            Architecture::X64 => level == 2 || level == 3,
        }
    }

    pub open spec fn spec_leaf_size(self, level: u8) -> PageSize {
        if level == 3 {
            PageSize::Size1G
        } else if level == 2 {
            match self {
                Architecture::X86 => PageSize::Size4M,
                _ => PageSize::Size2M,
            }
        } else {
            PageSize::Size4K
        }
    }

    /// Size of the page that an entry at `level` maps when it maps one.
    #[verifier::when_used_as_spec(spec_leaf_size)]
    pub fn leaf_size(self, level: u8) -> (s: PageSize)
        ensures
            s == self.spec_leaf_size(level),
    {
        if level == 3 {
            PageSize::Size1G
        } else if level == 2 {
            match self {
                Architecture::X86 => PageSize::Size4M,
                _ => PageSize::Size2M,
            }
        } else {
            PageSize::Size4K
        }
    }

    pub open spec fn spec_address_mask(self) -> u64 {
        match self {
            Architecture::X86 => 0xffff_f000,
            _ => 0x000f_ffff_ffff_f000,
        }
    }

    /// The bits of an entry that hold a physical address: bits 12 to 31 of a
    /// 32-bit entry, bits 12 to 51 of a 64-bit entry.
    #[verifier::when_used_as_spec(spec_address_mask)]
    pub fn address_mask(self) -> (m: u64)
        ensures
            m == self.spec_address_mask(),
    {
        match self {
            Architecture::X86 => 0xffff_f000,
            _ => 0x000f_ffff_ffff_f000,
        }
    }
}

} // verus!
