//! Addresses and page descriptors.

use vstd::prelude::*;

verus! {

/// A 64-bit address; it holds 32-bit addresses as well. Arithmetic on it wraps.
#[derive(Clone, Copy, Debug, PartialEq, Eq, Structural)]
pub struct Address {
    pub value: u64,
}

/// The sum of an address and an offset, modulo 2^64.
pub open spec fn wrapping_offset(base: u64, offset: int) -> u64 {
    ((base + offset) % 0x1_0000_0000_0000_0000) as u64
}

/// Offsets add up: going on by `a` and then by `b` is going on by `a + b`.
pub proof fn lemma_wrapping_offset_adds(base: u64, a: int, b: int)
    ensures
        wrapping_offset(wrapping_offset(base, a), b) == wrapping_offset(base, a + b),
{
    vstd::arithmetic::div_mod::lemma_add_mod_noop(base + a, b, 0x1_0000_0000_0000_0000);
    vstd::arithmetic::div_mod::lemma_mod_twice(base + a, 0x1_0000_0000_0000_0000);
    vstd::arithmetic::div_mod::lemma_add_mod_noop(
        (base + a) % 0x1_0000_0000_0000_0000,
        b,
        0x1_0000_0000_0000_0000,
    );
}

/// An offset that stays inside the address space is a plain sum.
pub proof fn lemma_wrapping_offset_small(base: u64, a: int)
    requires
        0 <= base + a <= u64::MAX,
    ensures
        wrapping_offset(base, a) == base + a,
{
    vstd::arithmetic::div_mod::lemma_small_mod((base + a) as nat, 0x1_0000_0000_0000_0000);
}

impl Address {
    /// The address that stands for "no address".
    pub open spec fn spec_null() -> Address {
        Address { value: 0 }
    }

    #[verifier::when_used_as_spec(spec_null)]
    pub fn null() -> (a: Address)
        ensures
            a == Address::spec_null(),
    {
        Address { value: 0 }
    }

    pub fn from_u64(value: u64) -> (a: Address)
        ensures
            a.value == value,
    {
        Address { value }
    }

    pub open spec fn spec_as_u64(self) -> u64 {
        self.value
    }

    #[verifier::when_used_as_spec(spec_as_u64)]
    pub fn as_u64(self) -> (v: u64)
        ensures
            v == self.value,
    {
        self.value
    }

    pub open spec fn spec_is_null(self) -> bool {
        self.value == 0
    }

    #[verifier::when_used_as_spec(spec_is_null)]
    pub fn is_null(self) -> (b: bool)
        ensures
            b == (self.value == 0),
    {
        self.value == 0
    }

    /// The address `offset` bytes further on, wrapping at 2^64.
    pub fn wrapping_add(self, offset: u64) -> (a: Address)
        ensures
            a.value == wrapping_offset(self.value, offset as int),
    {
        Address { value: self.value.wrapping_add(offset) }
    }
}


/// The size classes of a mapped page.
#[derive(Clone, Copy, Debug, PartialEq, Eq, Structural)]
pub enum PageSize {
    /// 4 KiB, the base page of every format.
    Size4K,
    /// 2 MiB, the large page of the formats with 64-bit entries.
    Size2M,
    /// 4 MiB, the large page of the format with 32-bit entries.
    Size4M,
    /// 1 GiB, the huge page of long mode.
    Size1G,
}

impl PageSize {
    /// The number of address bits that select a byte inside the page.
    pub open spec fn spec_shift(self) -> u32 {
        match self {
            PageSize::Size4K => 12,
            PageSize::Size2M => 21,
            PageSize::Size4M => 22,
            PageSize::Size1G => 30,
        }
    }

    #[verifier::when_used_as_spec(spec_shift)]
    pub fn shift(self) -> (s: u32)
        ensures
            s == self.spec_shift(),
    {
        match self {
            PageSize::Size4K => 12,
            PageSize::Size2M => 21,
            PageSize::Size4M => 22,
            PageSize::Size1G => 30,
        }
    }

    /// The page's length in bytes.
    pub open spec fn spec_bytes(self) -> u64 {
        match self {
            PageSize::Size4K => 0x1000,
            PageSize::Size2M => 0x20_0000,
            PageSize::Size4M => 0x40_0000,
            PageSize::Size1G => 0x4000_0000,
        }
    }

    #[verifier::when_used_as_spec(spec_bytes)]
    pub fn bytes(self) -> (n: u64)
        ensures
            n == self.spec_bytes(),
    {
        match self {
            PageSize::Size4K => 0x1000,
            PageSize::Size2M => 0x20_0000,
            PageSize::Size4M => 0x40_0000,
            PageSize::Size1G => 0x4000_0000,
        }
    }
}

/// The physical page behind a translated address, with the access flags of the
/// entry that maps it.
#[derive(Clone, Copy, Debug, PartialEq, Eq, Structural)]
pub struct Page {
    /// Physical address of the page's first byte.
    pub base: Address,
    pub size: PageSize,
    pub present: bool,
    pub writable: bool,
    pub user: bool,
    pub no_execute: bool,
}

/// A physical address together with the size of the page it was resolved through.
#[derive(Clone, Copy, Debug, PartialEq, Eq, Structural)]
pub struct PhysicalAddress {
    pub address: Address,
    pub page_size: PageSize,
}

impl PhysicalAddress {
    pub fn new(address: Address, page_size: PageSize) -> (p: PhysicalAddress)
        ensures
            p.address == address,
            p.page_size == page_size,
    {
        PhysicalAddress { address, page_size }
    }

    pub open spec fn spec_as_u64(self) -> u64 {
        self.address.value
    }

    #[verifier::when_used_as_spec(spec_as_u64)]
    pub fn as_u64(self) -> (v: u64)
        ensures
            v == self.address.value,
    {
        self.address.value
    }
}

} // verus!
