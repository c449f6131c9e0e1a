use memflow_core::architecture::Architecture;
use memflow_core::bytes::{u32_le, u64_le};
use memflow_core::error::{BackendFault, Error};
use memflow_core::mem::phys::{LimitedMemory, MemoryImage, PhysicalMemory};
use memflow_core::plugin::{connector_factory, os_layer_factory, FactoryKind};
use memflow_core::types::{Address, PageSize, PhysicalAddress};

fn at(address: u64) -> PhysicalAddress {
    PhysicalAddress::new(Address::from_u64(address), PageSize::Size4K)
}

#[test]
fn address_arithmetic_wraps() {
    assert_eq!(Address::null(), Address::from_u64(0));
    assert!(Address::null().is_null());
    assert!(!Address::from_u64(1).is_null());
    assert_eq!(Address::from_u64(0xffff_ffff).as_u64(), 0xffff_ffff);
    assert_eq!(Address::from_u64(10).wrapping_add(5), Address::from_u64(15));
    assert_eq!(Address::from_u64(u64::MAX).wrapping_add(1), Address::null());
    assert_eq!(Address::from_u64(u64::MAX - 1).wrapping_add(u64::MAX), Address::from_u64(u64::MAX - 2));
    assert_eq!(at(0x1234).as_u64(), 0x1234);
    assert_eq!(at(0x1234).page_size, PageSize::Size4K);
}

#[test]
fn page_sizes_are_powers_of_two() {
    let sizes = [
        (PageSize::Size4K, 12, 0x1000u64),
        (PageSize::Size2M, 21, 0x20_0000),
        (PageSize::Size4M, 22, 0x40_0000),
        (PageSize::Size1G, 30, 0x4000_0000),
    ];
    for (size, shift, bytes) in sizes {
        assert_eq!(size.shift(), shift);
        assert_eq!(size.bytes(), bytes);
        assert_eq!(1u64 << size.shift(), size.bytes());
    }
}

#[test]
fn architectures_have_their_geometry() {
    let x86 = Architecture::X86;
    let pae = Architecture::X86Pae;
    let x64 = Architecture::X64;
    assert_eq!((x86.bits(), pae.bits(), x64.bits()), (32, 32, 64));
    assert_eq!((x86.levels(), pae.levels(), x64.levels()), (2, 3, 4));
    assert_eq!((x86.entry_size(), pae.entry_size(), x64.entry_size()), (4, 8, 8));
    assert_eq!((x86.page_size(), pae.page_size(), x64.page_size()), (0x1000, 0x1000, 0x1000));
    assert_eq!((x86.root_alignment(), pae.root_alignment(), x64.root_alignment()), (0x1000, 0x20, 0x1000));
    assert_eq!((x86.index_shift(1), x86.index_shift(2)), (12, 22));
    assert_eq!((pae.index_shift(1), pae.index_shift(2), pae.index_shift(3)), (12, 21, 30));
    assert_eq!((x64.index_shift(1), x64.index_shift(2), x64.index_shift(3), x64.index_shift(4)), (12, 21, 30, 39));
    assert_eq!((x86.index_mask(1), x86.index_mask(2)), (0x3ff, 0x3ff));
    assert_eq!((pae.index_mask(1), pae.index_mask(2), pae.index_mask(3)), (0x1ff, 0x1ff, 0x3));
    assert_eq!((x64.index_mask(1), x64.index_mask(4)), (0x1ff, 0x1ff));
    assert_eq!(x86.address_mask(), 0xffff_f000);
    assert_eq!(pae.address_mask(), 0x000f_ffff_ffff_f000);
    assert_eq!(x64.address_mask(), 0x000f_ffff_ffff_f000);
}

#[test]
fn large_pages_exist_where_the_format_has_them() {
    let x86 = Architecture::X86;
    let pae = Architecture::X86Pae;
    let x64 = Architecture::X64;
    assert!(!x86.maps_large_pages(1) && x86.maps_large_pages(2));
    assert!(!pae.maps_large_pages(1) && pae.maps_large_pages(2) && !pae.maps_large_pages(3));
    assert!(!x64.maps_large_pages(1) && x64.maps_large_pages(2) && x64.maps_large_pages(3) && !x64.maps_large_pages(4));
    assert_eq!(x86.leaf_size(1), PageSize::Size4K);
    assert_eq!(x86.leaf_size(2), PageSize::Size4M);
    assert_eq!(pae.leaf_size(2), PageSize::Size2M);
    assert_eq!(x64.leaf_size(2), PageSize::Size2M);
    assert_eq!(x64.leaf_size(3), PageSize::Size1G);
    assert_eq!(x64.leaf_size(1), PageSize::Size4K);
}

#[test]
fn little_endian_integers_are_read_at_an_offset() {
    let bytes = [0xff, 0x78, 0x56, 0x34, 0x12, 0xef, 0xcd, 0xab, 0x90, 0x01];
    assert_eq!(u32_le(&bytes, 1), 0x1234_5678);
    assert_eq!(u32_le(&bytes, 6), 0x0190_abcd);
    assert_eq!(u64_le(&bytes, 1), 0x90ab_cdef_1234_5678);
    assert_eq!(u64_le(&[0xff; 8], 0), u64::MAX);
    assert_eq!(u32_le(&[0xff; 4], 0), u32::MAX);
    assert_eq!(u64_le(&bytes, 2), u64::from_le_bytes(bytes[2..10].try_into().unwrap()));
}

#[test]
fn memory_image_serves_what_lies_inside_it() {
    let mut mem = MemoryImage::new((0u8..16).collect());
    assert_eq!(mem.len(), 16);
    assert_eq!(mem.phys_read_raw(at(4), 3), Ok(vec![4, 5, 6]));
    assert_eq!(mem.phys_read_raw(at(0), 16), Ok((0u8..16).collect()));
    assert_eq!(mem.phys_read_raw(at(16), 0), Ok(Vec::new()));
    assert_eq!(mem.phys_read_raw(at(16), 1), Err(BackendFault::OutOfRange));
    assert_eq!(mem.phys_read_raw(at(17), 0), Err(BackendFault::OutOfRange));
    assert_eq!(mem.phys_read_raw(at(10), 7), Err(BackendFault::OutOfRange));
    assert_eq!(mem.phys_read_raw(at(u64::MAX), 2), Err(BackendFault::OutOfRange));
    assert_eq!(mem.phys_read_raw(at(1), usize::MAX), Err(BackendFault::OutOfRange));
    assert_eq!(mem.phys_write_raw(at(14), &[1, 2]), Ok(()));
    assert_eq!(mem.phys_write_raw(at(0), &[9]), Ok(()));
    assert_eq!(mem.phys_write_raw(at(16), &[]), Ok(()));
    assert_eq!(mem.data, vec![9, 1, 2, 3, 4, 5, 6, 7, 8, 9, 10, 11, 12, 13, 1, 2]);
    assert_eq!(mem.phys_write_raw(at(15), &[7, 7]), Err(BackendFault::OutOfRange));
    assert_eq!(mem.phys_write_raw(at(u64::MAX), &[7]), Err(BackendFault::OutOfRange));
    assert_eq!(mem.data[15], 2);
}

#[test]
fn limited_memory_serves_its_budget_and_counts() {
    let mut mem = LimitedMemory::new(MemoryImage::new(vec![1, 2, 3, 4]), 2);
    assert_eq!(mem.phys_read_raw(at(1), 2), Ok(vec![2, 3]));
    assert_eq!(mem.phys_write_raw(at(3), &[9, 9]), Err(BackendFault::OutOfRange));
    assert_eq!(mem.phys_read_raw(at(0), 1), Err(BackendFault::Unavailable));
    assert_eq!(mem.phys_write_raw(at(0), &[7]), Err(BackendFault::Unavailable));
    assert_eq!((mem.budget, mem.accesses), (0, 4));
    assert_eq!(mem.inner.data, vec![1, 2, 3, 4]);
    let mut writes = LimitedMemory::new(MemoryImage::new(vec![1, 2, 3, 4]), 1);
    assert_eq!(writes.phys_write_raw(at(0), &[7]), Ok(()));
    assert_eq!(writes.inner.data, vec![7, 2, 3, 4]);
}

#[test]
fn errors_have_their_messages() {
    assert_eq!(Error::InvalidAddressSize.message(), "invalid instruction set address size");
    assert_eq!(Error::NotPresent.message(), "page not present");
    assert_eq!(Error::Backend(BackendFault::OutOfRange).message(), "physical access out of range");
    assert_eq!(Error::Backend(BackendFault::Unavailable).message(), "physical memory unavailable");
}

#[test]
fn creation_function_with_a_log_level_is_told_by_its_arity() {
    assert_eq!(connector_factory(0), FactoryKind::WithoutLogging);
    assert_eq!(connector_factory(1), FactoryKind::WithoutLogging);
    assert_eq!(connector_factory(2), FactoryKind::WithLogging);
    assert_eq!(connector_factory(usize::MAX), FactoryKind::WithLogging);
    assert_eq!(os_layer_factory(1), FactoryKind::WithoutLogging);
    assert_eq!(os_layer_factory(2), FactoryKind::WithoutLogging);
    assert_eq!(os_layer_factory(3), FactoryKind::WithLogging);
}
