use memflow_core::architecture::Architecture;
use memflow_core::error::{BackendFault, Error};
use memflow_core::kernel::lowstub::StartBlock;
use memflow_core::mem::phys::{LimitedMemory, MemoryImage};
use memflow_core::mem::phys_io::{read_segments, write_segments};
use memflow_core::mem::virt_from_phys::VirtualFromPhysical;
use memflow_core::mem::virt_mem::{
    pointer_width, virt_page_info, virt_read_addr, virt_read_raw, virt_read_raw_iter,
    virt_write_raw, virt_write_raw_iter, VirtualRead, VirtualWrite,
};
use memflow_core::mem::virt_range::{push_segment, resolve, Segment};
use memflow_core::mem::virt_translate::TranslateArch;
use memflow_core::types::{Address, PageSize, PhysicalAddress};

const DTB: u64 = 0x1000;

fn store64(mem: &mut Vec<u8>, at: usize, value: u64) {
    mem[at..at + 8].copy_from_slice(&value.to_le_bytes());
}

/// The virtual address of byte `offset` of page `pt` of the one page table.
fn va(pt: u64, offset: u64) -> Address {
    Address::from_u64((1 << 39) | (2 << 30) | (3 << 21) | (pt << 12) | offset)
}

/// Virtual pages 8, 9, 10 and 11 lie at 0x8000, 0xa000, 0xb000 and 0x8000;
/// page 12 is not mapped, page 13 lies outside the memory, and page 14 lies
/// on the page table itself.
fn image() -> MemoryImage {
    let mut mem = vec![0u8; 0x10000];
    store64(&mut mem, 0x1000 + 8, 0x2007);
    store64(&mut mem, 0x2000 + 8 * 2, 0x3007);
    store64(&mut mem, 0x3000 + 8 * 3, 0x4007);
    store64(&mut mem, 0x4000 + 8 * 8, 0x8003);
    store64(&mut mem, 0x4000 + 8 * 9, 0xa003);
    store64(&mut mem, 0x4000 + 8 * 10, 0xb003);
    store64(&mut mem, 0x4000 + 8 * 11, 0x8003);
    store64(&mut mem, 0x4000 + 8 * 13, 0x10_0003);
    store64(&mut mem, 0x4000 + 8 * 14, 0x4003);
    for i in 0x8000..0x10000usize {
        mem[i] = (i % 251) as u8;
    }
    MemoryImage::new(mem)
}

fn engine() -> VirtualFromPhysical<MemoryImage, TranslateArch> {
    VirtualFromPhysical::new(image(), Architecture::X64, Architecture::X64, Address::from_u64(DTB))
}

fn pattern(from: usize, len: usize) -> Vec<u8> {
    (from..from + len).map(|i| (i % 251) as u8).collect()
}

fn runs(segs: &[Segment]) -> Vec<(u64, usize)> {
    segs.iter().map(|s| (s.start.as_u64(), s.len)).collect()
}

#[test]
fn resolve_splits_at_pages_and_joins_neighbours() {
    let mut mem = image();
    let mut vat = TranslateArch::new(Architecture::X64);
    let segs = resolve(&mut mem, &mut vat, Address::from_u64(DTB), va(8, 0xf00), 0x2100).unwrap();
    assert_eq!(runs(&segs), vec![(0x8f00, 0x100), (0xa000, 0x2000)]);
    let one = resolve(&mut mem, &mut vat, Address::from_u64(DTB), va(9, 0x10), 0x20).unwrap();
    assert_eq!(runs(&one), vec![(0xa010, 0x20)]);
    let none = resolve(&mut mem, &mut vat, Address::from_u64(DTB), va(12, 0), 0).unwrap();
    assert!(none.is_empty());
    let alias = resolve(&mut mem, &mut vat, Address::from_u64(DTB), va(10, 0xfff), 2).unwrap();
    assert_eq!(runs(&alias), vec![(0xbfff, 1), (0x8000, 1)]);
}

#[test]
fn resolve_reports_the_first_byte_that_is_not_mapped() {
    let mut mem = image();
    let mut vat = TranslateArch::new(Architecture::X64);
    let dtb = Address::from_u64(DTB);
    assert_eq!(resolve(&mut mem, &mut vat, dtb, va(11, 0xfff), 2).err(), Some(Error::NotPresent));
    assert_eq!(resolve(&mut mem, &mut vat, dtb, va(12, 0), 1).err(), Some(Error::NotPresent));
    assert!(resolve(&mut mem, &mut vat, dtb, va(11, 0xfff), 1).is_ok());
    let outside = resolve(&mut mem, &mut vat, dtb, va(13, 0), 4).unwrap();
    assert_eq!(runs(&outside), vec![(0x10_0000, 4)]);
    assert_eq!(resolve(&mut mem, &mut vat, Address::null(), va(8, 0), 1).err(), Some(Error::NotPresent));
}

#[test]
fn resolve_takes_a_large_page_in_one_run() {
    let mut bytes = vec![0u8; 0x4000];
    store64(&mut bytes, 0x1000, 0x2003);
    store64(&mut bytes, 0x2000, 0x3003);
    store64(&mut bytes, 0x3000, 0x0040_0083);
    store64(&mut bytes, 0x3008, 0x0060_0083);
    store64(&mut bytes, 0x3010, 0x00a0_0083);
    let mut mem = MemoryImage::new(bytes);
    let mut vat = TranslateArch::new(Architecture::X64);
    let dtb = Address::from_u64(DTB);
    let segs = resolve(&mut mem, &mut vat, dtb, Address::from_u64(0x1234), 0x30_0000).unwrap();
    assert_eq!(runs(&segs), vec![(0x40_1234, 0x30_0000)]);
    assert_eq!(segs[0].start.page_size, PageSize::Size2M);
    let split = resolve(&mut mem, &mut vat, dtb, Address::from_u64(0x3f_fff0), 0x20).unwrap();
    assert_eq!(runs(&split), vec![(0x7f_fff0, 0x10), (0xa0_0000, 0x10)]);
}

#[test]
fn push_segment_joins_only_a_run_that_follows() {
    let at = |a: u64| PhysicalAddress::new(Address::from_u64(a), PageSize::Size4K);
    let mut segs: Vec<Segment> = Vec::new();
    push_segment(&mut segs, at(0x1000), 0x10);
    push_segment(&mut segs, at(0x1010), 0x20);
    push_segment(&mut segs, at(0x1031), 1);
    push_segment(&mut segs, at(0x1000), 4);
    push_segment(&mut segs, at(0x1004), 4);
    assert_eq!(runs(&segs), vec![(0x1000, 0x30), (0x1031, 1), (0x1000, 8)]);
}

#[test]
fn segments_are_read_and_written_in_order() {
    let mut mem = MemoryImage::new((0u8..64).collect());
    let at = |a: u64| PhysicalAddress::new(Address::from_u64(a), PageSize::Size4K);
    let segs = vec![Segment { start: at(8), len: 2 }, Segment { start: at(0), len: 3 }];
    assert_eq!(read_segments(&mut mem, &segs), Ok(vec![8, 9, 0, 1, 2]));
    assert_eq!(write_segments(&mut mem, &segs, &[50, 51, 52, 53, 54]), Ok(()));
    assert_eq!(&mem.data[0..10], &[52, 53, 54, 3, 4, 5, 6, 7, 50, 51]);
    let past = vec![Segment { start: at(60), len: 2 }, Segment { start: at(62), len: 3 }];
    assert_eq!(read_segments(&mut mem, &past), Err(BackendFault::OutOfRange));
    assert_eq!(write_segments(&mut mem, &past, &[1, 2, 3, 4, 5]), Err(BackendFault::OutOfRange));
    assert_eq!(&mem.data[60..64], &[1, 2, 62, 63]);
}

#[test]
fn read_crosses_pages_that_are_apart_in_physical_memory() {
    let mut mem = image();
    let mut vat = TranslateArch::new(Architecture::X64);
    let data = virt_read_raw(&mut mem, &mut vat, Address::from_u64(DTB), va(8, 0xf00), 0x2100).unwrap();
    let mut expected = pattern(0x8f00, 0x100);
    expected.extend(pattern(0xa000, 0x2000));
    assert_eq!(data, expected);
    let empty = virt_read_raw(&mut mem, &mut vat, Address::from_u64(DTB), va(12, 0), 0);
    assert_eq!(empty, Ok(Vec::new()));
}

#[test]
fn read_fails_as_a_whole_where_a_page_is_missing() {
    let mut mem = image();
    let mut vat = TranslateArch::new(Architecture::X64);
    let dtb = Address::from_u64(DTB);
    assert_eq!(virt_read_raw(&mut mem, &mut vat, dtb, va(11, 0xff0), 0x20), Err(Error::NotPresent));
    assert_eq!(virt_read_raw(&mut mem, &mut vat, dtb, va(13, 0), 1), Err(Error::Backend(BackendFault::OutOfRange)));
    assert_eq!(virt_read_raw(&mut mem, &mut vat, dtb, va(11, 0xff0), 0x10), Ok(pattern(0x8ff0, 0x10)));
}

#[test]
fn write_then_read_returns_the_bytes() {
    let mut engine = engine();
    let data: Vec<u8> = (0..0x1800u32).map(|i| (i * 7 + 3) as u8).collect();
    let writes = vec![VirtualWrite { addr: va(8, 0xc00), data: data.clone() }];
    assert_eq!(engine.virt_write_raw_iter(&writes), vec![Ok(())]);
    let reads = vec![VirtualRead { addr: va(8, 0xc00), len: 0x1800 }];
    assert_eq!(engine.virt_read_raw_iter(&reads), vec![Ok(data.clone())]);
    assert_eq!(&engine.phys_mem.data[0x8c00..0x9000], &data[0..0x400]);
    assert_eq!(&engine.phys_mem.data[0xa000..0xb000], &data[0x400..0x1400]);
    assert_eq!(&engine.phys_mem.data[0xb000..0xb400], &data[0x1400..]);
    assert_eq!(&engine.phys_mem.data[0x9000..0xa000], &pattern(0x9000, 0x1000)[..]);
    assert_eq!(engine.phys_mem.data[0x8bff], (0x8bff % 251) as u8);
    assert_eq!(engine.phys_mem.data[0xb400], (0xb400 % 251) as u8);
}

#[test]
fn write_to_two_pages_of_one_frame_keeps_the_later_bytes() {
    let mut engine = engine();
    let writes = vec![VirtualWrite { addr: va(10, 0xffe), data: vec![1, 2, 3, 4] }];
    assert_eq!(engine.virt_write_raw_iter(&writes), vec![Ok(())]);
    assert_eq!(&engine.phys_mem.data[0xbffe..0xc000], &[1, 2]);
    assert_eq!(&engine.phys_mem.data[0x8000..0x8002], &[3, 4]);
    let both = vec![
        VirtualWrite { addr: va(8, 0), data: vec![9, 9] },
        VirtualWrite { addr: va(11, 1), data: vec![7] },
    ];
    assert_eq!(engine.virt_write_raw_iter(&both), vec![Ok(()), Ok(())]);
    let reads = vec![VirtualRead { addr: va(8, 0), len: 2 }];
    assert_eq!(engine.virt_read_raw_iter(&reads), vec![Ok(vec![9, 7])]);
}

#[test]
fn batch_read_reports_each_request_on_its_own() {
    let mut engine = engine();
    let reads = vec![
        VirtualRead { addr: va(9, 0x10), len: 0x20 },
        VirtualRead { addr: va(12, 0), len: 8 },
        VirtualRead { addr: va(10, 0xff8), len: 0x10 },
        VirtualRead { addr: va(13, 0), len: 8 },
        VirtualRead { addr: va(8, 0), len: 0x1001 },
    ];
    let res = engine.virt_read_raw_iter(&reads);
    let mut last = pattern(0x8000, 0x1000);
    last.push((0xa000 % 251) as u8);
    let mut third = pattern(0xbff8, 8);
    third.extend(pattern(0x8000, 8));
    assert_eq!(
        res,
        vec![
            Ok(pattern(0xa010, 0x20)),
            Err(Error::NotPresent),
            Ok(third),
            Err(Error::Backend(BackendFault::OutOfRange)),
            Ok(last),
        ]
    );
    assert!(engine.virt_read_raw_iter(&[]).is_empty());
}

#[test]
fn batch_write_skips_what_is_not_mapped_and_writes_the_rest() {
    let mut engine = engine();
    let before = engine.phys_mem.data.clone();
    let writes = vec![
        VirtualWrite { addr: va(9, 0), data: vec![0xaa; 4] },
        VirtualWrite { addr: va(11, 0xffc), data: vec![0xbb; 8] },
        VirtualWrite { addr: va(12, 0), data: vec![0xcc; 4] },
        VirtualWrite { addr: va(10, 4), data: vec![0xdd; 2] },
    ];
    let res = engine.virt_write_raw_iter(&writes);
    assert_eq!(res, vec![Ok(()), Err(Error::NotPresent), Err(Error::NotPresent), Ok(())]);
    let mut expected = before;
    expected[0xa000..0xa004].copy_from_slice(&[0xaa; 4]);
    expected[0xb004..0xb006].copy_from_slice(&[0xdd; 2]);
    assert_eq!(engine.phys_mem.data, expected);
}

#[test]
fn write_that_leaves_the_memory_keeps_what_was_written_before_it() {
    let mut bytes = vec![0u8; 0x10000];
    store64(&mut bytes, 0x1000, 0x2003);
    store64(&mut bytes, 0x2000, 0x3003);
    store64(&mut bytes, 0x3000, 0x4003);
    store64(&mut bytes, 0x4000, 0x8003);
    store64(&mut bytes, 0x4008, 0x20_0003);
    let mut mem = MemoryImage::new(bytes);
    let mut vat = TranslateArch::new(Architecture::X64);
    let dtb = Address::from_u64(DTB);
    let res = virt_write_raw(&mut mem, &mut vat, dtb, Address::from_u64(0xffe), &[1, 2, 3, 4]);
    assert_eq!(res, Err(Error::Backend(BackendFault::OutOfRange)));
    assert_eq!(&mem.data[0x8ffe..0x9000], &[1, 2]);
}

#[test]
fn write_onto_the_page_table_changes_the_mapping() {
    let mut mem = image();
    let mut vat = TranslateArch::new(Architecture::X64);
    let dtb = Address::from_u64(DTB);
    let entry = 0x9003u64.to_le_bytes();
    assert_eq!(virt_write_raw(&mut mem, &mut vat, dtb, va(14, 8 * 8), &entry), Ok(()));
    assert_eq!(virt_read_raw(&mut mem, &mut vat, dtb, va(8, 0), 4), Ok(pattern(0x9000, 4)));
    let results = virt_write_raw_iter(
        &mut mem,
        &mut vat,
        dtb,
        &[
            VirtualWrite { addr: va(14, 8 * 12), data: 0xc003u64.to_le_bytes().to_vec() },
            VirtualWrite { addr: va(12, 0), data: vec![5, 6] },
        ],
    );
    assert_eq!(results, vec![Ok(()), Ok(())]);
    assert_eq!(&mem.data[0xc000..0xc002], &[5, 6]);
}

#[test]
fn page_info_returns_the_page_and_reads_no_data() {
    let mut engine = engine();
    let page = engine.virt_page_info(va(9, 0x123)).unwrap();
    assert_eq!(page.base, Address::from_u64(0xa000));
    assert_eq!(page.size, PageSize::Size4K);
    assert!(page.present && page.writable && !page.user && !page.no_execute);
    let outside = engine.virt_page_info(va(13, 0)).unwrap();
    assert_eq!(outside.base, Address::from_u64(0x10_0000));
    assert_eq!(engine.virt_page_info(va(12, 0)), Err(Error::NotPresent));
    let mut mem = image();
    let mut vat = TranslateArch::new(Architecture::X64);
    assert_eq!(virt_page_info(&mut mem, &mut vat, Address::from_u64(0x1008), va(9, 0)), Err(Error::NotPresent));
}

#[test]
fn pointer_width_is_four_or_eight_bytes() {
    assert_eq!(pointer_width(32), Ok(4));
    assert_eq!(pointer_width(64), Ok(8));
    for bits in [0u8, 8, 16, 31, 33, 63, 65, 128, 255] {
        assert_eq!(pointer_width(bits), Err(Error::InvalidAddressSize));
    }
}

#[test]
fn read_addr_takes_the_width_of_the_process() {
    let mut mem = image();
    mem.data[0xa100..0xa108].copy_from_slice(&0x1122_3344_5566_7788u64.to_le_bytes());
    let dtb = Address::from_u64(DTB);
    let mut wide = VirtualFromPhysical::new(mem, Architecture::X64, Architecture::X64, dtb);
    assert_eq!(wide.virt_read_addr(va(9, 0x100)), Ok(Address::from_u64(0x1122_3344_5566_7788)));
    assert_eq!(wide.virt_read_addr64(va(9, 0x100)), Ok(Address::from_u64(0x1122_3344_5566_7788)));
    assert_eq!(wide.virt_read_addr32(va(9, 0x100)), Ok(Address::from_u64(0x5566_7788)));
    assert_eq!(wide.virt_read_addr(va(12, 0)), Err(Error::NotPresent));
    assert_eq!(wide.virt_read_addr(va(11, 0xffc)), Err(Error::NotPresent));
    let mem = wide.phys_mem;
    let mut narrow = VirtualFromPhysical::new(mem, Architecture::X64, Architecture::X86, dtb);
    assert_eq!(narrow.virt_read_addr(va(9, 0x104)), Ok(Address::from_u64(0x1122_3344)));
    let mem = narrow.phys_mem;
    let mut pae = VirtualFromPhysical::new(mem, Architecture::X64, Architecture::X86Pae, dtb);
    assert_eq!(pae.virt_read_addr(va(9, 0x100)), Ok(Address::from_u64(0x5566_7788)));
}

#[test]
fn read_addr_of_sixteen_bits_fails_and_reads_nothing() {
    let mut engine = engine();
    assert_eq!(engine.virt_read_addr_sized(16, va(9, 0x100)), Err(Error::InvalidAddressSize));
    assert_eq!(engine.virt_read_addr_sized(16, va(12, 0)), Err(Error::InvalidAddressSize));
    let mut counted = LimitedMemory::new(image(), 0);
    let mut vat = TranslateArch::new(Architecture::X64);
    let res = virt_read_addr(&mut counted, &mut vat, Address::from_u64(DTB), 16, va(9, 0));
    assert_eq!(res, Err(Error::InvalidAddressSize));
    assert_eq!(counted.accesses, 0);
    let res = virt_read_addr(&mut counted, &mut vat, Address::from_u64(DTB), 64, va(9, 0));
    assert_eq!(res, Err(Error::Backend(BackendFault::Unavailable)));
    assert_eq!(counted.accesses, 1);
    assert_eq!(engine.phys_mem.data, image().data);
}

#[test]
fn backend_failure_is_handed_on_as_it_is() {
    let mut gone = LimitedMemory::new(image(), 0);
    let mut vat = TranslateArch::new(Architecture::X64);
    let dtb = Address::from_u64(DTB);
    assert_eq!(virt_read_raw(&mut gone, &mut vat, dtb, va(9, 0), 4), Err(Error::Backend(BackendFault::Unavailable)));
    assert_eq!(virt_write_raw(&mut gone, &mut vat, dtb, va(9, 0), &[1]), Err(Error::Backend(BackendFault::Unavailable)));
    assert_eq!(virt_page_info(&mut gone, &mut vat, dtb, va(9, 0)), Err(Error::Backend(BackendFault::Unavailable)));
    assert_eq!(virt_read_raw(&mut gone, &mut vat, Address::null(), va(9, 0), 4), Err(Error::NotPresent));
    let res = virt_read_raw_iter(&mut gone, &mut vat, dtb, &[VirtualRead { addr: va(9, 0), len: 0 }, VirtualRead { addr: va(9, 0), len: 1 }]);
    assert_eq!(res, vec![Ok(Vec::new()), Err(Error::Backend(BackendFault::Unavailable))]);
    assert_eq!(gone.inner.data, image().data);
}

#[test]
fn device_that_goes_away_fails_the_requests_that_come_after() {
    let mut fading = LimitedMemory::new(image(), 9);
    let mut vat = TranslateArch::new(Architecture::X64);
    let dtb = Address::from_u64(DTB);
    let reads = [
        VirtualRead { addr: va(9, 0), len: 4 },
        VirtualRead { addr: va(10, 0), len: 4 },
        VirtualRead { addr: va(12, 0), len: 4 },
    ];
    let res = virt_read_raw_iter(&mut fading, &mut vat, dtb, &reads);
    assert_eq!(
        res,
        vec![
            Ok(pattern(0xa000, 4)),
            Err(Error::Backend(BackendFault::Unavailable)),
            Err(Error::Backend(BackendFault::Unavailable)),
        ]
    );
    assert_eq!(fading.accesses, 11);
    assert_eq!(fading.budget, 0);
    let mut walks = LimitedMemory::new(image(), 4);
    let res = virt_write_raw(&mut walks, &mut vat, dtb, va(9, 0), &[1, 2]);
    assert_eq!(res, Err(Error::Backend(BackendFault::Unavailable)));
    assert_eq!(walks.inner.data, image().data);
    let mut enough = LimitedMemory::new(image(), 5);
    assert_eq!(virt_write_raw(&mut enough, &mut vat, dtb, va(9, 0), &[1, 2]), Ok(()));
    assert_eq!(&enough.inner.data[0xa000..0xa002], &[1, 2]);
}

#[test]
fn range_wraps_at_the_end_of_the_address_space() {
    let mut bytes = vec![0u8; 0x6000];
    store64(&mut bytes, 0x1000, 0x2003);
    store64(&mut bytes, 0x1000 + 8 * 511, 0x2003);
    store64(&mut bytes, 0x2000, 0x3003);
    store64(&mut bytes, 0x2000 + 8 * 511, 0x3003);
    store64(&mut bytes, 0x3000, 0x4003);
    store64(&mut bytes, 0x3000 + 8 * 511, 0x4003);
    store64(&mut bytes, 0x4000, 0x5003);
    store64(&mut bytes, 0x4000 + 8 * 511, 0x5003);
    bytes[0x5000] = 0x11;
    bytes[0x5fff] = 0x22;
    let mut mem = MemoryImage::new(bytes);
    let mut vat = TranslateArch::new(Architecture::X64);
    let dtb = Address::from_u64(DTB);
    let res = virt_read_raw(&mut mem, &mut vat, dtb, Address::from_u64(u64::MAX), 2);
    assert_eq!(res, Ok(vec![0x22, 0x11]));
    let segs = resolve(&mut mem, &mut vat, dtb, Address::from_u64(u64::MAX), 2).unwrap();
    assert_eq!(runs(&segs), vec![(0x5fff, 1), (0x5000, 1)]);
}

#[test]
fn engine_is_made_of_what_it_is_given() {
    let dtb = Address::from_u64(DTB);
    let mut engine = VirtualFromPhysical::new(image(), Architecture::X64, Architecture::X86, dtb);
    assert_eq!(engine.sys_arch(), Architecture::X64);
    assert_eq!(engine.proc_arch(), Architecture::X86);
    assert_eq!(engine.dtb(), dtb);
    assert_eq!(engine.vat().arch, Architecture::X64);
    engine.vat().arch = Architecture::X86Pae;
    assert_eq!(engine.vat.arch, Architecture::X86Pae);
    let vat = TranslateArch::new(Architecture::X86);
    let custom = VirtualFromPhysical::with_vat(image(), Architecture::X64, Architecture::X64, dtb, vat);
    assert_eq!(custom.vat.arch, Architecture::X86);
    assert_eq!(custom.sys_arch(), Architecture::X64);
    let block = StartBlock { arch: Architecture::X64, va: Address::from_u64(0xffff_f800_0000_0000), dtb };
    let mut found = VirtualFromPhysical::with_process_info(image(), block);
    assert_eq!(found.sys_arch(), Architecture::X64);
    assert_eq!(found.proc_arch(), Architecture::X64);
    assert_eq!(found.dtb(), dtb);
    assert_eq!(found.vat.arch, Architecture::X64);
    let reads = [VirtualRead { addr: va(9, 0), len: 3 }];
    assert_eq!(found.virt_read_raw_iter(&reads), vec![Ok(pattern(0xa000, 3))]);
}
