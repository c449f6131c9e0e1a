use memflow_core::architecture::Architecture;
use memflow_core::error::{BackendFault, Error};
use memflow_core::kernel::lowstub::{detect, find, x64, x86, x86pae, StartBlock};
use memflow_core::mem::phys::{LimitedMemory, MemoryImage};
use memflow_core::process::OsProcessInfo;
use memflow_core::types::Address;

const MB: usize = 0x10_0000;

fn set64(mem: &mut [u8], at: usize, value: u64) {
    mem[at..at + 8].copy_from_slice(&value.to_le_bytes());
}

fn set32(mem: &mut [u8], at: usize, value: u32) {
    mem[at..at + 4].copy_from_slice(&value.to_le_bytes());
}

fn put_start_block(mem: &mut [u8], base: usize, entry: u64, dtb: u64) {
    set64(mem, base, 0x0000_0001_0006_12e9);
    set64(mem, base + 0x70, entry);
    set64(mem, base + 0xa0, dtb);
}

fn put_root_table(mem: &mut [u8], base: usize, kernel_entries: usize) {
    set64(mem, base, 0x1234_5067);
    set64(mem, base + 8 * 0x1ed, base as u64 | 0x63 | (1 << 63));
    for k in 0..kernel_entries - 1 {
        set64(mem, base + 0x800 + 8 * k, 0x20_0000 + ((k as u64) << 12) | 0x63);
    }
}

fn put_pointer_table(mem: &mut [u8], base: usize) {
    for k in 0..4 {
        set64(mem, base + 8 * k, base as u64 + 0x1000 * (k as u64 + 1) + 1);
    }
}

fn put_page_directory(mem: &mut [u8], base: usize, supervisor_entries: usize) {
    set32(mem, base, 0x0030_0067);
    set32(mem, base + 0xc00, base as u32 | 0x63);
    for k in 0..supervisor_entries - 1 {
        let low = if k % 2 == 0 { 0x63 } else { 0xe3 };
        set32(mem, base + 0x800 + 4 * (2 * k + 1), 0x0040_0000 + ((k as u32) << 12) | low);
    }
}

fn block(arch: Architecture, va: u64, dtb: u64) -> StartBlock {
    StartBlock { arch, va: Address::from_u64(va), dtb: Address::from_u64(dtb) }
}

#[test]
fn start_block_in_the_low_stub_is_found_from_the_first_megabyte() {
    let mut bytes = vec![0u8; MB];
    put_start_block(&mut bytes, 0x5000, 0xffff_f800_1234_5670, 0x1a_d000);
    let mut mem = MemoryImage::new(bytes.clone());
    let expected = block(Architecture::X64, 0xffff_f800_1234_5670, 0x1a_d000);
    assert_eq!(find(&mut mem), Ok(expected));
    assert_eq!(mem.data, bytes);
}

#[test]
fn scanning_twice_gives_the_same_start_block() {
    let mut bytes = vec![0u8; 16 * MB];
    put_start_block(&mut bytes, 0x9_f000, 0xffff_f803_0000_0000, 0x7f_f000);
    put_pointer_table(&mut bytes, 0x20_0000);
    let mut mem = MemoryImage::new(bytes);
    let first = find(&mut mem);
    let second = find(&mut mem);
    assert_eq!(first, Ok(block(Architecture::X64, 0xffff_f803_0000_0000, 0x7f_f000)));
    assert_eq!(second, first);
}

#[test]
fn first_start_block_wins_and_page_zero_is_skipped() {
    let mut bytes = vec![0u8; MB];
    put_start_block(&mut bytes, 0, 0xffff_f800_0000_0000, 0x1000);
    put_start_block(&mut bytes, 0x3000, 0xffff_f800_0000_3000, 0x3000);
    put_start_block(&mut bytes, 0x2000, 0xffff_f800_0000_2000, 0x2000);
    assert_eq!(x64::find_lowstub(&bytes), Some(block(Architecture::X64, 0xffff_f800_0000_2000, 0x2000)));
    let mut only_zero = vec![0u8; MB];
    put_start_block(&mut only_zero, 0, 0xffff_f800_0000_0000, 0x1000);
    assert_eq!(x64::find_lowstub(&only_zero), None);
    let mut mem = MemoryImage::new(only_zero);
    assert_eq!(find(&mut mem), Err(Error::Backend(BackendFault::OutOfRange)));
}

#[test]
fn start_block_needs_all_three_signatures() {
    let mut page = vec![0u8; 0x2000];
    put_start_block(&mut page, 0x1000, 0xffff_f800_0000_0000, 0x1000);
    assert!(x64::is_start_block(&page, 0x1000));
    assert!(!x64::is_start_block(&page, 0));
    set64(&mut page, 0x1000, 0x0000_0001_0006_ffe9);
    assert!(x64::is_start_block(&page, 0x1000));
    set64(&mut page, 0x1000, 0x0000_0001_0007_00e9);
    assert!(!x64::is_start_block(&page, 0x1000));
    put_start_block(&mut page, 0x1000, 0xffff_f000_0000_0000, 0x1000);
    assert!(!x64::is_start_block(&page, 0x1000));
    put_start_block(&mut page, 0x1000, 0xffff_f800_0000_0001, 0x1000);
    assert!(!x64::is_start_block(&page, 0x1000));
    put_start_block(&mut page, 0x1000, 0xffff_f800_0000_0004, 0x1001);
    assert!(!x64::is_start_block(&page, 0x1000));
    put_start_block(&mut page, 0x1000, 0xffff_ffff_ffff_fffc, 0x0000_00ff_ffff_f000);
    assert!(x64::is_start_block(&page, 0x1000));
    put_start_block(&mut page, 0x1000, 0xffff_f800_0000_0000, 0x0000_0100_0000_0000);
    assert!(!x64::is_start_block(&page, 0x1000));
}

#[test]
fn detectors_look_at_whole_pages_only() {
    let mut bytes = vec![0u8; 0x2fff];
    put_start_block(&mut bytes, 0x2000, 0xffff_f800_0000_0000, 0x1000);
    assert_eq!(x64::find_lowstub(&bytes), None);
    bytes.push(0);
    assert!(x64::find_lowstub(&bytes).is_some());
    assert_eq!(x64::find_lowstub(&[]), None);
    assert_eq!(x64::find(&[0u8; 0xfff]), None);
    assert_eq!(x86pae::find(&[0u8; 0xfff]), None);
    assert_eq!(x86::find(&[]), None);
    assert_eq!(detect(&[0u8; 0x3000]), None);
}

#[test]
fn pae_signature_alone_gives_the_pae_start_block() {
    let mut bytes = vec![0u8; 16 * MB];
    put_pointer_table(&mut bytes, 0x18_5000);
    let mut mem = MemoryImage::new(bytes);
    assert_eq!(find(&mut mem), Ok(block(Architecture::X86Pae, 0, 0x18_5000)));
}

#[test]
fn x86_signature_alone_gives_the_x86_start_block() {
    let mut bytes = vec![0u8; 16 * MB];
    put_page_directory(&mut bytes, 0x3_9000, 17);
    let mut mem = MemoryImage::new(bytes);
    assert_eq!(find(&mut mem), Ok(block(Architecture::X86, 0, 0x3_9000)));
}

#[test]
fn root_table_above_the_low_stub_gives_the_x64_start_block() {
    let mut bytes = vec![0u8; 16 * MB];
    put_root_table(&mut bytes, 0x1a_b000, 6);
    let mut mem = MemoryImage::new(bytes);
    assert_eq!(find(&mut mem), Ok(block(Architecture::X64, 0, 0x1a_b000)));
}

#[test]
fn detectors_are_tried_in_order_whatever_the_order_of_the_pages() {
    let mut bytes = vec![0u8; 16 * MB];
    put_page_directory(&mut bytes, 0x1_0000, 17);
    put_pointer_table(&mut bytes, 0x2_0000);
    assert_eq!(detect(&bytes), Some(block(Architecture::X86Pae, 0, 0x2_0000)));
    put_root_table(&mut bytes, 0xf0_0000, 6);
    assert_eq!(detect(&bytes), Some(block(Architecture::X64, 0, 0xf0_0000)));
    put_root_table(&mut bytes, 0xe0_0000, 8);
    assert_eq!(detect(&bytes), Some(block(Architecture::X64, 0, 0xe0_0000)));
    put_start_block(&mut bytes, 0xf_f000, 0xffff_f800_0000_0000, 0x1000);
    let mut mem = MemoryImage::new(bytes);
    assert_eq!(find(&mut mem), Ok(block(Architecture::X64, 0xffff_f800_0000_0000, 0x1000)));
}

#[test]
fn start_block_above_the_first_megabyte_is_not_a_low_stub() {
    let mut bytes = vec![0u8; 16 * MB];
    put_start_block(&mut bytes, MB, 0xffff_f800_0000_0000, 0x1000);
    let mut mem = MemoryImage::new(bytes);
    assert_eq!(find(&mut mem), Err(Error::DtbNotFound));
}

#[test]
fn empty_memory_has_no_dtb() {
    let mut mem = MemoryImage::new(vec![0u8; 16 * MB]);
    assert_eq!(find(&mut mem), Err(Error::DtbNotFound));
    assert_eq!(Error::DtbNotFound.message(), "unable to find dtb");
}

#[test]
fn memory_too_short_to_read_is_a_backend_failure() {
    let mut short = MemoryImage::new(vec![0u8; MB - 1]);
    assert_eq!(find(&mut short), Err(Error::Backend(BackendFault::OutOfRange)));
    let mut middling = MemoryImage::new(vec![0u8; 16 * MB - 1]);
    assert_eq!(find(&mut middling), Err(Error::Backend(BackendFault::OutOfRange)));
}

#[test]
fn device_failure_ends_the_search() {
    let mut bytes = vec![0u8; 16 * MB];
    put_pointer_table(&mut bytes, 0x4000);
    let mut gone = LimitedMemory::new(MemoryImage::new(bytes.clone()), 0);
    assert_eq!(find(&mut gone), Err(Error::Backend(BackendFault::Unavailable)));
    assert_eq!(gone.accesses, 1);
    let mut fading = LimitedMemory::new(MemoryImage::new(bytes.clone()), 1);
    assert_eq!(find(&mut fading), Err(Error::Backend(BackendFault::Unavailable)));
    assert_eq!(fading.accesses, 2);
    let mut lasting = LimitedMemory::new(MemoryImage::new(bytes), 2);
    assert_eq!(find(&mut lasting), Ok(block(Architecture::X86Pae, 0, 0x4000)));
}

#[test]
fn root_table_needs_self_reference_and_six_kernel_entries() {
    let mut page = vec![0u8; 0x3000];
    put_root_table(&mut page, 0x2000, 6);
    assert!(x64::is_root_table(&page, 0x2000));
    assert_eq!(x64::find(&page), Some(block(Architecture::X64, 0, 0x2000)));
    let mut five = vec![0u8; 0x3000];
    put_root_table(&mut five, 0x2000, 5);
    assert!(!x64::is_root_table(&five, 0x2000));
    let mut no_self = page.clone();
    set64(&mut no_self, 0x2000 + 8 * 0x1ed, 0x1000 | 0x63);
    assert!(!x64::is_root_table(&no_self, 0x2000));
    let mut low_half = page.clone();
    set64(&mut low_half, 0x2000 + 8 * 0x1ed, 0x5063);
    set64(&mut low_half, 0x2000 + 8 * 0x80, 0x2063);
    assert!(!x64::is_root_table(&low_half, 0x2000));
    let mut first = page.clone();
    set64(&mut first, 0x2000, 0x1234_50e7);
    assert!(!x64::is_root_table(&first, 0x2000));
    set64(&mut first, 0x2000, 0x1234_5003);
    assert!(!x64::is_root_table(&first, 0x2000));
    set64(&mut first, 0x2000, 0x80_0000_0007);
    assert!(x64::is_root_table(&first, 0x2000));
    set64(&mut first, 0x2000, 0x80_0000_1007);
    assert!(!x64::is_root_table(&first, 0x2000));
}

#[test]
fn pointer_table_is_four_entries_and_zeros() {
    let mut page = vec![0u8; 0x6000];
    put_pointer_table(&mut page, 0x1000);
    assert!(x86pae::is_pointer_table(&page, 0x1000));
    assert!(!x86pae::is_pointer_table(&page, 0));
    assert_eq!(x86pae::find(&page), Some(block(Architecture::X86Pae, 0, 0x1000)));
    let mut tail = page.clone();
    tail[0x1fff] = 1;
    assert!(!x86pae::is_pointer_table(&tail, 0x1000));
    let mut fifth = page.clone();
    set64(&mut fifth, 0x1020, 0x6001);
    assert!(!x86pae::is_pointer_table(&fifth, 0x1000));
    let mut wrong = page.clone();
    set64(&mut wrong, 0x1008, 0x3003);
    assert!(!x86pae::is_pointer_table(&wrong, 0x1000));
    let mut at_zero = vec![0u8; 0x1000];
    put_pointer_table(&mut at_zero, 0);
    assert_eq!(u64::from_le_bytes(at_zero[0x18..0x20].try_into().unwrap()), 0x4001);
    assert_eq!(x86pae::find(&at_zero), Some(block(Architecture::X86Pae, 0, 0)));
}

#[test]
fn page_directory_needs_more_than_sixteen_supervisor_entries() {
    let mut page = vec![0u8; 0x3000];
    put_page_directory(&mut page, 0x2000, 17);
    assert!(x86::is_page_directory(&page, 0x2000));
    assert!(!x64::is_root_table(&page, 0x2000));
    assert_eq!(x86::find(&page), Some(block(Architecture::X86, 0, 0x2000)));
    let mut sixteen = vec![0u8; 0x3000];
    put_page_directory(&mut sixteen, 0x2000, 16);
    assert!(!x86::is_page_directory(&sixteen, 0x2000));
    let mut first = page.clone();
    first[0x2000] = 0x63;
    assert!(!x86::is_page_directory(&first, 0x2000));
    let mut own = page.clone();
    set32(&mut own, 0x2c00, 0x1063);
    assert!(!x86::is_page_directory(&own, 0x2000));
    set32(&mut own, 0x2c00, 0x2fe3);
    assert!(x86::is_page_directory(&own, 0x2000));
    set32(&mut own, 0x2c00, 0x2061);
    assert!(!x86::is_page_directory(&own, 0x2000));
}

#[test]
fn start_block_describes_the_kernel_process() {
    let found = block(Architecture::X86Pae, 0, 0x18_5000);
    assert_eq!(found.sys_arch(), Architecture::X86Pae);
    assert_eq!(found.proc_arch(), Architecture::X86Pae);
    assert_eq!(OsProcessInfo::dtb(&found), Address::from_u64(0x18_5000));
}
