//! Virtual memory on top of physical memory: a backend, a walker, and the
//! architectures and directory table base of the process that is looked at.

use vstd::prelude::*;
use crate::architecture::Architecture;
use crate::error::Error;
use crate::mem::phys::PhysicalMemory;
use crate::mem::virt_mem;
use crate::mem::virt_mem::{
    page_info_agrees, pointer_agrees, reads_agree, spec_pointer_width, writes_agree, VirtualRead,
    VirtualWrite,
};
use crate::mem::virt_translate::{dtb_valid, TranslateArch, VirtualTranslate};
use crate::process::OsProcessInfo;
use crate::types::{Address, Page};

verus! {

pub struct VirtualFromPhysical<T: PhysicalMemory, V: VirtualTranslate> {
    pub phys_mem: T,
    pub sys_arch: Architecture,
    pub vat: V,
    pub proc_arch: Architecture,
    pub dtb: Address,
}

impl<T: PhysicalMemory> VirtualFromPhysical<T, TranslateArch> {
    /// Virtual memory over `phys_mem`, with the walker for `sys_arch`.
    pub fn new(
        phys_mem: T,
        sys_arch: Architecture,
        proc_arch: Architecture,
        dtb: Address,
    ) -> (engine: Self)
        ensures
            engine.phys_mem == phys_mem,
            engine.sys_arch == sys_arch,
            engine.vat.arch == sys_arch,
            engine.proc_arch == proc_arch,
            engine.dtb == dtb,
    {
        Self { phys_mem, sys_arch, vat: TranslateArch::new(sys_arch), proc_arch, dtb }
    }

    /// Virtual memory over `phys_mem` for the process that `process_info`
    /// describes.
    pub fn with_process_info<U: OsProcessInfo>(phys_mem: T, process_info: U) -> (engine: Self)
        ensures
            engine.phys_mem == phys_mem,
            engine.sys_arch == process_info.sys_arch_spec(),
            engine.vat.arch == process_info.sys_arch_spec(),
            engine.proc_arch == process_info.proc_arch_spec(),
            engine.dtb == process_info.dtb_spec(),
    {
        Self {
            phys_mem,
            sys_arch: process_info.sys_arch(),
            vat: TranslateArch::new(process_info.sys_arch()),
            proc_arch: process_info.proc_arch(),
            dtb: process_info.dtb(),
        }
    }
}

impl<T: PhysicalMemory, V: VirtualTranslate> VirtualFromPhysical<T, V> {
    /// Virtual memory over `phys_mem` with a walker of the caller's own.
    pub fn with_vat(
        phys_mem: T,
        sys_arch: Architecture,
        proc_arch: Architecture,
        dtb: Address,
        vat: V,
    ) -> (engine: Self)
        ensures
            engine.phys_mem == phys_mem,
            engine.sys_arch == sys_arch,
            engine.vat == vat,
            engine.proc_arch == proc_arch,
            engine.dtb == dtb,
    {
        Self { phys_mem, sys_arch, vat, proc_arch, dtb }
    }

    pub fn sys_arch(&self) -> (arch: Architecture)
        ensures
            arch == self.sys_arch,
    {
        self.sys_arch
    }

    /// The walker, to work on it in place.
    pub fn vat(&mut self) -> (vat: &mut V)
        ensures
            *vat == old(self).vat,
            final(self).vat == *final(vat),
            final(self).phys_mem == old(self).phys_mem,
            final(self).sys_arch == old(self).sys_arch,
            final(self).proc_arch == old(self).proc_arch,
            final(self).dtb == old(self).dtb,
    {
        &mut self.vat
    }

    pub fn proc_arch(&self) -> (arch: Architecture)
        ensures
            arch == self.proc_arch,
    {
        self.proc_arch
    }

    pub fn dtb(&self) -> (dtb: Address)
        ensures
            dtb == self.dtb,
    {
        self.dtb
    }

    /// Whether a call left everything but the backend's bytes as it was.
    pub open spec fn same_context(self, other: Self) -> bool {
        &&& self.phys_mem.dependable() == other.phys_mem.dependable()
        &&& self.vat.format() == other.vat.format()
        &&& self.sys_arch == other.sys_arch
        &&& self.proc_arch == other.proc_arch
        &&& self.dtb == other.dtb
    }

    /// Whether nothing was asked of the backend between `self` and `after`.
    pub open spec fn untouched(self, after: Self) -> bool {
        after.phys_mem.accesses() == self.phys_mem.accesses()
    }

    /// Whether the directory table base is valid for the walker's format.
    pub open spec fn rooted(self) -> bool {
        dtb_valid(self.vat.format(), self.dtb.value)
    }

    /// Reads the pointer at `addr`, in the width of the process's architecture.
    pub fn virt_read_addr(&mut self, addr: Address) -> (res: Result<Address, Error>)
        ensures
            final(self).same_context(*old(self)),
            final(self).phys_mem.bytes() == old(self).phys_mem.bytes(),
            spec_pointer_width(old(self).proc_arch.bits()) is None || !old(self).rooted()
                ==> old(self).untouched(*final(self)),
            pointer_agrees(
                old(self).phys_mem.bytes(),
                old(self).phys_mem.dependable(),
                old(self).vat.format(),
                old(self).dtb.value,
                addr.value,
                old(self).proc_arch.bits(),
                res,
            ),
    {
        let bits: u8 = self.proc_arch.bits();
        self.virt_read_addr_sized(bits, addr)
    }

    /// Reads the pointer of `bits` bits at `addr`.
    pub fn virt_read_addr_sized(&mut self, bits: u8, addr: Address) -> (res: Result<Address, Error>)
        ensures
            final(self).same_context(*old(self)),
            final(self).phys_mem.bytes() == old(self).phys_mem.bytes(),
            spec_pointer_width(bits) is None || !old(self).rooted() ==> old(self).untouched(
                *final(self),
            ),
            pointer_agrees(
                old(self).phys_mem.bytes(),
                old(self).phys_mem.dependable(),
                old(self).vat.format(),
                old(self).dtb.value,
                addr.value,
                bits,
                res,
            ),
    {
        virt_mem::virt_read_addr(&mut self.phys_mem, &mut self.vat, self.dtb, bits, addr)
    }

    /// Reads the 32-bit pointer at `addr`.
    pub fn virt_read_addr32(&mut self, addr: Address) -> (res: Result<Address, Error>)
        ensures
            final(self).same_context(*old(self)),
            final(self).phys_mem.bytes() == old(self).phys_mem.bytes(),
            !old(self).rooted() ==> old(self).untouched(*final(self)),
            pointer_agrees(
                old(self).phys_mem.bytes(),
                old(self).phys_mem.dependable(),
                old(self).vat.format(),
                old(self).dtb.value,
                addr.value,
                32,
                res,
            ),
    {
        self.virt_read_addr_sized(32, addr)
    }

    /// Reads the 64-bit pointer at `addr`.
    pub fn virt_read_addr64(&mut self, addr: Address) -> (res: Result<Address, Error>)
        ensures
            final(self).same_context(*old(self)),
            final(self).phys_mem.bytes() == old(self).phys_mem.bytes(),
            !old(self).rooted() ==> old(self).untouched(*final(self)),
            pointer_agrees(
                old(self).phys_mem.bytes(),
                old(self).phys_mem.dependable(),
                old(self).vat.format(),
                old(self).dtb.value,
                addr.value,
                64,
                res,
            ),
    {
        self.virt_read_addr_sized(64, addr)
    }

    /// Reads a batch of ranges; each request gets its own result.
    pub fn virt_read_raw_iter(&mut self, reads: &[VirtualRead]) -> (res: Vec<
        Result<Vec<u8>, Error>,
    >)
        ensures
            final(self).same_context(*old(self)),
            final(self).phys_mem.bytes() == old(self).phys_mem.bytes(),
            reads@.len() == 0 || !old(self).rooted() ==> old(self).untouched(*final(self)),
            reads_agree(
                old(self).phys_mem.bytes(),
                old(self).phys_mem.dependable(),
                old(self).vat.format(),
                old(self).dtb.value,
                reads@,
                res@,
            ),
    {
        virt_mem::virt_read_raw_iter(&mut self.phys_mem, &mut self.vat, self.dtb, reads)
    }

    /// Writes a batch of ranges, in the order of the requests; each request
    /// gets its own result.
    pub fn virt_write_raw_iter(&mut self, writes: &[VirtualWrite]) -> (res: Vec<Result<(), Error>>)
        ensures
            final(self).same_context(*old(self)),
            writes@.len() == 0 || !old(self).rooted() ==> old(self).untouched(*final(self)),
            writes_agree(
                old(self).phys_mem.bytes(),
                final(self).phys_mem.bytes(),
                old(self).phys_mem.dependable(),
                old(self).vat.format(),
                old(self).dtb.value,
                writes@,
                res@,
            ),
    {
        virt_mem::virt_write_raw_iter(&mut self.phys_mem, &mut self.vat, self.dtb, writes)
    }

    /// The page that holds `addr`.
    pub fn virt_page_info(&mut self, addr: Address) -> (res: Result<Page, Error>)
        ensures
            final(self).same_context(*old(self)),
            final(self).phys_mem.bytes() == old(self).phys_mem.bytes(),
            !old(self).rooted() ==> old(self).untouched(*final(self)),
            page_info_agrees(
                old(self).phys_mem.bytes(),
                old(self).phys_mem.dependable(),
                old(self).vat.format(),
                old(self).dtb.value,
                addr.value,
                res,
            ),
    {
        virt_mem::virt_page_info(&mut self.phys_mem, &mut self.vat, self.dtb, addr)
    }
}

} // verus!
