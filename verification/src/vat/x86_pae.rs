//! Translation under 32-bit paging with physical address extension.

use vstd::prelude::*;
use crate::architecture::Architecture;
use crate::error::Error;
use crate::mem::phys::PhysicalMemory;
use crate::mem::virt_translate::{dtb_valid, translate, translation_agrees, walk};
use crate::mem::walk_proofs::lemma_reads_bounded;
use crate::types::{Address, Page, PhysicalAddress};

verus! {

/// What the translation of an address to a bare physical address may return.
pub open spec fn vtop_agrees(
    mem: Seq<u8>,
    dependable: bool,
    dtb: u64,
    va: u64,
    res: Result<Address, Error>,
) -> bool {
    match res {
        Ok(pa) => walk(mem, Architecture::X86Pae, dtb, va) is Mapped && walk(
            mem,
            Architecture::X86Pae,
            dtb,
            va,
        )->Mapped_0.address == pa,
        Err(e) => translation_agrees(
            mem,
            dependable,
            Architecture::X86Pae,
            dtb,
            va,
            Err::<(PhysicalAddress, Page), Error>(e),
        ),
    }
}

/// Translates `addr` through the three table levels of the format: the
/// page-directory-pointer table at `dtb`, a page directory, and a page table
/// unless the page directory maps a large page.
pub fn vtop<T: PhysicalMemory>(mem: &mut T, dtb: Address, addr: Address) -> (res: Result<
    Address,
    Error,
>)
    ensures
        final(mem).bytes() == old(mem).bytes(),
        final(mem).dependable() == old(mem).dependable(),
        vtop_agrees(old(mem).bytes(), old(mem).dependable(), dtb.value, addr.value, res),
        final(mem).accesses() <= old(mem).accesses() + 3,
        !dtb_valid(Architecture::X86Pae, dtb.value) ==> final(mem).accesses() == old(
            mem,
        ).accesses(),
{
    proof {
        if dtb_valid(Architecture::X86Pae, dtb.value) {
            lemma_reads_bounded(mem.bytes(), Architecture::X86Pae, 3, dtb.value, addr.value);
        }
    }
    match translate(mem, Architecture::X86Pae, dtb, addr) {
        Ok((pa, _)) => Ok(pa.address),
        Err(e) => Err(e),
    }
}

} // verus!
