//! The search for the kernel's directory table base in low physical memory.

pub mod x64;
pub mod x86;
pub mod x86pae;

use vstd::prelude::*;
use crate::architecture::Architecture;
use crate::error::Error;
use crate::mem::phys::PhysicalMemory;
use crate::process::OsProcessInfo;
use crate::types::{Address, PageSize, PhysicalAddress};

verus! {

/// What the search finds: the architecture that the kernel runs as, an anchor
/// address in the kernel where the search learns one, and the directory table
/// base.
#[derive(Clone, Copy, Debug, PartialEq, Eq, Structural)]
pub struct StartBlock {
    pub arch: Architecture,
    pub va: Address,
    pub dtb: Address,
}

impl OsProcessInfo for StartBlock {
    open spec fn sys_arch_spec(&self) -> Architecture {
        self.arch
    }

    open spec fn proc_arch_spec(&self) -> Architecture {
        self.arch
    }

    open spec fn dtb_spec(&self) -> Address {
        self.dtb
    }

    fn sys_arch(&self) -> (arch: Architecture) {
        self.arch
    }

    fn proc_arch(&self) -> (arch: Architecture) {
        self.arch
    }

    fn dtb(&self) -> (dtb: Address) {
        self.dtb
    }
}

/// The length of the low stub: the first megabyte.
pub const LOW_STUB_SIZE: usize = 0x10_0000;

/// The length of the wider range that is searched where the low stub holds no
/// start block: the first sixteen megabytes.
pub const LOW_MEMORY_SIZE: usize = 0x100_0000;

/// What the detectors for the wider range find, tried in their order: long
/// mode, then physical address extension, then plain 32-bit paging.
pub open spec fn spec_detect(mem: Seq<u8>) -> Option<StartBlock> {
    if x64::spec_find(mem) is Some {
        x64::spec_find(mem)
    } else if x86pae::spec_find(mem) is Some {
        x86pae::spec_find(mem)
    } else {
        x86::spec_find(mem)
    }
}

/// Tries the detectors for the wider range in their order and stops at the
/// first that finds a directory table base.
pub fn detect(mem: &[u8]) -> (res: Option<StartBlock>)
    ensures
        res == spec_detect(mem@),
{
    if let Some(block) = x64::find(mem) {
        return Some(block);
    }
    if let Some(block) = x86pae::find(mem) {
        return Some(block);
    }
    x86::find(mem)
}

/// What the search finds in a memory: the start block of the low stub where
/// there is one, else what the detectors find in the wider range.
pub open spec fn spec_find(mem: Seq<u8>) -> Option<StartBlock> {
    if mem.len() < LOW_STUB_SIZE {
        None
    } else if x64::spec_find_lowstub(mem.subrange(0, LOW_STUB_SIZE as int)) is Some {
        x64::spec_find_lowstub(mem.subrange(0, LOW_STUB_SIZE as int))
    } else if mem.len() < LOW_MEMORY_SIZE {
        None
    } else {
        spec_detect(mem.subrange(0, LOW_MEMORY_SIZE as int))
    }
}

/// Whether the search has to read more of the memory than the memory holds.
pub open spec fn reads_past_end(mem: Seq<u8>) -> bool {
    mem.len() < LOW_STUB_SIZE || (mem.len() < LOW_MEMORY_SIZE && x64::spec_find_lowstub(
        mem.subrange(0, LOW_STUB_SIZE as int),
    ) is None)
}

/// What the search may return, given the memory it read. A start block is the
/// one that the memory defines. The search gives up only where the memory holds
/// all that is read and no detector finds anything in it. A dependable backend
/// fails only where the memory is too short for what has to be read.
pub open spec fn find_agrees(
    mem: Seq<u8>,
    dependable: bool,
    res: Result<StartBlock, Error>,
) -> bool {
    match res {
        Ok(block) => spec_find(mem) == Some(block),
        Err(Error::DtbNotFound) => !reads_past_end(mem) && spec_find(mem) is None,
        Err(Error::Backend(_)) => dependable ==> reads_past_end(mem),
        Err(_) => false,
    }
}

/// The number of reads that the search makes: one of the low stub, and one of
/// the wider range unless the first read failed or found the start block.
pub open spec fn find_reads(
    mem: Seq<u8>,
    dependable: bool,
    res: Result<StartBlock, Error>,
    reads: int,
) -> bool {
    match res {
        Ok(_) => reads == if x64::spec_find_lowstub(mem.subrange(0, LOW_STUB_SIZE as int)) is Some {
            1int
        } else {
            2int
        },
        Err(Error::Backend(_)) => 1 <= reads <= 2 && (dependable ==> reads == if mem.len()
            < LOW_STUB_SIZE {
            1int
        } else {
            2int
        }),
        Err(_) => reads == 2,
    }
}

/// Searches low physical memory for the kernel's directory table base: first
/// the low stub for the start block of long mode, then the first sixteen
/// megabytes for the root table of each format. Nothing is written.
pub fn find<T: PhysicalMemory>(mem: &mut T) -> (res: Result<StartBlock, Error>)
    ensures
        final(mem).bytes() == old(mem).bytes(),
        final(mem).dependable() == old(mem).dependable(),
        find_agrees(old(mem).bytes(), old(mem).dependable(), res),
        find_reads(
            old(mem).bytes(),
            old(mem).dependable(),
            res,
            final(mem).accesses() - old(mem).accesses(),
        ),
{
    let origin = PhysicalAddress::new(Address::null(), PageSize::Size4K);
    let low1m = match mem.phys_read_raw(origin, LOW_STUB_SIZE) {
        Ok(data) => data,
        Err(fault) => {
            return Err(Error::Backend(fault));
        },
    };
    if let Some(block) = x64::find_lowstub(low1m.as_slice()) {
        return Ok(block);
    }
    let low16m = match mem.phys_read_raw(origin, LOW_MEMORY_SIZE) {
        Ok(data) => data,
        Err(fault) => {
            return Err(Error::Backend(fault));
        },
    };
    match detect(low16m.as_slice()) {
        Some(block) => Ok(block),
        None => Err(Error::DtbNotFound),
    }
}

} // verus!
