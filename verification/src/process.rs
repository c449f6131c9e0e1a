//! What the translation of a process's addresses needs to know of it.

use vstd::prelude::*;
use crate::architecture::Architecture;
use crate::types::Address;

verus! {

/// A provider of the architectures and the directory table base of a process.
pub trait OsProcessInfo {
    spec fn sys_arch_spec(&self) -> Architecture;

    spec fn proc_arch_spec(&self) -> Architecture;

    spec fn dtb_spec(&self) -> Address;

    /// The architecture of the system, whose page tables map the process.
    fn sys_arch(&self) -> (arch: Architecture)
        ensures
            arch == self.sys_arch_spec(),
    ;

    /// The architecture that the process itself runs as.
    fn proc_arch(&self) -> (arch: Architecture)
        ensures
            arch == self.proc_arch_spec(),
    ;

    /// The directory table base of the process.
    fn dtb(&self) -> (dtb: Address)
        ensures
            dtb == self.dtb_spec(),
    ;
}

} // verus!
