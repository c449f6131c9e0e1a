//! Physical memory and the virtual memory that is read through it.

pub mod phys;
pub mod phys_io;
pub mod virt_from_phys;
pub mod virt_mem;
pub mod virt_mem_proofs;
pub mod virt_range;
pub mod virt_translate;
pub mod walk_proofs;
