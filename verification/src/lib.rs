//! Virtual-to-physical address translation over raw physical memory, and
//! discovery of the kernel's directory table base from a memory snapshot.
//!
//! Physical memory is modelled as the sequence of its bytes; every contract
//! that reads or writes memory is stated over that sequence.
//!
//! - `architecture`, `types`, `error`, `bytes`: the formats and their geometry,
//!   addresses and pages, failures, little-endian integers.
//! - `mem::phys`: the interface of a backend, and backends that hold an image.
//! - `mem::virt_translate`, `mem::walk_proofs`: the page-table walk and what
//!   holds of it.
//! - `mem::virt_range`, `mem::phys_io`, `mem::virt_mem`, `mem::virt_mem_proofs`:
//!   ranges of virtual memory, their reads and writes, one by one and in
//!   batches.
//! - `mem::virt_from_phys`: the engine that binds a backend, a walker and the
//!   context of one process.
//! - `kernel::lowstub`, `kernel::lowstub_proofs`: the search for the directory
//!   table base.
//! - `offsets`: offsets of kernel structures from debug symbols.
//! - `vat`, `process`, `plugin`: single-address translation by format, the
//!   description of a process, the description of a plugin.

pub mod architecture;
pub mod bytes;
pub mod error;
pub mod kernel;
pub mod mem;
pub mod offsets;
pub mod plugin;
pub mod process;
pub mod types;
pub mod vat;
