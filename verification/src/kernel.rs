//! What is found out about a kernel from physical memory alone.

pub mod lowstub;
pub mod lowstub_proofs;
