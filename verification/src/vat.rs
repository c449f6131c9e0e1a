//! Translation of single addresses, one module for each format.

pub mod x86_pae;
