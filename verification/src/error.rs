//! The failures that translation, memory access and scanning report.

use vstd::prelude::*;

verus! {

/// Why a physical-memory backend refused an access.
#[derive(Clone, Copy, Debug, PartialEq, Eq, Structural)]
pub enum BackendFault {
    /// The range does not lie inside the backend's memory.
    OutOfRange,
    /// The device behind the backend did not answer.
    Unavailable,
}

/// A structure member that the offset tables need.
#[derive(Clone, Copy, Debug, PartialEq, Eq, Structural)]
pub enum RequiredField {
    ListEntryBlink,
    EprocessActiveProcessLinks,
    KprocessDirectoryTableBase,
    EprocessUniqueProcessId,
    EprocessImageFileName,
    EprocessPeb,
}

#[derive(Clone, Copy, Debug, PartialEq, Eq, Structural)]
pub enum Error {
    /// The physical read or write itself failed; the fault is the backend's own.
    Backend(BackendFault),
    /// The address is not mapped: an entry on the way has its present bit clear,
    /// or the directory table base is null or misaligned.
    NotPresent,
    /// The pointer width is neither 32 nor 64 bits.
    InvalidAddressSize,
    /// No detector recognised a directory table base.
    DtbNotFound,
    /// The debug symbols of the kernel could not be had.
    PdbNotAvailable,
    /// A structure lacks a member that the offsets are taken from.
    FieldNotFound(RequiredField),
}

impl Error {
    pub open spec fn spec_message(self) -> Seq<char> {
        match self {
            Error::Backend(BackendFault::OutOfRange) => "physical access out of range"@,
            Error::Backend(BackendFault::Unavailable) => "physical memory unavailable"@,
            Error::NotPresent => "page not present"@,
            Error::InvalidAddressSize => "invalid instruction set address size"@,
            Error::DtbNotFound => "unable to find dtb"@,
            Error::PdbNotAvailable => "unable to get pdb"@,
            Error::FieldNotFound(RequiredField::ListEntryBlink) => "_LIST_ENTRY::Blink not found"@,
            Error::FieldNotFound(RequiredField::EprocessActiveProcessLinks) =>
                "_EPROCESS::ActiveProcessLinks not found"@,
            Error::FieldNotFound(RequiredField::KprocessDirectoryTableBase) =>
                "_KPROCESS::DirectoryTableBase not found"@,
            Error::FieldNotFound(RequiredField::EprocessUniqueProcessId) =>
                "_EPROCESS::UniqueProcessId not found"@,
            Error::FieldNotFound(RequiredField::EprocessImageFileName) =>
                "_EPROCESS::ImageFileName not found"@,
            Error::FieldNotFound(RequiredField::EprocessPeb) => "_EPROCESS::Peb not found"@,
        }
    }

    /// The text that describes the failure.
    pub fn message(&self) -> (s: &'static str)
        ensures
            s@ == self.spec_message(),
    {
        match self {
            Error::Backend(BackendFault::OutOfRange) => "physical access out of range",
            Error::Backend(BackendFault::Unavailable) => "physical memory unavailable",
            Error::NotPresent => "page not present",
            Error::InvalidAddressSize => "invalid instruction set address size",
            Error::DtbNotFound => "unable to find dtb",
            Error::PdbNotAvailable => "unable to get pdb",
            Error::FieldNotFound(RequiredField::ListEntryBlink) => "_LIST_ENTRY::Blink not found",
            Error::FieldNotFound(RequiredField::EprocessActiveProcessLinks) =>
                "_EPROCESS::ActiveProcessLinks not found",
            Error::FieldNotFound(RequiredField::KprocessDirectoryTableBase) =>
                "_KPROCESS::DirectoryTableBase not found",
            Error::FieldNotFound(RequiredField::EprocessUniqueProcessId) =>
                "_EPROCESS::UniqueProcessId not found",
            Error::FieldNotFound(RequiredField::EprocessImageFileName) =>
                "_EPROCESS::ImageFileName not found",
            Error::FieldNotFound(RequiredField::EprocessPeb) => "_EPROCESS::Peb not found",
        }
    }
}

} // verus!
