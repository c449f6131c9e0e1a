//! The offsets of the kernel structures that a process list is read through,
//! taken from the members of the structures in the kernel's debug symbols.

use vstd::prelude::*;
use crate::error::{Error, RequiredField};

verus! {

/// A member of a structure: its name, and its offset from the structure's
/// start.
#[derive(Debug)]
pub struct PdbField {
    pub name: String,
    pub offset: usize,
}

/// A structure as the debug symbols describe it: its members in their order.
#[derive(Debug)]
pub struct PdbStruct {
    pub fields: Vec<PdbField>,
}

/// The structures that the offsets are taken from.
#[derive(Debug)]
pub struct PdbSymbols {
    pub list_entry: PdbStruct,
    pub kprocess: PdbStruct,
    pub eprocess: PdbStruct,
}

/// The offset of the first of the members from `from` on that has the name.
pub open spec fn field_offset_from(fields: Seq<PdbField>, name: Seq<char>, from: int) -> Option<
    usize,
>
    decreases fields.len() - from,
{
    if from < 0 || from >= fields.len() {
        None
    } else if fields[from].name@ == name {
        Some(fields[from].offset)
    } else {
        field_offset_from(fields, name, from + 1)
    }
}

impl PdbStruct {
    /// The offset of the first member that has the name.
    pub open spec fn field_offset(self, name: Seq<char>) -> Option<usize> {
        field_offset_from(self.fields@, name, 0)
    }

    /// Looks a member up by its name.
    pub fn find_field(&self, name: &str) -> (res: Option<&PdbField>)
        ensures
            match res {
                Some(field) => field.name@ == name@ && self.field_offset(name@) == Some(
                    field.offset,
                ),
                None => self.field_offset(name@) is None,
            },
    {
        let wanted: String = name.to_owned();
        let mut i: usize = 0;
        while i < self.fields.len()
            invariant
                wanted@ == name@,
                self.field_offset(name@) == field_offset_from(self.fields@, name@, i as int),
            decreases self.fields.len() - i,
        {
            if self.fields[i].name == wanted {
                return Some(&self.fields[i]);
            }
            i = i + 1;
        }
        None
    }
}

#[derive(Clone, Copy, Debug, PartialEq, Eq, Structural)]
pub struct Win32Offsets {
    pub list_blink: usize,
    pub eproc_link: usize,
    pub kproc_dtb: usize,
    pub eproc_pid: usize,
    pub eproc_name: usize,
    pub eproc_peb: usize,
    pub eproc_wow64: usize,
    pub peb_ldr_x86: usize,
    pub peb_ldr_x64: usize,
    pub ldr_list_x86: usize,
    pub ldr_list_x64: usize,
    pub ldr_data_base_x86: usize,
    pub ldr_data_base_x64: usize,
    pub ldr_data_size_x86: usize,
    pub ldr_data_size_x64: usize,
    pub ldr_data_name_x86: usize,
    pub ldr_data_name_x64: usize,
}

/// The offsets that the symbols give. The six members of the kernel's process
/// structures are required, and the first that is missing, in the order in
/// which they are looked up, is the error. The member for 32-bit processes on a
/// 64-bit system is optional and counts as zero where it is missing. The
/// offsets into the structures of user mode are fixed.
pub open spec fn spec_offsets(pdb: PdbSymbols) -> Result<Win32Offsets, Error> {
    if pdb.list_entry.field_offset("Blink"@) is None {
        Err(Error::FieldNotFound(RequiredField::ListEntryBlink))
    } else if pdb.eprocess.field_offset("ActiveProcessLinks"@) is None {
        Err(Error::FieldNotFound(RequiredField::EprocessActiveProcessLinks))
    } else if pdb.kprocess.field_offset("DirectoryTableBase"@) is None {
        Err(Error::FieldNotFound(RequiredField::KprocessDirectoryTableBase))
    } else if pdb.eprocess.field_offset("UniqueProcessId"@) is None {
        Err(Error::FieldNotFound(RequiredField::EprocessUniqueProcessId))
    } else if pdb.eprocess.field_offset("ImageFileName"@) is None {
        Err(Error::FieldNotFound(RequiredField::EprocessImageFileName))
    } else if pdb.eprocess.field_offset("Peb"@) is None {
        Err(Error::FieldNotFound(RequiredField::EprocessPeb))
    } else {
        Ok(
            Win32Offsets {
                list_blink: pdb.list_entry.field_offset("Blink"@)->Some_0,
                eproc_link: pdb.eprocess.field_offset("ActiveProcessLinks"@)->Some_0,
                kproc_dtb: pdb.kprocess.field_offset("DirectoryTableBase"@)->Some_0,
                eproc_pid: pdb.eprocess.field_offset("UniqueProcessId"@)->Some_0,
                eproc_name: pdb.eprocess.field_offset("ImageFileName"@)->Some_0,
                eproc_peb: pdb.eprocess.field_offset("Peb"@)->Some_0,
                eproc_wow64: match pdb.eprocess.field_offset("WoW64Process"@) {
                    Some(offset) => offset,
                    None => 0,
                },
                peb_ldr_x86: 0xc,
                peb_ldr_x64: 0x18,
                ldr_list_x86: 0xc,
                ldr_list_x64: 0x10,
                ldr_data_base_x86: 0x18,
                ldr_data_base_x64: 0x30,
                ldr_data_size_x86: 0x20,
                ldr_data_size_x64: 0x40,
                ldr_data_name_x86: 0x2c,
                ldr_data_name_x64: 0x58,
            },
        )
    }
}

impl Win32Offsets {
    /// Takes the offsets from the structures of the kernel's debug symbols.
    pub fn try_with_pdb(pdb: &PdbSymbols) -> (res: Result<Win32Offsets, Error>)
        ensures
            res == spec_offsets(*pdb),
    {
        let list_blink: usize = match pdb.list_entry.find_field("Blink") {
            Some(field) => field.offset,
            None => {
                return Err(Error::FieldNotFound(RequiredField::ListEntryBlink));
            },
        };
        let eproc_link: usize = match pdb.eprocess.find_field("ActiveProcessLinks") {
            Some(field) => field.offset,
            None => {
                return Err(Error::FieldNotFound(RequiredField::EprocessActiveProcessLinks));
            },
        };
        let kproc_dtb: usize = match pdb.kprocess.find_field("DirectoryTableBase") {
            Some(field) => field.offset,
            None => {
                return Err(Error::FieldNotFound(RequiredField::KprocessDirectoryTableBase));
            },
        };
        let eproc_pid: usize = match pdb.eprocess.find_field("UniqueProcessId") {
            Some(field) => field.offset,
            None => {
                return Err(Error::FieldNotFound(RequiredField::EprocessUniqueProcessId));
            },
        };
        let eproc_name: usize = match pdb.eprocess.find_field("ImageFileName") {
            Some(field) => field.offset,
            None => {
                return Err(Error::FieldNotFound(RequiredField::EprocessImageFileName));
            },
        };
        let eproc_peb: usize = match pdb.eprocess.find_field("Peb") {
            Some(field) => field.offset,
            None => {
                return Err(Error::FieldNotFound(RequiredField::EprocessPeb));
            },
        };
        let eproc_wow64: usize = match pdb.eprocess.find_field("WoW64Process") {
            Some(field) => field.offset,
            None => 0,
        };
        Ok(
            Win32Offsets {
                list_blink,
                eproc_link,
                kproc_dtb,
                eproc_pid,
                eproc_name,
                eproc_peb,
                eproc_wow64,
                peb_ldr_x86: 0xc,
                peb_ldr_x64: 0x18,
                ldr_list_x86: 0xc,
                ldr_list_x64: 0x10,
                ldr_data_base_x86: 0x18,
                ldr_data_base_x64: 0x30,
                ldr_data_size_x86: 0x20,
                ldr_data_size_x64: 0x40,
                ldr_data_name_x86: 0x2c,
                ldr_data_name_x64: 0x58,
            },
        )
    }

    /// Takes the offsets from the symbols that a lookup by the kernel's
    /// identifier brought, and hands on the lookup's failure where it brought
    /// none.
    pub fn try_with_guid(lookup: Result<PdbSymbols, Error>) -> (res: Result<Win32Offsets, Error>)
        ensures
            res == match lookup {
                Ok(pdb) => spec_offsets(pdb),
                Err(e) => Err::<Win32Offsets, Error>(e),
            },
    {
        match lookup {
            Ok(pdb) => Win32Offsets::try_with_pdb(&pdb),
            Err(e) => Err(e),
        }
    }
}

} // verus!
