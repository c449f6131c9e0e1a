use memflow_core::error::{Error, RequiredField};
use memflow_core::offsets::{PdbField, PdbStruct, PdbSymbols, Win32Offsets};

fn structure(fields: &[(&str, usize)]) -> PdbStruct {
    PdbStruct {
        fields: fields.iter().map(|(name, offset)| PdbField { name: name.to_string(), offset: *offset }).collect(),
    }
}

fn symbols() -> PdbSymbols {
    PdbSymbols {
        list_entry: structure(&[("Flink", 0), ("Blink", 8)]),
        kprocess: structure(&[("Header", 0), ("ProfileListHead", 0x18), ("DirectoryTableBase", 0x28)]),
        eprocess: structure(&[
            ("Pcb", 0),
            ("UniqueProcessId", 0x2e8),
            ("ActiveProcessLinks", 0x2f0),
            ("Peb", 0x3f8),
            ("WoW64Process", 0x428),
            ("ImageFileName", 0x450),
        ]),
    }
}

fn without(mut pdb: PdbSymbols, structure: u8, name: &str) -> PdbSymbols {
    let target = match structure {
        0 => &mut pdb.list_entry,
        1 => &mut pdb.kprocess,
        _ => &mut pdb.eprocess,
    };
    target.fields.retain(|f| f.name != name);
    pdb
}

#[test]
fn offsets_come_from_the_symbols_and_the_fixed_layout() {
    let offsets = Win32Offsets::try_with_pdb(&symbols()).unwrap();
    let expected = Win32Offsets {
        list_blink: 8,
        eproc_link: 0x2f0,
        kproc_dtb: 0x28,
        eproc_pid: 0x2e8,
        eproc_name: 0x450,
        eproc_peb: 0x3f8,
        eproc_wow64: 0x428,
        peb_ldr_x86: 0xc,
        peb_ldr_x64: 0x18,
        ldr_list_x86: 0xc,
        ldr_list_x64: 0x10,
        ldr_data_base_x86: 0x18,
        ldr_data_base_x64: 0x30,
        ldr_data_size_x86: 0x20,
        ldr_data_size_x64: 0x40,
        ldr_data_name_x86: 0x2c,
        ldr_data_name_x64: 0x58,
    };
    assert_eq!(offsets, expected);
}

#[test]
fn missing_wow64_member_counts_as_zero() {
    let offsets = Win32Offsets::try_with_pdb(&without(symbols(), 2, "WoW64Process")).unwrap();
    assert_eq!(offsets.eproc_wow64, 0);
    assert_eq!(offsets.eproc_peb, 0x3f8);
}

#[test]
fn each_required_member_has_its_own_error() {
    let cases = [
        (0, "Blink", RequiredField::ListEntryBlink, "_LIST_ENTRY::Blink not found"),
        (2, "ActiveProcessLinks", RequiredField::EprocessActiveProcessLinks, "_EPROCESS::ActiveProcessLinks not found"),
        (1, "DirectoryTableBase", RequiredField::KprocessDirectoryTableBase, "_KPROCESS::DirectoryTableBase not found"),
        (2, "UniqueProcessId", RequiredField::EprocessUniqueProcessId, "_EPROCESS::UniqueProcessId not found"),
        (2, "ImageFileName", RequiredField::EprocessImageFileName, "_EPROCESS::ImageFileName not found"),
        (2, "Peb", RequiredField::EprocessPeb, "_EPROCESS::Peb not found"),
    ];
    for (structure, name, field, message) in cases {
        let res = Win32Offsets::try_with_pdb(&without(symbols(), structure, name));
        assert_eq!(res, Err(Error::FieldNotFound(field)));
        assert_eq!(Error::FieldNotFound(field).message(), message);
    }
}

#[test]
fn first_missing_member_in_lookup_order_is_reported() {
    let pdb = without(without(without(symbols(), 2, "Peb"), 1, "DirectoryTableBase"), 2, "UniqueProcessId");
    assert_eq!(
        Win32Offsets::try_with_pdb(&pdb),
        Err(Error::FieldNotFound(RequiredField::KprocessDirectoryTableBase))
    );
    let empty = PdbSymbols { list_entry: structure(&[]), kprocess: structure(&[]), eprocess: structure(&[]) };
    assert_eq!(Win32Offsets::try_with_pdb(&empty), Err(Error::FieldNotFound(RequiredField::ListEntryBlink)));
    let misplaced = PdbSymbols {
        list_entry: structure(&[("Peb", 1)]),
        kprocess: structure(&[("Blink", 2)]),
        eprocess: structure(&[("Blink", 3)]),
    };
    assert_eq!(Win32Offsets::try_with_pdb(&misplaced), Err(Error::FieldNotFound(RequiredField::ListEntryBlink)));
}

#[test]
fn find_field_returns_the_first_member_of_that_name() {
    let s = structure(&[("a", 1), ("Blink", 2), ("Blink", 3), ("blink", 4), ("", 5)]);
    assert_eq!(s.find_field("Blink").map(|f| f.offset), Some(2));
    assert_eq!(s.find_field("blink").map(|f| f.offset), Some(4));
    assert_eq!(s.find_field("").map(|f| f.offset), Some(5));
    assert_eq!(s.find_field("a").map(|f| f.name.as_str()), Some("a"));
    assert!(s.find_field("Blin").is_none());
    assert!(s.find_field("Blink ").is_none());
    assert!(structure(&[]).find_field("Blink").is_none());
}

#[test]
fn lookup_failure_is_handed_on() {
    assert_eq!(Win32Offsets::try_with_guid(Err(Error::PdbNotAvailable)), Err(Error::PdbNotAvailable));
    assert_eq!(Error::PdbNotAvailable.message(), "unable to get pdb");
    let found = Win32Offsets::try_with_guid(Ok(symbols()));
    assert_eq!(found, Win32Offsets::try_with_pdb(&symbols()));
    assert_eq!(found.unwrap().kproc_dtb, 0x28);
    let lacking = Win32Offsets::try_with_guid(Ok(without(symbols(), 2, "Peb")));
    assert_eq!(lacking, Err(Error::FieldNotFound(RequiredField::EprocessPeb)));
}
