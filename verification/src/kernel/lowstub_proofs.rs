//! What holds of the search for the directory table base.

use vstd::prelude::*;
use crate::architecture::Architecture;
use crate::error::Error;
use crate::kernel::lowstub::{
    find_agrees, reads_past_end, spec_detect, spec_find, x64, x86pae, StartBlock,
    LOW_MEMORY_SIZE, LOW_STUB_SIZE,
};

verus! {

/// The search is a function of the memory: two searches of the same memory
/// that both find a start block find the same one, and on a dependable
/// backend the second search ends as the first did.
pub proof fn lemma_find_is_deterministic(
    mem: Seq<u8>,
    dependable: bool,
    first: Result<StartBlock, Error>,
    second: Result<StartBlock, Error>,
)
    requires
        find_agrees(mem, dependable, first),
        find_agrees(mem, dependable, second),
    ensures
        first is Ok && second is Ok ==> first == second,
        dependable ==> (first is Ok ==> second == first),
        dependable ==> (first == Err::<StartBlock, Error>(Error::DtbNotFound) ==> second
            == first),
        dependable ==> (first is Err && first->Err_0 is Backend ==> second is Err
            && second->Err_0 is Backend),
{
}

/// A start block in the low stub decides the search: whatever lies above the
/// first megabyte, a search that ends without a backend failure returns that
/// start block, and a dependable backend does not fail.
pub proof fn lemma_low_stub_decides(
    mem: Seq<u8>,
    other: Seq<u8>,
    dependable: bool,
    res: Result<StartBlock, Error>,
)
    requires
        mem.len() >= LOW_STUB_SIZE,
        x64::spec_find_lowstub(mem.subrange(0, LOW_STUB_SIZE as int)) is Some,
        other.len() >= LOW_STUB_SIZE,
        other.subrange(0, LOW_STUB_SIZE as int) == mem.subrange(0, LOW_STUB_SIZE as int),
        find_agrees(other, dependable, res),
    ensures
        spec_find(other) == spec_find(mem),
        spec_find(mem) == x64::spec_find_lowstub(mem.subrange(0, LOW_STUB_SIZE as int)),
        res == Ok::<StartBlock, Error>(spec_find(mem)->Some_0) || (!dependable && res is Err
            && res->Err_0 is Backend),
{
}

/// What the detector for physical address extension returns is the first page
/// that is a page-directory-pointer table, under the name of its format.
pub proof fn lemma_pae_result(mem: Seq<u8>, page: int)
    requires
        0 <= page,
        mem.len() <= u64::MAX,
        x86pae::spec_find_from(mem, page) is Some,
    ensures
        ({
            let block = x86pae::spec_find_from(mem, page)->Some_0;
            &&& block.arch == Architecture::X86Pae
            &&& block.va.value == 0
            &&& block.dtb.value % 0x1000 == 0
            &&& page * 0x1000 <= block.dtb.value
            &&& block.dtb.value + 0x1000 <= mem.len()
            &&& x86pae::spec_is_pointer_table(mem, block.dtb.value as int)
            &&& forall|q: int|
                page <= q && q * 0x1000 < block.dtb.value
                    ==> !#[trigger] x86pae::spec_is_pointer_table(mem, q * 0x1000)
        }),
    decreases mem.len() - page * 0x1000,
{
    if !x86pae::spec_is_pointer_table(mem, page * 0x1000) {
        lemma_pae_result(mem, page + 1);
    }
}

/// Fallback order: where neither detector for long mode finds anything and the
/// detector for physical address extension does, the search returns what that
/// detector found; it does not give up.
pub proof fn lemma_falls_back_to_pae(
    mem: Seq<u8>,
    dependable: bool,
    res: Result<StartBlock, Error>,
)
    requires
        mem.len() >= LOW_MEMORY_SIZE,
        x64::spec_find_lowstub(mem.subrange(0, LOW_STUB_SIZE as int)) is None,
        x64::spec_find(mem.subrange(0, LOW_MEMORY_SIZE as int)) is None,
        x86pae::spec_find(mem.subrange(0, LOW_MEMORY_SIZE as int)) is Some,
        find_agrees(mem, dependable, res),
    ensures
        res == Ok::<StartBlock, Error>(
            x86pae::spec_find(mem.subrange(0, LOW_MEMORY_SIZE as int))->Some_0,
        ) || (!dependable && res is Err && res->Err_0 is Backend),
        res != Err::<StartBlock, Error>(Error::DtbNotFound),
        x86pae::spec_find(mem.subrange(0, LOW_MEMORY_SIZE as int))->Some_0.arch
            == Architecture::X86Pae,
{
    lemma_pae_result(mem.subrange(0, LOW_MEMORY_SIZE as int), 0);
}

} // verus!
