//! What holds of reads and writes of virtual memory taken together.

use vstd::prelude::*;
use crate::architecture::Architecture;
use crate::error::Error;
use crate::mem::phys_io::{lemma_store_keeps_len, store};
use crate::mem::virt_mem::{read_agrees, read_view, reads_agree, write_agrees, VirtualRead};
use crate::mem::virt_range::{
    byte_phys, byte_walk, first_fault_at, mapped_before, range_phys, stored_before, virt_bytes,
};

verus! {

/// Whether no two of the first `len` bytes of the range share a physical
/// address.
pub open spec fn distinct_before(
    mem: Seq<u8>,
    arch: Architecture,
    dtb: u64,
    va: u64,
    len: int,
) -> bool {
    forall|i: int, j: int|
        0 <= i < j < len ==> #[trigger] byte_phys(mem, arch, dtb, va, i) != #[trigger] byte_phys(
            mem,
            arch,
            dtb,
            va,
            j,
        )
}

/// Whether the first `len` bytes of the range are translated in `after` as they
/// are in `before`.
pub open spec fn same_mapping(
    before: Seq<u8>,
    after: Seq<u8>,
    arch: Architecture,
    dtb: u64,
    va: u64,
    len: int,
) -> bool {
    forall|i: int|
        0 <= i < len ==> #[trigger] byte_walk(after, arch, dtb, va, i) == byte_walk(
            before,
            arch,
            dtb,
            va,
            i,
        )
}

/// After bytes were stored at addresses inside the memory, the memory is as
/// long as before, and it holds byte `i` at its address unless a later byte
/// went to the same address.
pub proof fn lemma_store_holds(mem: Seq<u8>, addrs: Seq<int>, data: Seq<u8>, n: int, i: int)
    requires
        0 <= i < n <= addrs.len(),
        n <= data.len(),
        forall|k: int| 0 <= k < n ==> 0 <= #[trigger] addrs[k] < mem.len(),
        forall|k: int| i < k < n ==> #[trigger] addrs[k] != addrs[i],
    ensures
        store(mem, addrs, data, n).len() == mem.len(),
        store(mem, addrs, data, n)[addrs[i]] == data[i],
    decreases n,
{
    lemma_store_keeps_len(mem, addrs, data, n - 1);
    if i < n - 1 {
        lemma_store_holds(mem, addrs, data, n - 1, i);
        assert(addrs[n - 1] != addrs[i]);
    }
}

/// Round trip: bytes that were written to a range are the bytes that a read of
/// the range then returns, where the write left the translation of the range
/// as it was and no two bytes of the range share a physical address. A read
/// can then only return those bytes, or fail because the backend is not
/// dependable.
pub proof fn lemma_write_then_read(
    before: Seq<u8>,
    after: Seq<u8>,
    dependable: bool,
    arch: Architecture,
    dtb: u64,
    va: u64,
    data: Seq<u8>,
    read: Result<Seq<u8>, Error>,
)
    requires
        write_agrees(before, after, dependable, arch, dtb, va, data, Ok(())),
        same_mapping(before, after, arch, dtb, va, data.len() as int),
        distinct_before(before, arch, dtb, va, data.len() as int),
        read_agrees(after, dependable, arch, dtb, va, data.len() as int, read),
    ensures
        read_agrees(after, dependable, arch, dtb, va, data.len() as int, Ok(data)),
        read == Ok::<Seq<u8>, Error>(data) || (!dependable && read is Err && read->Err_0
            is Backend),
{
    reveal(write_agrees);
    let len = data.len() as int;
    let addrs = range_phys(before, arch, dtb, va, len);
    assert forall|k: int| 0 <= k < len implies 0 <= #[trigger] addrs[k] < before.len() by {
        assert(byte_walk(before, arch, dtb, va, k) is Mapped);
        assert(byte_phys(before, arch, dtb, va, k) < before.len());
    }
    lemma_store_keeps_len(before, addrs, data, len);
    assert forall|i: int| 0 <= i < len implies (#[trigger] byte_walk(after, arch, dtb, va, i))
        is Mapped && byte_phys(after, arch, dtb, va, i) == addrs[i] && after[addrs[i]]
        == data[i] by {
        assert(byte_walk(before, arch, dtb, va, i) is Mapped);
        assert forall|k: int| i < k < len implies #[trigger] addrs[k] != addrs[i] by {
            assert(byte_phys(before, arch, dtb, va, i) != byte_phys(before, arch, dtb, va, k));
        }
        lemma_store_holds(before, addrs, data, len, i);
    }
    assert(mapped_before(after, arch, dtb, va, len));
    assert forall|i: int| 0 <= i < len implies (#[trigger] byte_phys(after, arch, dtb, va, i))
        < after.len() by {
        assert(byte_walk(after, arch, dtb, va, i) is Mapped);
    }
    assert(virt_bytes(after, arch, dtb, va, len) =~= data) by {
        assert forall|i: int| 0 <= i < len implies virt_bytes(after, arch, dtb, va, len)[i]
            == data[i] by {
            assert(byte_walk(after, arch, dtb, va, i) is Mapped);
        }
    }
    match read {
        Ok(_) => {},
        Err(_) => {
            assert forall|i: int| !(#[trigger] first_fault_at(after, arch, dtb, va, len, i)) by {
                if 0 <= i < len {
                    assert(byte_walk(after, arch, dtb, va, i) is Mapped);
                }
            }
        },
    }
}

/// Isolation of failures: in a batch of reads each request fares as it would
/// alone. A request whose range is mapped and stored has its bytes, whatever
/// became of the others, and a request with a byte that is not mapped has
/// failed. Only a backend that is not dependable can fail a request of the
/// first kind.
pub proof fn lemma_batch_isolates_failures(
    mem: Seq<u8>,
    dependable: bool,
    arch: Architecture,
    dtb: u64,
    reads: Seq<VirtualRead>,
    res: Seq<Result<Vec<u8>, Error>>,
    k: int,
)
    requires
        reads_agree(mem, dependable, arch, dtb, reads, res),
        0 <= k < reads.len(),
    ensures
        !mapped_before(mem, arch, dtb, reads[k].addr.value, reads[k].len as int) ==> res[k]
            is Err,
        mapped_before(mem, arch, dtb, reads[k].addr.value, reads[k].len as int) && stored_before(
            mem,
            arch,
            dtb,
            reads[k].addr.value,
            reads[k].len as int,
        ) ==> read_view(res[k]) == Ok::<Seq<u8>, Error>(
            virt_bytes(mem, arch, dtb, reads[k].addr.value, reads[k].len as int),
        ) || (!dependable && res[k] is Err && res[k]->Err_0 is Backend),
{
    let va = reads[k].addr.value;
    let len = reads[k].len as int;
    assert(read_agrees(mem, dependable, arch, dtb, va, len, read_view(res[k])));
    if mapped_before(mem, arch, dtb, va, len) {
        assert forall|i: int| !(#[trigger] first_fault_at(mem, arch, dtb, va, len, i)) by {
            if 0 <= i < len {
                assert(byte_walk(mem, arch, dtb, va, i) is Mapped);
            }
        }
    }
}

} // verus!
