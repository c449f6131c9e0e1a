//! Reading and writing runs of physical addresses.

use vstd::prelude::*;
use vstd::slice::slice_subrange;
use crate::bytes::overwrite;
use crate::error::BackendFault;
use crate::mem::phys::PhysicalMemory;
use crate::mem::virt_range::{flatten, segment_addresses, Segment};

verus! {

/// Whether no run of the list is empty.
pub open spec fn no_empty_run(segs: Seq<Segment>) -> bool {
    forall|k: int| 0 <= k < segs.len() ==> (#[trigger] segs[k]).len > 0
}

/// Whether every address of the list lies inside the memory.
pub open spec fn all_inside(mem: Seq<u8>, addrs: Seq<int>) -> bool {
    forall|i: int| 0 <= i < addrs.len() ==> 0 <= #[trigger] addrs[i] < mem.len()
}

/// The bytes that the memory holds at the addresses of the list, in order.
pub open spec fn bytes_at(mem: Seq<u8>, addrs: Seq<int>) -> Seq<u8> {
    Seq::new(addrs.len(), |i: int| mem[addrs[i]])
}

/// The memory after the first `n` bytes of `data` were stored, one after the
/// other, each at the address that the list gives it.
pub open spec fn store(mem: Seq<u8>, addrs: Seq<int>, data: Seq<u8>, n: int) -> Seq<u8>
    decreases n,
{
    if n <= 0 {
        mem
    } else {
        store(mem, addrs, data, n - 1).update(addrs[n - 1], data[n - 1])
    }
}

/// Bytes stored at addresses inside the memory leave its length as it is.
pub proof fn lemma_store_keeps_len(mem: Seq<u8>, addrs: Seq<int>, data: Seq<u8>, n: int)
    requires
        n <= addrs.len(),
        forall|k: int| 0 <= k < n ==> 0 <= #[trigger] addrs[k] < mem.len(),
    ensures
        store(mem, addrs, data, n).len() == mem.len(),
    decreases n,
{
    if n > 0 {
        lemma_store_keeps_len(mem, addrs, data, n - 1);
    }
}

/// Storing a run of bytes at consecutive addresses lays them over the memory.
pub proof fn lemma_store_run(
    mem: Seq<u8>,
    addrs: Seq<int>,
    data: Seq<u8>,
    from: int,
    len: int,
    start: int,
)
    requires
        0 <= from,
        0 <= len,
        from + len <= addrs.len(),
        from + len <= data.len(),
        0 <= start,
        start + len <= store(mem, addrs, data, from).len(),
        forall|j: int| 0 <= j < len ==> #[trigger] addrs[from + j] == start + j,
    ensures
        store(mem, addrs, data, from + len) == overwrite(
            store(mem, addrs, data, from),
            start,
            data.subrange(from, from + len),
        ),
    decreases len,
{
    let before = store(mem, addrs, data, from);
    if len == 0 {
        assert(overwrite(before, start, data.subrange(from, from)) =~= before);
    } else {
        lemma_store_run(mem, addrs, data, from, len - 1, start);
        let mid = store(mem, addrs, data, from + len - 1);
        assert(mid == overwrite(before, start, data.subrange(from, from + len - 1)));
        assert(addrs[from + (len - 1)] == start + (len - 1));
        assert(store(mem, addrs, data, from + len) == mid.update(
            start + len - 1,
            data[from + len - 1],
        ));
        assert(mid.update(start + len - 1, data[from + len - 1]) =~= overwrite(
            before,
            start,
            data.subrange(from, from + len),
        ));
    }
}

/// The addresses of the first `k` runs begin the addresses of all runs.
pub proof fn lemma_flatten_take(segs: Seq<Segment>, k: int)
    requires
        0 <= k <= segs.len(),
    ensures
        flatten(segs.take(k)).is_prefix_of(flatten(segs)),
    decreases segs.len(),
{
    if k == segs.len() {
        assert(segs.take(k) =~= segs);
    } else {
        assert(segs.drop_last().take(k) =~= segs.take(k));
        lemma_flatten_take(segs.drop_last(), k);
    }
}

/// The addresses of the first `k + 1` runs are those of the first `k` and then
/// those of run `k`.
pub proof fn lemma_flatten_take_next(segs: Seq<Segment>, k: int)
    requires
        0 <= k < segs.len(),
    ensures
        flatten(segs.take(k + 1)) == flatten(segs.take(k)) + segment_addresses(segs[k]),
{
    assert(segs.take(k + 1).drop_last() =~= segs.take(k));
}

/// Whether the accesses went up by one for each run: for all `runs` of them
/// where all were served, else for those up to the first that was not.
pub open spec fn accesses_counted(before: nat, after: nat, runs: nat, served: bool) -> bool {
    if served {
        after == before + runs
    } else {
        before < after <= before + runs
    }
}

/// Reads the bytes at the addresses of the runs, one read for each run.
pub fn read_segments<T: PhysicalMemory>(phys_mem: &mut T, segs: &Vec<Segment>) -> (res: Result<
    Vec<u8>,
    BackendFault,
>)
    requires
        no_empty_run(segs@),
    ensures
        final(phys_mem).bytes() == old(phys_mem).bytes(),
        final(phys_mem).dependable() == old(phys_mem).dependable(),
        match res {
            Ok(data) => all_inside(old(phys_mem).bytes(), flatten(segs@)) && data@ == bytes_at(
                old(phys_mem).bytes(),
                flatten(segs@),
            ),
            Err(_) => old(phys_mem).dependable() ==> !all_inside(
                old(phys_mem).bytes(),
                flatten(segs@),
            ),
        },
        accesses_counted(
            old(phys_mem).accesses(),
            final(phys_mem).accesses(),
            segs@.len(),
            res is Ok,
        ),
{
    let ghost mem = phys_mem.bytes();
    let mut out: Vec<u8> = Vec::new();
    let mut k: usize = 0;
    assert(bytes_at(mem, flatten(segs@.take(0))) =~= out@);
    while k < segs.len()
        invariant
            k <= segs.len(),
            no_empty_run(segs@),
            phys_mem.bytes() == mem,
            mem == old(phys_mem).bytes(),
            phys_mem.dependable() == old(phys_mem).dependable(),
            phys_mem.accesses() == old(phys_mem).accesses() + k,
            all_inside(mem, flatten(segs@.take(k as int))),
            out@ == bytes_at(mem, flatten(segs@.take(k as int))),
        decreases segs.len() - k,
    {
        let seg: Segment = segs[k];
        let ghost before = flatten(segs@.take(k as int));
        let ghost run = segment_addresses(seg);
        proof {
            assert(segs@[k as int].len > 0);
            lemma_flatten_take_next(segs@, k as int);
            lemma_flatten_take(segs@, k + 1);
        }
        match phys_mem.phys_read_raw(seg.start, seg.len) {
            Err(fault) => {
                proof {
                    if phys_mem.dependable() {
                        let last = before.len() + seg.len - 1;
                        assert((before + run)[last] == run[seg.len - 1]);
                        assert(flatten(segs@)[last] == seg.start.address.value + seg.len - 1);
                    }
                }
                return Err(fault);
            },
            Ok(mut data) => {
                proof {
                    assert forall|i: int| 0 <= i < (before + run).len() implies 0 <= #[trigger] (
                    before + run)[i] < mem.len() by {
                        if i >= before.len() {
                            assert((before + run)[i] == run[i - before.len()]);
                        } else {
                            assert((before + run)[i] == before[i]);
                        }
                    }
                    assert(bytes_at(mem, before + run) =~= bytes_at(mem, before) + data@);
                }
                out.append(&mut data);
                k = k + 1;
            },
        }
    }
    assert(segs@.take(k as int) =~= segs@);
    Ok(out)
}

/// What a write of `data` to the addresses of the list may leave behind: the
/// memory with all of the data stored where the write succeeded, and with the
/// data stored up to the run that failed where it did not.
pub open spec fn segments_written(
    before: Seq<u8>,
    after: Seq<u8>,
    dependable: bool,
    addrs: Seq<int>,
    data: Seq<u8>,
    res: Result<(), BackendFault>,
) -> bool {
    match res {
        Ok(()) => all_inside(before, addrs) && after == store(
            before,
            addrs,
            data,
            addrs.len() as int,
        ),
        Err(_) => {
            &&& dependable ==> !all_inside(before, addrs)
            &&& exists|n: int|
                0 <= n < addrs.len() && all_inside(before, addrs.take(n)) && after
                    == #[trigger] store(before, addrs, data, n)
        },
    }
}

/// Writes `data` to the addresses of the runs, one write for each run, and
/// stops at the first write that fails.
pub fn write_segments<T: PhysicalMemory>(
    phys_mem: &mut T,
    segs: &Vec<Segment>,
    data: &[u8],
) -> (res: Result<(), BackendFault>)
    requires
        no_empty_run(segs@),
        flatten(segs@).len() == data@.len(),
    ensures
        final(phys_mem).dependable() == old(phys_mem).dependable(),
        accesses_counted(
            old(phys_mem).accesses(),
            final(phys_mem).accesses(),
            segs@.len(),
            res is Ok,
        ),
        segments_written(
            old(phys_mem).bytes(),
            final(phys_mem).bytes(),
            old(phys_mem).dependable(),
            flatten(segs@),
            data@,
            res,
        ),
{
    let ghost mem = phys_mem.bytes();
    let ghost addrs = flatten(segs@);
    let mut k: usize = 0;
    let mut done: usize = 0;
    assert(flatten(segs@.take(0)) =~= Seq::<int>::empty());
    while k < segs.len()
        invariant
            k <= segs.len(),
            no_empty_run(segs@),
            addrs == flatten(segs@),
            addrs.len() == data@.len(),
            data@.len() == data.len(),
            mem == old(phys_mem).bytes(),
            phys_mem.dependable() == old(phys_mem).dependable(),
            phys_mem.accesses() == old(phys_mem).accesses() + k,
            done == flatten(segs@.take(k as int)).len(),
            done <= addrs.len(),
            all_inside(mem, flatten(segs@.take(k as int))),
            phys_mem.bytes() == store(mem, addrs, data@, done as int),
        decreases segs.len() - k,
    {
        let seg: Segment = segs[k];
        let ghost before = flatten(segs@.take(k as int));
        let ghost run = segment_addresses(seg);
        proof {
            assert(segs@[k as int].len > 0);
            lemma_flatten_take_next(segs@, k as int);
            lemma_flatten_take(segs@, k + 1);
            lemma_flatten_take(segs@, k as int);
            assert((before + run).is_prefix_of(addrs));
            assert(done + seg.len <= addrs.len());
            assert(addrs.take(done as int) =~= before);
            assert forall|i: int| 0 <= i < done implies 0 <= #[trigger] addrs[i] < mem.len() by {
                assert(before[i] == addrs[i]);
            }
            lemma_store_keeps_len(mem, addrs, data@, done as int);
            assert forall|j: int| 0 <= j < seg.len implies #[trigger] addrs[done + j]
                == seg.start.address.value + j by {
                assert((before + run)[done + j] == run[j]);
            }
        }
        let chunk = slice_subrange(data, done, done + seg.len);
        match phys_mem.phys_write_raw(seg.start, chunk) {
            Err(fault) => {
                proof {
                    if phys_mem.dependable() {
                        assert(addrs[done + (seg.len - 1)] == seg.start.address.value + (seg.len
                            - 1));
                    }
                }
                return Err(fault);
            },
            Ok(()) => {
                proof {
                    lemma_store_run(
                        mem,
                        addrs,
                        data@,
                        done as int,
                        seg.len as int,
                        seg.start.address.value as int,
                    );
                    assert forall|i: int| 0 <= i < (before + run).len() implies 0 <= #[trigger] (
                    before + run)[i] < mem.len() by {
                        if i >= before.len() {
                            assert((before + run)[i] == run[i - before.len()]);
                        } else {
                            assert((before + run)[i] == before[i]);
                        }
                    }
                }
                done = done + seg.len;
                k = k + 1;
            },
        }
    }
    assert(segs@.take(k as int) =~= segs@);
    Ok(())
}

} // verus!
