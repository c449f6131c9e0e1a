//! A range of virtual addresses: what it is mapped to byte by byte, and its
//! resolution into runs of physical addresses.

use vstd::prelude::*;
use crate::architecture::Architecture;
use crate::error::Error;
use crate::mem::phys::PhysicalMemory;
use crate::mem::virt_translate::{dtb_valid, walk, VirtualTranslate, Walk};
use crate::mem::walk_proofs::{
    address_in_page, lemma_offset_mask_is_remainder, lemma_walk_keeps_offset,
    lemma_walk_same_page, offset_mask, same_page,
};
use crate::types::{
    lemma_wrapping_offset_adds, lemma_wrapping_offset_small, wrapping_offset, Address,
    PhysicalAddress,
};

verus! {

/// The translation of byte `i` of the range that starts at `va`.
pub open spec fn byte_walk(mem: Seq<u8>, arch: Architecture, dtb: u64, va: u64, i: int) -> Walk {
    walk(mem, arch, dtb, wrapping_offset(va, i))
}

/// The physical address of byte `i` of the range, where it is mapped.
pub open spec fn byte_phys(mem: Seq<u8>, arch: Architecture, dtb: u64, va: u64, i: int) -> int {
    byte_walk(mem, arch, dtb, va, i)->Mapped_0.address.value as int
}

/// Whether the first `n` bytes of the range are all mapped.
pub open spec fn mapped_before(
    mem: Seq<u8>,
    arch: Architecture,
    dtb: u64,
    va: u64,
    n: int,
) -> bool {
    forall|i: int| 0 <= i < n ==> (#[trigger] byte_walk(mem, arch, dtb, va, i)) is Mapped
}

/// Whether the first `n` bytes of the range are mapped to addresses inside the
/// memory.
pub open spec fn stored_before(
    mem: Seq<u8>,
    arch: Architecture,
    dtb: u64,
    va: u64,
    n: int,
) -> bool {
    forall|i: int| 0 <= i < n ==> (#[trigger] byte_phys(mem, arch, dtb, va, i)) < mem.len()
}

/// Whether byte `i` is the first byte of the range that is not mapped.
pub open spec fn first_fault_at(
    mem: Seq<u8>,
    arch: Architecture,
    dtb: u64,
    va: u64,
    len: int,
    i: int,
) -> bool {
    &&& 0 <= i < len
    &&& mapped_before(mem, arch, dtb, va, i)
    &&& !(byte_walk(mem, arch, dtb, va, i) is Mapped)
}

/// The physical addresses of the first `len` bytes of the range, in order.
pub open spec fn range_phys(
    mem: Seq<u8>,
    arch: Architecture,
    dtb: u64,
    va: u64,
    len: int,
) -> Seq<int> {
    Seq::new(len as nat, |i: int| byte_phys(mem, arch, dtb, va, i))
}

/// The bytes that the memory holds for the first `len` bytes of the range.
pub open spec fn virt_bytes(
    mem: Seq<u8>,
    arch: Architecture,
    dtb: u64,
    va: u64,
    len: int,
) -> Seq<u8> {
    Seq::new(len as nat, |i: int| mem[byte_phys(mem, arch, dtb, va, i)])
}

/// A run of consecutive physical addresses.
#[derive(Clone, Copy, Debug)]
pub struct Segment {
    pub start: PhysicalAddress,
    pub len: usize,
}

/// The addresses of a run, in order.
pub open spec fn segment_addresses(seg: Segment) -> Seq<int> {
    Seq::new(seg.len as nat, |j: int| seg.start.address.value + j)
}

/// The addresses of a list of runs, in order.
pub open spec fn flatten(segs: Seq<Segment>) -> Seq<int>
    decreases segs.len(),
{
    if segs.len() == 0 {
        Seq::empty()
    } else {
        flatten(segs.drop_last()) + segment_addresses(segs.last())
    }
}

/// Whether run `k` of the list begins where run `k - 1` ends.
pub open spec fn joins(segs: Seq<Segment>, k: int) -> bool {
    segs[k - 1].start.address.value + segs[k - 1].len == segs[k].start.address.value
}

/// Whether a run is not empty and ends inside the address space.
pub open spec fn segment_wf(seg: Segment) -> bool {
    seg.len > 0 && seg.start.address.value + seg.len <= 0x1_0000_0000_0000_0000
}

/// A list of runs is coalesced when no run is empty, none leaves the address
/// space, and none begins where the one before it ends.
pub open spec fn coalesced(segs: Seq<Segment>) -> bool {
    &&& forall|k: int| 0 <= k < segs.len() ==> segment_wf(#[trigger] segs[k])
    &&& forall|k: int| 0 < k < segs.len() ==> !#[trigger] joins(segs, k)
}

/// The addresses of a list with one more run.
pub proof fn lemma_flatten_push(segs: Seq<Segment>, seg: Segment)
    ensures
        flatten(segs.push(seg)) == flatten(segs) + segment_addresses(seg),
{
    assert(segs.push(seg).drop_last() =~= segs);
}

/// The addresses of a list whose last run is made longer.
pub proof fn lemma_flatten_extend(segs: Seq<Segment>, len: usize)
    requires
        segs.len() > 0,
        segs.last().len + len <= usize::MAX,
    ensures
        flatten(
            segs.update(
                segs.len() - 1,
                Segment { start: segs.last().start, len: (segs.last().len + len) as usize },
            ),
        ) == flatten(segs) + Seq::new(
            len as nat,
            |j: int| segs.last().start.address.value + segs.last().len + j,
        ),
{
    let last = segs.last();
    let joined = Segment { start: last.start, len: (last.len + len) as usize };
    let longer = segs.update(segs.len() - 1, joined);
    let more = Seq::new(len as nat, |j: int| last.start.address.value + last.len + j);
    assert(longer.drop_last() =~= segs.drop_last());
    assert(longer.last() == joined);
    assert(segment_addresses(joined) =~= segment_addresses(last) + more);
    assert(flatten(longer) == flatten(segs.drop_last()) + segment_addresses(joined));
    assert(flatten(segs) == flatten(segs.drop_last()) + segment_addresses(last));
    assert(flatten(longer) =~= flatten(segs) + more);
}

/// A coalesced list without addresses has no runs.
pub proof fn lemma_flatten_empty(segs: Seq<Segment>)
    requires
        coalesced(segs),
        flatten(segs).len() == 0,
    ensures
        segs.len() == 0,
{
    if segs.len() > 0 {
        assert(segment_wf(segs[segs.len() - 1]));
    }
}

/// The last run of a list is no longer than the list's addresses are many.
pub proof fn lemma_flatten_len(segs: Seq<Segment>)
    requires
        segs.len() > 0,
    ensures
        flatten(segs).len() == flatten(segs.drop_last()).len() + segs.last().len,
{
}

/// The list with one more run: the last run made longer where the new run
/// begins at its end, else the new run after the others.
pub open spec fn spec_push_segment(segs: Seq<Segment>, start: PhysicalAddress, len: usize) -> Seq<
    Segment,
> {
    if segs.len() > 0 && segs.last().start.address.value + segs.last().len
        == start.address.value {
        segs.update(
            segs.len() - 1,
            Segment { start: segs.last().start, len: (segs.last().len + len) as usize },
        )
    } else {
        segs.push(Segment { start, len })
    }
}

/// Adds a run to a list of runs, as part of the last run where it begins at
/// that run's end.
pub fn push_segment(segs: &mut Vec<Segment>, start: PhysicalAddress, len: usize)
    requires
        len > 0,
        start.address.value + len <= 0x1_0000_0000_0000_0000,
        coalesced(old(segs)@),
        flatten(old(segs)@).len() + len <= usize::MAX,
    ensures
        final(segs)@ == spec_push_segment(old(segs)@, start, len),
        coalesced(final(segs)@),
        flatten(final(segs)@) == flatten(old(segs)@) + Seq::new(
            len as nat,
            |j: int| start.address.value + j,
        ),
{
    let n: usize = segs.len();
    let ghost before = segs@;
    let ghost more = Seq::new(len as nat, |j: int| start.address.value + j);
    if n > 0 {
        let last: Segment = segs[n - 1];
        let from: u64 = last.start.address.value;
        assert(segment_wf(before[n - 1]));
        if start.address.value >= from && start.address.value - from == last.len as u64 {
            proof {
                lemma_flatten_len(before);
                lemma_flatten_extend(before, len);
            }
            let joined = Segment { start: last.start, len: last.len + len };
            segs.set(n - 1, joined);
            proof {
                assert(segs@ == before.update(n - 1, joined));
                assert(more =~= Seq::new(
                    len as nat,
                    |j: int| before.last().start.address.value + before.last().len + j,
                ));
                assert forall|k: int| 0 <= k < segs@.len() implies segment_wf(
                    #[trigger] segs@[k],
                ) by {
                    if k < n - 1 {
                        assert(segment_wf(before[k]));
                    }
                }
                assert forall|k: int| 0 < k < segs@.len() implies !#[trigger] joins(segs@, k) by {
                    assert(!joins(before, k));
                }
            }
            return ;
        }
    }
    let seg = Segment { start, len };
    segs.push(seg);
    proof {
        if n > 0 {
            assert(segment_wf(before[n - 1]));
        }
        lemma_flatten_push(before, seg);
        assert(segs@ == before.push(seg));
        assert(segment_addresses(seg) =~= more);
        assert forall|k: int| 0 <= k < segs@.len() implies segment_wf(#[trigger] segs@[k]) by {
            if k < n {
                assert(segment_wf(before[k]));
            }
        }
        assert forall|k: int| 0 < k < segs@.len() implies !#[trigger] joins(segs@, k) by {
            if k < n {
                assert(!joins(before, k));
            }
        }
    }
}

/// Whether a run begins at the translation of one of the first `len` bytes of
/// the range, and so carries the size of the page that it was resolved
/// through.
pub open spec fn begins_at_translation(
    mem: Seq<u8>,
    arch: Architecture,
    dtb: u64,
    va: u64,
    len: int,
    seg: Segment,
) -> bool {
    exists|i: int|
        0 <= i < len && (#[trigger] byte_walk(mem, arch, dtb, va, i)) is Mapped && byte_walk(
            mem,
            arch,
            dtb,
            va,
            i,
        )->Mapped_0 == seg.start
}

/// Whether every run of the list begins at a translation.
pub open spec fn begin_at_translations(
    mem: Seq<u8>,
    arch: Architecture,
    dtb: u64,
    va: u64,
    len: int,
    segs: Seq<Segment>,
) -> bool {
    forall|k: int|
        0 <= k < segs.len() ==> begins_at_translation(mem, arch, dtb, va, len, #[trigger] segs[k])
}

/// What the resolution of a range may return, given the memory it walked
/// through: the runs that hold the range's bytes in order, or the failure at
/// the first byte that is not mapped.
pub open spec fn resolution_agrees(
    mem: Seq<u8>,
    dependable: bool,
    arch: Architecture,
    dtb: u64,
    va: u64,
    len: int,
    res: Result<Seq<Segment>, Error>,
) -> bool {
    match res {
        Ok(segs) => {
            &&& mapped_before(mem, arch, dtb, va, len)
            &&& coalesced(segs)
            &&& begin_at_translations(mem, arch, dtb, va, len, segs)
            &&& flatten(segs) == range_phys(mem, arch, dtb, va, len)
        },
        Err(Error::NotPresent) => exists|i: int| #[trigger]
            first_fault_at(mem, arch, dtb, va, len, i) && byte_walk(mem, arch, dtb, va, i)
                is NotPresent,
        Err(Error::Backend(_)) => len > 0 && (dependable ==> exists|i: int| #[trigger]
            first_fault_at(mem, arch, dtb, va, len, i) && byte_walk(mem, arch, dtb, va, i)
                is Unreadable),
        Err(_) => false,
    }
}

proof fn lemma_step_in_page(cur: u64, j: u64, lo: u64, base: u64)
    by (bit_vector)
    requires
        lo == 0xfff || lo == 0x1f_ffff || lo == 0x3f_ffff || lo == 0x3fff_ffff,
        j <= lo - (cur & lo),
        base & lo == 0,
    ensures
        cur + j <= 0xffff_ffff_ffff_ffff,
        ((cur + j) as u64) & !lo == cur & !lo,
        base | (((cur + j) as u64) & lo) == (base | (cur & lo)) + j,
        (base | (cur & lo)) + j <= 0xffff_ffff_ffff_ffff,
{
}

/// The bytes that follow a mapped address in its page are mapped to the
/// physical addresses that follow its own.
pub proof fn lemma_walk_steps_in_page(
    mem: Seq<u8>,
    arch: Architecture,
    dtb: u64,
    va: u64,
    j: u64,
)
    requires
        walk(mem, arch, dtb, va) is Mapped,
        j <= offset_mask(walk(mem, arch, dtb, va)->Mapped_1.size) - (va & offset_mask(
            walk(mem, arch, dtb, va)->Mapped_1.size,
        )),
    ensures
        va + j <= u64::MAX,
        walk(mem, arch, dtb, va)->Mapped_0.address.value + j <= u64::MAX,
        walk(mem, arch, dtb, (va + j) as u64) == Walk::Mapped(
            PhysicalAddress {
                address: Address {
                    value: (walk(mem, arch, dtb, va)->Mapped_0.address.value + j) as u64,
                },
                page_size: walk(mem, arch, dtb, va)->Mapped_1.size,
            },
            walk(mem, arch, dtb, va)->Mapped_1,
        ),
{
    let pa = walk(mem, arch, dtb, va)->Mapped_0;
    let page = walk(mem, arch, dtb, va)->Mapped_1;
    let lo = offset_mask(page.size);
    lemma_walk_keeps_offset(mem, arch, dtb, va);
    lemma_offset_mask_is_remainder(page.size, page.base.value);
    lemma_step_in_page(va, j, lo, page.base.value);
    let vb = (va + j) as u64;
    assert(same_page(page.size, va, vb));
    lemma_walk_same_page(mem, arch, dtb, va, vb);
    assert(address_in_page(page, vb).address.value == pa.address.value + j);
}

/// A range whose first `done` bytes are mapped, and whose next byte is mapped
/// with `take` bytes left in its page, is mapped for `take` bytes more, to the
/// physical addresses that follow that byte's own.
pub proof fn lemma_range_extends(
    mem: Seq<u8>,
    arch: Architecture,
    dtb: u64,
    va: u64,
    done: int,
    take: int,
)
    requires
        0 <= done,
        1 <= take,
        mapped_before(mem, arch, dtb, va, done),
        byte_walk(mem, arch, dtb, va, done) is Mapped,
        take - 1 <= offset_mask(byte_walk(mem, arch, dtb, va, done)->Mapped_1.size) - (
        wrapping_offset(va, done) & offset_mask(
            byte_walk(mem, arch, dtb, va, done)->Mapped_1.size,
        )),
    ensures
        mapped_before(mem, arch, dtb, va, done + take),
        byte_phys(mem, arch, dtb, va, done) + take <= 0x1_0000_0000_0000_0000,
        range_phys(mem, arch, dtb, va, done + take) == range_phys(mem, arch, dtb, va, done)
            + Seq::new(take as nat, |j: int| byte_phys(mem, arch, dtb, va, done) + j),
{
    let at = wrapping_offset(va, done);
    let pa = byte_phys(mem, arch, dtb, va, done);
    lemma_walk_steps_in_page(mem, arch, dtb, at, (take - 1) as u64);
    assert forall|i: int| 0 <= i < done + take implies (#[trigger] byte_walk(
        mem,
        arch,
        dtb,
        va,
        i,
    )) is Mapped && (i >= done ==> byte_phys(mem, arch, dtb, va, i) == pa + (i - done)) by {
        if i >= done {
            let j = (i - done) as u64;
            lemma_walk_steps_in_page(mem, arch, dtb, at, j);
            lemma_wrapping_offset_adds(va, done, i - done);
            lemma_wrapping_offset_small(at, i - done);
            assert(wrapping_offset(va, i) == at + j);
        }
    }
    assert(range_phys(mem, arch, dtb, va, done + take) =~= range_phys(mem, arch, dtb, va, done)
        + Seq::new(take as nat, |j: int| pa + j));
}

/// Resolves the `len` bytes from `addr` on into runs of physical addresses.
/// Each page is translated once, and a page that follows the one before it in
/// physical memory goes into the same run. Nothing is read for an empty range
/// or under an invalid directory table base.
pub fn resolve<T: PhysicalMemory, V: VirtualTranslate>(
    phys_mem: &mut T,
    vat: &mut V,
    dtb: Address,
    addr: Address,
    len: usize,
) -> (res: Result<Vec<Segment>, Error>)
    ensures
        final(phys_mem).bytes() == old(phys_mem).bytes(),
        final(phys_mem).dependable() == old(phys_mem).dependable(),
        final(vat).format() == old(vat).format(),
        len == 0 || !dtb_valid(old(vat).format(), dtb.value) ==> final(phys_mem).accesses() == old(
            phys_mem,
        ).accesses(),
        match res {
            Ok(segs) => resolution_agrees(
                old(phys_mem).bytes(),
                old(phys_mem).dependable(),
                old(vat).format(),
                dtb.value,
                addr.value,
                len as int,
                Ok(segs@),
            ),
            Err(e) => resolution_agrees(
                old(phys_mem).bytes(),
                old(phys_mem).dependable(),
                old(vat).format(),
                dtb.value,
                addr.value,
                len as int,
                Err(e),
            ),
        },
{
    let ghost mem = phys_mem.bytes();
    let ghost arch = vat.format();
    let ghost va = addr.value;
    let mut segs: Vec<Segment> = Vec::new();
    let mut done: usize = 0;
    let mut cur: Address = addr;
    assert(flatten(segs@) =~= range_phys(mem, arch, dtb.value, va, 0));
    while done < len
        invariant
            done <= len,
            cur.value == wrapping_offset(va, done as int),
            va == addr.value,
            phys_mem.bytes() == mem,
            mem == old(phys_mem).bytes(),
            phys_mem.dependable() == old(phys_mem).dependable(),
            vat.format() == arch,
            arch == old(vat).format(),
            mapped_before(mem, arch, dtb.value, va, done as int),
            coalesced(segs@),
            begin_at_translations(mem, arch, dtb.value, va, done as int, segs@),
            flatten(segs@) == range_phys(mem, arch, dtb.value, va, done as int),
            done == 0 ==> phys_mem.accesses() == old(phys_mem).accesses(),
            done > 0 ==> dtb_valid(arch, dtb.value),
        decreases len - done,
    {
        match vat.virt_to_phys(phys_mem, dtb, cur) {
            Err(e) => {
                assert(byte_walk(mem, arch, dtb.value, va, done as int) == walk(
                    mem,
                    arch,
                    dtb.value,
                    cur.value,
                ));
                assert(e == Error::NotPresent || phys_mem.dependable() ==> first_fault_at(
                    mem,
                    arch,
                    dtb.value,
                    va,
                    len as int,
                    done as int,
                ));
                return Err(e);
            },
            Ok((pa, page)) => {
                let lo: u64 = page.size.bytes() - 1;
                let at: u64 = cur.as_u64();
                assert(at & lo <= lo) by (bit_vector);
                let room: u64 = lo - (at & lo);
                let rest: usize = len - done;
                let take: usize = if (rest - 1) as u64 <= room {
                    rest
                } else {
                    room as usize + 1
                };
                proof {
                    assert(byte_walk(mem, arch, dtb.value, va, done as int) == Walk::Mapped(
                        pa,
                        page,
                    ));
                    assert(lo == offset_mask(page.size));
                    lemma_range_extends(mem, arch, dtb.value, va, done as int, take as int);
                    lemma_wrapping_offset_adds(va, done as int, take as int);
                }
                let ghost sofar = segs@;
                push_segment(&mut segs, pa, take);
                proof {
                    assert forall|k: int| 0 <= k < segs@.len() implies begins_at_translation(
                        mem,
                        arch,
                        dtb.value,
                        va,
                        done + take,
                        #[trigger] segs@[k],
                    ) by {
                        if k < sofar.len() {
                            assert(begins_at_translation(
                                mem,
                                arch,
                                dtb.value,
                                va,
                                done as int,
                                sofar[k],
                            ));
                            assert(segs@[k].start == sofar[k].start);
                        } else {
                            assert(segs@[k].start == pa);
                        }
                    }
                }
                done = done + take;
                cur = cur.wrapping_add(take as u64);
            },
        }
    }
    Ok(segs)
}

} // verus!
