//! Reading and writing virtual memory: single ranges and batches of them.

use vstd::prelude::*;
use crate::architecture::Architecture;
use crate::bytes::{spec_u32_le, spec_u64_le, u32_le, u64_le};
use crate::error::Error;
use crate::mem::phys::PhysicalMemory;
use crate::mem::phys_io::{
    all_inside, bytes_at, no_empty_run, read_segments, store, write_segments,
};
use crate::mem::virt_range::{
    byte_phys, byte_walk, first_fault_at, lemma_flatten_empty, mapped_before, range_phys,
    resolve, segment_wf, stored_before, virt_bytes,
};
use crate::mem::virt_translate::{dtb_valid, translation_agrees, walk, VirtualTranslate};
use crate::types::{Address, Page, PhysicalAddress};

verus! {

/// A request to read `len` bytes from the virtual address `addr` on.
#[derive(Clone, Copy, Debug)]
pub struct VirtualRead {
    pub addr: Address,
    pub len: usize,
}

/// A request to write `data` from the virtual address `addr` on.
#[derive(Debug)]
pub struct VirtualWrite {
    pub addr: Address,
    pub data: Vec<u8>,
}

/// What a read of a range may return, given the memory it read from.
///
/// It succeeds only with the bytes that the memory holds for the range. It
/// reports `NotPresent` only where the first byte that is not mapped is not
/// present. A dependable backend fails only where an entry on the way to that
/// first byte, or a byte of the range itself, lies outside the memory.
pub open spec fn read_agrees(
    mem: Seq<u8>,
    dependable: bool,
    arch: Architecture,
    dtb: u64,
    va: u64,
    len: int,
    res: Result<Seq<u8>, Error>,
) -> bool {
    match res {
        Ok(data) => {
            &&& mapped_before(mem, arch, dtb, va, len)
            &&& stored_before(mem, arch, dtb, va, len)
            &&& data == virt_bytes(mem, arch, dtb, va, len)
        },
        Err(Error::NotPresent) => exists|i: int| #[trigger]
            first_fault_at(mem, arch, dtb, va, len, i) && byte_walk(mem, arch, dtb, va, i)
                is NotPresent,
        Err(Error::Backend(_)) => dependable ==> {
            ||| exists|i: int| #[trigger]
                first_fault_at(mem, arch, dtb, va, len, i) && byte_walk(mem, arch, dtb, va, i)
                    is Unreadable
            ||| mapped_before(mem, arch, dtb, va, len) && !stored_before(mem, arch, dtb, va, len)
        },
        Err(_) => false,
    }
}

/// The result of a read, with the bytes as a sequence.
pub open spec fn read_view(res: Result<Vec<u8>, Error>) -> Result<Seq<u8>, Error> {
    match res {
        Ok(data) => Ok(data@),
        Err(e) => Err(e),
    }
}

/// What a write of a range may return and leave behind, given the memory
/// before it and after it.
///
/// The range is translated before anything is written, so a write that fails
/// in translation changes nothing. A write that succeeds has stored every
/// byte at the physical address of its place in the range. A write that the
/// backend fails has stored the bytes up to the run that failed.
#[verifier::opaque]
pub open spec fn write_agrees(
    before: Seq<u8>,
    after: Seq<u8>,
    dependable: bool,
    arch: Architecture,
    dtb: u64,
    va: u64,
    data: Seq<u8>,
    res: Result<(), Error>,
) -> bool {
    let len = data.len() as int;
    let addrs = range_phys(before, arch, dtb, va, len);
    match res {
        Ok(()) => {
            &&& mapped_before(before, arch, dtb, va, len)
            &&& stored_before(before, arch, dtb, va, len)
            &&& after == store(before, addrs, data, len)
        },
        Err(Error::NotPresent) => {
            &&& after == before
            &&& exists|i: int| #[trigger]
                first_fault_at(before, arch, dtb, va, len, i) && byte_walk(before, arch, dtb, va, i)
                    is NotPresent
        },
        Err(Error::Backend(_)) => {
            &&& exists|n: int| 0 <= n < len && after == #[trigger] store(before, addrs, data, n)
            &&& dependable ==> {
                ||| after == before && exists|i: int| #[trigger]
                    first_fault_at(before, arch, dtb, va, len, i) && byte_walk(
                        before,
                        arch,
                        dtb,
                        va,
                        i,
                    ) is Unreadable
                ||| mapped_before(before, arch, dtb, va, len) && !stored_before(
                    before,
                    arch,
                    dtb,
                    va,
                    len,
                )
            }
        },
        Err(_) => false,
    }
}

/// The addresses of a range lie inside the memory exactly when each byte of the
/// range is stored.
pub proof fn lemma_range_inside(mem: Seq<u8>, arch: Architecture, dtb: u64, va: u64, len: int)
    requires
        0 <= len,
        mapped_before(mem, arch, dtb, va, len),
    ensures
        all_inside(mem, range_phys(mem, arch, dtb, va, len)) <==> stored_before(
            mem,
            arch,
            dtb,
            va,
            len,
        ),
        bytes_at(mem, range_phys(mem, arch, dtb, va, len)) == virt_bytes(mem, arch, dtb, va, len),
{
    let addrs = range_phys(mem, arch, dtb, va, len);
    if all_inside(mem, addrs) {
        assert forall|i: int| 0 <= i < len implies (#[trigger] byte_phys(mem, arch, dtb, va, i))
            < mem.len() by {
            assert(addrs[i] == byte_phys(mem, arch, dtb, va, i));
        }
    }
    if stored_before(mem, arch, dtb, va, len) {
        assert forall|i: int| 0 <= i < addrs.len() implies 0 <= #[trigger] addrs[i]
            < mem.len() by {
            assert(addrs[i] == byte_phys(mem, arch, dtb, va, i));
        }
    }
    assert(bytes_at(mem, addrs) =~= virt_bytes(mem, arch, dtb, va, len));
}

/// Reads `len` bytes from the virtual address `addr` on.
pub fn virt_read_raw<T: PhysicalMemory, V: VirtualTranslate>(
    phys_mem: &mut T,
    vat: &mut V,
    dtb: Address,
    addr: Address,
    len: usize,
) -> (res: Result<Vec<u8>, Error>)
    ensures
        final(phys_mem).bytes() == old(phys_mem).bytes(),
        final(phys_mem).dependable() == old(phys_mem).dependable(),
        final(vat).format() == old(vat).format(),
        len == 0 || !dtb_valid(old(vat).format(), dtb.value) ==> final(phys_mem).accesses() == old(
            phys_mem,
        ).accesses(),
        read_agrees(
            old(phys_mem).bytes(),
            old(phys_mem).dependable(),
            old(vat).format(),
            dtb.value,
            addr.value,
            len as int,
            read_view(res),
        ),
{
    let segs = match resolve(phys_mem, vat, dtb, addr, len) {
        Ok(segs) => segs,
        Err(e) => {
            return Err(e);
        },
    };
    proof {
        lemma_range_inside(phys_mem.bytes(), vat.format(), dtb.value, addr.value, len as int);
        if len == 0 {
            lemma_flatten_empty(segs@);
        } else {
            assert(byte_walk(phys_mem.bytes(), vat.format(), dtb.value, addr.value, 0) is Mapped);
        }
    }
    assert(no_empty_run(segs@)) by {
        assert forall|k: int| 0 <= k < segs@.len() implies (#[trigger] segs@[k]).len > 0 by {
            assert(segment_wf(segs@[k]));
        }
    }
    match read_segments(phys_mem, &segs) {
        Ok(data) => Ok(data),
        Err(fault) => Err(Error::Backend(fault)),
    }
}

/// Writes `data` from the virtual address `addr` on.
pub fn virt_write_raw<T: PhysicalMemory, V: VirtualTranslate>(
    phys_mem: &mut T,
    vat: &mut V,
    dtb: Address,
    addr: Address,
    data: &[u8],
) -> (res: Result<(), Error>)
    ensures
        final(phys_mem).dependable() == old(phys_mem).dependable(),
        final(vat).format() == old(vat).format(),
        data@.len() == 0 || !dtb_valid(old(vat).format(), dtb.value) ==> final(phys_mem).accesses()
            == old(phys_mem).accesses(),
        write_agrees(
            old(phys_mem).bytes(),
            final(phys_mem).bytes(),
            old(phys_mem).dependable(),
            old(vat).format(),
            dtb.value,
            addr.value,
            data@,
            res,
        ),
{
    reveal(write_agrees);
    let ghost before = phys_mem.bytes();
    let ghost addrs = range_phys(before, vat.format(), dtb.value, addr.value, data@.len() as int);
    let segs = match resolve(phys_mem, vat, dtb, addr, data.len()) {
        Ok(segs) => segs,
        Err(e) => {
            assert(before == store(before, addrs, data@, 0));
            return Err(e);
        },
    };
    proof {
        lemma_range_inside(before, vat.format(), dtb.value, addr.value, data@.len() as int);
        if data@.len() == 0 {
            lemma_flatten_empty(segs@);
        } else {
            assert(byte_walk(before, vat.format(), dtb.value, addr.value, 0) is Mapped);
        }
    }
    assert(no_empty_run(segs@)) by {
        assert forall|k: int| 0 <= k < segs@.len() implies (#[trigger] segs@[k]).len > 0 by {
            assert(segment_wf(segs@[k]));
        }
    }
    match write_segments(phys_mem, &segs, data) {
        Ok(()) => Ok(()),
        Err(fault) => Err(Error::Backend(fault)),
    }
}

/// What a query for the page of an address may return.
pub open spec fn page_info_agrees(
    mem: Seq<u8>,
    dependable: bool,
    arch: Architecture,
    dtb: u64,
    va: u64,
    res: Result<Page, Error>,
) -> bool {
    match res {
        Ok(page) => walk(mem, arch, dtb, va) is Mapped && walk(mem, arch, dtb, va)->Mapped_1
            == page,
        Err(e) => translation_agrees(
            mem,
            dependable,
            arch,
            dtb,
            va,
            Err::<(PhysicalAddress, Page), Error>(e),
        ),
    }
}

/// Translates `addr` and returns the page that holds it; no byte of the page
/// is read.
pub fn virt_page_info<T: PhysicalMemory, V: VirtualTranslate>(
    phys_mem: &mut T,
    vat: &mut V,
    dtb: Address,
    addr: Address,
) -> (res: Result<Page, Error>)
    ensures
        final(phys_mem).bytes() == old(phys_mem).bytes(),
        final(phys_mem).dependable() == old(phys_mem).dependable(),
        final(vat).format() == old(vat).format(),
        !dtb_valid(old(vat).format(), dtb.value) ==> final(phys_mem).accesses() == old(
            phys_mem,
        ).accesses(),
        page_info_agrees(
            old(phys_mem).bytes(),
            old(phys_mem).dependable(),
            old(vat).format(),
            dtb.value,
            addr.value,
            res,
        ),
{
    match vat.virt_to_phys(phys_mem, dtb, addr) {
        Ok((_, page)) => Ok(page),
        Err(e) => Err(e),
    }
}

/// What a batch of reads may return: each request has its own result, which is
/// what a read of that request alone may return. A request that fails leaves
/// the others as they are.
pub open spec fn reads_agree(
    mem: Seq<u8>,
    dependable: bool,
    arch: Architecture,
    dtb: u64,
    reads: Seq<VirtualRead>,
    res: Seq<Result<Vec<u8>, Error>>,
) -> bool {
    &&& res.len() == reads.len()
    &&& forall|k: int|
        0 <= k < reads.len() ==> read_agrees(
            mem,
            dependable,
            arch,
            dtb,
            reads[k].addr.value,
            reads[k].len as int,
            read_view(#[trigger] res[k]),
        )
}

/// Reads a batch of ranges. The requests may come in any order, may overlap
/// and may cross pages.
pub fn virt_read_raw_iter<T: PhysicalMemory, V: VirtualTranslate>(
    phys_mem: &mut T,
    vat: &mut V,
    dtb: Address,
    reads: &[VirtualRead],
) -> (res: Vec<Result<Vec<u8>, Error>>)
    ensures
        final(phys_mem).bytes() == old(phys_mem).bytes(),
        final(phys_mem).dependable() == old(phys_mem).dependable(),
        final(vat).format() == old(vat).format(),
        reads@.len() == 0 || !dtb_valid(old(vat).format(), dtb.value) ==> final(phys_mem).accesses()
            == old(phys_mem).accesses(),
        reads_agree(
            old(phys_mem).bytes(),
            old(phys_mem).dependable(),
            old(vat).format(),
            dtb.value,
            reads@,
            res@,
        ),
{
    let mut out: Vec<Result<Vec<u8>, Error>> = Vec::new();
    let mut k: usize = 0;
    while k < reads.len()
        invariant
            k <= reads.len(),
            phys_mem.bytes() == old(phys_mem).bytes(),
            phys_mem.dependable() == old(phys_mem).dependable(),
            vat.format() == old(vat).format(),
            k == 0 || !dtb_valid(old(vat).format(), dtb.value) ==> phys_mem.accesses() == old(
                phys_mem,
            ).accesses(),
            reads_agree(
                old(phys_mem).bytes(),
                old(phys_mem).dependable(),
                old(vat).format(),
                dtb.value,
                reads@.take(k as int),
                out@,
            ),
        decreases reads.len() - k,
    {
        let request: VirtualRead = reads[k];
        let one = virt_read_raw(phys_mem, vat, dtb, request.addr, request.len);
        out.push(one);
        k = k + 1;
    }
    assert(reads@.take(k as int) =~= reads@);
    out
}

/// Whether `mems` holds the memory before the first write of a batch, after
/// each write, and so after the last, with each result agreeing with the
/// memories around its write.
pub open spec fn write_chain(
    mems: Seq<Seq<u8>>,
    dependable: bool,
    arch: Architecture,
    dtb: u64,
    writes: Seq<VirtualWrite>,
    res: Seq<Result<(), Error>>,
) -> bool {
    &&& mems.len() == writes.len() + 1
    &&& res.len() == writes.len()
    &&& forall|k: int|
        0 <= k < writes.len() ==> write_agrees(
            mems[k],
            mems[k + 1],
            dependable,
            arch,
            dtb,
            writes[k].addr.value,
            writes[k].data@,
            #[trigger] res[k],
        )
}

/// What a batch of writes may return and leave behind. The requests are
/// carried out in their order, each on the memory that the one before it
/// left, and each has its own result.
pub open spec fn writes_agree(
    before: Seq<u8>,
    after: Seq<u8>,
    dependable: bool,
    arch: Architecture,
    dtb: u64,
    writes: Seq<VirtualWrite>,
    res: Seq<Result<(), Error>>,
) -> bool {
    exists|mems: Seq<Seq<u8>>|
        {
            &&& #[trigger] write_chain(mems, dependable, arch, dtb, writes, res)
            &&& mems.first() == before
            &&& mems.last() == after
        }
}

/// Writes a batch of ranges, in the order of the requests.
pub fn virt_write_raw_iter<T: PhysicalMemory, V: VirtualTranslate>(
    phys_mem: &mut T,
    vat: &mut V,
    dtb: Address,
    writes: &[VirtualWrite],
) -> (res: Vec<Result<(), Error>>)
    ensures
        final(phys_mem).dependable() == old(phys_mem).dependable(),
        final(vat).format() == old(vat).format(),
        writes@.len() == 0 || !dtb_valid(old(vat).format(), dtb.value)
            ==> final(phys_mem).accesses() == old(phys_mem).accesses(),
        writes_agree(
            old(phys_mem).bytes(),
            final(phys_mem).bytes(),
            old(phys_mem).dependable(),
            old(vat).format(),
            dtb.value,
            writes@,
            res@,
        ),
{
    let mut out: Vec<Result<(), Error>> = Vec::new();
    let mut k: usize = 0;
    let ghost mut mems: Seq<Seq<u8>> = seq![phys_mem.bytes()];
    while k < writes.len()
        invariant
            k <= writes.len(),
            phys_mem.dependable() == old(phys_mem).dependable(),
            vat.format() == old(vat).format(),
            k == 0 || !dtb_valid(old(vat).format(), dtb.value) ==> phys_mem.accesses() == old(
                phys_mem,
            ).accesses(),
            mems.first() == old(phys_mem).bytes(),
            mems.last() == phys_mem.bytes(),
            write_chain(
                mems,
                old(phys_mem).dependable(),
                old(vat).format(),
                dtb.value,
                writes@.take(k as int),
                out@,
            ),
        decreases writes.len() - k,
    {
        let ghost sofar = out@;
        let ghost chain = mems;
        let one = virt_write_raw(phys_mem, vat, dtb, writes[k].addr, writes[k].data.as_slice());
        out.push(one);
        proof {
            mems = chain.push(phys_mem.bytes());
            assert forall|j: int| 0 <= j < k + 1 implies write_agrees(
                mems[j],
                mems[j + 1],
                old(phys_mem).dependable(),
                old(vat).format(),
                dtb.value,
                writes@.take(k + 1)[j].addr.value,
                writes@.take(k + 1)[j].data@,
                #[trigger] out@[j],
            ) by {
                if j < k {
                    assert(out@[j] == sofar[j]);
                    assert(writes@.take(k + 1)[j] == writes@.take(k as int)[j]);
                }
            }
        }
        k = k + 1;
    }
    assert(writes@.take(k as int) =~= writes@);
    out
}

pub open spec fn spec_pointer_width(bits: u8) -> Option<usize> {
    if bits == 64 {
        Some(8)
    } else if bits == 32 {
        Some(4)
    } else {
        None
    }
}

/// The size in bytes of a pointer of `bits` bits: 4 for 32 and 8 for 64. No
/// other width is a pointer's.
pub fn pointer_width(bits: u8) -> (res: Result<usize, Error>)
    ensures
        res == match spec_pointer_width(bits) {
            Some(width) => Ok::<usize, Error>(width),
            None => Err::<usize, Error>(Error::InvalidAddressSize),
        },
{
    if bits == 64 {
        Ok(8)
    } else if bits == 32 {
        Ok(4)
    } else {
        Err(Error::InvalidAddressSize)
    }
}

/// The address that the bytes of a pointer hold: a little-endian integer,
/// extended with zeros where it is 32 bits wide.
pub open spec fn pointer_value(bytes: Seq<u8>) -> u64 {
    if bytes.len() == 4 {
        spec_u32_le(bytes, 0) as u64
    } else {
        spec_u64_le(bytes, 0)
    }
}

/// What a read of a pointer of `bits` bits may return. A width that is no
/// pointer's is refused, and nothing is read for it.
pub open spec fn pointer_agrees(
    mem: Seq<u8>,
    dependable: bool,
    arch: Architecture,
    dtb: u64,
    va: u64,
    bits: u8,
    res: Result<Address, Error>,
) -> bool {
    match spec_pointer_width(bits) {
        None => res == Err::<Address, Error>(Error::InvalidAddressSize),
        Some(width) => match res {
            Ok(target) => {
                &&& read_agrees(
                    mem,
                    dependable,
                    arch,
                    dtb,
                    va,
                    width as int,
                    Ok(virt_bytes(mem, arch, dtb, va, width as int)),
                )
                &&& target.value == pointer_value(virt_bytes(mem, arch, dtb, va, width as int))
            },
            Err(e) => read_agrees(mem, dependable, arch, dtb, va, width as int, Err(e)),
        },
    }
}

/// Reads the pointer of `bits` bits that stands at the virtual address `addr`.
pub fn virt_read_addr<T: PhysicalMemory, V: VirtualTranslate>(
    phys_mem: &mut T,
    vat: &mut V,
    dtb: Address,
    bits: u8,
    addr: Address,
) -> (res: Result<Address, Error>)
    ensures
        final(phys_mem).bytes() == old(phys_mem).bytes(),
        final(phys_mem).dependable() == old(phys_mem).dependable(),
        final(vat).format() == old(vat).format(),
        spec_pointer_width(bits) is None || !dtb_valid(old(vat).format(), dtb.value)
            ==> final(phys_mem).accesses() == old(phys_mem).accesses(),
        pointer_agrees(
            old(phys_mem).bytes(),
            old(phys_mem).dependable(),
            old(vat).format(),
            dtb.value,
            addr.value,
            bits,
            res,
        ),
{
    let width: usize = match pointer_width(bits) {
        Ok(width) => width,
        Err(e) => {
            return Err(e);
        },
    };
    match virt_read_raw(phys_mem, vat, dtb, addr, width) {
        Err(e) => Err(e),
        Ok(data) => {
            if width == 4 {
                Ok(Address::from_u64(u32_le(data.as_slice(), 0) as u64))
            } else {
                Ok(Address::from_u64(u64_le(data.as_slice(), 0)))
            }
        },
    }
}

} // verus!
