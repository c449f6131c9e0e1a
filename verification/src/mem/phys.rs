//! Physical memory: the interface that a backend offers, and a backend that
//! keeps a memory image in a vector.

use vstd::prelude::*;
use crate::bytes::overwrite;
use crate::error::BackendFault;
use crate::types::PhysicalAddress;

verus! {

/// Whether `len` bytes from `at` on lie inside `mem`.
pub open spec fn in_range(mem: Seq<u8>, at: u64, len: int) -> bool {
    0 <= len && at + len <= mem.len()
}

/// Byte-range access to physical memory.
///
/// A backend is described by the bytes it holds, one per physical address from
/// zero on, and by the number of accesses that were asked of it. Reading
/// leaves the bytes as they are, and a write that fails changes none. An
/// access may fail for reasons of the backend's own; one that reaches outside
/// the memory always fails.
pub trait PhysicalMemory {
    /// The memory's contents, by physical address.
    spec fn bytes(&self) -> Seq<u8>;

    /// Whether the backend serves every access that lies inside its memory.
    spec fn dependable(&self) -> bool;

    /// The number of reads and writes that were asked of the backend so far.
    spec fn accesses(&self) -> nat;

    /// Reads `len` bytes from `addr` on.
    fn phys_read_raw(&mut self, addr: PhysicalAddress, len: usize) -> (res: Result<
        Vec<u8>,
        BackendFault,
    >)
        ensures
            final(self).bytes() == old(self).bytes(),
            final(self).dependable() == old(self).dependable(),
            final(self).accesses() == old(self).accesses() + 1,
            res matches Ok(data) ==> in_range(old(self).bytes(), addr.as_u64(), len as int)
                && data@ == old(self).bytes().subrange(
                addr.as_u64() as int,
                addr.as_u64() + len,
            ),
            old(self).dependable() && in_range(old(self).bytes(), addr.as_u64(), len as int)
                ==> res is Ok,
    ;

    /// Writes `data` from `addr` on.
    fn phys_write_raw(&mut self, addr: PhysicalAddress, data: &[u8]) -> (res: Result<
        (),
        BackendFault,
    >)
        ensures
            final(self).dependable() == old(self).dependable(),
            final(self).accesses() == old(self).accesses() + 1,
            res is Ok ==> in_range(old(self).bytes(), addr.as_u64(), data@.len() as int)
                && final(self).bytes() == overwrite(
                old(self).bytes(),
                addr.as_u64() as int,
                data@,
            ),
            res is Err ==> final(self).bytes() == old(self).bytes(),
            old(self).dependable() && in_range(
                old(self).bytes(),
                addr.as_u64(),
                data@.len() as int,
            ) ==> res is Ok,
    ;
}

/// Physical memory held in a vector: byte `i` of the vector is the byte at
/// physical address `i`.
pub struct MemoryImage {
    pub data: Vec<u8>,
    /// The number of accesses so far.
    pub asked: Ghost<nat>,
}

impl MemoryImage {
    pub fn new(data: Vec<u8>) -> (m: MemoryImage)
        ensures
            m.data@ == data@,
            m.asked@ == 0,
    {
        MemoryImage { data, asked: Ghost(0) }
    }

    /// The image's length in bytes.
    pub fn len(&self) -> (n: usize)
        ensures
            n == self.data@.len(),
    {
        self.data.len()
    }
}

impl PhysicalMemory for MemoryImage {
    open spec fn bytes(&self) -> Seq<u8> {
        self.data@
    }

    open spec fn dependable(&self) -> bool {
        true
    }

    open spec fn accesses(&self) -> nat {
        self.asked@
    }

    fn phys_read_raw(&mut self, addr: PhysicalAddress, len: usize) -> (res: Result<
        Vec<u8>,
        BackendFault,
    >)
        ensures
            res is Err ==> res == Err::<Vec<u8>, BackendFault>(BackendFault::OutOfRange),
    {
        self.asked = Ghost((self.asked@ + 1) as nat);
        let size: usize = self.data.len();
        if addr.as_u64() > size as u64 || len as u64 > size as u64 - addr.as_u64() {
            return Err(BackendFault::OutOfRange);
        }
        let start: usize = addr.as_u64() as usize;
        let mut out: Vec<u8> = Vec::new();
        let mut i: usize = 0;
        while i < len
            invariant
                i <= len,
                start + len <= self.data.len(),
                self.asked@ == old(self).asked@ + 1,
                self.data@ == old(self).data@,
                out@ == self.data@.subrange(start as int, start + i),
            decreases len - i,
        {
            out.push(self.data[start + i]);
            i = i + 1;
            assert(out@ =~= self.data@.subrange(start as int, start + i));
        }
        Ok(out)
    }

    fn phys_write_raw(&mut self, addr: PhysicalAddress, data: &[u8]) -> (res: Result<
        (),
        BackendFault,
    >)
        ensures
            res is Err ==> res == Err::<(), BackendFault>(BackendFault::OutOfRange),
    {
        self.asked = Ghost((self.asked@ + 1) as nat);
        let size: usize = self.data.len();
        if addr.as_u64() > size as u64 || data.len() as u64 > size as u64 - addr.as_u64() {
            return Err(BackendFault::OutOfRange);
        }
        let start: usize = addr.as_u64() as usize;
        let len: usize = data.len();
        let mut i: usize = 0;
        while i < len
            invariant
                i <= len,
                len == data@.len(),
                start + len <= self.data.len(),
                self.asked@ == old(self).asked@ + 1,
                self.data@ == overwrite(old(self).data@, start as int, data@.subrange(0, i as int)),
            decreases len - i,
        {
            self.data.set(start + i, data[i]);
            i = i + 1;
            assert(self.data@ =~= overwrite(
                old(self).data@,
                start as int,
                data@.subrange(0, i as int),
            ));
        }
        assert(data@.subrange(0, len as int) =~= data@);
        Ok(())
    }
}

/// A backend whose device goes away: it hands the first `budget` accesses on
/// to the backend inside and refuses every access after them. It counts the
/// accesses that were asked of it.
pub struct LimitedMemory<T: PhysicalMemory> {
    pub inner: T,
    pub budget: usize,
    /// The number of accesses so far, as far as it can be counted.
    pub accesses: usize,
    /// The number of accesses so far.
    pub asked: Ghost<nat>,
}

impl<T: PhysicalMemory> LimitedMemory<T> {
    pub fn new(inner: T, budget: usize) -> (m: LimitedMemory<T>)
        ensures
            m.inner == inner,
            m.budget == budget,
            m.accesses == 0,
            m.asked@ == 0,
    {
        LimitedMemory { inner, budget, accesses: 0, asked: Ghost(0) }
    }

    /// Counts one access and says whether it is served.
    fn count_access(&mut self) -> (served: bool)
        ensures
            final(self).inner == old(self).inner,
            final(self).asked@ == old(self).asked@ + 1,
            served == (old(self).budget > 0),
            final(self).budget == if served {
                (old(self).budget - 1) as usize
            } else {
                0
            },
            final(self).accesses == if old(self).accesses < usize::MAX {
                (old(self).accesses + 1) as usize
            } else {
                usize::MAX
            },
    {
        self.asked = Ghost((self.asked@ + 1) as nat);
        if self.accesses < usize::MAX {
            self.accesses = self.accesses + 1;
        }
        if self.budget > 0 {
            self.budget = self.budget - 1;
            true
        } else {
            false
        }
    }
}

impl<T: PhysicalMemory> PhysicalMemory for LimitedMemory<T> {
    open spec fn bytes(&self) -> Seq<u8> {
        self.inner.bytes()
    }

    open spec fn dependable(&self) -> bool {
        false
    }

    open spec fn accesses(&self) -> nat {
        self.asked@
    }

    fn phys_read_raw(&mut self, addr: PhysicalAddress, len: usize) -> (res: Result<
        Vec<u8>,
        BackendFault,
    >)
        ensures
            old(self).budget == 0 ==> res == Err::<Vec<u8>, BackendFault>(
                BackendFault::Unavailable,
            ),
    {
        if self.count_access() {
            self.inner.phys_read_raw(addr, len)
        } else {
            Err(BackendFault::Unavailable)
        }
    }

    fn phys_write_raw(&mut self, addr: PhysicalAddress, data: &[u8]) -> (res: Result<
        (),
        BackendFault,
    >)
        ensures
            old(self).budget == 0 ==> res == Err::<(), BackendFault>(BackendFault::Unavailable),
    {
        if self.count_access() {
            self.inner.phys_write_raw(addr, data)
        } else {
            Err(BackendFault::Unavailable)
        }
    }
}

} // verus!
