//! Little-endian integers in byte sequences.

use vstd::prelude::*;

verus! {

/// The 32-bit little-endian integer that starts at `at`.
pub open spec fn spec_u32_le(bytes: Seq<u8>, at: int) -> u32 {
    (bytes[at] + bytes[at + 1] * 0x100 + bytes[at + 2] * 0x1_0000 + bytes[at + 3]
        * 0x100_0000) as u32
}

/// The 64-bit little-endian integer that starts at `at`.
pub open spec fn spec_u64_le(bytes: Seq<u8>, at: int) -> u64 {
    (spec_u32_le(bytes, at) + spec_u32_le(bytes, at + 4) * 0x1_0000_0000) as u64
}

pub fn u32_le(bytes: &[u8], at: usize) -> (v: u32)
    requires
        at + 4 <= bytes.len(),
    ensures
        v == spec_u32_le(bytes@, at as int),
{
    let b0: u32 = bytes[at] as u32;
    let b1: u32 = bytes[at + 1] as u32;
    let b2: u32 = bytes[at + 2] as u32;
    let b3: u32 = bytes[at + 3] as u32;
    b0 + b1 * 0x100 + b2 * 0x1_0000 + b3 * 0x100_0000
}

pub fn u64_le(bytes: &[u8], at: usize) -> (v: u64)
    requires
        at + 8 <= bytes.len(),
    ensures
        v == spec_u64_le(bytes@, at as int),
{
    let low: u64 = u32_le(bytes, at) as u64;
    let high: u64 = u32_le(bytes, at + 4) as u64;
    low + high * 0x1_0000_0000
}

/// The bytes of `mem` with `data` laid over them from `at` on.
pub open spec fn overwrite(mem: Seq<u8>, at: int, data: Seq<u8>) -> Seq<u8> {
    Seq::new(
        mem.len(),
        |i: int|
            if at <= i < at + data.len() {
                data[i - at]
            } else {
                mem[i]
            },
    )
}

} // verus!
