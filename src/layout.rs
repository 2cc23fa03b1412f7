use vstd::bytes::{spec_u32_from_le_bytes, spec_u32_to_le_bytes, spec_u64_from_le_bytes, spec_u64_to_le_bytes};
use vstd::prelude::*;

use crate::address::Address;

verus! {

/// Appends `bytes` to `out`.
pub fn put_bytes(out: &mut Vec<u8>, bytes: &[u8])
    ensures
        final(out)@ == old(out)@ + bytes@,
{
    let ghost start = out@;
    let mut i: usize = 0;
    while i < bytes.len()
        invariant
            0 <= i <= bytes@.len(),
            out@ == start + bytes@.subrange(0, i as int),
        decreases bytes@.len() - i,
    {
        out.push(bytes[i]);
        i = i + 1;
        assert(out@ =~= start + bytes@.subrange(0, i as int));
    }
    assert(bytes@.subrange(0, bytes@.len() as int) =~= bytes@);
}

/// Appends the eight little-endian bytes of `v`.
pub fn put_u64(out: &mut Vec<u8>, v: u64)
    ensures
        final(out)@ == old(out)@ + spec_u64_to_le_bytes(v),
{
    let b = vstd::bytes::u64_to_le_bytes(v);
    put_bytes(out, b.as_slice());
}

/// Appends the four little-endian bytes of `v`.
pub fn put_u32(out: &mut Vec<u8>, v: u32)
    ensures
        final(out)@ == old(out)@ + spec_u32_to_le_bytes(v),
{
    let b = vstd::bytes::u32_to_le_bytes(v);
    put_bytes(out, b.as_slice());
}

/// Appends the thirty-two bytes of an address.
pub fn put_address(out: &mut Vec<u8>, a: &Address)
    ensures
        final(out)@ == old(out)@ + a@,
{
    put_bytes(out, a.bytes.as_slice());
}

/// The little-endian `u64` at `at`.
pub fn read_u64(bytes: &[u8], at: usize) -> (r: u64)
    requires
        at + 8 <= bytes@.len(),
    ensures
        r == spec_u64_from_le_bytes(bytes@.subrange(at as int, at + 8)),
{
    let len = bytes.len();
    vstd::bytes::u64_from_le_bytes(vstd::slice::slice_subrange(bytes, at, at + 8))
}

/// The little-endian `u32` at `at`.
pub fn read_u32(bytes: &[u8], at: usize) -> (r: u32)
    requires
        at + 4 <= bytes@.len(),
    ensures
        r == spec_u32_from_le_bytes(bytes@.subrange(at as int, at + 4)),
{
    let len = bytes.len();
    vstd::bytes::u32_from_le_bytes(vstd::slice::slice_subrange(bytes, at, at + 4))
}

/// The address whose thirty-two bytes start at `at`.
pub fn read_address(bytes: &[u8], at: usize) -> (r: Address)
    requires
        at + 32 <= bytes@.len(),
    ensures
        r@ == bytes@.subrange(at as int, at + 32),
{
    let len = bytes.len();
    let mut a = [0u8; 32];
    let mut i: usize = 0;
    while i < 32
        invariant
            0 <= i <= 32,
            at + 32 <= bytes@.len(),
            len == bytes@.len(),
            a@.len() == 32,
            forall|j: int| 0 <= j < i ==> a@[j] == bytes@[at + j],
        decreases 32 - i,
    {
        a[i] = bytes[at + i];
        i = i + 1;
    }
    let r = Address { bytes: a };
    assert(r@ =~= bytes@.subrange(at as int, at + 32));
    r
}

} // verus!
