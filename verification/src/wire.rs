//! Reading and writing the pieces that payloads are made of: integers least
//! significant byte first, and byte strings behind a 4-byte count.

use vstd::prelude::*;
use vstd::bytes::{
    spec_u32_from_le_bytes, spec_u32_to_le_bytes, spec_u64_from_le_bytes, spec_u64_to_le_bytes,
    u32_from_le_bytes, u32_to_le_bytes, u64_from_le_bytes, u64_to_le_bytes,
};
use vstd::slice::{slice_subrange, slice_to_vec};

verus! {

/// A byte string behind the count of its bytes.
pub open spec fn counted(bytes: Seq<u8>) -> Seq<u8> {
    spec_u32_to_le_bytes(bytes.len() as u32) + bytes
}

/// Appends `x`, least significant byte first.
pub fn push_u64(dst: &mut Vec<u8>, x: u64)
    ensures
        final(dst)@ == old(dst)@ + spec_u64_to_le_bytes(x),
{
    let bytes = u64_to_le_bytes(x);
    dst.extend_from_slice(bytes.as_slice());
}

/// Appends `bytes` behind the count of its bytes.
pub fn push_counted(dst: &mut Vec<u8>, bytes: &Vec<u8>)
    requires
        bytes@.len() <= u32::MAX,
    ensures
        final(dst)@ == old(dst)@ + counted(bytes@),
{
    let count = u32_to_le_bytes(bytes.len() as u32);
    dst.extend_from_slice(count.as_slice());
    dst.extend_from_slice(bytes.as_slice());
    assert(dst@ =~= old(dst)@ + counted(bytes@));
}

/// Reads the 64-bit integer that starts at `offset`.
pub fn read_u64(input: &[u8], offset: usize) -> (x: u64)
    requires
        offset + 8 <= input@.len(),
    ensures
        x == spec_u64_from_le_bytes(input@.subrange(offset as int, offset + 8)),
{
    let len: usize = input.len();
    u64_from_le_bytes(slice_subrange(input, offset, offset + 8))
}

/// Reads the 32-bit count that starts at `offset`.
pub fn read_count(input: &[u8], offset: usize) -> (n: usize)
    requires
        offset + 4 <= input@.len(),
    ensures
        n == spec_u32_from_le_bytes(input@.subrange(offset as int, offset + 4)),
{
    let len: usize = input.len();
    let n: u32 = u32_from_le_bytes(slice_subrange(input, offset, offset + 4));
    n as usize
}

/// Copies the bytes from `from` up to `to`.
pub fn read_bytes(input: &[u8], from: usize, to: usize) -> (out: Vec<u8>)
    requires
        from <= to <= input@.len(),
    ensures
        out@ == input@.subrange(from as int, to as int),
{
    slice_to_vec(slice_subrange(input, from, to))
}

} // verus!
