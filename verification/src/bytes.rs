//! Fixed-width byte strings: comparison, copying out of a buffer, and a constant fill.

use vstd::prelude::*;

verus! {

/// Number of bytes in the encoding of a scalar, a group element or an account key.
pub const ENCODING_LEN: usize = 32;

/// The sequence of `n` zero bytes.
pub open spec fn zeros(n: nat) -> Seq<u8> {
    Seq::new(n, |i: int| 0u8)
}

/// Compares two 32-byte strings position by position.
pub fn bytes32_eq(a: &[u8; 32], b: &[u8; 32]) -> (same: bool)
    ensures
        same == (a@ == b@),
{
    let mut i: usize = 0;
    while i < 32
        invariant
            i <= 32,
            forall|j: int| 0 <= j < i ==> a@[j] == b@[j],
        decreases 32 - i,
    {
        if a[i] != b[i] {
            assert(a@[i as int] != b@[i as int]);
            return false;
        }
        i = i + 1;
    }
    assert(a@ =~= b@);
    true
}

/// Copies the 32 bytes of `input` that start at `offset`.
pub fn read32(input: &[u8], offset: usize) -> (out: [u8; 32])
    requires
        offset + 32 <= input@.len(),
    ensures
        out@ == input@.subrange(offset as int, offset + 32),
{
    let len: usize = input.len();
    let mut out: [u8; 32] = [0u8; 32];
    let mut i: usize = 0;
    while i < 32
        invariant
            i <= 32,
            len == input@.len(),
            offset + 32 <= len,
            forall|j: int| 0 <= j < i ==> out@[j] == input@[offset + j],
        decreases 32 - i,
    {
        out[i] = input[offset + i];
        i = i + 1;
    }
    assert(out@ =~= input@.subrange(offset as int, offset + 32));
    out
}

/// Appends the 32 bytes of `src` to `dst`.
pub fn push32(dst: &mut Vec<u8>, src: &[u8; 32])
    ensures
        final(dst)@ == old(dst)@ + src@,
{
    let mut i: usize = 0;
    while i < 32
        invariant
            i <= 32,
            dst@ == old(dst)@ + src@.subrange(0, i as int),
        decreases 32 - i,
    {
        dst.push(src[i]);
        assert(dst@ =~= old(dst)@ + src@.subrange(0, i + 1));
        i = i + 1;
    }
    assert(src@.subrange(0, 32) =~= src@);
}

} // verus!
