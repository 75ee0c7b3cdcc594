//! Byte sequences: what it means to overwrite part of a buffer, and the
//! little-endian layout of the integers that instructions carry.

use vstd::prelude::*;

verus! {

/// The buffer `s` with `bytes` laid over it from index `at` on. Every index
/// outside `[at, at + bytes.len())` keeps its byte.
pub open spec fn overwrite(s: Seq<u8>, at: int, bytes: Seq<u8>) -> Seq<u8> {
    Seq::new(
        s.len(),
        |i: int|
            if at <= i < at + bytes.len() {
                bytes[i - at]
            } else {
                s[i]
            },
    )
}

/// The four bytes of `x`, least significant first.
pub open spec fn le_bytes32(x: u32) -> Seq<u8> {
    seq![
        (x % 0x100) as u8,
        (x / 0x100 % 0x100) as u8,
        (x / 0x1_0000 % 0x100) as u8,
        (x / 0x100_0000 % 0x100) as u8,
    ]
}

/// The eight bytes of `x`, least significant first.
pub open spec fn le_bytes64(x: u64) -> Seq<u8> {
    le_bytes32((x % 0x1_0000_0000) as u32) + le_bytes32((x / 0x1_0000_0000) as u32)
}

/// Laying `a` over a buffer and `b` right behind it is laying `a + b` over
/// it.
pub proof fn lemma_overwrite_extend(s: Seq<u8>, at: int, a: Seq<u8>, b: Seq<u8>)
    requires
        0 <= at,
        at + a.len() + b.len() <= s.len(),
    ensures
        overwrite(overwrite(s, at, a), at + a.len(), b) == overwrite(s, at, a + b),
{
    assert(overwrite(overwrite(s, at, a), at + a.len(), b) =~= overwrite(s, at, a + b));
}

proof fn lemma_byte_lanes(x: u32)
    by (bit_vector)
    ensures
        (x & 0xff) == x % 0x100,
        ((x >> 8) & 0xff) == x / 0x100 % 0x100,
        ((x >> 16) & 0xff) == x / 0x1_0000 % 0x100,
        ((x >> 24) & 0xff) == x / 0x100_0000 % 0x100,
        (x & 0xff) < 0x100,
        ((x >> 8) & 0xff) < 0x100,
        ((x >> 16) & 0xff) < 0x100,
        ((x >> 24) & 0xff) < 0x100,
{
}

/// Writes the four bytes of `x` to `buffer[offset..offset + 4]`, least
/// significant first.
pub fn put_le32(buffer: &mut [u8], offset: usize, x: u32)
    requires
        offset + 4 <= old(buffer)@.len(),
    ensures
        final(buffer)@ == overwrite(old(buffer)@, offset as int, le_bytes32(x)),
{
    proof {
        lemma_byte_lanes(x);
    }
    let total = buffer.len();
    assert(offset + 4 <= total);
    buffer[offset] = (x & 0xff) as u8;
    buffer[offset + 1] = ((x >> 8) & 0xff) as u8;
    buffer[offset + 2] = ((x >> 16) & 0xff) as u8;
    buffer[offset + 3] = ((x >> 24) & 0xff) as u8;
    assert(buffer@ =~= overwrite(old(buffer)@, offset as int, le_bytes32(x)));
}

} // verus!
