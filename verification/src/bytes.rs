//! Byte-slice helpers shared by the wire formats.

use vstd::prelude::*;

verus! {

/// `buffer` with `patch` laid over it from offset `at` on.
pub open spec fn patched(buffer: Seq<u8>, at: int, patch: Seq<u8>) -> Seq<u8> {
    buffer.take(at) + patch + buffer.skip(at + patch.len())
}

/// `buffer` with `head` in place of its first bytes.
pub open spec fn with_head(buffer: Seq<u8>, head: Seq<u8>) -> Seq<u8> {
    head + buffer.skip(head.len() as int)
}

/// The 16-bit number whose low byte is `low` and whose high byte is `high`.
pub open spec fn word(low: u8, high: u8) -> u16 {
    (low + 256 * high) as u16
}

/// Little-endian reading of two bytes; with the arguments swapped, the big-endian one.
pub fn make_word(low: u8, high: u8) -> (value: u16)
    ensures
        value == word(low, high),
        value == low + 256 * high,
{
    (low as u16) + 256 * (high as u16)
}

pub open spec fn low_byte(value: u16) -> u8 {
    (value % 256) as u8
}

pub open spec fn high_byte(value: u16) -> u8 {
    (value / 256) as u8
}

pub open spec fn le16(value: u16) -> Seq<u8> {
    seq![low_byte(value), high_byte(value)]
}

pub open spec fn be16(value: u16) -> Seq<u8> {
    seq![high_byte(value), low_byte(value)]
}

pub open spec fn be32(value: u32) -> Seq<u8> {
    be16((value / 0x1_0000) as u16) + be16((value % 0x1_0000) as u16)
}

/// Copies `patch` into `out` from offset `at` on.
pub fn copy_at(out: &mut [u8], at: usize, patch: &[u8])
    requires
        at + patch.len() <= old(out).len(),
    ensures
        final(out)@ == patched(old(out)@, at as int, patch@),
{
    let ghost before = out@;
    let total = out.len();
    let count = patch.len();
    let mut i: usize = 0;
    while i < count
        invariant
            i <= count,
            count == patch@.len(),
            at + count <= total,
            total == before.len(),
            out@ == patched(before, at as int, patch@.take(i as int)),
        decreases count - i,
    {
        out[at + i] = patch[i];
        proof {
            assert(patch@.take(i + 1) == patch@.take(i as int).push(patch@[i as int]));
        }
        i += 1;
    }
    proof {
        assert(patch@.take(count as int) == patch@);
    }
}

/// Sets `count` bytes from offset `at` on to zero.
pub fn clear_at(out: &mut [u8], at: usize, count: usize)
    requires
        at + count <= old(out).len(),
    ensures
        final(out)@ == patched(old(out)@, at as int, Seq::new(count as nat, |i: int| 0u8)),
{
    let ghost before = out@;
    let total = out.len();
    let mut i: usize = 0;
    while i < count
        invariant
            i <= count,
            at + count <= total,
            total == before.len(),
            out@ == patched(before, at as int, Seq::new(i as nat, |k: int| 0u8)),
        decreases count - i,
    {
        out[at + i] = 0;
        i += 1;
    }
}

/// Writes a little-endian number at offset `at`.
pub fn put_le16(out: &mut [u8], at: usize, value: u16)
    requires
        at + 2 <= old(out).len(),
    ensures
        final(out)@ == patched(old(out)@, at as int, le16(value)),
{
    let ghost before = out@;
    out[at] = (value % 256) as u8;
    out[at + 1] = (value / 256) as u8;
    assert(out@ =~= patched(before, at as int, le16(value)));
}

/// Writes a big-endian number at offset `at`.
pub fn put_be16(out: &mut [u8], at: usize, value: u16)
    requires
        at + 2 <= old(out).len(),
    ensures
        final(out)@ == patched(old(out)@, at as int, be16(value)),
{
    let ghost before = out@;
    out[at] = (value / 256) as u8;
    out[at + 1] = (value % 256) as u8;
    assert(out@ =~= patched(before, at as int, be16(value)));
}

/// Writes a big-endian number of four bytes at offset `at`.
pub fn put_be32(out: &mut [u8], at: usize, value: u32)
    requires
        at + 4 <= old(out).len(),
    ensures
        final(out)@ == patched(old(out)@, at as int, be32(value)),
{
    let ghost before = out@;
    put_be16(out, at, (value / 0x1_0000) as u16);
    put_be16(out, at + 2, (value % 0x1_0000) as u16);
    assert(out@ =~= patched(before, at as int, be32(value)));
}

/// Bytes at the head of a buffer: they stand there in their order, and the rest is as it was.
pub proof fn law_the_head_is_replaced(buffer: Seq<u8>, head: Seq<u8>)
    requires
        head.len() <= buffer.len(),
    ensures
        with_head(buffer, head).len() == buffer.len(),
        forall|i: int| 0 <= i < head.len() ==> #[trigger] with_head(buffer, head)[i] == head[i],
        forall|i: int|
            head.len() <= i < buffer.len() ==> #[trigger] with_head(buffer, head)[i] == buffer[i],
{
}

/// Bytes in the middle of a buffer: they stand there in their order, and the rest is as it was.
pub proof fn law_the_patch_is_laid_over(buffer: Seq<u8>, at: int, patch: Seq<u8>)
    requires
        0 <= at,
        at + patch.len() <= buffer.len(),
    ensures
        patched(buffer, at, patch).len() == buffer.len(),
        forall|i: int|
            0 <= i < patch.len() ==> patched(buffer, at, patch)[at + i] == #[trigger] patch[i],
        forall|i: int|
            0 <= i < buffer.len() && !(at <= i < at + patch.len()) ==> #[trigger] patched(
                buffer,
                at,
                patch,
            )[i] == buffer[i],
{
}

/// Numbers on the wire: little-endian ones begin with their low byte, big-endian ones end with it,
/// and either way the bytes give the number back.
pub proof fn law_numbers_are_read_back(small: u16, large: u32, low: u8, high: u8)
    ensures
        word(low, high) == low + 256 * high,
        le16(small).len() == 2,
        le16(small)[0] + 256 * le16(small)[1] == small,
        be16(small).len() == 2,
        256 * be16(small)[0] + be16(small)[1] == small,
        be32(large).len() == 4,
        0x100_0000 * be32(large)[0] + 0x1_0000 * be32(large)[1] + 0x100 * be32(large)[2]
            + be32(large)[3] == large,
{
}

} // verus!
