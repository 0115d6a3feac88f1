//! Little-endian words appended to and read from byte buffers.

use vstd::bytes::*;
use vstd::prelude::*;
use vstd::slice::*;

verus! {

/// The four bytes of `value`, least significant first.
pub open spec fn le32(value: u32) -> Seq<u8> {
    spec_u32_to_le_bytes(value)
}

/// The two bytes of `value`, least significant first.
pub open spec fn le16(value: u16) -> Seq<u8> {
    spec_u16_to_le_bytes(value)
}

/// `n` zero bytes.
pub open spec fn zeros(n: nat) -> Seq<u8> {
    Seq::new(n, |i: int| 0u8)
}

/// The word stored least significant byte first at `at` in `bytes`.
pub open spec fn word_at(bytes: Seq<u8>, at: int) -> u32 {
    spec_u32_from_le_bytes(bytes.subrange(at, at + 4))
}

/// The half word stored least significant byte first at `at` in `bytes`.
pub open spec fn half_at(bytes: Seq<u8>, at: int) -> u16 {
    spec_u16_from_le_bytes(bytes.subrange(at, at + 2))
}

/// A word always takes four bytes and a half word two.
pub proof fn lemma_le_len()
    ensures
        forall|value: u32| #[trigger] le32(value).len() == 4,
        forall|value: u16| #[trigger] le16(value).len() == 2,
{
    lemma_auto_spec_u32_to_from_le_bytes();
    lemma_auto_spec_u16_to_from_le_bytes();
}

/// Reading a word back from the place where it was written gives the word.
pub proof fn lemma_word_at_le32(before: Seq<u8>, value: u32, after: Seq<u8>)
    ensures
        word_at(before + le32(value) + after, before.len() as int) == value,
{
    lemma_auto_spec_u32_to_from_le_bytes();
    let all = before + le32(value) + after;
    assert(all.subrange(before.len() as int, before.len() as int + 4) =~= le32(value));
}

/// Reading a half word back from the place where it was written gives it.
pub proof fn lemma_half_at_le16(before: Seq<u8>, value: u16, after: Seq<u8>)
    ensures
        half_at(before + le16(value) + after, before.len() as int) == value,
{
    lemma_auto_spec_u16_to_from_le_bytes();
    let all = before + le16(value) + after;
    assert(all.subrange(before.len() as int, before.len() as int + 2) =~= le16(value));
}

/// Appends `bytes` to `output`.
pub fn put_bytes(output: &mut Vec<u8>, bytes: &[u8]) -> (written: usize)
    ensures
        final(output)@ == old(output)@ + bytes@,
        written == bytes@.len(),
{
    let mut i: usize = 0;
    while i < bytes.len()
        invariant
            i <= bytes@.len(),
            output@ == old(output)@ + bytes@.subrange(0, i as int),
        decreases bytes@.len() - i,
    {
        output.push(bytes[i]);
        i += 1;
        assert(bytes@.subrange(0, i as int) =~= bytes@.subrange(0, i - 1).push(bytes@[i - 1]));
    }
    assert(bytes@.subrange(0, i as int) =~= bytes@);
    i
}

/// Appends `value` to `output` as four bytes, least significant first.
pub fn put_u32(output: &mut Vec<u8>, value: u32) -> (written: usize)
    ensures
        final(output)@ == old(output)@ + le32(value),
        written == 4,
{
    let mut bytes = u32_to_le_bytes(value);
    proof {
        lemma_auto_spec_u32_to_from_le_bytes();
    }
    output.append(&mut bytes);
    4
}

/// Appends `value` to `output` as two bytes, least significant first.
pub fn put_u16(output: &mut Vec<u8>, value: u16) -> (written: usize)
    ensures
        final(output)@ == old(output)@ + le16(value),
        written == 2,
{
    let mut bytes = u16_to_le_bytes(value);
    proof {
        lemma_auto_spec_u16_to_from_le_bytes();
    }
    output.append(&mut bytes);
    2
}

/// Reads the word stored at `at` in `bytes`.
pub fn get_u32(bytes: &[u8], at: usize) -> (value: u32)
    requires
        at + 4 <= bytes@.len(),
    ensures
        value == word_at(bytes@, at as int),
{
    let len = bytes.len();
    assert(at + 4 <= len);
    u32_from_le_bytes(slice_subrange(bytes, at, at + 4))
}

/// Reads the half word stored at `at` in `bytes`.
pub fn get_u16(bytes: &[u8], at: usize) -> (value: u16)
    requires
        at + 2 <= bytes@.len(),
    ensures
        value == half_at(bytes@, at as int),
{
    let len = bytes.len();
    assert(at + 2 <= len);
    u16_from_le_bytes(slice_subrange(bytes, at, at + 2))
}

} // verus!
