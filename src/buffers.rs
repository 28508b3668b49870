//! Layout of the kernel's buffers: the kernel holds one byte per `u32` word,
//! both in its input and in its result slot.

use vstd::prelude::*;

verus! {

/// Words in the kernel's input buffer and in its result slot.
pub const BUFFER_WORDS: usize = 32;

/// The input words for `bytes`: word `i` holds byte `i`, and the words past
/// the end of `bytes` are zero.
pub open spec fn widened(bytes: Seq<u8>) -> Seq<u32> {
    Seq::new(32, |i: int| if i < bytes.len() { bytes[i] as u32 } else { 0u32 })
}

/// The bytes a result slot holds: the low byte of each word.
pub open spec fn narrowed(words: Seq<u32>) -> Seq<u8> {
    Seq::new(words.len(), |i: int| words[i] as u8)
}

/// A result slot reports a hit when any of its words is non-zero; an
/// all-zero slot means that no lane met the predicate.
pub open spec fn is_hit(words: Seq<u32>) -> bool {
    exists|i: int| 0 <= i < words.len() && words[i] != 0
}

/// Spreads `buf` over the kernel's input words, one byte per word.
pub fn input_words(buf: &[u8]) -> (r: [u32; 32])
    requires
        buf@.len() <= BUFFER_WORDS,
    ensures
        r@ == widened(buf@),
{
    let mut words: [u32; 32] = [0u32; 32];
    let mut i: usize = 0;
    while i < buf.len()
        invariant
            i <= buf@.len() <= 32,
            words@.len() == 32,
            forall|k: int| 0 <= k < 32 ==> #[trigger] words@[k] == if k < i {
                buf@[k] as u32
            } else {
                0u32
            },
        decreases buf@.len() - i,
    {
        words[i] = buf[i] as u32;
        i += 1;
    }
    assert(words@ =~= widened(buf@));
    words
}

/// The bytes of a result slot: the low byte of each word.
pub fn convert_fat_buf(buf: &[u32; 32]) -> (r: [u8; 32])
    ensures
        r@ == narrowed(buf@),
{
    let mut bytes: [u8; 32] = [0u8; 32];
    let mut i: usize = 0;
    while i < BUFFER_WORDS
        invariant
            i <= 32,
            bytes@.len() == 32,
            buf@.len() == 32,
            forall|k: int| 0 <= k < i ==> #[trigger] bytes@[k] == buf@[k] as u8,
        decreases 32 - i,
    {
        bytes[i] = buf[i] as u8;
        i += 1;
    }
    assert(bytes@ =~= narrowed(buf@));
    bytes
}

/// Whether the result slot reports a hit.
pub fn result_is_hit(buf: &[u32; 32]) -> (r: bool)
    ensures
        r == is_hit(buf@),
{
    let mut i: usize = 0;
    while i < BUFFER_WORDS
        invariant
            i <= 32,
            buf@.len() == 32,
            forall|k: int| 0 <= k < i ==> buf@[k] == 0,
        decreases 32 - i,
    {
        if buf[i] != 0 {
            return true;
        }
        i += 1;
    }
    false
}

} // verus!
