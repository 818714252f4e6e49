//! Words as the accelerator's buffers hold them: four bytes each, in the
//! byte order of the machine that runs the host code.
//!
//! The conversions are bytemuck's. Which of the two byte orders they use
//! is the machine's matter, so the contracts here hold for either.

use crate::slots::SLOT_WORDS;
use vstd::prelude::*;

verus! {

/// The number of bytes in a word.
pub const WORD_BYTES: usize = 4;

/// The number of bytes in the output slots.
pub const SLOT_BYTES: usize = 40;

/// The order in which a word's bytes lie in memory.
#[derive(Clone, Copy, PartialEq, Eq, Debug)]
pub enum ByteOrder {
    /// Least significant byte first.
    LittleEndian,
    /// Most significant byte first.
    BigEndian,
}

/// The four bytes of `word` in the given order.
pub open spec fn word_bytes(order: ByteOrder, word: u32) -> Seq<u8> {
    let b0 = (word as int % 0x100) as u8;
    let b1 = (word as int / 0x100 % 0x100) as u8;
    let b2 = (word as int / 0x1_0000 % 0x100) as u8;
    let b3 = (word as int / 0x100_0000 % 0x100) as u8;
    match order {
        ByteOrder::LittleEndian => seq![b0, b1, b2, b3],
        ByteOrder::BigEndian => seq![b3, b2, b1, b0],
    }
}

/// The word whose bytes in the given order are the first four of `bytes`.
pub open spec fn word_of(order: ByteOrder, bytes: Seq<u8>) -> u32 {
    match order {
        ByteOrder::LittleEndian => (bytes[0] as int + bytes[1] as int * 0x100 + bytes[2] as int
            * 0x1_0000 + bytes[3] as int * 0x100_0000) as u32,
        ByteOrder::BigEndian => (bytes[3] as int + bytes[2] as int * 0x100 + bytes[1] as int
            * 0x1_0000 + bytes[0] as int * 0x100_0000) as u32,
    }
}

/// The bytes of `words`, word after word, each in the given order.
pub open spec fn image(order: ByteOrder, words: Seq<u32>) -> Seq<u8> {
    Seq::new(4 * words.len(), |i: int| word_bytes(order, words[i / 4])[i % 4])
}

/// The words that `bytes` holds, four bytes each, in the given order; bytes
/// left over at the end are not read.
pub open spec fn words_of(order: ByteOrder, bytes: Seq<u8>) -> Seq<u32> {
    Seq::new(bytes.len() / 4, |i: int| word_of(order, bytes.subrange(4 * i, 4 * i + 4)))
}

/// Whether `bytes` is how memory holds `words`, in one byte order or the
/// other.
pub open spec fn in_memory(words: Seq<u32>, bytes: Seq<u8>) -> bool {
    bytes == image(ByteOrder::LittleEndian, words) || bytes == image(
        ByteOrder::BigEndian,
        words,
    )
}

/// Whether every byte of `bytes` is zero.
pub open spec fn all_zero(bytes: Seq<u8>) -> bool {
    forall|i: int| 0 <= i < bytes.len() ==> bytes[i] == 0
}

/// `bytemuck::cast_slice` from `u32` to `u8`, copied into a vector. The cast
/// hands out the memory of the words as bytes, so the result holds each
/// word's four bytes in the machine's byte order, word after word. It cannot
/// fail in this direction: a byte needs no alignment and any length fits.
#[verifier::external_body]
fn cast_words(words: &[u32]) -> (bytes: Vec<u8>)
    ensures
        in_memory(words@, bytes@),
{
    bytemuck::cast_slice::<u32, u8>(words).to_vec()
}

/// `bytemuck::pod_read_unaligned` at ten words. It copies the bytes into
/// the memory of the array whatever their alignment, so each word comes
/// from its four bytes in the machine's byte order. It panics unless the
/// length is that of the array, which `requires` asks for.
#[verifier::external_body]
fn read_words(bytes: &[u8]) -> (words: [u32; 10])
    requires
        bytes@.len() == SLOT_BYTES,
    ensures
        in_memory(words@, bytes@),
{
    bytemuck::pod_read_unaligned::<[u32; 10]>(bytes)
}

/// A word is read back from its own bytes.
pub proof fn lemma_word_round_trip(order: ByteOrder, word: u32)
    ensures
        word_bytes(order, word).len() == 4,
        word_of(order, word_bytes(order, word)) == word,
{
    assert(word == word % 0x100 + (word / 0x100 % 0x100) * 0x100 + (word / 0x1_0000 % 0x100)
        * 0x1_0000 + (word / 0x100_0000 % 0x100) * 0x100_0000) by (bit_vector);
}

/// Four bytes are the bytes of the word read from them.
pub proof fn lemma_bytes_round_trip(order: ByteOrder, bytes: Seq<u8>)
    requires
        bytes.len() == 4,
    ensures
        word_bytes(order, word_of(order, bytes)) == bytes,
{
    let low_first = match order {
        ByteOrder::LittleEndian => bytes,
        ByteOrder::BigEndian => bytes.reverse(),
    };
    let (b0, b1, b2, b3) = (
        low_first[0] as int,
        low_first[1] as int,
        low_first[2] as int,
        low_first[3] as int,
    );
    let upper = b3;
    let middle = b2 + upper * 0x100;
    let lower = b1 + middle * 0x100;
    let word = b0 + lower * 0x100;
    assert(word == word_of(order, bytes) as int);
    assert(word % 0x100 == b0 && word / 0x100 == lower);
    assert(lower % 0x100 == b1 && lower / 0x100 == middle);
    assert(middle % 0x100 == b2 && middle / 0x100 == upper);
    assert(word / 0x1_0000 == middle);
    assert(word / 0x100_0000 == upper);
    assert(word_bytes(order, word_of(order, bytes)) =~= bytes);
}

/// Reading the bytes of `words` gives `words` back.
pub proof fn lemma_image_round_trip(order: ByteOrder, words: Seq<u32>)
    ensures
        image(order, words).len() == 4 * words.len(),
        words_of(order, image(order, words)) == words,
{
    let bytes = image(order, words);
    assert forall|i: int| 0 <= i < words.len() implies #[trigger] words_of(order, bytes)[i]
        == words[i] by {
        let four = bytes.subrange(4 * i, 4 * i + 4);
        assert(four =~= word_bytes(order, words[i])) by {
            assert forall|j: int| 0 <= j < 4 implies four[j] == word_bytes(order, words[i])[j] by {
                assert(four[j] == bytes[4 * i + j]);
                assert((4 * i + j) / 4 == i && (4 * i + j) % 4 == j);
            }
        }
        lemma_word_round_trip(order, words[i]);
    }
    assert(words_of(order, bytes) =~= words);
}

/// The bytes of words that are all zero are all zero, in either order.
pub proof fn lemma_zero_image(order: ByteOrder, words: Seq<u32>)
    requires
        forall|i: int| 0 <= i < words.len() ==> words[i] == 0,
    ensures
        all_zero(image(order, words)),
{
    let bytes = image(order, words);
    assert forall|i: int| 0 <= i < bytes.len() implies bytes[i] == 0 by {
        assert(0 <= i / 4 < words.len());
        assert(words[i / 4] == 0);
        assert(0 <= i % 4 < 4);
    }
}

/// The bytes that a device buffer is filled with to hold `words`: four for
/// each word, in the machine's byte order.
pub fn to_bytes(words: &[u32]) -> (bytes: Vec<u8>)
    ensures
        in_memory(words@, bytes@),
        bytes@.len() == WORD_BYTES * words@.len(),
        words_of(ByteOrder::LittleEndian, bytes@) == words@ || words_of(
            ByteOrder::BigEndian,
            bytes@,
        ) == words@,
        (forall|i: int| 0 <= i < words@.len() ==> words@[i] == 0) ==> all_zero(bytes@),
{
    let bytes = cast_words(words);
    proof {
        lemma_image_round_trip(ByteOrder::LittleEndian, words@);
        lemma_image_round_trip(ByteOrder::BigEndian, words@);
        if forall|i: int| 0 <= i < words@.len() ==> words@[i] == 0 {
            lemma_zero_image(ByteOrder::LittleEndian, words@);
            lemma_zero_image(ByteOrder::BigEndian, words@);
        }
    }
    bytes
}

/// The output slots that `bytes` holds, read in the machine's byte order;
/// `None` unless `bytes` is exactly as long as the slots.
pub fn read_slots(bytes: &[u8]) -> (slots: Option<[u32; 10]>)
    ensures
        slots is Some <==> bytes@.len() == SLOT_BYTES,
        slots matches Some(words) ==> {
            &&& words@.len() == SLOT_WORDS
            &&& in_memory(words@, bytes@)
            &&& (words@ == words_of(ByteOrder::LittleEndian, bytes@) || words@ == words_of(
                ByteOrder::BigEndian,
                bytes@,
            ))
        },
{
    if bytes.len() != SLOT_BYTES {
        return None;
    }
    let words = read_words(bytes);
    proof {
        lemma_image_round_trip(ByteOrder::LittleEndian, words@);
        lemma_image_round_trip(ByteOrder::BigEndian, words@);
    }
    Some(words)
}

} // verus!
