//! The search key: two 16-bit identifiers packed into one 32-bit word.

use vstd::prelude::*;

verus! {

/// The key that holds `a` in its low half and `b` in its high half.
pub open spec fn packed(a: u16, b: u16) -> u32 {
    (a as int + b as int * 0x1_0000) as u32
}

/// The low half of `key`.
pub open spec fn low_half(key: u32) -> u16 {
    (key as int % 0x1_0000) as u16
}

/// The high half of `key`.
pub open spec fn high_half(key: u32) -> u16 {
    (key as int / 0x1_0000) as u16
}

/// Packs two identifiers into one key, `a | (b << 16)`.
pub fn encode(a: u16, b: u16) -> (key: u32)
    ensures
        key == packed(a, b),
        key == a as u32 | (b as u32) << 16,
{
    let low: u32 = a as u32;
    let high: u32 = b as u32;
    let key: u32 = low | (high << 16);
    assert(low | (high << 16) == low + high * 0x1_0000) by (bit_vector)
        requires
            low < 0x1_0000,
            high < 0x1_0000,
    ;
    key
}

/// Splits a key into the identifier in its low half and the one in its high
/// half.
pub fn decode_a_b(key: u32) -> (halves: (u16, u16))
    ensures
        halves.0 == low_half(key),
        halves.1 == high_half(key),
        halves.0 == key & 0xffff,
        halves.1 == key >> 16,
{
    let low: u32 = key & 0xffff;
    let high: u32 = key >> 16;
    assert(key & 0xffff == key % 0x1_0000 && key >> 16 == key / 0x1_0000) by (bit_vector);
    (low as u16, high as u16)
}

/// Packing loses nothing: splitting the key of `a` and `b` gives `a` and `b`
/// back.
pub proof fn lemma_split_of_packed(a: u16, b: u16)
    ensures
        low_half(packed(a, b)) == a,
        high_half(packed(a, b)) == b,
{
}

/// Every key is the key of its own halves, so distinct keys never share both
/// halves.
pub proof fn lemma_packed_of_split(key: u32)
    ensures
        packed(low_half(key), high_half(key)) == key,
{
}

} // verus!
