//! Big-endian bytes, words and long words in a byte slice.

use vstd::prelude::*;

verus! {

/// The 16-bit word whose high byte is `s[i]` and whose low byte is `s[i + 1]`.
pub open spec fn word_at(s: Seq<u8>, i: int) -> int {
    s[i] as int * 0x100 + s[i + 1] as int
}

/// The 32-bit value whose high word is at `i` and whose low word is at `i + 2`.
pub open spec fn long_word_at(s: Seq<u8>, i: int) -> int {
    word_at(s, i) * 0x1_0000 + word_at(s, i + 2)
}

/// The high byte of a word.
pub open spec fn high_byte(w: u16) -> u8 {
    (w / 0x100) as u8
}

/// The low byte of a word.
pub open spec fn low_byte(w: u16) -> u8 {
    (w % 0x100) as u8
}

/// `s` with the word `w` stored at `i`, high byte first.
pub open spec fn with_word_at(s: Seq<u8>, i: int, w: u16) -> Seq<u8> {
    s.update(i, high_byte(w)).update(i + 1, low_byte(w))
}

/// A word is its high byte times 256 plus its low byte, and the two bytes are
/// what shifting and masking give.
pub proof fn lemma_split_word(w: u16)
    ensures
        high_byte(w) == (w >> 8) & 0xff,
        low_byte(w) == w & 0xff,
        high_byte(w) as int * 0x100 + low_byte(w) as int == w,
{
    assert((w >> 8) & 0xff == w / 0x100) by (bit_vector);
    assert(w & 0xff == w % 0x100) by (bit_vector);
}

/// Reading back a word that was stored gives the word.
pub proof fn lemma_word_round_trip(s: Seq<u8>, i: int, w: u16)
    requires
        0 <= i,
        i + 1 < s.len(),
    ensures
        word_at(with_word_at(s, i, w), i) == w,
{
    lemma_split_word(w);
}

/// The byte at `idx`.
pub fn byte_from_slice(slice: &[u8], idx: usize) -> (b: u8)
    requires
        idx < slice.len(),
    ensures
        b == slice[idx as int],
{
    slice[idx]
}

/// Stores a byte at `idx`.
pub fn byte_to_slice(slice: &mut [u8], idx: usize, val: u8)
    requires
        idx < old(slice).len(),
    ensures
        final(slice)@ == old(slice)@.update(idx as int, val),
{
    slice[idx] = val;
}

/// The word at `idx`, high byte first.
pub fn word_from_slice(slice: &[u8], idx: usize) -> (w: u16)
    requires
        idx + 1 < slice.len(),
    ensures
        w == word_at(slice@, idx as int),
{
    let high: u16 = byte_from_slice(slice, idx) as u16;
    let low: u16 = byte_from_slice(slice, idx + 1) as u16;
    assert(high << 8 == high * 0x100) by (bit_vector)
        requires
            high < 0x100,
    ;
    (high << 8) + low
}

/// Stores a word at `idx`, high byte first.
pub fn word_to_slice(slice: &mut [u8], idx: usize, val: u16)
    requires
        idx + 1 < old(slice).len(),
    ensures
        final(slice)@ == with_word_at(old(slice)@, idx as int, val),
{
    proof {
        lemma_split_word(val);
    }
    let high: u8 = ((val >> 8) & 0xff) as u8;
    let low: u8 = (val & 0xff) as u8;
    byte_to_slice(slice, idx, high);
    byte_to_slice(slice, idx + 1, low);
}

/// The 32-bit value at `idx`, high word first.
pub fn long_word_from_slice(slice: &[u8], idx: usize) -> (l: usize)
    requires
        idx + 3 < slice.len(),
    ensures
        l == long_word_at(slice@, idx as int),
{
    let high: usize = word_from_slice(slice, idx) as usize;
    let low: usize = word_from_slice(slice, idx + 2) as usize;
    assert(high << 16 == high * 0x1_0000) by (bit_vector)
        requires
            high < 0x1_0000,
    ;
    (high << 16) + low
}

} // verus!
