//! Facts about masks and shifts on bytes and words, proved once by bit
//! blasting and used wherever a register index or bit field is extracted.
use vstd::prelude::*;

verus! {

/// Masking a byte with a low-bit mask is the remainder by its power of two,
/// and the bit fields the video code extracts are within their widths.
pub proof fn lemma_byte_masks()
    by (bit_vector)
    ensures
        forall|x: u8| #[trigger] (x & 0x07) == x % 8,
        forall|x: u8| #[trigger] (x & 0x0F) == x % 16,
        forall|x: u8| #[trigger] (x & 0x1F) == x % 32,
        forall|x: u8| #[trigger] (x & 0x3F) == x % 64,
        forall|x: u8| #[trigger] ((x >> 4u8) & 0x0F) <= 15,
        forall|x: u8| #[trigger] ((x >> 1u8) & 0x07) <= 7,
        forall|x: u8| #[trigger] ((x >> 3u8) & 0x01) <= 1,
        forall|x: u8| #[trigger] ((x >> 6u8) & 0x03) <= 3,
        forall|x: u8| x < 16 ==> #[trigger] (x | 1) < 16,
        forall|x: u8, y: u8| #[trigger] (x & y) <= x,
{
}

/// The same for 16-bit addresses, plus splitting a word into its bytes.
pub proof fn lemma_word_masks()
    by (bit_vector)
    ensures
        forall|x: u16| #[trigger] (x & 0x0F) == x % 16,
        forall|x: u16| #[trigger] (x & 0x1F) == x % 32,
        forall|x: u16| #[trigger] (x & 0x3F) == x % 64,
        forall|x: u16| #[trigger] (x & 0x3FFF) == x % 0x4000,
        forall|x: u16| #[trigger] (x & 0x0FFF) == x % 0x1000,
        forall|x: u16| #[trigger] (x & 0xFF) == x % 256,
        forall|x: u16| #[trigger] (x >> 8u16) == x / 256,
        forall|x: u16| #[trigger] (x & 0xFF00) == (x / 256) * 256,
{
}

/// Masks on machine-word indices.
pub proof fn lemma_index_masks()
    by (bit_vector)
    ensures
        forall|x: usize| #[trigger] (x & 0x3F) == x % 64,
        forall|x: usize| #[trigger] (x & 0x1F) == x % 32,
        forall|x: usize| #[trigger] (x & 0xFFFF) <= 0xFFFF,
{
}

/// Single-bit tests on bytes: a bit of `a & b` is clear exactly when it is
/// clear in `a` or in `b`; every bit of $FF is set; $FF is the AND identity.
pub proof fn lemma_bit_tests()
    by (bit_vector)
    ensures
        forall|a: u8, b: u8, k: u8|
            k < 8 ==> ((#[trigger] ((a & b) & (1u8 << k)) == 0) <==> (a & (1u8 << k) == 0 || b & (1u8 << k) == 0)),
        forall|k: u8| k < 8 ==> #[trigger] (0xFFu8 & (1u8 << k)) != 0,
        forall|x: u8| #[trigger] (x & 0xFF) == x,
{
}

/// The bit pairs of a byte, from the top pair down, as arithmetic on its
/// value; the high nybble as a quotient.
pub proof fn lemma_bit_pairs()
    by (bit_vector)
    ensures
        forall|x: u8| #[trigger] ((x >> 6u8) & 0x03) == x / 64,
        forall|x: u8| #[trigger] ((x >> 4u8) & 0x03) == (x / 16) % 4,
        forall|x: u8| #[trigger] ((x >> 2u8) & 0x03) == (x / 4) % 4,
        forall|x: u8| #[trigger] ((x >> 0u8) & 0x03) == x % 4,
        forall|x: u8| #[trigger] (x >> 4u8) == x / 16,
{
}

} // verus!
