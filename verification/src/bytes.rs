//! Little-endian words.
//!
//! Every component column, every fixed header of a guest frame and every raw
//! 32-bit field of the wire format is a run of 32-bit words, least significant
//! byte first.

use vstd::prelude::*;

verus! {

/// Byte `k` (0 is the least significant) of `w`.
pub open spec fn le_byte(w: u32, k: int) -> u8 {
    if k == 0 {
        (w % 256) as u8
    } else if k == 1 {
        (w / 256 % 256) as u8
    } else if k == 2 {
        (w / 65536 % 256) as u8
    } else {
        (w / 16777216) as u8
    }
}

/// The word whose bytes, least significant first, are `a`, `b`, `c`, `d`.
pub open spec fn le_word(a: u8, b: u8, c: u8, d: u8) -> u32 {
    (a + 256 * b + 65536 * c + 16777216 * d) as u32
}

/// The four bytes of `w`, least significant first.
pub open spec fn word_bytes(w: u32) -> Seq<u8> {
    seq![le_byte(w, 0), le_byte(w, 1), le_byte(w, 2), le_byte(w, 3)]
}

/// A run of words as bytes.
pub open spec fn words_bytes(ws: Seq<u32>) -> Seq<u8> {
    Seq::new(4 * ws.len(), |i: int| le_byte(ws[i / 4], i % 4))
}

/// Word `i` of a run of bytes.
pub open spec fn word_at(bs: Seq<u8>, i: int) -> u32 {
    le_word(bs[4 * i], bs[4 * i + 1], bs[4 * i + 2], bs[4 * i + 3])
}

/// Splitting a word into bytes and joining them again gives the word back.
pub proof fn lemma_word_of_bytes(w: u32)
    ensures
        le_word(le_byte(w, 0), le_byte(w, 1), le_byte(w, 2), le_byte(w, 3)) == w,
{
}

/// Joining four bytes and splitting the word again gives the bytes back.
pub proof fn lemma_bytes_of_word(a: u8, b: u8, c: u8, d: u8)
    ensures
        le_byte(le_word(a, b, c, d), 0) == a,
        le_byte(le_word(a, b, c, d), 1) == b,
        le_byte(le_word(a, b, c, d), 2) == c,
        le_byte(le_word(a, b, c, d), 3) == d,
{
    let z = d as int;
    let y = c + 256 * z;
    let x = b + 256 * y;
    let w = le_word(a, b, c, d) as int;
    assert(w == a + 256 * x);
    assert(w % 256 == a && w / 256 == x);
    assert(x % 256 == b && x / 256 == y);
    assert(y % 256 == c && y / 256 == z);
    assert(w / 65536 == x / 256);
    assert(w / 16777216 == y / 256);
}

/// Word `i` of the bytes of `ws` is `ws[i]`.
pub proof fn lemma_word_at(ws: Seq<u32>, i: int)
    requires
        0 <= i < ws.len(),
    ensures
        word_at(words_bytes(ws), i) == ws[i],
{
    lemma_word_of_bytes(ws[i]);
    let bs = words_bytes(ws);
    assert((4 * i) / 4 == i && (4 * i) % 4 == 0);
    assert((4 * i + 1) / 4 == i && (4 * i + 1) % 4 == 1);
    assert((4 * i + 2) / 4 == i && (4 * i + 2) % 4 == 2);
    assert((4 * i + 3) / 4 == i && (4 * i + 3) % 4 == 3);
}

/// The bytes of a word, by `bytemuck::bytes_of` on the word brought into
/// little-endian order: four bytes, least significant first.
#[verifier::external_body]
pub(crate) fn bytes_of_word(w: u32) -> (r: Vec<u8>)
    ensures
        r@ == word_bytes(w),
{
    bytemuck::bytes_of(&w.to_le()).to_vec()
}

/// The word held by four bytes, by `bytemuck::pod_read_unaligned`, read as
/// little-endian. `bytemuck` panics on any other number of bytes.
#[verifier::external_body]
pub(crate) fn word_of_bytes(bytes: &[u8]) -> (r: u32)
    requires
        bytes@.len() == 4,
    ensures
        r == le_word(bytes@[0], bytes@[1], bytes@[2], bytes@[3]),
{
    u32::from_le(bytemuck::pod_read_unaligned::<u32>(bytes))
}

/// Appends the bytes of `w`.
pub fn push_word(out: &mut Vec<u8>, w: u32)
    ensures
        final(out)@ == old(out)@ + word_bytes(w),
{
    let mut b: Vec<u8> = bytes_of_word(w);
    out.append(&mut b);
}

/// Reads the word that starts at byte `at`.
pub fn read_word(bytes: &[u8], at: usize) -> (r: u32)
    requires
        at + 4 <= bytes@.len(),
    ensures
        r == le_word(bytes@[at as int], bytes@[at + 1], bytes@[at + 2], bytes@[at + 3]),
{
    assert(at + 4 <= bytes.len());
    word_of_bytes(vstd::slice::slice_subrange(bytes, at, at + 4))
}

/// Little-endian order, on the numbers: byte `k` of a word counts multiples of 256
/// to the power `k`.
pub proof fn law_little_endian(w: u32, a: u8, b: u8, c: u8, d: u8)
    ensures
        le_byte(w, 0) + 256 * le_byte(w, 1) + 65536 * le_byte(w, 2) + 16777216 * le_byte(w, 3) == w,
        word_bytes(w) == seq![le_byte(w, 0), le_byte(w, 1), le_byte(w, 2), le_byte(w, 3)],
        le_word(a, b, c, d) == a + 256 * b + 65536 * c + 16777216 * d,
{
}

/// The bytes of a run of words are the bytes of each word, in order.
pub proof fn law_words_in_order(ws: Seq<u32>, i: int)
    requires
        0 <= i < ws.len(),
    ensures
        words_bytes(ws).len() == 4 * ws.len(),
        words_bytes(ws).subrange(4 * i, 4 * i + 4) == word_bytes(ws[i]),
        word_at(words_bytes(ws), i) == ws[i],
{
    lemma_word_at(ws, i);
    let bs = words_bytes(ws);
    assert((4 * i) / 4 == i && (4 * i) % 4 == 0);
    assert((4 * i + 1) / 4 == i && (4 * i + 1) % 4 == 1);
    assert((4 * i + 2) / 4 == i && (4 * i + 2) % 4 == 2);
    assert((4 * i + 3) / 4 == i && (4 * i + 3) % 4 == 3);
    assert(bs.subrange(4 * i, 4 * i + 4) =~= word_bytes(ws[i]));
}

} // verus!
