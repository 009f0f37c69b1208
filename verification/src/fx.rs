//! 16.16 fixed-point numbers.

use vstd::prelude::*;

verus! {

/// `I16F16::from_num` of the `fixed` crate on an integer: the number of
/// 1/65536 units in `v`. The crate panics when `v` does not fit.
#[verifier::external_body]
fn fixed_from_int(v: i32) -> (r: i32)
    requires
        -32768 <= v <= 32767,
    ensures
        r == v * 65536,
{
    fixed::types::I16F16::from_num(v).to_bits()
}

/// `+` of the `fixed` crate on raw units. The crate panics on overflow (in
/// builds that check arithmetic), so overflow is left out.
#[verifier::external_body]
fn fixed_sum(a: i32, b: i32) -> (r: i32)
    requires
        i32::MIN <= a + b <= i32::MAX,
    ensures
        r == a + b,
{
    (fixed::types::I16F16::from_bits(a) + fixed::types::I16F16::from_bits(b)).to_bits()
}

/// Unary `-` of the `fixed` crate on raw units; the least number has no
/// negation.
#[verifier::external_body]
fn fixed_negation(a: i32) -> (r: i32)
    requires
        a != i32::MIN,
    ensures
        r == -a,
{
    (-fixed::types::I16F16::from_bits(a)).to_bits()
}

/// The 32-bit word that holds `b` in two's complement.
pub open spec fn bits_word(b: i32) -> u32 {
    if b >= 0 {
        b as u32
    } else {
        (b + 0x1_0000_0000) as u32
    }
}

/// The signed number that the word `w` holds in two's complement.
pub open spec fn word_bits(w: u32) -> i32 {
    if w < 0x8000_0000 {
        w as i32
    } else {
        (w - 0x1_0000_0000) as i32
    }
}

/// The word that holds `b`.
pub fn to_word(b: i32) -> (r: u32)
    ensures
        r == bits_word(b),
{
    let r: u32 = b as u32;
    assert(b >= 0 ==> r == b) by (bit_vector)
        requires
            r == b as u32,
    ;
    assert(b < 0 ==> r == b + 0x1_0000_0000) by (bit_vector)
        requires
            r == b as u32,
    ;
    r
}

/// The signed number that `w` holds.
pub fn from_word(w: u32) -> (r: i32)
    ensures
        r == word_bits(w),
{
    let r: i32 = w as i32;
    assert(w < 0x8000_0000 ==> r == w) by (bit_vector)
        requires
            r == w as i32,
    ;
    assert(w >= 0x8000_0000 ==> r == w - 0x1_0000_0000) by (bit_vector)
        requires
            r == w as i32,
    ;
    r
}

/// A signed 16.16 fixed-point number: `bits` counts units of 1/65536.
#[derive(Clone, Copy, PartialEq, Eq, Structural, Debug)]
pub struct Fx16 {
    /// The number in units of 1/65536.
    pub bits: i32,
}

impl Fx16 {
    /// The number that `v` integers stand for, in units of 1/65536.
    pub open spec fn of_int(v: int) -> Fx16 {
        Fx16 { bits: (v * 65536) as i32 }
    }

    /// The number with the given raw units.
    pub fn from_bits(bits: i32) -> (r: Self)
        ensures
            r == (Fx16 { bits }),
    {
        Fx16 { bits }
    }

    /// The raw units.
    pub fn to_bits(self) -> (r: i32)
        ensures
            r == self.bits,
    {
        self.bits
    }

    /// The fixed-point form of an integer.
    pub fn from_num(v: i32) -> (r: Self)
        requires
            -32768 <= v <= 32767,
        ensures
            r.bits == v * 65536,
            r == Fx16::of_int(v as int),
    {
        Fx16 { bits: fixed_from_int(v) }
    }

    /// The sum.
    pub fn plus(self, other: Fx16) -> (r: Self)
        requires
            i32::MIN <= self.bits + other.bits <= i32::MAX,
        ensures
            r.bits == self.bits + other.bits,
    {
        Fx16 { bits: fixed_sum(self.bits, other.bits) }
    }

    /// The negation.
    pub fn negated(self) -> (r: Self)
        requires
            self.bits != i32::MIN,
        ensures
            r.bits == -self.bits,
    {
        Fx16 { bits: fixed_negation(self.bits) }
    }

    /// Whether this number is less than `other`.
    pub fn less(self, other: Fx16) -> (r: bool)
        ensures
            r == (self.bits < other.bits),
    {
        self.bits < other.bits
    }
}

/// Two's complement, on the numbers: a word and the signed number in it differ by
/// 0 or by 2 to the power 32, and each is got back from the other.
pub proof fn law_twos_complement(b: i32, w: u32)
    ensures
        bits_word(b) == b || bits_word(b) == b + 0x1_0000_0000,
        word_bits(w) == w || word_bits(w) == w - 0x1_0000_0000,
        word_bits(bits_word(b)) == b,
        bits_word(word_bits(w)) == w,
{
}

/// A whole number is that many times 65536 units.
pub proof fn law_whole_numbers(v: int)
    requires
        -32768 <= v <= 32767,
    ensures
        Fx16::of_int(v).bits == v * 65536,
{
}

} // verus!
