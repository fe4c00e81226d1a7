//! Reading and writing a range of bits in a 16-bit register word.
//!
//! Bits are numbered from the least significant, and a range names its first
//! and last bit, both included. Every field of every register goes through
//! the two routines of this module.

use vstd::arithmetic::power2::{lemma2_to64, pow2};
use vstd::bits::{lemma_u32_low_bits_mask_is_mod, lemma_u32_shl_is_mul, lemma_u32_shr_is_div};
use vstd::prelude::*;

verus! {

/// An inclusive range of bit positions.
#[derive(Clone, Copy, Debug, PartialEq, Eq, Structural)]
pub struct BitRange {
    pub start: u8,
    pub end: u8,
}

impl BitRange {
    /// The range is not empty and fits in a 16-bit word.
    pub open spec fn valid(self) -> bool {
        self.start <= self.end <= 15
    }

    /// The range from bit `start` to bit `end`, if that is a range of a
    /// 16-bit word.
    pub fn new(start: u8, end: u8) -> (r: Option<BitRange>)
        ensures
            r is Some <==> start <= end <= 15,
            r is Some ==> r->Some_0 == (BitRange { start, end }),
    {
        if start <= end && end <= 15 {
            Some(BitRange { start, end })
        } else {
            None
        }
    }

    /// Whether the range is one the routines of this module accept.
    pub fn is_valid(&self) -> (b: bool)
        ensures
            b == self.valid(),
    {
        self.start <= self.end && self.end <= 15
    }

    /// Whether the two ranges share no bit.
    pub fn is_disjoint(&self, other: &BitRange) -> (b: bool)
        ensures
            b == self.disjoint(*other),
    {
        self.end < other.start || other.end < self.start
    }

    /// The number of bits in the range.
    pub open spec fn width(self) -> nat {
        (self.end - self.start + 1) as nat
    }

    /// One more than the largest value the range can hold.
    pub open spec fn limit(self) -> int {
        pow2(self.width()) as int
    }

    /// The two ranges share no bit.
    pub open spec fn disjoint(self, other: BitRange) -> bool {
        self.end < other.start || other.end < self.start
    }

    /// The number held by the bits of the range in `word`.
    pub open spec fn value_in(self, word: int) -> int {
        (word / (pow2(self.start as nat) as int)) % self.limit()
    }

    /// `word` with the bits of the range replaced by the low bits of `value`,
    /// and every other bit as it was.
    pub open spec fn placed(self, word: int, value: int) -> int {
        word - self.value_in(word) * pow2(self.start as nat) + (value % self.limit()) * pow2(
            self.start as nat,
        )
    }
}

/// Shifting one left by up to sixteen places gives that power of two.
proof fn lemma_shift_is_pow2(n: u32)
    requires
        n <= 16,
    ensures
        (1u32 << n) == pow2(n as nat),
        1 <= pow2(n as nat) <= 65536,
{
    lemma2_to64();
    assert(1u32 << 0u32 == 0x1 && 1u32 << 1u32 == 0x2 && 1u32 << 2u32 == 0x4 && 1u32 << 3u32
        == 0x8 && 1u32 << 4u32 == 0x10 && 1u32 << 5u32 == 0x20 && 1u32 << 6u32 == 0x40 && 1u32
        << 7u32 == 0x80 && 1u32 << 8u32 == 0x100 && 1u32 << 9u32 == 0x200 && 1u32 << 10u32
        == 0x400 && 1u32 << 11u32 == 0x800 && 1u32 << 12u32 == 0x1000 && 1u32 << 13u32 == 0x2000
        && 1u32 << 14u32 == 0x4000 && 1u32 << 15u32 == 0x8000 && 1u32 << 16u32 == 0x10000)
        by (bit_vector);
}

/// The `width` low bits set, the rest clear.
spec fn mask_of(width: u32) -> u32 {
    ((1u32 << width) - 1) as u32
}

/// The field of `width` bits at `start`, by shifting and masking.
spec fn field_bits(x: u32, start: u32, width: u32) -> u32 {
    (x >> start) & mask_of(width)
}

/// `x` with the field of `width` bits at `start` overwritten by `v`, by
/// clearing and merging.
spec fn with_field_bits(x: u32, start: u32, width: u32, v: u32) -> u32 {
    (x & !(mask_of(width) << start)) | ((v & mask_of(width)) << start)
}

/// Masking with the `width` low bits takes the remainder by that power of two.
proof fn lemma_mask_is_mod(y: u32, width: u32)
    requires
        1 <= width <= 16,
    ensures
        (y & mask_of(width)) == y % (pow2(width as nat) as u32),
        mask_of(width) == pow2(width as nat) - 1,
{
    lemma_shift_is_pow2(width);
    lemma_u32_low_bits_mask_is_mod(y, width as nat);
}

/// Shifting and masking computes the value of a range.
proof fn lemma_value_in_as_bits(range: BitRange, word: u16)
    requires
        range.valid(),
    ensures
        range.value_in(word as int) == field_bits(
            word as u32,
            range.start as u32,
            range.width() as u32,
        ),
        0 <= range.value_in(word as int) < range.limit(),
        range.limit() <= 65536,
{
    let start = range.start as u32;
    let width = range.width() as u32;
    let x = word as u32;
    lemma_shift_is_pow2(width);
    lemma_u32_shr_is_div(x, start);
    lemma_mask_is_mod(x >> start, width);
}

/// Clearing and merging computes the replacement of a range.
proof fn lemma_placed_as_bits(range: BitRange, word: u16, value: u16)
    requires
        range.valid(),
    ensures
        range.placed(word as int, value as int) == with_field_bits(
            word as u32,
            range.start as u32,
            range.width() as u32,
            value as u32,
        ),
        0 <= range.placed(word as int, value as int) <= 0xFFFF,
{
    let start = range.start as u32;
    let width = range.width() as u32;
    let x = word as u32;
    let v = value as u32;
    lemma_shift_is_pow2(width);
    lemma_shift_is_pow2(start);
    let old_bits = field_bits(x, start, width);
    let new_bits = v & mask_of(width);
    assert({
        let r = with_field_bits(x, start, width, v);
        &&& r <= 0xFFFF
        &&& old_bits <= 0xFFFF
        &&& new_bits <= 0xFFFF
        &&& r == x - (old_bits << start) + (new_bits << start)
    }) by (bit_vector)
        requires
            start <= 15,
            1 <= width <= 16,
            start + width <= 16,
            x <= 0xFFFF,
            old_bits == field_bits(x, start, width),
            new_bits == v & mask_of(width),
    ;
    lemma_value_in_as_bits(range, word);
    lemma_mask_is_mod(v, width);
    let p = pow2(start as nat) as int;
    assert(old_bits * p <= u32::MAX && new_bits * p <= u32::MAX) by (nonlinear_arith)
        requires
            0 <= old_bits <= 0xFFFF,
            0 <= new_bits <= 0xFFFF,
            1 <= p <= 65536,
    ;
    lemma_u32_shl_is_mul(old_bits, start);
    lemma_u32_shl_is_mul(new_bits, start);
}

/// Reads the number held by `range` in `word`.
pub fn extract(word: u16, range: BitRange) -> (value: u16)
    requires
        range.valid(),
    ensures
        value == range.value_in(word as int),
        value < range.limit(),
{
    let start: u32 = range.start as u32;
    let width: u32 = (range.end - range.start) as u32 + 1;
    let x: u32 = word as u32;
    proof {
        lemma_shift_is_pow2(width);
        lemma_value_in_as_bits(range, word);
    }
    let mask: u32 = (1u32 << width) - 1;
    ((x >> start) & mask) as u16
}

/// Writes the low bits of `value` into `range` of `word`; a value wider than
/// the range loses its high bits.
pub fn insert(word: u16, range: BitRange, value: u16) -> (updated: u16)
    requires
        range.valid(),
    ensures
        updated == range.placed(word as int, value as int),
{
    let start: u32 = range.start as u32;
    let width: u32 = (range.end - range.start) as u32 + 1;
    let x: u32 = word as u32;
    let v: u32 = value as u32;
    proof {
        lemma_shift_is_pow2(width);
        lemma_placed_as_bits(range, word, value);
    }
    let mask: u32 = (1u32 << width) - 1;
    ((x & !(mask << start)) | ((v & mask) << start)) as u16
}

/// A value of a range is below the limit of the range, and a replacement
/// leaves a 16-bit word.
pub proof fn lemma_bounds(range: BitRange, word: u16, value: u16)
    requires
        range.valid(),
    ensures
        0 <= range.value_in(word as int) < range.limit() <= 65536,
        0 <= range.placed(word as int, value as int) <= 0xFFFF,
{
    lemma_value_in_as_bits(range, word);
    lemma_placed_as_bits(range, word, value);
}

/// Every range of the zero word holds zero.
pub proof fn lemma_zero_word(range: BitRange)
    requires
        range.valid(),
    ensures
        range.value_in(0) == 0,
{
    let start = range.start as u32;
    let width = range.width() as u32;
    lemma_value_in_as_bits(range, 0);
    assert(field_bits(0, start, width) == 0) by (bit_vector);
}

/// Reading a range after writing it gives what was written, cut to the width
/// of the range.
pub proof fn lemma_read_after_write(range: BitRange, word: u16, value: u16)
    requires
        range.valid(),
    ensures
        range.value_in(range.placed(word as int, value as int)) == (value as int) % range.limit(),
{
    let start = range.start as u32;
    let width = range.width() as u32;
    let x = word as u32;
    let v = value as u32;
    lemma_placed_as_bits(range, word, value);
    let r = with_field_bits(x, start, width, v);
    lemma_value_in_as_bits(range, r as u16);
    assert(field_bits(with_field_bits(x, start, width, v), start, width) == v & mask_of(width))
        by (bit_vector)
        requires
            start <= 15,
            1 <= width <= 16,
            start + width <= 16,
    ;
    lemma_mask_is_mod(v, width);
}

/// Writing a range leaves every range that shares no bit with it as it was.
pub proof fn lemma_write_keeps_disjoint(range: BitRange, other: BitRange, word: u16, value: u16)
    requires
        range.valid(),
        other.valid(),
        range.disjoint(other),
    ensures
        other.value_in(range.placed(word as int, value as int)) == other.value_in(word as int),
{
    let start = range.start as u32;
    let width = range.width() as u32;
    let other_start = other.start as u32;
    let other_width = other.width() as u32;
    let x = word as u32;
    let v = value as u32;
    lemma_placed_as_bits(range, word, value);
    let r = with_field_bits(x, start, width, v);
    lemma_value_in_as_bits(other, r as u16);
    lemma_value_in_as_bits(other, word);
    assert(field_bits(with_field_bits(x, start, width, v), other_start, other_width) == field_bits(
        x,
        other_start,
        other_width,
    )) by (bit_vector)
        requires
            1 <= width <= 16,
            start + width <= 16,
            1 <= other_width <= 16,
            other_start + other_width <= 16,
            start + width <= other_start || other_start + other_width <= start,
    ;
}

/// Writing back what a range holds changes nothing.
pub proof fn lemma_write_back(range: BitRange, word: u16)
    requires
        range.valid(),
    ensures
        range.placed(word as int, range.value_in(word as int)) == word,
{
    lemma_value_in_as_bits(range, word);
    let held = range.value_in(word as int);
    assert(held % range.limit() == held) by (nonlinear_arith)
        requires
            0 <= held < range.limit(),
    ;
}

} // verus!
