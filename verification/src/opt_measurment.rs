//! Codec for the light measurement held by the result and limit registers.
//!
//! The sensor reports light as a 12-bit mantissa scaled by a power of two.
//! On the wire the exponent occupies bits 12..=15 of a 16-bit word and the
//! mantissa bits 0..=11, the mantissa with every bit inverted.
//!
//! Packing and unpacking are inverses of each other: every measurement
//! survives the trip through its word, and every word that unpacks packs
//! back to itself. The words that do not unpack are those from `0xC000` up,
//! whose exponent the sensor never produces. Only the mantissa is inverted.
//! A decoder that inverted the exponent bits as well would return the right
//! measurement for no word at all; the laws at the end of this module state
//! both facts.

use crate::decimal::{decimal, digit, push_decimal};
use crate::registers::Field;
use vstd::arithmetic::power2::{lemma2_to64, lemma_pow2_strictly_increases, pow2};
use vstd::prelude::*;
use vstd::std_specs::convert::{FromSpecImpl, TryFromSpecImpl};
use vstd::string::StringExecFns;

verus! {

/// Largest exponent the sensor produces.
pub const MAX_EXPONENT: u8 = 11;

/// Largest value of the 12-bit mantissa.
pub const MAX_FRACTIONAL: u16 = 4095;

/// Largest light level a measurement can express, in hundredths of a lux.
pub const MAX_CENTILUX: u32 = 8_386_560;

/// An exponent or a mantissa lies outside its range.
#[derive(Clone, Copy, Debug, PartialEq, Eq, Structural)]
pub struct InvalidField;

/// The mathematical content of a measurement.
pub struct Reading {
    pub exponent: int,
    pub fractional: int,
}

impl Reading {
    /// Both fields lie within the ranges the sensor uses.
    pub open spec fn valid(self) -> bool {
        0 <= self.exponent <= 11 && 0 <= self.fractional <= 4095
    }

    /// The light level in hundredths of a lux: the mantissa times two to the
    /// power of the exponent.
    pub open spec fn centilux(self) -> int {
        pow2(self.exponent as nat) * self.fractional
    }

    /// The packed register word: the exponent above the inverted mantissa.
    pub open spec fn compact(self) -> int {
        self.exponent * 4096 + (4095 - self.fractional)
    }

    /// The reading a register word stands for, if its exponent is one the
    /// sensor produces.
    pub open spec fn decode(word: int) -> Option<Reading> {
        if word / 4096 <= 11 {
            Some(Reading { exponent: word / 4096, fractional: 4095 - word % 4096 })
        } else {
            None
        }
    }

    /// The light level in hundredths of a lux, as text: the whole number,
    /// then ` lux`.
    pub open spec fn centilux_text(self) -> Seq<char> {
        decimal(self.centilux() as nat) + seq![' ', 'l', 'u', 'x']
    }

    /// The light level in lux, as text: the whole lux, then, unless the
    /// level is a whole number of lux, a point and the hundredths without a
    /// trailing zero, then ` lux`.
    pub open spec fn lux_text(self) -> Seq<char> {
        let whole = decimal((self.centilux() / 100) as nat);
        let hundredths = self.centilux() % 100;
        let fraction = if hundredths == 0 {
            Seq::<char>::empty()
        } else if hundredths % 10 == 0 {
            seq!['.', digit(hundredths / 10)]
        } else {
            seq!['.', digit(hundredths / 10), digit(hundredths % 10)]
        };
        whole + fraction + seq![' ', 'l', 'u', 'x']
    }
}

/// A light measurement: a mantissa scaled by a power of two.
///
/// The fields are private and every value is built by [`OptMesurment::new`],
/// so both stay within their ranges for the life of the value.
#[derive(Clone, Copy, Debug, PartialEq, Eq, Structural)]
pub struct OptMesurment {
    exponent: u8,
    fractional: u16,
}

impl View for OptMesurment {
    type V = Reading;

    closed spec fn view(&self) -> Reading {
        Reading { exponent: self.exponent as int, fractional: self.fractional as int }
    }
}

impl OptMesurment {
    /// The invariant of the type: the reading it holds is valid.
    #[verifier::type_invariant]
    pub closed spec fn well_formed(self) -> bool {
        self@.valid()
    }

    /// Builds a measurement, refusing fields outside their range.
    pub fn new(exponent: u8, fractional: u16) -> (r: Result<Self, InvalidField>)
        ensures
            r is Ok <==> exponent <= 11 && fractional <= 4095,
            r is Ok ==> r->Ok_0@ == (Reading {
                exponent: exponent as int,
                fractional: fractional as int,
            }),
    {
        if exponent > MAX_EXPONENT || fractional > MAX_FRACTIONAL {
            Err(InvalidField)
        } else {
            Ok(Self { exponent, fractional })
        }
    }

    /// The exponent, between 0 and 11.
    pub fn exponent(&self) -> (e: u8)
        ensures
            e == self@.exponent,
            self@.valid(),
    {
        proof {
            use_type_invariant(self);
        }
        self.exponent
    }

    /// The mantissa, between 0 and 4095.
    pub fn fractional(&self) -> (f: u16)
        ensures
            f == self@.fractional,
            self@.valid(),
    {
        proof {
            use_type_invariant(self);
        }
        self.fractional
    }

    /// Packs the measurement into its register word.
    pub fn to_compact(&self) -> (word: u16)
        ensures
            word == self@.compact(),
            self@.valid(),
    {
        proof {
            use_type_invariant(self);
        }
        let e = self.exponent;
        let f = self.fractional;
        assert(((e as u16) << 12 | (f ^ 0x0FFF)) == e * 4096 + (4095 - f)) by (bit_vector)
            requires
                e <= 11,
                f <= 4095,
        ;
        (e as u16) << 12 | (f ^ 0x0FFF)
    }

    /// Unpacks a register word, refusing an exponent the sensor never
    /// produces. The exponent is read from the top four bits as they stand
    /// and the mantissa from the low twelve bits, inverted.
    pub fn from_compact(compact: u16) -> (r: Result<Self, InvalidField>)
        ensures
            r is Ok <==> Reading::decode(compact as int) is Some,
            r is Ok ==> Some(r->Ok_0@) == Reading::decode(compact as int),
    {
        assert((compact >> 12) == compact / 4096 && (compact >> 12) <= 15) by (bit_vector);
        assert(((compact & 0x0FFF) ^ 0x0FFF) == 4095 - compact % 4096) by (bit_vector);
        Self::new((compact >> 12) as u8, (compact & 0x0FFF) ^ 0x0FFF)
    }

    /// The light level in hundredths of a lux.
    pub fn get_centilux(&self) -> (centilux: u32)
        ensures
            centilux == self@.centilux(),
            centilux <= MAX_CENTILUX,
            self@.valid(),
    {
        proof {
            use_type_invariant(self);
            lemma_centilux_bound(self@);
        }
        let e = self.exponent;
        let exponent_val: u32 = 1 << e as u32;
        proof {
            lemma_shift_is_pow2(e);
            lemma_pow2_strictly_increases(e as nat, 12);
            lemma2_to64();
        }
        exponent_val * self.fractional as u32
    }

    /// The light level in lux, as text, such as `16 lux` or `0.25 lux`.
    pub fn to_string(&self) -> (text: String)
        ensures
            text@ == self@.lux_text(),
    {
        let centilux = self.get_centilux();
        let hundredths = centilux % 100;
        let mut text = String::new();
        push_decimal(&mut text, centilux / 100);
        if hundredths != 0 {
            proof {
                reveal_strlit(".");
            }
            text.append(".");
            push_decimal(&mut text, hundredths / 10);
            if hundredths % 10 != 0 {
                push_decimal(&mut text, hundredths % 10);
            }
        }
        proof {
            reveal_strlit(" lux");
        }
        text.append(" lux");
        assert(text@ =~= self@.lux_text());
        text
    }

    /// The light level in hundredths of a lux, as text, such as `1600 lux`.
    pub fn to_string_alternate(&self) -> (text: String)
        ensures
            text@ == self@.centilux_text(),
    {
        let mut text = String::new();
        push_decimal(&mut text, self.get_centilux());
        proof {
            reveal_strlit(" lux");
        }
        text.append(" lux");
        assert(text@ =~= self@.centilux_text());
        text
    }
}

impl TryFrom<u16> for OptMesurment {
    type Error = InvalidField;

    /// Unpacks a register word, as [`OptMesurment::from_compact`] does.
    fn try_from(value: u16) -> (r: Result<Self, InvalidField>)
        ensures
            r is Ok <==> Reading::decode(value as int) is Some,
            r is Ok ==> Some(r->Ok_0@) == Reading::decode(value as int),
    {
        let r = Self::from_compact(value);
        proof {
            assert(value / 4096 <= 15 && value % 4096 <= 4095) by (bit_vector);
            match r {
                Ok(m) => {
                    assert(m.exponent == m@.exponent && m.fractional == m@.fractional);
                    assert(m == (OptMesurment {
                        exponent: (value / 4096) as u8,
                        fractional: (4095 - value % 4096) as u16,
                    }));
                },
                Err(e) => {
                    assert(e == InvalidField);
                },
            }
        }
        r
    }
}

impl TryFromSpecImpl<u16> for OptMesurment {
    open spec fn obeys_try_from_spec() -> bool {
        true
    }

    closed spec fn try_from_spec(value: u16) -> Result<Self, InvalidField> {
        if value / 4096 <= 11 {
            Ok(
                OptMesurment {
                    exponent: (value / 4096) as u8,
                    fractional: (4095 - value % 4096) as u16,
                },
            )
        } else {
            Err(InvalidField)
        }
    }
}

impl From<OptMesurment> for u16 {
    /// Packs the measurement, as [`OptMesurment::to_compact`] does.
    fn from(value: OptMesurment) -> (word: u16)
        ensures
            word == value@.compact(),
    {
        value.to_compact()
    }
}

impl FromSpecImpl<OptMesurment> for u16 {
    open spec fn obeys_from_spec() -> bool {
        true
    }

    open spec fn from_spec(value: OptMesurment) -> u16 {
        value@.compact() as u16
    }
}

/// Shifting one left by an exponent in range gives that power of two.
proof fn lemma_shift_is_pow2(e: u8)
    requires
        e <= 11,
    ensures
        (1u32 << (e as u32)) == pow2(e as nat),
{
    lemma2_to64();
    assert(1u32 << 0u32 == 1 && 1u32 << 1u32 == 2 && 1u32 << 2u32 == 4 && 1u32 << 3u32 == 8
        && 1u32 << 4u32 == 16 && 1u32 << 5u32 == 32 && 1u32 << 6u32 == 64 && 1u32 << 7u32 == 128
        && 1u32 << 8u32 == 256 && 1u32 << 9u32 == 512 && 1u32 << 10u32 == 1024 && 1u32 << 11u32
        == 2048) by (bit_vector);
}

/// The light level grows with either field: a reading that is no smaller in
/// exponent and in mantissa is no dimmer.
pub proof fn lemma_centilux_monotonic(a: Reading, b: Reading)
    requires
        a.valid(),
        b.valid(),
        a.exponent <= b.exponent,
        a.fractional <= b.fractional,
    ensures
        a.centilux() <= b.centilux(),
{
    if a.exponent < b.exponent {
        lemma_pow2_strictly_increases(a.exponent as nat, b.exponent as nat);
    }
    let pa = pow2(a.exponent as nat) as int;
    let pb = pow2(b.exponent as nat) as int;
    assert(pa * a.fractional <= pb * b.fractional) by (nonlinear_arith)
        requires
            0 <= pa <= pb,
            0 <= a.fractional <= b.fractional,
    ;
}

/// No reading exceeds 8 386 560 centilux, and only the reading with the
/// largest exponent and the largest mantissa reaches it.
pub proof fn lemma_centilux_bound(a: Reading)
    requires
        a.valid(),
    ensures
        0 <= a.centilux() <= 8_386_560,
        a.centilux() == 8_386_560 <==> a.exponent == 11 && a.fractional == 4095,
{
    lemma2_to64();
    let p = pow2(a.exponent as nat) as int;
    if a.exponent < 11 {
        if a.exponent < 10 {
            lemma_pow2_strictly_increases(a.exponent as nat, 10);
        }
        assert(0 <= p * a.fractional <= 1024 * 4095) by (nonlinear_arith)
            requires
                0 <= p <= 1024,
                0 <= a.fractional <= 4095,
        ;
    } else {
        assert(p == 2048);
    }
}

/// Packing then unpacking returns the reading that went in.
pub proof fn lemma_decode_inverts_compact(a: Reading)
    requires
        a.valid(),
    ensures
        0 <= a.compact() <= 0xBFFF,
        Reading::decode(a.compact()) == Some(a),
{
}

/// Unpacking then packing returns the word that went in, whenever the word
/// unpacks at all, and what it unpacks to is a valid reading.
pub proof fn lemma_compact_inverts_decode(word: int)
    requires
        0 <= word <= 0xFFFF,
        Reading::decode(word) is Some,
    ensures
        Reading::decode(word)->Some_0.valid(),
        Reading::decode(word)->Some_0.compact() == word,
{
}

/// A word unpacks exactly when its top four bits hold an exponent of at most
/// eleven, that is when it lies below 0xC000.
pub proof fn lemma_decode_domain(word: int)
    requires
        0 <= word <= 0xFFFF,
    ensures
        Reading::decode(word) is Some <==> word < 0xC000,
{
}

/// The polarity of the exponent bits matters: the word of a reading with its
/// top four bits inverted never unpacks to that reading.
pub proof fn lemma_inverted_exponent_differs(a: Reading, word: u16)
    requires
        a.valid(),
        word == a.compact(),
    ensures
        Reading::decode((word ^ 0xF000) as int) != Some(a),
{
    let flipped = word ^ 0xF000;
    assert(flipped / 4096 == 15 - word / 4096) by (bit_vector)
        requires
            flipped == word ^ 0xF000,
    ;
}

/// The codec reads the fields where the register layout puts them: the
/// exponent is the exponent field, and the mantissa the inverse of the
/// fractional field.
pub proof fn lemma_decode_follows_layout(word: u16)
    ensures
        Reading::decode(word as int) is Some <==> Field::Exponent.range_spec().value_in(
            word as int,
        ) <= 11,
        Reading::decode(word as int) is Some ==> Reading::decode(word as int)->Some_0 == (Reading {
            exponent: Field::Exponent.range_spec().value_in(word as int),
            fractional: 4095 - Field::Fractional.range_spec().value_in(word as int),
        }),
{
    lemma2_to64();
    assert(Field::Exponent.range_spec().width() == 4);
    assert(Field::Fractional.range_spec().width() == 12);
    assert(Field::Exponent.range_spec().value_in(word as int) == (word as int / 4096) % 16);
    assert(Field::Fractional.range_spec().value_in(word as int) == (word as int / 1) % 4096);
    assert(word / 4096 <= 15) by (bit_vector);
}

} // verus!
