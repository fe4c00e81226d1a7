//! The configuration register as a structured value.
//!
//! Every 16-bit word decodes: the settings with names cover every pattern of
//! their bits, and the operating mode absorbs the patterns it does not name
//! into its last setting.

use crate::bits::extract;
use crate::registers::Field;
use vstd::arithmetic::power2::lemma2_to64;
use vstd::prelude::*;

verus! {

/// How many consecutive out-of-window readings raise the interrupt.
#[derive(Clone, Copy, Debug, PartialEq, Eq, Structural)]
pub enum FaultCount {
    One,
    Two,
    Four,
    Eight,
}

/// The operating mode of the converter.
#[derive(Clone, Copy, Debug, PartialEq, Eq, Structural)]
pub enum ConvertionMode {
    Shutdown,
    SingleShot,
    /// Every pattern that names neither of the other two.
    Continuous,
}

/// How long one conversion takes.
#[derive(Clone, Copy, Debug, PartialEq, Eq, Structural)]
pub enum ConvertionTime {
    Ms100,
    Ms800,
}

impl FaultCount {
    /// The setting that the two low bits of `bits` name.
    pub open spec fn of_bits(bits: int) -> FaultCount {
        if bits % 4 == 0 {
            FaultCount::One
        } else if bits % 4 == 1 {
            FaultCount::Two
        } else if bits % 4 == 2 {
            FaultCount::Four
        } else {
            FaultCount::Eight
        }
    }

    /// The pattern that names the setting.
    pub open spec fn bits_spec(self) -> int {
        match self {
            FaultCount::One => 0,
            FaultCount::Two => 1,
            FaultCount::Four => 2,
            FaultCount::Eight => 3,
        }
    }

    /// Decodes the two low bits of `bits`; higher bits are ignored.
    pub fn from_bits(bits: u16) -> (r: FaultCount)
        ensures
            r == FaultCount::of_bits(bits as int),
    {
        assert(bits & 3 == bits % 4) by (bit_vector);
        match bits & 3 {
            0 => FaultCount::One,
            1 => FaultCount::Two,
            2 => FaultCount::Four,
            _ => FaultCount::Eight,
        }
    }

    /// The pattern that names the setting.
    pub fn to_bits(self) -> (bits: u16)
        ensures
            bits == self.bits_spec(),
    {
        match self {
            FaultCount::One => 0,
            FaultCount::Two => 1,
            FaultCount::Four => 2,
            FaultCount::Eight => 3,
        }
    }
}

impl ConvertionMode {
    /// The setting that `bits` names: the two named patterns are tried
    /// first, and whatever matches neither is continuous conversion.
    pub open spec fn of_bits(bits: int) -> ConvertionMode {
        if bits == 0 {
            ConvertionMode::Shutdown
        } else if bits == 1 {
            ConvertionMode::SingleShot
        } else {
            ConvertionMode::Continuous
        }
    }

    /// The pattern that names the setting; continuous conversion is written
    /// as `10`.
    pub open spec fn bits_spec(self) -> int {
        match self {
            ConvertionMode::Shutdown => 0,
            ConvertionMode::SingleShot => 1,
            ConvertionMode::Continuous => 2,
        }
    }

    /// Decodes a pattern. No pattern is refused.
    pub fn from_bits(bits: u16) -> (r: ConvertionMode)
        ensures
            r == ConvertionMode::of_bits(bits as int),
    {
        match bits {
            0 => ConvertionMode::Shutdown,
            1 => ConvertionMode::SingleShot,
            _ => ConvertionMode::Continuous,
        }
    }

    /// The pattern that names the setting.
    pub fn to_bits(self) -> (bits: u16)
        ensures
            bits == self.bits_spec(),
    {
        match self {
            ConvertionMode::Shutdown => 0,
            ConvertionMode::SingleShot => 1,
            ConvertionMode::Continuous => 2,
        }
    }
}

impl ConvertionTime {
    /// The setting that the low bit of `bits` names.
    pub open spec fn of_bits(bits: int) -> ConvertionTime {
        if bits % 2 == 0 {
            ConvertionTime::Ms100
        } else {
            ConvertionTime::Ms800
        }
    }

    /// The pattern that names the setting.
    pub open spec fn bits_spec(self) -> int {
        match self {
            ConvertionTime::Ms100 => 0,
            ConvertionTime::Ms800 => 1,
        }
    }

    /// Decodes the low bit of `bits`; higher bits are ignored.
    pub fn from_bits(bits: u16) -> (r: ConvertionTime)
        ensures
            r == ConvertionTime::of_bits(bits as int),
    {
        assert(bits & 1 == bits % 2) by (bit_vector);
        match bits & 1 {
            0 => ConvertionTime::Ms100,
            _ => ConvertionTime::Ms800,
        }
    }

    /// The pattern that names the setting.
    pub fn to_bits(self) -> (bits: u16)
        ensures
            bits == self.bits_spec(),
    {
        match self {
            ConvertionTime::Ms100 => 0,
            ConvertionTime::Ms800 => 1,
        }
    }
}

/// The fields of the configuration register.
#[derive(Clone, Copy, Debug, PartialEq, Eq, Structural)]
pub struct Configuration {
    pub fault_count: FaultCount,
    pub mask: bool,
    pub polarity: bool,
    pub latch: bool,
    pub flag_low: bool,
    pub flag_high: bool,
    pub conversion_ready: bool,
    pub overflow_flag: bool,
    pub convertion_mode: ConvertionMode,
    pub convertion_time: ConvertionTime,
    pub range_number: u8,
}

/// One for a set flag, zero for a clear one.
pub open spec fn flag_bit(flag: bool) -> int {
    if flag {
        1
    } else {
        0
    }
}

impl Configuration {
    /// The configuration a register word stands for: each field is read from
    /// the bits that the register layout gives it.
    pub open spec fn of_word(word: int) -> Configuration {
        Configuration {
            fault_count: FaultCount::of_bits(Field::FaultCount.range_spec().value_in(word)),
            mask: Field::Mask.range_spec().value_in(word) != 0,
            polarity: Field::Polarity.range_spec().value_in(word) != 0,
            latch: Field::Latch.range_spec().value_in(word) != 0,
            flag_low: Field::FlagLow.range_spec().value_in(word) != 0,
            flag_high: Field::FlagHigh.range_spec().value_in(word) != 0,
            conversion_ready: Field::ConversionReady.range_spec().value_in(word) != 0,
            overflow_flag: Field::OverflowFlag.range_spec().value_in(word) != 0,
            convertion_mode: ConvertionMode::of_bits(
                Field::ConvertionMode.range_spec().value_in(word),
            ),
            convertion_time: ConvertionTime::of_bits(
                Field::ConvertionTime.range_spec().value_in(word),
            ),
            range_number: Field::RangeNumber.range_spec().value_in(word) as u8,
        }
    }

    /// The register word of a configuration: each field weighted by the
    /// position of its lowest bit. Of the range number only the four low
    /// bits count.
    pub open spec fn word(self) -> int {
        self.fault_count.bits_spec() + 4 * flag_bit(self.mask) + 8 * flag_bit(self.polarity) + 16
            * flag_bit(self.latch) + 32 * flag_bit(self.flag_low) + 64 * flag_bit(self.flag_high)
            + 128 * flag_bit(self.conversion_ready) + 256 * flag_bit(self.overflow_flag) + 512
            * self.convertion_mode.bits_spec() + 2048 * self.convertion_time.bits_spec() + 4096 * (
        self.range_number % 16)
    }

    /// Decodes a register word. Every word decodes.
    pub fn decode(word: u16) -> (c: Configuration)
        ensures
            c == Configuration::of_word(word as int),
            c.range_number <= 15,
    {
        let range_number = extract(word, Field::RangeNumber.range());
        proof {
            lemma2_to64();
        }
        Configuration {
            fault_count: FaultCount::from_bits(extract(word, Field::FaultCount.range())),
            mask: extract(word, Field::Mask.range()) != 0,
            polarity: extract(word, Field::Polarity.range()) != 0,
            latch: extract(word, Field::Latch.range()) != 0,
            flag_low: extract(word, Field::FlagLow.range()) != 0,
            flag_high: extract(word, Field::FlagHigh.range()) != 0,
            conversion_ready: extract(word, Field::ConversionReady.range()) != 0,
            overflow_flag: extract(word, Field::OverflowFlag.range()) != 0,
            convertion_mode: ConvertionMode::from_bits(
                extract(word, Field::ConvertionMode.range()),
            ),
            convertion_time: ConvertionTime::from_bits(
                extract(word, Field::ConvertionTime.range()),
            ),
            range_number: range_number as u8,
        }
    }

    /// Encodes the configuration as a register word.
    pub fn encode(&self) -> (word: u16)
        ensures
            word == self.word(),
    {
        let fault_count: u16 = self.fault_count.to_bits();
        let mask: u16 = if self.mask { 1 } else { 0 };
        let polarity: u16 = if self.polarity { 1 } else { 0 };
        let latch: u16 = if self.latch { 1 } else { 0 };
        let flag_low: u16 = if self.flag_low { 1 } else { 0 };
        let flag_high: u16 = if self.flag_high { 1 } else { 0 };
        let conversion_ready: u16 = if self.conversion_ready { 1 } else { 0 };
        let overflow_flag: u16 = if self.overflow_flag { 1 } else { 0 };
        let convertion_mode: u16 = self.convertion_mode.to_bits();
        let convertion_time: u16 = self.convertion_time.to_bits();
        let range_number: u16 = (self.range_number & 0x0F) as u16;
        let n = self.range_number;
        assert(n & 0x0F == n % 16) by (bit_vector);
        assert((fault_count | mask << 2 | polarity << 3 | latch << 4 | flag_low << 5 | flag_high
            << 6 | conversion_ready << 7 | overflow_flag << 8 | convertion_mode << 9
            | convertion_time << 11 | range_number << 12) == fault_count + 4 * mask + 8 * polarity
            + 16 * latch + 32 * flag_low + 64 * flag_high + 128 * conversion_ready + 256
            * overflow_flag + 512 * convertion_mode + 2048 * convertion_time + 4096 * range_number)
            by (bit_vector)
            requires
                fault_count <= 3,
                mask <= 1,
                polarity <= 1,
                latch <= 1,
                flag_low <= 1,
                flag_high <= 1,
                conversion_ready <= 1,
                overflow_flag <= 1,
                convertion_mode <= 3,
                convertion_time <= 1,
                range_number <= 15,
        ;
        fault_count | mask << 2 | polarity << 3 | latch << 4 | flag_low << 5 | flag_high << 6
            | conversion_ready << 7 | overflow_flag << 8 | convertion_mode << 9 | convertion_time
            << 11 | range_number << 12
    }
}

/// The value of each field of the configuration register, by division and
/// remainder.
proof fn lemma_field_values(word: int)
    ensures
        Field::FaultCount.range_spec().value_in(word) == word % 4,
        Field::Mask.range_spec().value_in(word) == (word / 4) % 2,
        Field::Polarity.range_spec().value_in(word) == (word / 8) % 2,
        Field::Latch.range_spec().value_in(word) == (word / 16) % 2,
        Field::FlagLow.range_spec().value_in(word) == (word / 32) % 2,
        Field::FlagHigh.range_spec().value_in(word) == (word / 64) % 2,
        Field::ConversionReady.range_spec().value_in(word) == (word / 128) % 2,
        Field::OverflowFlag.range_spec().value_in(word) == (word / 256) % 2,
        Field::ConvertionMode.range_spec().value_in(word) == (word / 512) % 4,
        Field::ConvertionTime.range_spec().value_in(word) == (word / 2048) % 2,
        Field::RangeNumber.range_spec().value_in(word) == (word / 4096) % 16,
{
    lemma2_to64();
    assert(Field::FaultCount.range_spec().width() == 2);
    assert(Field::Mask.range_spec().width() == 1);
    assert(Field::ConvertionMode.range_spec().width() == 2);
    assert(Field::RangeNumber.range_spec().width() == 4);
}

/// A word is the sum of its fields, each weighted by the position of its
/// lowest bit.
proof fn lemma_word_is_sum_of_fields(x: u16)
    ensures
        x == x % 4 + 4 * ((x / 4) % 2) + 8 * ((x / 8) % 2) + 16 * ((x / 16) % 2) + 32 * ((x / 32)
            % 2) + 64 * ((x / 64) % 2) + 128 * ((x / 128) % 2) + 256 * ((x / 256) % 2) + 512 * ((x
            / 512) % 4) + 2048 * ((x / 2048) % 2) + 4096 * ((x / 4096) % 16),
{
    assert(x == x % 4 + 4 * ((x / 4) % 2) + 8 * ((x / 8) % 2) + 16 * ((x / 16) % 2) + 32 * ((x
        / 32) % 2) + 64 * ((x / 64) % 2) + 128 * ((x / 128) % 2) + 256 * ((x / 256) % 2) + 512 * ((
    x / 512) % 4) + 2048 * ((x / 2048) % 2) + 4096 * ((x / 4096) % 16)) by (bit_vector);
}

/// The fields of a sum of weighted fields are the fields that were summed.
proof fn lemma_fields_of_sum(
    x: u16,
    fault_count: u16,
    mask: u16,
    polarity: u16,
    latch: u16,
    flag_low: u16,
    flag_high: u16,
    conversion_ready: u16,
    overflow_flag: u16,
    convertion_mode: u16,
    convertion_time: u16,
    range_number: u16,
)
    requires
        fault_count <= 3,
        mask <= 1,
        polarity <= 1,
        latch <= 1,
        flag_low <= 1,
        flag_high <= 1,
        conversion_ready <= 1,
        overflow_flag <= 1,
        convertion_mode <= 3,
        convertion_time <= 1,
        range_number <= 15,
        x == fault_count + 4 * mask + 8 * polarity + 16 * latch + 32 * flag_low + 64 * flag_high
            + 128 * conversion_ready + 256 * overflow_flag + 512 * convertion_mode + 2048
            * convertion_time + 4096 * range_number,
    ensures
        x % 4 == fault_count,
        (x / 4) % 2 == mask,
        (x / 8) % 2 == polarity,
        (x / 16) % 2 == latch,
        (x / 32) % 2 == flag_low,
        (x / 64) % 2 == flag_high,
        (x / 128) % 2 == conversion_ready,
        (x / 256) % 2 == overflow_flag,
        (x / 512) % 4 == convertion_mode,
        (x / 2048) % 2 == convertion_time,
        (x / 4096) % 16 == range_number,
{
    assert(x % 4 == fault_count && (x / 4) % 2 == mask && (x / 8) % 2 == polarity && (x / 16) % 2
        == latch && (x / 32) % 2 == flag_low && (x / 64) % 2 == flag_high && (x / 128) % 2
        == conversion_ready && (x / 256) % 2 == overflow_flag && (x / 512) % 4 == convertion_mode
        && (x / 2048) % 2 == convertion_time && (x / 4096) % 16 == range_number) by (bit_vector)
        requires
            fault_count <= 3,
            mask <= 1,
            polarity <= 1,
            latch <= 1,
            flag_low <= 1,
            flag_high <= 1,
            conversion_ready <= 1,
            overflow_flag <= 1,
            convertion_mode <= 3,
            convertion_time <= 1,
            range_number <= 15,
            x == fault_count + 4 * mask + 8 * polarity + 16 * latch + 32 * flag_low + 64
                * flag_high + 128 * conversion_ready + 256 * overflow_flag + 512 * convertion_mode
                + 2048 * convertion_time + 4096 * range_number,
    ;
}

/// Decoding what was encoded returns the configuration that went in, as
/// long as its range number fits in four bits.
pub proof fn lemma_decode_inverts_encode(c: Configuration)
    requires
        c.range_number <= 15,
    ensures
        0 <= c.word() <= 0xFFFF,
        Configuration::of_word(c.word()) == c,
{
    lemma_field_values(c.word());
    let x = c.word() as u16;
    lemma_fields_of_sum(
        x,
        c.fault_count.bits_spec() as u16,
        flag_bit(c.mask) as u16,
        flag_bit(c.polarity) as u16,
        flag_bit(c.latch) as u16,
        flag_bit(c.flag_low) as u16,
        flag_bit(c.flag_high) as u16,
        flag_bit(c.conversion_ready) as u16,
        flag_bit(c.overflow_flag) as u16,
        c.convertion_mode.bits_spec() as u16,
        c.convertion_time.bits_spec() as u16,
        c.range_number as u16,
    );
    let d = Configuration::of_word(c.word());
    assert(d.fault_count == c.fault_count);
    assert(d.convertion_mode == c.convertion_mode);
    assert(d.convertion_time == c.convertion_time);
    assert(d.range_number == c.range_number);
}

/// Encoding what was decoded returns the word that went in, except that the
/// unnamed mode pattern `11` comes back as `10`, the pattern under which
/// continuous conversion is written.
pub proof fn lemma_encode_inverts_decode(word: u16)
    ensures
        Configuration::of_word(word as int).word() == if (word / 512) % 4 == 3 {
            word - 512
        } else {
            word as int
        },
{
    lemma_field_values(word as int);
    lemma_word_is_sum_of_fields(word);
    let c = Configuration::of_word(word as int);
    assert(c.fault_count.bits_spec() == word % 4);
    assert(c.convertion_time.bits_spec() == (word / 2048) % 2);
    assert(c.range_number == (word / 4096) % 16);
    assert(c.convertion_mode.bits_spec() == if (word / 512) % 4 == 3 {
        2
    } else {
        ((word / 512) % 4) as int
    });
}

/// The operating mode is decoded from bits 9 and 10: `00` is shutdown, `01`
/// a single conversion, and both `10` and `11` continuous conversion.
pub proof fn lemma_mode_decoding(word: u16)
    ensures
        Configuration::of_word(word as int).convertion_mode == match (word / 512) % 4 {
            0 => ConvertionMode::Shutdown,
            1 => ConvertionMode::SingleShot,
            _ => ConvertionMode::Continuous,
        },
{
    lemma_field_values(word as int);
}

} // verus!
