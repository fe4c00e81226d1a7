//! The register file of the sensor: addresses, access modes and fields.
//!
//! Each register is sixteen bits wide and is described by a
//! [`RegisterDescriptor`]: where it lives, whether the host may write it, and
//! which named bit ranges it is made of. The routines on a descriptor work
//! for any well-formed descriptor, not only for the six of this sensor.

use crate::bits::{
    extract, insert, lemma_bounds, lemma_read_after_write, lemma_write_keeps_disjoint,
    lemma_zero_word, BitRange,
};
use vstd::arithmetic::power2::lemma2_to64;
use vstd::prelude::*;

verus! {

/// Width of every register of the sensor, in bits.
pub const SIZE_BITS: u8 = 16;

/// Whether the host may write.
#[derive(Clone, Copy, Debug, PartialEq, Eq, Structural)]
pub enum Access {
    /// The host may only read.
    RO,
    /// The host may read and write.
    RW,
}

/// What the bits of a field stand for.
#[derive(Clone, Copy, Debug, PartialEq, Eq, Structural)]
pub enum FieldKind {
    /// An unsigned number.
    Uint,
    /// A single bit, set or clear.
    Bool,
    /// One of a fixed list of named settings.
    Enum,
}

/// The names of the fields.
#[derive(Clone, Copy, Debug, PartialEq, Eq, Structural)]
pub enum Field {
    Fractional,
    Exponent,
    FaultCount,
    Mask,
    Polarity,
    Latch,
    FlagLow,
    FlagHigh,
    ConversionReady,
    OverflowFlag,
    ConvertionMode,
    ConvertionTime,
    RangeNumber,
    Id,
}

/// The registers of the sensor.
#[derive(Clone, Copy, Debug, PartialEq, Eq, Structural)]
pub enum Register {
    Measurment,
    Configuration,
    Lowlimit,
    Highlimit,
    ManufacturerID,
    DeviceID,
}

/// A write was attempted where the host may only read.
#[derive(Clone, Copy, Debug, PartialEq, Eq, Structural)]
pub enum AccessViolation {
    /// The register as a whole is read-only.
    ReadOnlyRegister,
    /// The word sets a bit of a read-only field of a writable register.
    ReadOnlyField,
}

/// One named bit range of a register.
#[derive(Clone, Copy, Debug, PartialEq, Eq, Structural)]
pub struct FieldDescriptor {
    pub field: Field,
    pub range: BitRange,
    pub access: Access,
    pub kind: FieldKind,
}

/// One register: its address, its width, its access mode and its fields, in
/// the order in which they are declared.
#[derive(Debug)]
pub struct RegisterDescriptor {
    pub address: u8,
    pub size_bits: u8,
    pub access: Access,
    pub fields: Vec<FieldDescriptor>,
}

impl Field {
    /// The bits a field occupies.
    pub open spec fn range_spec(self) -> BitRange {
        match self {
            Field::Fractional => BitRange { start: 0, end: 11 },
            Field::Exponent => BitRange { start: 12, end: 15 },
            Field::FaultCount => BitRange { start: 0, end: 1 },
            Field::Mask => BitRange { start: 2, end: 2 },
            Field::Polarity => BitRange { start: 3, end: 3 },
            Field::Latch => BitRange { start: 4, end: 4 },
            Field::FlagLow => BitRange { start: 5, end: 5 },
            Field::FlagHigh => BitRange { start: 6, end: 6 },
            Field::ConversionReady => BitRange { start: 7, end: 7 },
            Field::OverflowFlag => BitRange { start: 8, end: 8 },
            Field::ConvertionMode => BitRange { start: 9, end: 10 },
            Field::ConvertionTime => BitRange { start: 11, end: 11 },
            Field::RangeNumber => BitRange { start: 12, end: 15 },
            Field::Id => BitRange { start: 0, end: 15 },
        }
    }

    /// What the bits of a field stand for.
    pub open spec fn kind_spec(self) -> FieldKind {
        match self {
            Field::Fractional | Field::Exponent | Field::RangeNumber | Field::Id => FieldKind::Uint,
            Field::FaultCount | Field::ConvertionMode | Field::ConvertionTime => FieldKind::Enum,
            _ => FieldKind::Bool,
        }
    }

    /// The field is a status flag, which the sensor sets and the host only
    /// reads, whatever the register allows.
    pub open spec fn is_status(self) -> bool {
        self == Field::FlagLow || self == Field::FlagHigh || self == Field::ConversionReady
            || self == Field::OverflowFlag
    }

    /// The bits a field occupies.
    pub fn range(self) -> (r: BitRange)
        ensures
            r == self.range_spec(),
            r.valid(),
    {
        match self {
            Field::Fractional => BitRange { start: 0, end: 11 },
            Field::Exponent => BitRange { start: 12, end: 15 },
            Field::FaultCount => BitRange { start: 0, end: 1 },
            Field::Mask => BitRange { start: 2, end: 2 },
            Field::Polarity => BitRange { start: 3, end: 3 },
            Field::Latch => BitRange { start: 4, end: 4 },
            Field::FlagLow => BitRange { start: 5, end: 5 },
            Field::FlagHigh => BitRange { start: 6, end: 6 },
            Field::ConversionReady => BitRange { start: 7, end: 7 },
            Field::OverflowFlag => BitRange { start: 8, end: 8 },
            Field::ConvertionMode => BitRange { start: 9, end: 10 },
            Field::ConvertionTime => BitRange { start: 11, end: 11 },
            Field::RangeNumber => BitRange { start: 12, end: 15 },
            Field::Id => BitRange { start: 0, end: 15 },
        }
    }

    /// What the bits of a field stand for.
    pub fn kind(self) -> (k: FieldKind)
        ensures
            k == self.kind_spec(),
    {
        match self {
            Field::Fractional | Field::Exponent | Field::RangeNumber | Field::Id => FieldKind::Uint,
            Field::FaultCount | Field::ConvertionMode | Field::ConvertionTime => FieldKind::Enum,
            _ => FieldKind::Bool,
        }
    }
}

impl Register {
    /// The address of a register on the bus.
    pub open spec fn address_spec(self) -> u8 {
        match self {
            Register::Measurment => 0x00,
            Register::Configuration => 0x01,
            Register::Lowlimit => 0x02,
            Register::Highlimit => 0x03,
            Register::ManufacturerID => 0x7E,
            Register::DeviceID => 0x7F,
        }
    }

    /// The register that lives at an address, if there is one.
    pub open spec fn at(address: u8) -> Option<Register> {
        if address == 0x00 {
            Some(Register::Measurment)
        } else if address == 0x01 {
            Some(Register::Configuration)
        } else if address == 0x02 {
            Some(Register::Lowlimit)
        } else if address == 0x03 {
            Some(Register::Highlimit)
        } else if address == 0x7E {
            Some(Register::ManufacturerID)
        } else if address == 0x7F {
            Some(Register::DeviceID)
        } else {
            None
        }
    }

    /// Whether the host may write a register.
    pub open spec fn access_spec(self) -> Access {
        match self {
            Register::Configuration | Register::Lowlimit | Register::Highlimit => Access::RW,
            _ => Access::RO,
        }
    }

    /// The fields of a register, in the order in which they are declared.
    pub open spec fn fields_spec(self) -> Seq<Field> {
        match self {
            Register::Measurment | Register::Lowlimit | Register::Highlimit => seq![
                Field::Fractional,
                Field::Exponent,
            ],
            Register::Configuration => seq![
                Field::FaultCount,
                Field::Mask,
                Field::Polarity,
                Field::Latch,
                Field::FlagLow,
                Field::FlagHigh,
                Field::ConversionReady,
                Field::OverflowFlag,
                Field::ConvertionMode,
                Field::ConvertionTime,
                Field::RangeNumber,
            ],
            Register::ManufacturerID | Register::DeviceID => seq![Field::Id],
        }
    }

    /// The descriptor of one field of a register: a field of a read-only
    /// register, and a status flag anywhere, is read-only.
    pub open spec fn field_descriptor_spec(self, field: Field) -> FieldDescriptor {
        FieldDescriptor {
            field,
            range: field.range_spec(),
            access: if self.access_spec() == Access::RO || field.is_status() {
                Access::RO
            } else {
                Access::RW
            },
            kind: field.kind_spec(),
        }
    }

    /// The field descriptors of a register, in declaration order.
    pub open spec fn layout(self) -> Seq<FieldDescriptor> {
        self.fields_spec().map(|i: int, f: Field| self.field_descriptor_spec(f))
    }

    /// The address of a register on the bus.
    pub fn address(self) -> (a: u8)
        ensures
            a == self.address_spec(),
    {
        match self {
            Register::Measurment => 0x00,
            Register::Configuration => 0x01,
            Register::Lowlimit => 0x02,
            Register::Highlimit => 0x03,
            Register::ManufacturerID => 0x7E,
            Register::DeviceID => 0x7F,
        }
    }

    /// The register that lives at an address, if there is one.
    pub fn from_address(address: u8) -> (r: Option<Register>)
        ensures
            r == Register::at(address),
    {
        match address {
            0x00 => Some(Register::Measurment),
            0x01 => Some(Register::Configuration),
            0x02 => Some(Register::Lowlimit),
            0x03 => Some(Register::Highlimit),
            0x7E => Some(Register::ManufacturerID),
            0x7F => Some(Register::DeviceID),
            _ => None,
        }
    }

    /// Whether the host may write a register.
    pub fn access(self) -> (a: Access)
        ensures
            a == self.access_spec(),
    {
        match self {
            Register::Configuration | Register::Lowlimit | Register::Highlimit => Access::RW,
            _ => Access::RO,
        }
    }

    /// The fields of a register, in the order in which they are declared.
    pub fn fields(self) -> (fields: Vec<Field>)
        ensures
            fields@ == self.fields_spec(),
    {
        match self {
            Register::Measurment | Register::Lowlimit | Register::Highlimit => {
                vec![Field::Fractional, Field::Exponent]
            },
            Register::Configuration => {
                vec![
                    Field::FaultCount,
                    Field::Mask,
                    Field::Polarity,
                    Field::Latch,
                    Field::FlagLow,
                    Field::FlagHigh,
                    Field::ConversionReady,
                    Field::OverflowFlag,
                    Field::ConvertionMode,
                    Field::ConvertionTime,
                    Field::RangeNumber,
                ]
            },
            Register::ManufacturerID | Register::DeviceID => {
                vec![Field::Id]
            },
        }
    }

    /// The descriptor of one field of a register.
    pub fn field_descriptor(self, field: Field) -> (d: FieldDescriptor)
        ensures
            d == self.field_descriptor_spec(field),
    {
        let narrowed = match field {
            Field::FlagLow | Field::FlagHigh | Field::ConversionReady | Field::OverflowFlag => {
                Access::RO
            },
            _ => self.access(),
        };
        FieldDescriptor { field, range: field.range(), access: narrowed, kind: field.kind() }
    }

    /// The descriptor of a register.
    pub fn descriptor(self) -> (d: RegisterDescriptor)
        ensures
            d.address == self.address_spec(),
            d.size_bits == SIZE_BITS,
            d.access == self.access_spec(),
            d.fields@ == self.layout(),
            d.well_formed(),
    {
        let names = self.fields();
        let mut fields: Vec<FieldDescriptor> = Vec::new();
        let mut i: usize = 0;
        while i < names.len()
            invariant
                names@ == self.fields_spec(),
                i <= names@.len(),
                fields@.len() == i,
                forall|j: int| 0 <= j < i ==> #[trigger] fields@[j] == self.layout()[j],
            decreases names@.len() - i,
        {
            fields.push(self.field_descriptor(names[i]));
            i += 1;
        }
        proof {
            assert(fields@ =~= self.layout());
            lemma_layout_well_formed(self);
        }
        RegisterDescriptor {
            address: self.address(),
            size_bits: SIZE_BITS,
            access: self.access(),
            fields,
        }
    }

    /// Decides whether the host may write `word` to the register and, if so,
    /// what to put on the bus: the address of the register and the word, low
    /// byte first. A read-only register refuses every word; a writable one
    /// refuses a word that sets a bit of a read-only field.
    pub fn prepare_write(self, word: u16) -> (r: Result<BusWrite, AccessViolation>)
        ensures
            r == Err::<BusWrite, AccessViolation>(AccessViolation::ReadOnlyRegister)
                <==> self.access_spec() == Access::RO,
            r == Err::<BusWrite, AccessViolation>(AccessViolation::ReadOnlyField)
                <==> self.access_spec() == Access::RW && touches_read_only(self.layout(), word),
            r is Ok <==> self.access_spec() == Access::RW && !touches_read_only(
                self.layout(),
                word,
            ),
            r is Ok ==> r->Ok_0.address == self.address_spec() && r->Ok_0.data@
                == word_bytes(word),
    {
        let d = self.descriptor();
        match d.check_write(word) {
            Ok(()) => Ok(BusWrite { address: d.address, data: word_to_bytes(word) }),
            Err(e) => Err(e),
        }
    }
}

/// What to put on the bus to write a register: its address and the two
/// bytes of the word, low byte first.
#[derive(Clone, Copy, Debug, PartialEq, Eq)]
pub struct BusWrite {
    pub address: u8,
    pub data: [u8; 2],
}

/// The two bytes of a register word, low byte first.
pub open spec fn word_bytes(word: u16) -> Seq<u8> {
    seq![(word % 256) as u8, (word / 256) as u8]
}

/// Splits a register word into its two bytes, low byte first.
pub fn word_to_bytes(word: u16) -> (data: [u8; 2])
    ensures
        data@ == word_bytes(word),
{
    assert(word & 0xFF == word % 256 && word >> 8 == word / 256 && word >> 8 <= 0xFF)
        by (bit_vector);
    let data = [(word & 0xFF) as u8, (word >> 8) as u8];
    assert(data@ =~= word_bytes(word));
    data
}

/// Joins two bytes, low byte first, into a register word.
pub fn word_from_bytes(data: [u8; 2]) -> (word: u16)
    ensures
        word == data@[0] + 256 * data@[1],
        word_bytes(word) == data@,
{
    let low = data[0];
    let high = data[1];
    assert(((low as u16) | ((high as u16) << 8)) == low + 256 * high) by (bit_vector);
    let word = (low as u16) | ((high as u16) << 8);
    assert(word_bytes(word) =~= data@);
    word
}

/// The layout of every register of the sensor is well formed: its fields lie
/// inside its sixteen bits, no two of them share a bit, and the fields of a
/// read-only register are read-only.
pub proof fn lemma_layout_well_formed(register: Register)
    ensures
        layout_well_formed(register.layout(), SIZE_BITS, register.access_spec()),
{
    let names = register.fields_spec();
    let layout = register.layout();
    assert forall|i: int, j: int| 0 <= i < j < layout.len() implies (#[trigger] layout[i]).range.disjoint(
        (#[trigger] layout[j]).range,
    ) by {
        assert(layout[i].range == names[i].range_spec());
        assert(layout[j].range == names[j].range_spec());
    }
}

/// Addresses and registers correspond one to one: a register is found at
/// its own address, and whatever is found at an address lives there.
pub proof fn lemma_address_lookup(register: Register, address: u8)
    ensures
        Register::at(register.address_spec()) == Some(register),
        Register::at(address) == Some(register) <==> register.address_spec() == address,
{
}

/// Which words the writable registers refuse. The configuration register
/// refuses a word exactly when one of its four status flags, bits 5 to 8, is
/// set. The two limit registers have no read-only field and refuse nothing.
pub proof fn lemma_write_gate(register: Register, word: u16)
    ensures
        register == Register::Configuration ==> (touches_read_only(register.layout(), word) <==> (
        word / 32) % 16 != 0),
        register == Register::Lowlimit || register == Register::Highlimit ==> !touches_read_only(
            register.layout(),
            word,
        ),
{
    let layout = register.layout();
    let names = register.fields_spec();
    assert forall|i: int| 0 <= i < layout.len() implies (#[trigger] layout[i]).field == names[i]
        && layout[i].range == names[i].range_spec() && layout[i].access
        == register.field_descriptor_spec(names[i]).access by {}
    if register == Register::Configuration {
        lemma2_to64();
        assert(((word / 32) % 16 != 0) == ((word / 32) % 2 != 0 || (word / 64) % 2 != 0 || (word
            / 128) % 2 != 0 || (word / 256) % 2 != 0)) by (bit_vector);
        assert(layout[4].range.value_in(word as int) == (word / 32) % 2);
        assert(layout[5].range.value_in(word as int) == (word / 64) % 2);
        assert(layout[6].range.value_in(word as int) == (word / 128) % 2);
        assert(layout[7].range.value_in(word as int) == (word / 256) % 2);
    }
}

impl FieldDescriptor {
    /// Reads the field from a register word.
    pub fn read(&self, word: u16) -> (value: u16)
        requires
            self.range.valid(),
        ensures
            value == self.range.value_in(word as int),
    {
        extract(word, self.range)
    }

    /// Writes the field into a register word, unless the field is read-only.
    pub fn write(&self, word: u16, value: u16) -> (r: Result<u16, AccessViolation>)
        requires
            self.range.valid(),
        ensures
            self.access == Access::RO ==> r == Err::<u16, AccessViolation>(
                AccessViolation::ReadOnlyField,
            ),
            self.access == Access::RW ==> r is Ok && r->Ok_0 == self.range.placed(
                word as int,
                value as int,
            ),
    {
        match self.access {
            Access::RO => Err(AccessViolation::ReadOnlyField),
            Access::RW => Ok(insert(word, self.range, value)),
        }
    }
}

/// The bit at position `bit` of `word`.
pub open spec fn bit_of(word: int, bit: u8) -> int {
    (BitRange { start: bit, end: bit }).value_in(word)
}

/// The fields lie inside the register and share no bit, and a read-only
/// register has only read-only fields.
pub open spec fn layout_well_formed(
    fields: Seq<FieldDescriptor>,
    size_bits: u8,
    access: Access,
) -> bool {
    &&& 0 < size_bits <= 16
    &&& forall|i: int|
        0 <= i < fields.len() ==> (#[trigger] fields[i]).range.valid() && fields[i].range.end
            < size_bits
    &&& forall|i: int, j: int|
        0 <= i < j < fields.len() ==> (#[trigger] fields[i]).range.disjoint(
            (#[trigger] fields[j]).range,
        )
    &&& access == Access::RO ==> forall|i: int|
        0 <= i < fields.len() ==> (#[trigger] fields[i]).access == Access::RO
}

/// The word sets a bit of some read-only field.
pub open spec fn touches_read_only(fields: Seq<FieldDescriptor>, word: u16) -> bool {
    exists|i: int|
        0 <= i < fields.len() && (#[trigger] fields[i]).access == Access::RO
            && fields[i].range.value_in(word as int) != 0
}

/// Some field covers the bit at position `bit`.
pub open spec fn covers(fields: Seq<FieldDescriptor>, bit: u8) -> bool {
    exists|i: int|
        0 <= i < fields.len() && (#[trigger] fields[i]).range.start <= bit
            <= fields[i].range.end
}

impl RegisterDescriptor {
    /// The descriptor is one the routines below accept.
    pub open spec fn well_formed(&self) -> bool {
        layout_well_formed(self.fields@, self.size_bits, self.access)
    }

    /// Checks a descriptor once, before it is used: whether its fields lie
    /// inside the register and share no bit, and whether a read-only
    /// register has only read-only fields.
    pub fn is_well_formed(&self) -> (b: bool)
        ensures
            b == self.well_formed(),
    {
        if self.size_bits == 0 || self.size_bits > 16 {
            return false;
        }
        let n = self.fields.len();
        let mut i: usize = 0;
        while i < n
            invariant
                n == self.fields@.len(),
                0 < self.size_bits <= 16,
                i <= n,
                forall|k: int|
                    0 <= k < i ==> (#[trigger] self.fields@[k]).range.valid()
                        && self.fields@[k].range.end < self.size_bits,
                forall|k: int, l: int|
                    0 <= k < l < i ==> (#[trigger] self.fields@[k]).range.disjoint(
                        (#[trigger] self.fields@[l]).range,
                    ),
                self.access == Access::RO ==> forall|k: int|
                    0 <= k < i ==> (#[trigger] self.fields@[k]).access == Access::RO,
            decreases n - i,
        {
            let d = self.fields[i];
            if !d.range.is_valid() || d.range.end >= self.size_bits {
                return false;
            }
            match (self.access, d.access) {
                (Access::RO, Access::RW) => {
                    return false;
                },
                _ => {},
            }
            let mut j: usize = 0;
            while j < i
                invariant
                    n == self.fields@.len(),
                    i < n,
                    j <= i,
                    d == self.fields@[i as int],
                    forall|k: int|
                        0 <= k < j ==> (#[trigger] self.fields@[k]).range.disjoint(d.range),
                decreases i - j,
            {
                let e = self.fields[j];
                if !e.range.is_disjoint(&d.range) {
                    assert(!self.fields@[j as int].range.disjoint(self.fields@[i as int].range));
                    return false;
                }
                j += 1;
            }
            i += 1;
        }
        true
    }

    /// Looks a field up by name; the first one declared wins.
    pub fn find(&self, field: Field) -> (r: Option<FieldDescriptor>)
        ensures
            r is None <==> forall|i: int|
                0 <= i < self.fields@.len() ==> (#[trigger] self.fields@[i]).field != field,
            r is Some ==> exists|i: int|
                0 <= i < self.fields@.len() && #[trigger] self.fields@[i] == r->Some_0
                    && self.fields@[i].field == field && forall|j: int|
                    0 <= j < i ==> (#[trigger] self.fields@[j]).field != field,
    {
        let mut i: usize = 0;
        while i < self.fields.len()
            invariant
                i <= self.fields@.len(),
                forall|j: int| 0 <= j < i ==> (#[trigger] self.fields@[j]).field != field,
            decreases self.fields@.len() - i,
        {
            let d = self.fields[i];
            if d.field == field {
                return Some(d);
            }
            i += 1;
        }
        None
    }

    /// Splits a register word into the values of its fields, in declaration
    /// order. Every word splits: no bit pattern is refused.
    pub fn decode(&self, word: u16) -> (values: Vec<u16>)
        requires
            self.well_formed(),
        ensures
            values@.len() == self.fields@.len(),
            forall|i: int|
                0 <= i < self.fields@.len() ==> #[trigger] values@[i] == self.fields@[i].range.value_in(
                    word as int,
                ),
    {
        let mut values: Vec<u16> = Vec::new();
        let mut i: usize = 0;
        while i < self.fields.len()
            invariant
                self.well_formed(),
                i <= self.fields@.len(),
                values@.len() == i,
                forall|j: int|
                    0 <= j < i ==> #[trigger] values@[j] == self.fields@[j].range.value_in(
                        word as int,
                    ),
            decreases self.fields@.len() - i,
        {
            let d = self.fields[i];
            values.push(d.read(word));
            i += 1;
        }
        values
    }

    /// Builds a register word from the values of its fields, given in
    /// declaration order. Each value is cut to the width of its field, and
    /// bits that no field covers are clear. There must be one value per
    /// field.
    pub fn encode(&self, values: &Vec<u16>) -> (r: Option<u16>)
        requires
            self.well_formed(),
        ensures
            r is Some <==> values@.len() == self.fields@.len(),
            r is Some ==> forall|i: int|
                0 <= i < self.fields@.len() ==> (#[trigger] self.fields@[i]).range.value_in(
                    r->Some_0 as int,
                ) == (values@[i] as int) % self.fields@[i].range.limit(),
            r is Some ==> forall|bit: u8|
                bit <= 15 && !covers(self.fields@, bit) ==> #[trigger] bit_of(r->Some_0 as int, bit) == 0,
    {
        if values.len() != self.fields.len() {
            return None;
        }
        let mut word: u16 = 0;
        let mut i: usize = 0;
        proof {
            assert forall|bit: u8| bit <= 15 implies #[trigger] bit_of(0, bit) == 0 by {
                lemma_zero_word(BitRange { start: bit, end: bit });
            }
        }
        while i < self.fields.len()
            invariant
                self.well_formed(),
                values@.len() == self.fields@.len(),
                i <= self.fields@.len(),
                forall|j: int|
                    0 <= j < i ==> (#[trigger] self.fields@[j]).range.value_in(word as int) == (
                    values@[j] as int) % self.fields@[j].range.limit(),
                forall|bit: u8|
                    bit <= 15 && (forall|j: int|
                        0 <= j < i ==> !((#[trigger] self.fields@[j]).range.start <= bit
                            <= self.fields@[j].range.end)) ==> #[trigger] bit_of(word as int, bit)
                        == 0,
            decreases self.fields@.len() - i,
        {
            let d = self.fields[i];
            let ghost before = word;
            word = insert(word, d.range, values[i]);
            proof {
                lemma_bounds(d.range, before, values@[i as int]);
                lemma_read_after_write(d.range, before, values@[i as int]);
                assert forall|j: int| 0 <= j < i implies (#[trigger] self.fields@[j]).range.value_in(
                    word as int,
                ) == (values@[j] as int) % self.fields@[j].range.limit() by {
                    lemma_write_keeps_disjoint(
                        d.range,
                        self.fields@[j].range,
                        before,
                        values@[i as int],
                    );
                }
                assert forall|bit: u8|
                    bit <= 15 && (forall|j: int|
                        0 <= j < i + 1 ==> !((#[trigger] self.fields@[j]).range.start <= bit
                            <= self.fields@[j].range.end)) implies #[trigger] bit_of(
                    word as int,
                    bit,
                ) == 0 by {
                    assert(!(self.fields@[i as int].range.start <= bit
                        <= self.fields@[i as int].range.end));
                    lemma_write_keeps_disjoint(
                        d.range,
                        BitRange { start: bit, end: bit },
                        before,
                        values@[i as int],
                    );
                    assert(bit_of(before as int, bit) == 0);
                }
            }
            i += 1;
        }
        Some(word)
    }

    /// Decides whether the host may write `word` to the register. A
    /// read-only register refuses every word. A writable register refuses a
    /// word that sets a bit of one of its read-only fields.
    pub fn check_write(&self, word: u16) -> (r: Result<(), AccessViolation>)
        requires
            self.well_formed(),
        ensures
            r == Err::<(), AccessViolation>(AccessViolation::ReadOnlyRegister) <==> self.access
                == Access::RO,
            r == Err::<(), AccessViolation>(AccessViolation::ReadOnlyField) <==> self.access
                == Access::RW && touches_read_only(self.fields@, word),
            r is Ok <==> self.access == Access::RW && !touches_read_only(self.fields@, word),
    {
        match self.access {
            Access::RO => {
                return Err(AccessViolation::ReadOnlyRegister);
            },
            Access::RW => {},
        }
        let mut i: usize = 0;
        while i < self.fields.len()
            invariant
                self.well_formed(),
                self.access == Access::RW,
                i <= self.fields@.len(),
                forall|j: int|
                    0 <= j < i ==> !((#[trigger] self.fields@[j]).access == Access::RO
                        && self.fields@[j].range.value_in(word as int) != 0),
            decreases self.fields@.len() - i,
        {
            let d = self.fields[i];
            match d.access {
                Access::RO => {
                    if d.read(word) != 0 {
                        assert(self.fields@[i as int].access == Access::RO
                            && self.fields@[i as int].range.value_in(word as int) != 0);
                        return Err(AccessViolation::ReadOnlyField);
                    }
                },
                Access::RW => {},
            }
            i += 1;
        }
        Ok(())
    }
}

} // verus!
