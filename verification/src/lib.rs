//! Register abstraction for the OPT3001 ambient light sensor.
//!
//! The crate has two independent parts. [`opt_measurment`] converts between
//! the packed 16-bit word of the result and limit registers and a validated
//! exponent/mantissa pair, and derives the light level from it, as a number
//! and, with [`decimal`], as text. [`registers`] describes the register
//! file: addresses, access modes and bit-field layouts, with [`bits`] as the
//! one routine that reads and writes a bit range of a word, and
//! [`configuration`] gives the configuration register as a structured value.
//!
//! Everything here is a pure function of its arguments. Talking to the bus is
//! left to the caller: the library says what to send and makes sense of what
//! came back.

pub mod bits;
pub mod configuration;
pub mod decimal;
pub mod opt_measurment;
pub mod registers;
