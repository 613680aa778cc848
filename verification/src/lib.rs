//! A decoder for the Intel HEX text encoding of binary data, together with a
//! small byte-addressable memory abstraction that decoded data records can be
//! loaded into.
//!
//! One line of input is decoded by [`record::IntelHexRecord::parse`] into a
//! typed record (byte count, load address, record type, payload, checksum) or
//! a classified error. [`memory::SimpleMemory`] is a fixed-size,
//! zero-initialized byte store behind the [`memory::Memory`] capability.

pub mod hex;
pub mod memory;
pub mod record;
