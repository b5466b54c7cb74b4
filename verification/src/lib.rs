//! Framed binary telemetry link for a VectorNav-style sensor.
//!
//! The wire format is: a fixed sync byte, a group-selector byte, one 16-bit
//! field selector per selected group, a payload whose length is computed from
//! those selectors, and a trailing big-endian 16-bit checksum.
//!
//! The crate provides the byte-level engine for that format:
//! [`checksum`] computes the device's 16-bit checksum, [`resolver`] turns the
//! group and field selectors into the payload length, [`codec`] converts
//! between the fixed 144-byte payload and a structured record, and
//! [`scanner`] is the byte-at-a-time receive state machine that ties them
//! together. Opening and configuring the serial transport is left to the
//! caller; the engine only consumes and produces plain bytes.

pub mod checksum;
pub mod codec;
pub mod resolver;
pub mod scanner;

use vstd::prelude::*;

verus! {

/// Marker byte at the start of every frame.
pub const VN_SYNC: u8 = 0xFA;

/// Group selector of the single supported output configuration
/// (groups 0, 3, 4 and 5 present).
pub const VN_OUTPUT_GROUP: u8 = 0x39;

/// Header length of the supported configuration: sync, selector, and two
/// field-selector bytes for each of the four selected groups.
pub const VN_HEADER_SIZE: u8 = 10;

/// Payload length of the supported configuration; frames that resolve to any
/// other length are rejected as header errors.
pub const VN_PAYLOAD_SIZE: u8 = 144;

/// Number of trailing checksum bytes.
pub const VN_CRC_SIZE: u8 = 2;

/// Field selector of group 0 in the supported configuration.
pub const VN_GROUP_FIELD_1: u16 = 0x01E9;

/// Field selector of group 3 in the supported configuration.
pub const VN_GROUP_FIELD_2: u16 = 0x061A;

/// Field selector of group 4 in the supported configuration.
pub const VN_GROUP_FIELD_3: u16 = 0x0140;

/// Field selector of group 5 in the supported configuration.
pub const VN_GROUP_FIELD_4: u16 = 0x0009;

/// The 16-bit value formed by two wire bytes in big-endian order.
pub open spec fn be16(hi: u8, lo: u8) -> u16 {
    ((hi as u16) << 8) | (lo as u16)
}

} // verus!
