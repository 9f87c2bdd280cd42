//! Per-packet metadata: the flag byte and the packet id.

use vstd::prelude::*;

verus! {

/// The ids used by packet-stream packets.
pub type PacketId = i32;

/// Bitmask for the stream flag.
pub const STREAM: u8 = 0b0000_1000;
/// Bitmask for the end flag.
pub const END: u8 = 0b0000_0100;
/// Bitmask for the type flags.
pub const TYPE: u8 = 0b0000_0011;

/// Value of the binary type.
pub const TYPE_BINARY: u8 = 0;
/// Value of the string type.
pub const TYPE_STRING: u8 = 1;
/// Value of the json type.
pub const TYPE_JSON: u8 = 2;
/// The unused fourth possible value of the type flags. A packet read off the
/// wire with this type is rejected as invalid.
pub const TYPE_UNUSED: u8 = 3;

/// The metadata of a packet.
#[derive(Debug, Copy, Clone, PartialEq, Eq, Structural)]
pub struct Metadata {
    /// Flags indicate the type of the data in the packet, whether the packet
    /// is part of a stream, and whether it signals an end/error.
    pub flags: u8,
    /// The id of the packet.
    pub id: PacketId,
}

impl Metadata {
    /// The stream flag of the packet is set.
    pub open spec fn spec_is_stream_packet(self) -> bool {
        self.flags & STREAM != 0
    }

    /// The end/error flag of the packet is set.
    pub open spec fn spec_is_end_packet(self) -> bool {
        self.flags & END != 0
    }

    /// The type flags signal a buffer.
    pub open spec fn spec_is_buffer_packet(self) -> bool {
        self.flags & TYPE == TYPE_BINARY
    }

    /// The type flags signal a string.
    pub open spec fn spec_is_string_packet(self) -> bool {
        self.flags & TYPE == TYPE_STRING
    }

    /// The type flags signal json.
    pub open spec fn spec_is_json_packet(self) -> bool {
        self.flags & TYPE == TYPE_JSON
    }

    /// The type flags signal the unused type.
    pub open spec fn spec_is_unused_packet(self) -> bool {
        self.flags & TYPE == TYPE_UNUSED
    }

    /// Returns true if the stream flag of the packet is set.
    pub fn is_stream_packet(&self) -> (r: bool)
        ensures
            r == self.spec_is_stream_packet(),
    {
        self.flags & STREAM != 0
    }

    /// Returns true if the end/error flag of the packet is set.
    pub fn is_end_packet(&self) -> (r: bool)
        ensures
            r == self.spec_is_end_packet(),
    {
        self.flags & END != 0
    }

    /// Returns true if the type flags signal a buffer.
    pub fn is_buffer_packet(&self) -> (r: bool)
        ensures
            r == self.spec_is_buffer_packet(),
    {
        self.flags & TYPE == TYPE_BINARY
    }

    /// Returns true if the type flags signal a string.
    pub fn is_string_packet(&self) -> (r: bool)
        ensures
            r == self.spec_is_string_packet(),
    {
        self.flags & TYPE == TYPE_STRING
    }

    /// Returns true if the type flags signal json.
    pub fn is_json_packet(&self) -> (r: bool)
        ensures
            r == self.spec_is_json_packet(),
    {
        self.flags & TYPE == TYPE_JSON
    }

    /// Returns true if the type flags signal the unused type.
    ///
    /// A `CodecStream` returns an error when it reads a packet of this type,
    /// so this returns false for all `Metadata`s yielded from a `CodecStream`.
    pub fn is_unused_packet(&self) -> (r: bool)
        ensures
            r == self.spec_is_unused_packet(),
    {
        self.flags & TYPE == TYPE_UNUSED
    }
}

} // verus!
