//! Functionality for dealing with fixed headers of MQTT packets.

use vstd::prelude::*;

use crate::packet::PacketType;
use crate::parse::VarInt;
use crate::wire::{varint_frame, varint_value};
use crate::Error;

verus! {

/// Fixed header of an MQTT Control Packet
///
/// ```text
///           7                          3                          0
///           +--------------------------+--------------------------+
/// byte 1    | MQTT Control Packet Type |   Flags for each type    |
///           +--------------------------+--------------------------+
/// bytes 2.. |            Remaining Length (1 to 4 bytes)          |
///           +-----------------------------------------------------+
/// ```
#[derive(Debug, Clone, Copy, PartialEq, Eq, PartialOrd)]
pub struct FixedHeader {
    /// Contains the packet type and several flags
    pub control_field: u8,
    /// Remaining length of the packet.
    ///
    /// This does not include the fixed header bytes.
    /// It represents the variable header + payload.
    pub remaining_len: VarInt,
}

/// What checking the start of a stream for a complete frame gives: the
/// control field, the remaining length and the number of bytes it was read
/// from, or the error.
pub open spec fn spec_check(s: Seq<u8>, max_packet_size: u32) -> Result<(u8, nat, nat), Error> {
    if s.len() == 0 {
        Err(Error::InsufficientBytes(2))
    } else {
        let rest = s.skip(1);
        match varint_frame(rest, 0) {
            Err(e) => Err(e),
            Ok(n) => {
                let len = varint_value(rest, n);
                let frame = 1 + n + len;
                if len > max_packet_size {
                    Err(Error::PayloadSizeLimitExceeded { pkt_size: len as u32, max: max_packet_size })
                } else if s.len() < frame {
                    Err(Error::InsufficientBytes((frame - s.len()) as usize))
                } else {
                    Ok((s[0], len, n))
                }
            },
        }
    }
}

impl FixedHeader {
    pub fn new(byte1: u8, remaining_len: VarInt) -> (h: FixedHeader)
        ensures
            h.control_field == byte1,
            h.remaining_len == remaining_len,
    {
        FixedHeader { control_field: byte1, remaining_len }
    }

    /// Parse the [PacketType] from the control field
    pub fn packet_type(&self) -> (r: Result<PacketType, Error>)
        ensures
            r == PacketType::spec_from_code(self.control_field / 16),
    {
        proof {
            let cf = self.control_field;
            assert(cf >> 4 == cf / 16) by (bit_vector);
        }
        PacketType::from_code(self.control_field >> 4)
    }

    /// Get the flag bits from the control field
    pub fn flags(&self) -> (f: u8)
        ensures
            f == self.control_field % 16,
    {
        proof {
            let cf = self.control_field;
            assert(cf & 0x0F == cf % 16) by (bit_vector);
        }
        self.control_field & 0x0F
    }

    /// Returns the size of the fixed header
    pub fn size(&self) -> (n: usize)
        ensures
            n == 1 + self.remaining_len.spec_length(),
            n <= 5,
    {
        1 + self.remaining_len.length()
    }

    /// Returns the size of full packet (fixed header + variable header + payload)
    ///
    /// Fixed header is enough to get the size of a frame in the stream
    pub fn packet_size(&self) -> (n: usize)
        ensures
            n == 1 + self.remaining_len.spec_length() + self.remaining_len.spec_value(),
    {
        self.size() + self.remaining_len.value()
    }

    /// Checks if the stream has enough bytes to frame a packet and returns fixed header
    /// only if a packet can be framed with existing bytes in the `stream`.
    pub fn check(stream: &[u8], max_packet_size: u32) -> (r: Result<Self, Error>)
        ensures
            match spec_check(stream@, max_packet_size) {
                Ok((cf, len, n)) => r matches Ok(h) && h.control_field == cf && h.remaining_len.spec_value()
                    == len && h.remaining_len.spec_length() == n,
                Err(e) => r == Err::<FixedHeader, Error>(e),
            },
    {
        let stream_len = stream.len();
        let fixed_header = Self::parse_fixed_header(stream)?;

        // Don't let rogue connections attack with huge payloads.
        // Disconnect them before reading all that data
        let len = fixed_header.remaining_len.value();
        if len > max_packet_size as usize {
            return Err(Error::PayloadSizeLimitExceeded { pkt_size: len as u32, max: max_packet_size });
        }

        // If the current call fails due to insufficient bytes in the stream,
        // after calculating remaining length, we extend the stream
        let frame_length = fixed_header.packet_size();
        if stream_len < frame_length {
            return Err(Error::InsufficientBytes(frame_length - stream_len));
        }

        Ok(fixed_header)
    }

    /// Tries to read a [FixedHeader] from the bytestream
    fn parse_fixed_header(stream: &[u8]) -> (r: Result<Self, Error>)
        ensures
            stream@.len() == 0 ==> r == Err::<FixedHeader, Error>(Error::InsufficientBytes(2)),
            stream@.len() > 0 ==> match varint_frame(stream@.skip(1), 0) {
                Ok(n) => r matches Ok(h) && h.control_field == stream@[0] && h.remaining_len.spec_length() == n
                    && h.remaining_len.spec_value() == varint_value(stream@.skip(1), n),
                Err(e) => r == Err::<FixedHeader, Error>(e),
            },
    {
        if stream.len() == 0 {
            return Err(Error::InsufficientBytes(2));
        }
        let byte1 = stream[0];
        let rest = &stream[1..stream.len()];
        proof {
            assert(rest@ =~= stream@.skip(1));
        }
        let remaining_len = VarInt::read(rest)?;

        Ok(Self::new(byte1, remaining_len))
    }
}

} // verus!
