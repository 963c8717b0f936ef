//! Errors reported while reading or writing packets.

use std::str::Utf8Error;
use vstd::prelude::*;

verus! {

/// Error during serialization and deserialization
#[derive(Debug, Clone, Copy, PartialEq, Eq)]
pub enum Error {
    /// Invalid connect return code or reason code
    InvalidConnectReturnCode(u8),
    /// Invalid protocol name
    InvalidProtocol,
    /// Invalid protocol level
    InvalidProtocolLevel(u8),
    /// Incorrect packet format
    IncorrectPacketFormat,
    /// Invalid packet type
    InvalidPacketType(u8),
    /// Invalid property type
    InvalidPropertyType(u8),
    /// Invalid retain forward rule
    InvalidRetainForwardRule(u8),
    /// Invalid QoS level
    InvalidQoS(u8),
    /// Invalid subscribe reason code
    InvalidSubscribeReasonCode(u8),
    /// Packet identifier is 0 where it must not be
    PacketIdZero,
    /// Subscription without any filter
    EmptySubscription,
    /// Topic or string is not UTF-8
    Utf8Encoding(Utf8Error),
    /// Malformed packet
    MalformedPacket,
    /// Malformed remaining length
    MalformedRemainingLength,
    /// Payload size does not match the packet type
    PayloadSizeIncorrect,
    /// Payload is too long to be encoded
    PayloadTooLong,
    /// Payload size exceeds the allowed maximum
    PayloadSizeLimitExceeded { pkt_size: u32, max: u32 },
    /// Payload is required for this packet type
    PayloadRequired,
    /// Outgoing packet is larger than the allowed maximum
    OutgoingPacketTooLarge { pkt_size: u32, max: u32 },
    /// A length prefix points past the end of the packet
    BoundaryCrossed(usize),
    /// More bytes are needed to frame a packet
    InsufficientBytes(usize),
}

} // verus!
