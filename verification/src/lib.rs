//! MQTT protocol serialization and deserialization
//!
//! This crate implements the assembling and disassembling of MQTT packets
//! for both version 4 of the protocol (MQTT 3.1.1) and version 5 (MQTT 5.0).
//!
//! Every encoder and decoder is specified against a byte-level model of the
//! wire format in [`wire`], and the library proves that decoding an encoded
//! packet gives the packet back.

use bytes::BytesMut;
use vstd::prelude::*;

pub mod buffer;
mod comparison;
mod parse;
pub mod property;
pub mod error;
pub mod header;
pub mod packet;
pub mod reason;
pub mod wire;

use buffer::{bytes_mut_view, room};

pub use error::Error;
pub use header::FixedHeader;
pub use packet::auth::{Auth, AuthReasonCode};
pub use packet::connack::{ConnAck, ConnectReasonCode, ConnectReturnCode};
pub use packet::connect::{Connect, LastWill, Login};
pub use packet::disconnect::{Disconnect, DisconnectReasonCode};
pub use packet::ping::{PingReq, PingResp};
pub use packet::puback::{PubAck, PubAckReasonCode};
pub use packet::pubcomp::{PubComp, PubCompReasonCode};
pub use packet::publish::Publish;
pub use packet::pubrec::{PubRec, PubRecReasonCode};
pub use packet::pubrel::{PubRel, PubRelReasonCode};
pub use packet::suback::{SubAck, SubscribeReasonCode};
pub use packet::subscribe::{Filter, RetainForwardRule, Subscribe};
pub use packet::unsuback::{UnsubAck, UnsubscribeReasonCode};
pub use packet::unsubscribe::Unsubscribe;
pub use packet::v4::V4;
pub use packet::v5::V5;
pub use packet::{size_from_len, Packet, PacketModel, PacketType};
pub use parse::VarInt;
pub use property::{Properties, Property, PropertyModel, PropertyType};

verus! {

/// A type that can serialize and deserialize MQTT packets from/to a stream of bytes.
pub trait Protocol {
    /// The type that is being serialized and deserialized
    type Item;

    /// Deserializes a packet from a stream of bytes
    fn read(stream: &mut BytesMut, max_size: u32) -> Result<Self::Item, Error>;

    /// The number of bytes that serializing `packet` under the size limit
    /// `max_size` appends to a stream at most.
    spec fn room_needed(packet: Self::Item, max_size: u32) -> int;

    /// Serializes the packet into a stream of bytes
    fn write(packet: Self::Item, stream: &mut BytesMut, max_size: u32) -> Result<usize, Error>
        requires
            room(bytes_mut_view(*old(stream)), Self::room_needed(packet, max_size)),
    ;
}

/// The supported MQTT protocol versions.
#[derive(Debug, Clone, Copy, PartialEq, Eq)]
pub enum ProtocolVersion {
    /// MQTT 3.1.1
    V4,
    /// MQTT 5.0
    V5,
}

/// Quality of Service levels for packet delivery.
#[derive(Debug, Clone, Copy, PartialEq, Eq, PartialOrd, Structural)]
#[allow(clippy::enum_variant_names)]
pub enum QoS {
    AtMostOnce,
    AtLeastOnce,
    ExactlyOnce,
}

impl QoS {
    /// The values of these codes on the wire are the fixed ones of MQTT: each
    /// is written as the value listed here, each value listed reads back as
    /// its code, and a value that reads as a code is that code's value.
    pub proof fn lemma_wire_codes()
        ensures
            QoS::AtMostOnce.spec_code() == 0x00,
            QoS::AtLeastOnce.spec_code() == 0x01,
            QoS::ExactlyOnce.spec_code() == 0x02,
            QoS::spec_from_code(0x00) == Ok::<QoS, Error>(QoS::AtMostOnce),
            QoS::spec_from_code(0x01) == Ok::<QoS, Error>(QoS::AtLeastOnce),
            QoS::spec_from_code(0x02) == Ok::<QoS, Error>(QoS::ExactlyOnce),
            forall|c: u8| (#[trigger] QoS::spec_from_code(c)) matches Ok(v) ==> v.spec_code() == c,
    {
    }
}

impl QoS {
    /// The two-bit code of this level on the wire.
    pub open spec fn spec_code(self) -> u8 {
        match self {
            QoS::AtMostOnce => 0,
            QoS::AtLeastOnce => 1,
            QoS::ExactlyOnce => 2,
        }
    }

    /// The level that a two-bit code names, or the error for a code that names none.
    pub open spec fn spec_from_code(value: u8) -> Result<QoS, Error> {
        if value == 0 {
            Ok(QoS::AtMostOnce)
        } else if value == 1 {
            Ok(QoS::AtLeastOnce)
        } else if value == 2 {
            Ok(QoS::ExactlyOnce)
        } else {
            Err(Error::InvalidQoS(value))
        }
    }

    /// The code of this level on the wire.
    pub fn code(self) -> (c: u8)
        ensures
            c == self.spec_code(),
    {
        match self {
            QoS::AtMostOnce => 0,
            QoS::AtLeastOnce => 1,
            QoS::ExactlyOnce => 2,
        }
    }

    /// Decodes a level from its wire code.
    pub fn from_code(value: u8) -> (r: Result<QoS, Error>)
        ensures
            r == QoS::spec_from_code(value),
    {
        match value {
            0 => Ok(QoS::AtMostOnce),
            1 => Ok(QoS::AtLeastOnce),
            2 => Ok(QoS::ExactlyOnce),
            qos => Err(Error::InvalidQoS(qos)),
        }
    }
}

impl Default for QoS {
    fn default() -> (q: Self)
        ensures
            q == QoS::AtMostOnce,
    {
        QoS::AtMostOnce
    }
}

impl TryFrom<u8> for QoS {
    type Error = Error;

    fn try_from(value: u8) -> (r: Result<Self, Self::Error>)
        ensures
            r == QoS::spec_from_code(value),
    {
        QoS::from_code(value)
    }
}

impl vstd::std_specs::convert::TryFromSpecImpl<u8> for QoS {
    open spec fn obeys_try_from_spec() -> bool {
        true
    }

    open spec fn try_from_spec(v: u8) -> Result<Self, Self::Error> {
        QoS::spec_from_code(v)
    }
}

} // verus!
