//! This module defines the core MQTT packet types as specified by the MQTT protocol.

use vstd::prelude::*;

pub mod auth;
pub mod connack;
pub mod connect;
pub mod disconnect;
pub mod ping;
pub mod puback;
pub mod pubcomp;
pub mod publish;
pub mod pubrec;
pub mod pubrel;
pub mod suback;
pub mod subscribe;
pub mod unsuback;
pub mod unsubscribe;
pub mod v4;
pub mod v5;

use self::auth::{Auth, AuthModel};
use self::connack::{ConnAck, ConnAckModel};
use self::connect::{Connect, ConnectModel};
use self::disconnect::{Disconnect, DisconnectModel};
use self::ping::{PingReq, PingResp};
use self::puback::{PubAck, PubAckModel};
use self::pubcomp::{PubComp, PubCompModel};
use self::publish::{Publish, PublishModel};
use self::pubrec::{PubRec, PubRecModel};
use self::pubrel::{PubRel, PubRelModel};
use self::suback::{SubAck, SubAckModel};
use self::subscribe::{Subscribe, SubscribeModel};
use self::unsuback::{UnsubAck, UnsubAckModel};
use self::unsubscribe::{Unsubscribe, UnsubscribeModel};
use crate::header::spec_check;
use crate::parse::VarInt;
use crate::wire::{lemma_varint_bytes_len, lemma_varint_roundtrip, varint_bytes, varint_len, varint_max};
use crate::Error;

verus! {

/// MQTT Control Packet
///
/// This enumeration represents the different types of MQTT packets that can be sent or received.
#[derive(Clone, Debug, PartialEq, Eq)]
pub enum Packet {
    Connect(Connect),
    ConnAck(ConnAck),
    Publish(Publish),
    PubAck(PubAck),
    PubRec(PubRec),
    PubRel(PubRel),
    PubComp(PubComp),
    Subscribe(Subscribe),
    SubAck(SubAck),
    Unsubscribe(Unsubscribe),
    UnsubAck(UnsubAck),
    PingReq(PingReq),
    PingResp(PingResp),
    Disconnect(Disconnect),
    Auth(Auth),
}

/// A [Packet], as the specifications see it.
pub enum PacketModel {
    Connect(ConnectModel),
    ConnAck(ConnAckModel),
    Publish(PublishModel),
    PubAck(PubAckModel),
    PubRec(PubRecModel),
    PubRel(PubRelModel),
    PubComp(PubCompModel),
    Subscribe(SubscribeModel),
    SubAck(SubAckModel),
    Unsubscribe(UnsubscribeModel),
    UnsubAck(UnsubAckModel),
    PingReq,
    PingResp,
    Disconnect(DisconnectModel),
    Auth(AuthModel),
}

impl View for Packet {
    type V = PacketModel;

    open spec fn view(&self) -> PacketModel {
        match self {
            Packet::Connect(p) => PacketModel::Connect(p@),
            Packet::ConnAck(p) => PacketModel::ConnAck(p@),
            Packet::Publish(p) => PacketModel::Publish(p@),
            Packet::PubAck(p) => PacketModel::PubAck(p@),
            Packet::PubRec(p) => PacketModel::PubRec(p@),
            Packet::PubRel(p) => PacketModel::PubRel(p@),
            Packet::PubComp(p) => PacketModel::PubComp(p@),
            Packet::Subscribe(p) => PacketModel::Subscribe(p@),
            Packet::SubAck(p) => PacketModel::SubAck(p@),
            Packet::Unsubscribe(p) => PacketModel::Unsubscribe(p@),
            Packet::UnsubAck(p) => PacketModel::UnsubAck(p@),
            Packet::PingReq(_) => PacketModel::PingReq,
            Packet::PingResp(_) => PacketModel::PingResp,
            Packet::Disconnect(p) => PacketModel::Disconnect(p@),
            Packet::Auth(p) => PacketModel::Auth(p@),
        }
    }
}

/// The result of reading a packet, as the specifications see it.
pub open spec fn result_view(r: Result<Packet, Error>) -> Result<PacketModel, Error> {
    match r {
        Ok(p) => Ok(p@),
        Err(e) => Err(e),
    }
}

/// The result of a parse step lifted into a packet.
pub open spec fn lift<T>(r: Result<T, Error>, f: spec_fn(T) -> PacketModel) -> Result<PacketModel, Error> {
    match r {
        Ok(m) => Ok(f(m)),
        Err(e) => Err(e),
    }
}

/// MQTT packet types
#[derive(Debug, Clone, Copy, PartialEq, Eq, Structural)]
pub enum PacketType {
    /// Connection request
    Connect,
    /// Connect acknowledgment
    ConnAck,
    /// Publish message
    Publish,
    /// Publish acknowledgment (QoS 1)
    PubAck,
    /// Publish received (QoS 2 delivery part 1)
    PubRec,
    /// Publish release (QoS 2 delivery part 2)
    PubRel,
    /// Publish complete (QoS 2 delivery part 3)
    PubComp,
    /// Subscribe request
    Subscribe,
    /// Subscribe acknowledgment
    SubAck,
    /// Unsubscribe request
    Unsubscribe,
    /// Unsubscribe acknowledgment
    UnsubAck,
    /// PING request
    PingReq,
    /// PING response
    PingResp,
    /// Disconnect notification
    Disconnect,
    /// Authentication exchange
    Auth,
}

impl PacketType {
    /// The values of these codes on the wire are the fixed ones of MQTT: each
    /// is written as the value listed here, each value listed reads back as
    /// its code, and a value that reads as a code is that code's value.
    pub proof fn lemma_wire_codes()
        ensures
            PacketType::Connect.spec_code() == 0x01,
            PacketType::ConnAck.spec_code() == 0x02,
            PacketType::Publish.spec_code() == 0x03,
            PacketType::PubAck.spec_code() == 0x04,
            PacketType::PubRec.spec_code() == 0x05,
            PacketType::PubRel.spec_code() == 0x06,
            PacketType::PubComp.spec_code() == 0x07,
            PacketType::Subscribe.spec_code() == 0x08,
            PacketType::SubAck.spec_code() == 0x09,
            PacketType::Unsubscribe.spec_code() == 0x0A,
            PacketType::UnsubAck.spec_code() == 0x0B,
            PacketType::PingReq.spec_code() == 0x0C,
            PacketType::PingResp.spec_code() == 0x0D,
            PacketType::Disconnect.spec_code() == 0x0E,
            PacketType::Auth.spec_code() == 0x0F,
            PacketType::spec_from_code(0x01) == Ok::<PacketType, Error>(PacketType::Connect),
            PacketType::spec_from_code(0x02) == Ok::<PacketType, Error>(PacketType::ConnAck),
            PacketType::spec_from_code(0x03) == Ok::<PacketType, Error>(PacketType::Publish),
            PacketType::spec_from_code(0x04) == Ok::<PacketType, Error>(PacketType::PubAck),
            PacketType::spec_from_code(0x05) == Ok::<PacketType, Error>(PacketType::PubRec),
            PacketType::spec_from_code(0x06) == Ok::<PacketType, Error>(PacketType::PubRel),
            PacketType::spec_from_code(0x07) == Ok::<PacketType, Error>(PacketType::PubComp),
            PacketType::spec_from_code(0x08) == Ok::<PacketType, Error>(PacketType::Subscribe),
            PacketType::spec_from_code(0x09) == Ok::<PacketType, Error>(PacketType::SubAck),
            PacketType::spec_from_code(0x0A) == Ok::<PacketType, Error>(PacketType::Unsubscribe),
            PacketType::spec_from_code(0x0B) == Ok::<PacketType, Error>(PacketType::UnsubAck),
            PacketType::spec_from_code(0x0C) == Ok::<PacketType, Error>(PacketType::PingReq),
            PacketType::spec_from_code(0x0D) == Ok::<PacketType, Error>(PacketType::PingResp),
            PacketType::spec_from_code(0x0E) == Ok::<PacketType, Error>(PacketType::Disconnect),
            PacketType::spec_from_code(0x0F) == Ok::<PacketType, Error>(PacketType::Auth),
            forall|c: u8| (#[trigger] PacketType::spec_from_code(c)) matches Ok(v) ==> v.spec_code() == c,
    {
    }
}

impl PacketType {
    /// The four-bit code of this packet type in the control field.
    pub open spec fn spec_code(self) -> u8 {
        match self {
            PacketType::Connect => 1,
            PacketType::ConnAck => 2,
            PacketType::Publish => 3,
            PacketType::PubAck => 4,
            PacketType::PubRec => 5,
            PacketType::PubRel => 6,
            PacketType::PubComp => 7,
            PacketType::Subscribe => 8,
            PacketType::SubAck => 9,
            PacketType::Unsubscribe => 10,
            PacketType::UnsubAck => 11,
            PacketType::PingReq => 12,
            PacketType::PingResp => 13,
            PacketType::Disconnect => 14,
            PacketType::Auth => 15,
        }
    }

    /// The packet type a code names, or the error for a code that names none.
    pub open spec fn spec_from_code(value: u8) -> Result<PacketType, Error> {
        if value == 1 {
            Ok(PacketType::Connect)
        } else if value == 2 {
            Ok(PacketType::ConnAck)
        } else if value == 3 {
            Ok(PacketType::Publish)
        } else if value == 4 {
            Ok(PacketType::PubAck)
        } else if value == 5 {
            Ok(PacketType::PubRec)
        } else if value == 6 {
            Ok(PacketType::PubRel)
        } else if value == 7 {
            Ok(PacketType::PubComp)
        } else if value == 8 {
            Ok(PacketType::Subscribe)
        } else if value == 9 {
            Ok(PacketType::SubAck)
        } else if value == 10 {
            Ok(PacketType::Unsubscribe)
        } else if value == 11 {
            Ok(PacketType::UnsubAck)
        } else if value == 12 {
            Ok(PacketType::PingReq)
        } else if value == 13 {
            Ok(PacketType::PingResp)
        } else if value == 14 {
            Ok(PacketType::Disconnect)
        } else if value == 15 {
            Ok(PacketType::Auth)
        } else {
            Err(Error::InvalidPacketType(value))
        }
    }

    /// The code of this packet type.
    pub fn code(self) -> (c: u8)
        ensures
            c == self.spec_code(),
    {
        match self {
            PacketType::Connect => 1,
            PacketType::ConnAck => 2,
            PacketType::Publish => 3,
            PacketType::PubAck => 4,
            PacketType::PubRec => 5,
            PacketType::PubRel => 6,
            PacketType::PubComp => 7,
            PacketType::Subscribe => 8,
            PacketType::SubAck => 9,
            PacketType::Unsubscribe => 10,
            PacketType::UnsubAck => 11,
            PacketType::PingReq => 12,
            PacketType::PingResp => 13,
            PacketType::Disconnect => 14,
            PacketType::Auth => 15,
        }
    }

    /// Decodes a packet type from its code.
    pub fn from_code(value: u8) -> (r: Result<PacketType, Error>)
        ensures
            r == PacketType::spec_from_code(value),
    {
        match value {
            1 => Ok(PacketType::Connect),
            2 => Ok(PacketType::ConnAck),
            3 => Ok(PacketType::Publish),
            4 => Ok(PacketType::PubAck),
            5 => Ok(PacketType::PubRec),
            6 => Ok(PacketType::PubRel),
            7 => Ok(PacketType::PubComp),
            8 => Ok(PacketType::Subscribe),
            9 => Ok(PacketType::SubAck),
            10 => Ok(PacketType::Unsubscribe),
            11 => Ok(PacketType::UnsubAck),
            12 => Ok(PacketType::PingReq),
            13 => Ok(PacketType::PingResp),
            14 => Ok(PacketType::Disconnect),
            15 => Ok(PacketType::Auth),
            x => Err(Error::InvalidPacketType(x)),
        }
    }
}

impl TryFrom<u8> for PacketType {
    type Error = Error;

    fn try_from(value: u8) -> (r: Result<Self, Self::Error>)
        ensures
            r == PacketType::spec_from_code(value),
    {
        PacketType::from_code(value)
    }
}

impl vstd::std_specs::convert::TryFromSpecImpl<u8> for PacketType {
    open spec fn obeys_try_from_spec() -> bool {
        true
    }

    open spec fn try_from_spec(v: u8) -> Result<Self, Self::Error> {
        PacketType::spec_from_code(v)
    }
}

/// Get the packet size from the remaining length
pub fn size_from_len(len: VarInt) -> (n: usize)
    ensures
        n == 1 + len.spec_length() + len.spec_value(),
{
    // control field + remaining length + variable header & payload
    1 + len.length() + len.value()
}

/// Whether `r` is what computing a remaining length of `rl` bytes gives:
/// the shortest variable byte integer for it, or an error when it is too large.
pub open spec fn len_result(r: Result<VarInt, Error>, rl: int) -> bool {
    if rl <= varint_max() {
        r matches Ok(v) && v.spec_value() == rl && v.is_shortest()
    } else {
        r == Err::<VarInt, Error>(Error::PayloadTooLong)
    }
}

/// A packet on the wire: the control field, the remaining length, then the
/// variable header and payload.
pub open spec fn frame(byte1: u8, rl: nat, body: Seq<u8>) -> Seq<u8> {
    seq![byte1] + varint_bytes(rl) + body
}

/// The most bytes that writing a packet with remaining length `rl` appends:
/// the whole frame, or the control field alone when the remaining length is
/// too large.
pub open spec fn frame_room(rl: int) -> int {
    if rl > varint_max() {
        1
    } else {
        1 + varint_len(rl as nat) + rl
    }
}

/// Whether writing a packet with control field `byte1`, remaining length
/// `rl` and variable header and payload `body` into a buffer holding
/// `before` left it holding `after` with result `r`: the packet and its size,
/// or, when the remaining length is too large, only the control field and
/// the error.
pub open spec fn wrote(r: Result<usize, Error>, before: Seq<u8>, after: Seq<u8>, byte1: u8, rl: int, body: Seq<u8>) -> bool {
    if rl > varint_max() {
        r == Err::<usize, Error>(Error::PayloadTooLong) && after == before.push(byte1)
    } else {
        r == Ok::<usize, Error>((1 + varint_len(rl as nat) + rl) as usize) && after == before + frame(byte1, rl as nat, body)
    }
}

/// A frame, followed by anything, is checked as complete, and its variable
/// header and payload and what follows it are where the frame says.
pub proof fn lemma_frame_check(byte1: u8, rl: nat, body: Seq<u8>, rest: Seq<u8>, max_size: u32)
    requires
        rl <= varint_max(),
        rl <= max_size,
        body.len() == rl,
    ensures
        ({
            let s = frame(byte1, rl, body) + rest;
            let n = varint_len(rl);
            &&& spec_check(s, max_size) == Ok::<(u8, nat, nat), Error>((byte1, rl, n))
            &&& s.subrange(1 + n as int, (1 + n + rl) as int) == body
            &&& s.skip((1 + n + rl) as int) == rest
        }),
{
    let s = frame(byte1, rl, body) + rest;
    let n = varint_len(rl);
    lemma_varint_bytes_len(rl);
    lemma_varint_roundtrip(rl, body + rest);
    assert(s.skip(1) =~= varint_bytes(rl) + (body + rest));
    assert(s.subrange(1 + n as int, (1 + n + rl) as int) =~= body);
    assert(s.skip((1 + n + rl) as int) =~= rest);
}

} // verus!
