//! MQTT protocol version 5 implementation

use bytes::BytesMut;
use vstd::prelude::*;

use super::{
    auth, connack, connect, disconnect, frame, lift, ping, puback, pubcomp, publish, pubrec, pubrel,
    lemma_frame_check, result_view, suback, subscribe, unsuback, unsubscribe, wrote, Packet, PacketModel,
    PacketType,
};
use crate::buffer::{bytes_mut_as_slice, bytes_mut_split_to, bytes_mut_view, freeze};
use crate::header::{spec_check, FixedHeader};
use crate::wire::{lemma_mqtt_name, lemma_varint_bytes_len, varint_len, varint_max};
use crate::property::{lemma_props_bytes_len, props_shortest};
use crate::{Error, Protocol};

verus! {

/// Type that implements [`Packet`] reading and writing for MQTT protocol version 5 (MQTT v5.0)
#[derive(Copy, Clone)]
pub struct V5;

/// Reading the variable header and payload `body` of a packet of type `t` in
/// MQTT 5.0, whose control field is `control` and remaining length `rl`: a
/// remaining length of 0 is only for packets without a payload.
pub open spec fn parse(t: PacketType, control: u8, rl: nat, body: Seq<u8>) -> Result<PacketModel, Error> {
    if rl == 0 && !(t == PacketType::Disconnect || t == PacketType::PingReq || t == PacketType::PingResp) {
        Err(Error::PayloadRequired)
    } else {
        match t {
            PacketType::Connect => lift(connect::v5::p_read(body), |x| PacketModel::Connect(x)),
            PacketType::ConnAck => lift(connack::v5::p_read(body), |x| PacketModel::ConnAck(x)),
            PacketType::Publish => lift(publish::v5::p_read(control % 16, body), |x| PacketModel::Publish(x)),
            PacketType::PubAck => lift(puback::v5::p_read(rl, body), |x| PacketModel::PubAck(x)),
            PacketType::PubRec => lift(pubrec::v5::p_read(rl, body), |x| PacketModel::PubRec(x)),
            PacketType::PubRel => lift(pubrel::v5::p_read(rl, body), |x| PacketModel::PubRel(x)),
            PacketType::PubComp => lift(pubcomp::v5::p_read(rl, body), |x| PacketModel::PubComp(x)),
            PacketType::Subscribe => lift(subscribe::v5::p_read(body), |x| PacketModel::Subscribe(x)),
            PacketType::SubAck => lift(suback::v5::p_read(body), |x| PacketModel::SubAck(x)),
            PacketType::Unsubscribe => lift(unsubscribe::v5::p_read(body), |x| PacketModel::Unsubscribe(x)),
            PacketType::UnsubAck => lift(unsuback::v5::p_read(body), |x| PacketModel::UnsubAck(x)),
            PacketType::PingReq => Ok(PacketModel::PingReq),
            PacketType::PingResp => Ok(PacketModel::PingResp),
            PacketType::Disconnect => lift(disconnect::v5::p_read(control % 16, rl, body), |x| PacketModel::Disconnect(x)),
            PacketType::Auth => lift(auth::v5::p_read(body), |x| PacketModel::Auth(x)),
        }
    }
}

/// What reading a packet from the start of `s` gives, and what is left of
/// `s`: a complete frame is taken off once its control field names a packet
/// type, whether or not its content reads.
pub open spec fn spec_read(s: Seq<u8>, max_size: u32) -> (Result<PacketModel, Error>, Seq<u8>) {
    match spec_check(s, max_size) {
        Err(e) => (Err(e), s),
        Ok((control, rl, n)) => match PacketType::spec_from_code(control / 16) {
            Err(e) => (Err(e), s),
            Ok(t) => (parse(t, control, rl, s.subrange(1 + n as int, (1 + n + rl) as int)), s.skip((1 + n + rl) as int)),
        },
    }
}

/// The control field of a packet.
pub open spec fn spec_byte1(p: PacketModel) -> u8 {
    match p {
        PacketModel::Connect(_) => 0x10,
        PacketModel::ConnAck(_) => 0x20,
        PacketModel::Publish(m) => publish::spec_byte1(m),
        PacketModel::PubAck(_) => 0x40,
        PacketModel::PubRec(_) => 0x50,
        PacketModel::PubRel(_) => 0x62,
        PacketModel::PubComp(_) => 0x70,
        PacketModel::Subscribe(_) => 0x82,
        PacketModel::SubAck(_) => 0x90,
        PacketModel::Unsubscribe(_) => 0xA2,
        PacketModel::UnsubAck(_) => 0xB0,
        PacketModel::PingReq => 0xC0,
        PacketModel::PingResp => 0xD0,
        PacketModel::Disconnect(_) => 0xE0,
        PacketModel::Auth(_) => 0xF0,
    }
}

/// The remaining length of a packet.
pub open spec fn spec_len(p: PacketModel) -> int {
    match p {
        PacketModel::Connect(m) => connect::v5::spec_len(m),
        PacketModel::ConnAck(m) => connack::v5::spec_len(m),
        PacketModel::Publish(m) => publish::v5::spec_len(m),
        PacketModel::PubAck(m) => puback::v5::spec_len(m),
        PacketModel::PubRec(m) => pubrec::v5::spec_len(m),
        PacketModel::PubRel(m) => pubrel::v5::spec_len(m),
        PacketModel::PubComp(m) => pubcomp::v5::spec_len(m),
        PacketModel::Subscribe(m) => subscribe::v5::spec_len(m),
        PacketModel::SubAck(m) => suback::v5::spec_len(m),
        PacketModel::Unsubscribe(m) => unsubscribe::v5::spec_len(m),
        PacketModel::UnsubAck(m) => unsuback::v5::spec_len(m),
        PacketModel::PingReq => 0,
        PacketModel::PingResp => 0,
        PacketModel::Disconnect(m) => disconnect::v5::spec_len(m),
        PacketModel::Auth(m) => auth::v5::spec_len(m),
    }
}

/// The variable header and payload of a packet.
pub open spec fn spec_body(p: PacketModel) -> Seq<u8> {
    match p {
        PacketModel::Connect(m) => connect::v5::spec_body(m),
        PacketModel::ConnAck(m) => connack::v5::spec_body(m),
        PacketModel::Publish(m) => publish::v5::spec_body(m),
        PacketModel::PubAck(m) => puback::v5::spec_body(m),
        PacketModel::PubRec(m) => pubrec::v5::spec_body(m),
        PacketModel::PubRel(m) => pubrel::v5::spec_body(m),
        PacketModel::PubComp(m) => pubcomp::v5::spec_body(m),
        PacketModel::Subscribe(m) => subscribe::v5::spec_body(m),
        PacketModel::SubAck(m) => suback::v5::spec_body(m),
        PacketModel::Unsubscribe(m) => unsubscribe::v5::spec_body(m),
        PacketModel::UnsubAck(m) => unsuback::v5::spec_body(m),
        PacketModel::PingReq => Seq::empty(),
        PacketModel::PingResp => Seq::empty(),
        PacketModel::Disconnect(m) => disconnect::v5::spec_body(m),
        PacketModel::Auth(m) => auth::v5::spec_body(m),
    }
}

/// A packet on the wire.
pub open spec fn encode(p: PacketModel) -> Seq<u8> {
    frame(spec_byte1(p), spec_len(p) as nat, spec_body(p))
}

/// The size of a packet on the wire, or the error for a packet that cannot
/// be written.
pub open spec fn spec_size(p: PacketModel) -> Result<u32, Error> {
    if spec_len(p) > varint_max() {
        Err(Error::PayloadTooLong)
    } else {
        Ok((1 + varint_len(spec_len(p) as nat) + spec_len(p)) as u32)
    }
}

/// Whether writing the packet `p` into a buffer holding `before` left it
/// holding `after` with result `r`, as the writer of its type does.
pub open spec fn written(p: PacketModel, r: Result<usize, Error>, before: Seq<u8>, after: Seq<u8>) -> bool {
    match p {
        PacketModel::Connect(m) => connect::v5::written(m, r, before, after),
        PacketModel::ConnAck(m) => wrote(r, before, after, 0x20, connack::v5::spec_len(m), connack::v5::spec_body(m)),
        PacketModel::Publish(m) => publish::v5::written(m, r, before, after),
        PacketModel::PubAck(m) => wrote(r, before, after, 0x40, puback::v5::spec_len(m), puback::v5::spec_body(m)),
        PacketModel::PubRec(m) => wrote(r, before, after, 0x50, pubrec::v5::spec_len(m), pubrec::v5::spec_body(m)),
        PacketModel::PubRel(m) => wrote(r, before, after, 0x62, pubrel::v5::spec_len(m), pubrel::v5::spec_body(m)),
        PacketModel::PubComp(m) => wrote(r, before, after, 0x70, pubcomp::v5::spec_len(m), pubcomp::v5::spec_body(m)),
        PacketModel::Subscribe(m) => wrote(r, before, after, 0x82, subscribe::v5::spec_len(m), subscribe::v5::spec_body(m)),
        PacketModel::SubAck(m) => wrote(r, before, after, 0x90, suback::v5::spec_len(m), suback::v5::spec_body(m)),
        PacketModel::Unsubscribe(m) => wrote(r, before, after, 0xA2, unsubscribe::v5::spec_len(m), unsubscribe::v5::spec_body(m)),
        PacketModel::UnsubAck(m) => wrote(r, before, after, 0xB0, unsuback::v5::spec_len(m), unsuback::v5::spec_body(m)),
        PacketModel::PingReq => wrote(r, before, after, 0xC0, 0, Seq::empty()),
        PacketModel::PingResp => wrote(r, before, after, 0xD0, 0, Seq::empty()),
        PacketModel::Disconnect(m) => wrote(r, before, after, 0xE0, disconnect::v5::spec_len(m), disconnect::v5::spec_body(m)),
        PacketModel::Auth(m) => wrote(r, before, after, 0xF0, auth::v5::spec_len(m), auth::v5::spec_body(m)),
    }
}

/// Whether writing the packet `p` with the size limit `max_size` into a
/// buffer holding `before` left it holding `after` with result `r`: a packet
/// whose size cannot be computed or is over the limit is not written.
pub open spec fn spec_write(p: PacketModel, max_size: u32, r: Result<usize, Error>, before: Seq<u8>, after: Seq<u8>) -> bool {
    match spec_size(p) {
        Err(e) => r == Err::<usize, Error>(e) && after == before,
        Ok(size) => if size > max_size {
            r == Err::<usize, Error>(Error::OutgoingPacketTooLarge { pkt_size: size, max: max_size }) && after == before
        } else {
            written(p, r, before, after)
        },
    }
}

impl Protocol for V5 {
    type Item = Packet;

    /// A packet that is written appends its frame; one that is not appends
    /// nothing.
    open spec fn room_needed(packet: Packet, max_size: u32) -> int {
        match spec_size(packet@) {
            Ok(size) => if size <= max_size {
                size as int
            } else {
                0
            },
            Err(_) => 0,
        }
    }

    fn read(stream: &mut BytesMut, max_size: u32) -> (r: Result<Self::Item, Error>)
        ensures
            result_view(r) == spec_read(bytes_mut_view(*old(stream)), max_size).0,
            bytes_mut_view(*final(stream)) == spec_read(bytes_mut_view(*old(stream)), max_size).1,
    {
        let fixed_header = FixedHeader::check(bytes_mut_as_slice(stream), max_size)?;
        let packet_type = fixed_header.packet_type()?;

        // Test with a stream with exactly the size to check border panics
        let mut packet = bytes_mut_split_to(stream, fixed_header.packet_size());
        // skip the fixed header, we have already parsed it
        let _ = bytes_mut_split_to(&mut packet, fixed_header.size());
        proof {
            let s = bytes_mut_view(*old(stream));
            let n = fixed_header.remaining_len.spec_length();
            let rl = fixed_header.remaining_len.spec_value();
            assert(bytes_mut_view(packet) =~= s.subrange(1 + n as int, (1 + n + rl) as int));
        }

        if fixed_header.remaining_len.value() == 0 {
            // no payload packets
            match packet_type {
                PacketType::Disconnect | PacketType::PingReq | PacketType::PingResp => (),
                _ => return Err(Error::PayloadRequired),
            };
        }

        let packet = freeze(packet);
        let packet = match packet_type {
            PacketType::Connect => Packet::Connect(connect::v5::read(fixed_header, packet)?),
            PacketType::ConnAck => Packet::ConnAck(connack::v5::read(fixed_header, packet)?),
            PacketType::Publish => Packet::Publish(publish::v5::read(fixed_header, packet)?),
            PacketType::PubAck => Packet::PubAck(puback::v5::read(fixed_header, packet)?),
            PacketType::PubRec => Packet::PubRec(pubrec::v5::read(fixed_header, packet)?),
            PacketType::PubRel => Packet::PubRel(pubrel::v5::read(fixed_header, packet)?),
            PacketType::PubComp => Packet::PubComp(pubcomp::v5::read(fixed_header, packet)?),
            PacketType::Subscribe => Packet::Subscribe(subscribe::v5::read(fixed_header, packet)?),
            PacketType::SubAck => Packet::SubAck(suback::v5::read(fixed_header, packet)?),
            PacketType::Unsubscribe => Packet::Unsubscribe(unsubscribe::v5::read(fixed_header, packet)?),
            PacketType::UnsubAck => Packet::UnsubAck(unsuback::v5::read(fixed_header, packet)?),
            PacketType::PingReq => Packet::PingReq(ping::req::read(fixed_header, packet)?),
            PacketType::PingResp => Packet::PingResp(ping::resp::read(fixed_header, packet)?),
            PacketType::Disconnect => Packet::Disconnect(disconnect::v5::read(fixed_header, packet)?),
            PacketType::Auth => Packet::Auth(auth::v5::read(fixed_header, packet)?),
        };

        Ok(packet)
    }

    fn write(packet: Self::Item, stream: &mut BytesMut, max_size: u32) -> (r: Result<usize, Error>)
        ensures
            spec_write(packet@, max_size, r, bytes_mut_view(*old(stream)), bytes_mut_view(*final(stream))),
    {
        let size = size(&packet)?;
        if size > max_size {
            return Err(Error::OutgoingPacketTooLarge { pkt_size: size, max: max_size });
        }

        match packet {
            Packet::Connect(c) => connect::v5::write(&c, stream),
            Packet::ConnAck(c) => connack::v5::write(&c, stream),
            Packet::Publish(p) => publish::v5::write(&p, stream),
            Packet::PubAck(p) => puback::v5::write(&p, stream),
            Packet::PubRec(p) => pubrec::v5::write(&p, stream),
            Packet::PubRel(p) => pubrel::v5::write(&p, stream),
            Packet::PubComp(p) => pubcomp::v5::write(&p, stream),
            Packet::Subscribe(s) => subscribe::v5::write(&s, stream),
            Packet::SubAck(s) => suback::v5::write(&s, stream),
            Packet::Unsubscribe(u) => unsubscribe::v5::write(&u, stream),
            Packet::UnsubAck(u) => unsuback::v5::write(&u, stream),
            Packet::PingReq(p) => ping::req::write(&p, stream),
            Packet::PingResp(p) => ping::resp::write(&p, stream),
            Packet::Disconnect(d) => disconnect::v5::write(&d, stream),
            Packet::Auth(a) => auth::v5::write(&a, stream),
        }
    }
}

fn size(packet: &Packet) -> (r: Result<u32, Error>)
    ensures
        r == spec_size(packet@),
{
    let len = match packet {
        Packet::Connect(c) => connect::v5::len(c),
        Packet::ConnAck(c) => connack::v5::len(c),
        Packet::Publish(p) => publish::v5::len(p),
        Packet::PubAck(p) => puback::v5::len(p),
        Packet::PubRec(p) => pubrec::v5::len(p),
        Packet::PubRel(p) => pubrel::v5::len(p),
        Packet::PubComp(p) => pubcomp::v5::len(p),
        Packet::Subscribe(s) => subscribe::v5::len(s),
        Packet::SubAck(s) => suback::v5::len(s),
        Packet::Unsubscribe(u) => unsubscribe::v5::len(u),
        Packet::UnsubAck(u) => unsuback::v5::len(u),
        Packet::PingReq(p) => ping::req::len(p),
        Packet::PingResp(p) => ping::resp::len(p),
        Packet::Disconnect(d) => disconnect::v5::len(d),
        Packet::Auth(a) => auth::v5::len(a),
    }?;
    Ok(super::size_from_len(len) as u32)
}

/// The type of a packet.
pub open spec fn packet_type(p: PacketModel) -> PacketType {
    match p {
        PacketModel::Connect(_) => PacketType::Connect,
        PacketModel::ConnAck(_) => PacketType::ConnAck,
        PacketModel::Publish(_) => PacketType::Publish,
        PacketModel::PubAck(_) => PacketType::PubAck,
        PacketModel::PubRec(_) => PacketType::PubRec,
        PacketModel::PubRel(_) => PacketType::PubRel,
        PacketModel::PubComp(_) => PacketType::PubComp,
        PacketModel::Subscribe(_) => PacketType::Subscribe,
        PacketModel::SubAck(_) => PacketType::SubAck,
        PacketModel::Unsubscribe(_) => PacketType::Unsubscribe,
        PacketModel::UnsubAck(_) => PacketType::UnsubAck,
        PacketModel::PingReq => PacketType::PingReq,
        PacketModel::PingResp => PacketType::PingResp,
        PacketModel::Disconnect(_) => PacketType::Disconnect,
        PacketModel::Auth(_) => PacketType::Auth,
    }
}

/// Whether a packet reads back as written in MQTT 5.0.
pub open spec fn wf(p: PacketModel) -> bool {
    match p {
        PacketModel::Connect(m) => connect::v5::wf(m),
        PacketModel::ConnAck(m) => connack::v5::wf(m),
        PacketModel::Publish(m) => publish::v5::wf(m),
        PacketModel::PubAck(m) => puback::v5::wf(m),
        PacketModel::PubRec(m) => pubrec::v5::wf(m),
        PacketModel::PubRel(m) => pubrel::v5::wf(m),
        PacketModel::PubComp(m) => pubcomp::v5::wf(m),
        PacketModel::Subscribe(m) => subscribe::v5::wf(m),
        PacketModel::SubAck(m) => suback::v5::wf(m),
        PacketModel::Unsubscribe(m) => unsubscribe::v5::wf(m),
        PacketModel::UnsubAck(m) => unsuback::v5::wf(m),
        PacketModel::PingReq => true,
        PacketModel::PingResp => true,
        PacketModel::Disconnect(m) => disconnect::v5::wf(m),
        PacketModel::Auth(m) => auth::v5::wf(m),
    }
}

/// A well-formed packet has a variable header and payload of its remaining
/// length, which fits, and they read back as the packet under its control
/// field.
pub proof fn lemma_parse(p: PacketModel)
    requires
        wf(p),
    ensures
        spec_body(p).len() == spec_len(p),
        0 <= spec_len(p) <= varint_max(),
        PacketType::spec_from_code(spec_byte1(p) / 16) == Ok::<PacketType, Error>(packet_type(p)),
        parse(packet_type(p), spec_byte1(p), spec_len(p) as nat, spec_body(p)) == Ok::<PacketModel, Error>(p),
{
    match p {
        PacketModel::Connect(m) => connect::v5::lemma_roundtrip(m),
        PacketModel::ConnAck(m) => connack::v5::lemma_roundtrip(m),
        PacketModel::Publish(m) => {
            publish::v5::lemma_roundtrip(m);
            assert(publish::spec_byte1(m) / 16 == 3);
        },
        PacketModel::PubAck(m) => puback::v5::lemma_roundtrip(m),
        PacketModel::PubRec(m) => pubrec::v5::lemma_roundtrip(m),
        PacketModel::PubRel(m) => pubrel::v5::lemma_roundtrip(m),
        PacketModel::PubComp(m) => pubcomp::v5::lemma_roundtrip(m),
        PacketModel::Subscribe(m) => subscribe::v5::lemma_roundtrip(m),
        PacketModel::SubAck(m) => suback::v5::lemma_roundtrip(m),
        PacketModel::Unsubscribe(m) => unsubscribe::v5::lemma_roundtrip(m),
        PacketModel::UnsubAck(m) => unsuback::v5::lemma_roundtrip(m),
        PacketModel::PingReq => {},
        PacketModel::PingResp => {},
        PacketModel::Disconnect(m) => disconnect::v5::lemma_roundtrip(m),
        PacketModel::Auth(m) => auth::v5::lemma_roundtrip(m),
    }
}

/// A well-formed packet on the wire reads back as itself in MQTT 5.0, whatever
/// follows it, when its remaining length is within the size limit; what
/// follows it is left.
pub proof fn lemma_read_encode(p: PacketModel, rest: Seq<u8>, max_size: u32)
    requires
        wf(p),
        spec_len(p) <= max_size,
    ensures
        spec_read(encode(p) + rest, max_size) == (Ok::<PacketModel, Error>(p), rest),
{
    lemma_parse(p);
    lemma_frame_check(spec_byte1(p), spec_len(p) as nat, spec_body(p), rest, max_size);
}


/// Whether the size of a packet can be computed and is the number of bytes
/// written for it in MQTT 5.0: its remaining length fits; its properties, and
/// those of a will, are each in their shortest form; and a Publish has a
/// packet identifier where its QoS level asks for one.
pub open spec fn sized(p: PacketModel) -> bool {
    &&& spec_len(p) <= varint_max()
    &&& match p {
        PacketModel::Connect(m) => props_shortest(m.properties) && (m.last_will matches Some(w) ==> props_shortest(
            w.properties,
        )),
        PacketModel::Publish(m) => props_shortest(m.properties) && !publish::pkid_missing(m),
        PacketModel::PingReq => true,
        PacketModel::PingResp => true,
        PacketModel::ConnAck(m) => props_shortest(m.properties),
        PacketModel::PubAck(m) => props_shortest(m.properties),
        PacketModel::PubRec(m) => props_shortest(m.properties),
        PacketModel::PubRel(m) => props_shortest(m.properties),
        PacketModel::PubComp(m) => props_shortest(m.properties),
        PacketModel::Subscribe(m) => props_shortest(m.properties),
        PacketModel::SubAck(m) => props_shortest(m.properties),
        PacketModel::Unsubscribe(m) => props_shortest(m.properties),
        PacketModel::UnsubAck(m) => props_shortest(m.properties),
        PacketModel::Disconnect(m) => props_shortest(m.properties),
        PacketModel::Auth(m) => props_shortest(m.properties),
    }
}

/// A packet whose size can be computed has a variable header and payload of
/// its remaining length.
#[verifier::spinoff_prover]
#[verifier::rlimit(40)]
pub proof fn lemma_body_len(p: PacketModel)
    requires
        sized(p),
    ensures
        spec_body(p).len() == spec_len(p),
{
    match p {
        PacketModel::Connect(m) => {
            lemma_props_bytes_len(m.properties);
            if let Some(w) = m.last_will {
                lemma_props_bytes_len(w.properties);
            }
            lemma_mqtt_name(m.client_id);
        },
        PacketModel::ConnAck(m) => {
            lemma_props_bytes_len(m.properties);
        },
        PacketModel::Publish(m) => {
            lemma_props_bytes_len(m.properties);
        },
        PacketModel::PubAck(m) => {
            lemma_props_bytes_len(m.properties);
        },
        PacketModel::PubRec(m) => {
            lemma_props_bytes_len(m.properties);
        },
        PacketModel::PubRel(m) => {
            lemma_props_bytes_len(m.properties);
        },
        PacketModel::PubComp(m) => {
            lemma_props_bytes_len(m.properties);
        },
        PacketModel::Subscribe(m) => {
            lemma_props_bytes_len(m.properties);
            subscribe::lemma_filters_len(m.filters);
        },
        PacketModel::SubAck(m) => {
            lemma_props_bytes_len(m.properties);
        },
        PacketModel::Unsubscribe(m) => {
            lemma_props_bytes_len(m.properties);
            unsubscribe::lemma_strings_len(m.filters);
        },
        PacketModel::UnsubAck(m) => {
            lemma_props_bytes_len(m.properties);
        },
        PacketModel::PingReq => {},
        PacketModel::PingResp => {},
        PacketModel::Disconnect(m) => {
            lemma_props_bytes_len(m.properties);
        },
        PacketModel::Auth(m) => {
            lemma_props_bytes_len(m.properties);
        },
    }
}

/// The size that a packet's length predicts is what writing it returns and
/// the number of bytes it appends in MQTT 5.0: writing a packet whose size can be
/// computed and is within the limit succeeds, appends the packet on the wire
/// and returns its size.
pub proof fn lemma_write_size(p: PacketModel, max_size: u32, r: Result<usize, Error>, before: Seq<u8>, after: Seq<u8>)
    requires
        sized(p),
        encode(p).len() <= max_size,
        spec_write(p, max_size, r, before, after),
    ensures
        spec_size(p) == Ok::<u32, Error>(encode(p).len() as u32),
        r == Ok::<usize, Error>(encode(p).len() as usize),
        after == before + encode(p),
{
    lemma_body_len(p);
    lemma_varint_bytes_len(spec_len(p) as nat);
    match p {
        PacketModel::Connect(_) => {},
        PacketModel::ConnAck(_) => {},
        PacketModel::Publish(_) => {},
        PacketModel::PubAck(_) => {},
        PacketModel::PubRec(_) => {},
        PacketModel::PubRel(_) => {},
        PacketModel::PubComp(_) => {},
        PacketModel::Subscribe(_) => {},
        PacketModel::SubAck(_) => {},
        PacketModel::Unsubscribe(_) => {},
        PacketModel::UnsubAck(_) => {},
        PacketModel::PingReq => {},
        PacketModel::PingResp => {},
        PacketModel::Disconnect(_) => {},
        PacketModel::Auth(_) => {},
    }
}


/// A successful write in MQTT 5.0 appends the packet on the wire, whatever
/// the buffer held, and returns the size that the packet's length predicts,
/// within the limit; that size is the number of bytes appended when the
/// packet's size can be computed (its properties in their shortest form).
pub proof fn lemma_write_ok(p: PacketModel, max_size: u32, n: usize, before: Seq<u8>, after: Seq<u8>)
    requires
        spec_write(p, max_size, Ok::<usize, Error>(n), before, after),
    ensures
        spec_len(p) <= varint_max(),
        p matches PacketModel::Publish(m) ==> !publish::pkid_missing(m),
        after == before + encode(p),
        n == 1 + varint_len(spec_len(p) as nat) + spec_len(p),
        n <= max_size,
        spec_size(p) == Ok::<u32, Error>(n as u32),
        sized(p) ==> n == encode(p).len(),
{
    lemma_varint_bytes_len(spec_len(p) as nat);
    if sized(p) {
        lemma_body_len(p);
    }
    match p {
        PacketModel::Connect(_) => {},
        PacketModel::ConnAck(_) => {},
        PacketModel::Publish(_) => {},
        PacketModel::PubAck(_) => {},
        PacketModel::PubRec(_) => {},
        PacketModel::PubRel(_) => {},
        PacketModel::PubComp(_) => {},
        PacketModel::Subscribe(_) => {},
        PacketModel::SubAck(_) => {},
        PacketModel::Unsubscribe(_) => {},
        PacketModel::UnsubAck(_) => {},
        PacketModel::PingReq => {},
        PacketModel::PingResp => {},
        PacketModel::Disconnect(_) => {},
        PacketModel::Auth(_) => {},
    }
}

/// Writing in MQTT 5.0 does not depend on what the buffer held: when one
/// write of a packet succeeds, a write of the same packet under the same
/// limit into any other buffer succeeds with the same count and appends the
/// same bytes.
pub proof fn lemma_write_independent(
    p: PacketModel,
    max_size: u32,
    n: usize,
    before1: Seq<u8>,
    after1: Seq<u8>,
    r2: Result<usize, Error>,
    before2: Seq<u8>,
    after2: Seq<u8>,
)
    requires
        spec_write(p, max_size, Ok::<usize, Error>(n), before1, after1),
        spec_write(p, max_size, r2, before2, after2),
    ensures
        r2 == Ok::<usize, Error>(n),
        after2 == before2 + after1.skip(before1.len() as int),
{
    lemma_write_ok(p, max_size, n, before1, after1);
    assert(after1.skip(before1.len() as int) =~= encode(p));
    match p {
        PacketModel::Connect(_) => {},
        PacketModel::ConnAck(_) => {},
        PacketModel::Publish(_) => {},
        PacketModel::PubAck(_) => {},
        PacketModel::PubRec(_) => {},
        PacketModel::PubRel(_) => {},
        PacketModel::PubComp(_) => {},
        PacketModel::Subscribe(_) => {},
        PacketModel::SubAck(_) => {},
        PacketModel::Unsubscribe(_) => {},
        PacketModel::UnsubAck(_) => {},
        PacketModel::PingReq => {},
        PacketModel::PingResp => {},
        PacketModel::Disconnect(_) => {},
        PacketModel::Auth(_) => {},
    }
}

/// What V5 writes, it reads back: writing a well-formed packet whose size is
/// within the limit succeeds, and reading what it appended, followed by
/// anything, gives the packet back and leaves what follows.
pub proof fn lemma_write_read(
    p: PacketModel,
    max_size: u32,
    r: Result<usize, Error>,
    before: Seq<u8>,
    after: Seq<u8>,
    rest: Seq<u8>,
)
    requires
        wf(p),
        encode(p).len() <= max_size,
        spec_write(p, max_size, r, before, after),
    ensures
        r is Ok,
        spec_read(after.skip(before.len() as int) + rest, max_size) == (Ok::<PacketModel, Error>(p), rest),
{
    lemma_parse(p);
    assert(sized(p));
    lemma_write_size(p, max_size, r, before, after);
    assert(after.skip(before.len() as int) =~= encode(p));
    lemma_varint_bytes_len(spec_len(p) as nat);
    lemma_parse(p);
    lemma_read_encode(p, rest, max_size);
}

} // verus!
