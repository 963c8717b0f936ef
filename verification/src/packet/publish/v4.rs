use bytes::{Bytes, BytesMut};
use vstd::prelude::*;

use super::{
    byte1, lemma_flags, pkid_bytes, pkid_len, pkid_missing, pkid_wf, read_flags, spec_byte1,
    spec_flags, Publish, PublishModel,
};
use crate::buffer::{bytes_as_slice, bytes_len, bytes_mut_view, bytes_view, extend_from_slice, put_u16, put_u8, room};
use crate::header::FixedHeader;
use crate::packet::{frame, frame_room, len_result};
use crate::parse::{read_mqtt_string, read_u16, str_len, write_mqtt_string, VarInt};
use crate::property::{Properties, PropertyModel};
use crate::property::cap_add;
use crate::wire::{
    lemma_p_mqtt_string, lemma_p_u16, lemma_varint_bytes_len, mqtt_string, p_mqtt_string, p_u16,
    utf8_len, varint_bytes, varint_len, varint_max,
};
use crate::{Error, QoS};

verus! {

/// Reading a Publish in MQTT 3.1.1: the flags of the control field, the topic,
/// then for QoS levels above 0 a packet identifier that is not 0; the
/// rest is the payload.
pub open spec fn p_read(flags: u8, s: Seq<u8>) -> Result<PublishModel, Error> {
    match spec_flags(flags) {
        Err(e) => Err(e),
        Ok((dup, qos, retain)) => match p_mqtt_string(s) {
            Err(e) => Err(e),
            Ok((topic, r)) => {
                let pk: Result<(u16, Seq<u8>), Error> = if qos == QoS::AtMostOnce {
                    Ok((0u16, r))
                } else {
                    p_u16(r)
                };
                match pk {
                    Err(e) => Err(e),
                    Ok((pkid, r2)) => if qos != QoS::AtMostOnce && pkid == 0 {
                        Err(Error::PacketIdZero)
                    } else {
                        Ok(PublishModel { dup, qos, retain, topic, pkid, properties: Seq::empty(), payload: r2 })
                    },
                }
            },
        },
    }
}

/// The remaining length of a Publish in MQTT 3.1.1.
pub open spec fn spec_len(m: PublishModel) -> int {
    (2 + utf8_len(m.topic) + pkid_len(m) + m.payload.len()) as int
}

/// The variable header and payload of a Publish in MQTT 3.1.1.
pub open spec fn spec_body(m: PublishModel) -> Seq<u8> {
    mqtt_string(m.topic) + pkid_bytes(m) + m.payload
}

pub fn read(fixed_header: FixedHeader, bytes: Bytes) -> (r: Result<Publish, Error>)
    ensures
        match p_read(fixed_header.control_field % 16, bytes_view(bytes)) {
            Ok(m) => r matches Ok(p) && p@ == m,
            Err(e) => r == Err::<Publish, Error>(e),
        },
{
    let mut bytes = bytes;
    let (dup, qos, retain) = read_flags(fixed_header.flags())?;

    let topic = read_mqtt_string(&mut bytes)?;

    // Packet identifier exists where QoS > 0
    let pkid = match qos {
        QoS::AtMostOnce => 0,
        QoS::AtLeastOnce | QoS::ExactlyOnce => read_u16(&mut bytes)?,
    };

    if qos != QoS::AtMostOnce && pkid == 0 {
        return Err(Error::PacketIdZero);
    }

    let publish = Publish { dup, retain, qos, pkid, topic, payload: bytes, properties: Properties::new() };

    Ok(publish)
}

/// Whether writing the Publish `m` into a buffer holding `before` left it
/// holding `after` with result `r`: the packet and its size; or, when the
/// remaining length is too large, only the control field and the error; or,
/// when the packet identifier is missing, the control field, the remaining
/// length and the topic, and the error.
pub open spec fn written(m: PublishModel, r: Result<usize, Error>, before: Seq<u8>, after: Seq<u8>) -> bool {
    let rl = spec_len(m);
    if rl > varint_max() {
        r == Err::<usize, Error>(Error::PayloadTooLong) && after == before.push(spec_byte1(m))
    } else if pkid_missing(m) {
        r == Err::<usize, Error>(Error::PacketIdZero) && after == before + seq![spec_byte1(m)] + varint_bytes(
            rl as nat,
        ) + mqtt_string(m.topic)
    } else {
        r == Ok::<usize, Error>((1 + varint_len(rl as nat) + rl) as usize) && after == before + frame(
            spec_byte1(m),
            rl as nat,
            spec_body(m),
        )
    }
}

/// Writes a Publish in MQTT 3.1.1. A packet identifier of 0 where the QoS level
/// asks for one is an error, found after the topic was written.
pub fn write(packet: &Publish, buffer: &mut BytesMut) -> (r: Result<usize, Error>)
    requires
        room(bytes_mut_view(*old(buffer)), frame_room(spec_len(packet@))),
    ensures
        written(packet@, r, bytes_mut_view(*old(buffer)), bytes_mut_view(*final(buffer))),
{
    let ghost start = bytes_mut_view(*buffer);
    // packet type and flags
    put_u8(buffer, byte1(packet));
    // remaining length
    let len = len(packet)?;
    proof {
        lemma_varint_bytes_len(len.spec_value());
    }
    len.write(buffer);
    // topic
    write_mqtt_string(buffer, packet.topic.as_str());

    // packet identifier
    if packet.qos != QoS::AtMostOnce {
        let pkid = packet.pkid;
        if pkid == 0 {
            proof {
                assert(bytes_mut_view(*buffer) =~= start + seq![spec_byte1(packet@)] + varint_bytes(
                    spec_len(packet@) as nat,
                ) + mqtt_string(packet@.topic));
            }
            return Err(Error::PacketIdZero);
        }

        put_u16(buffer, pkid);
    }

    extend_from_slice(buffer, bytes_as_slice(&packet.payload));
    proof {
        assert(bytes_mut_view(*buffer) =~= start + frame(spec_byte1(packet@), spec_len(packet@) as nat, spec_body(packet@)));
    }

    Ok(1 + len.length() + len.value())
}

pub fn len(packet: &Publish) -> (r: Result<VarInt, Error>)
    ensures
        len_result(r, spec_len(packet@)),
{
    let mut len = cap_add(2, str_len(&packet.topic));
    if packet.qos != QoS::AtMostOnce && packet.pkid != 0 {
        // packet identifier is only present for QoS > 0
        len = cap_add(len, 2);
    }

    len = cap_add(len, bytes_len(&packet.payload));
    VarInt::new(len)
}

/// Whether a Publish reads back as written in MQTT 3.1.1: a packet
/// identifier exactly where the QoS level asks for one, no properties, a
/// topic that fits its length prefix and a remaining length that fits.
pub open spec fn wf(m: PublishModel) -> bool {
    &&& pkid_wf(m)
    &&& m.properties == Seq::<PropertyModel>::empty()
    &&& utf8_len(m.topic) <= 65535
    &&& spec_len(m) <= varint_max()
}

/// A Publish reads back as written in MQTT 3.1.1, and its variable header and
/// payload have its remaining length.
pub proof fn lemma_roundtrip(m: PublishModel)
    requires
        wf(m),
    ensures
        p_read(spec_byte1(m) % 16, spec_body(m)) == Ok::<PublishModel, Error>(m),
        spec_body(m).len() == spec_len(m),
{
    lemma_flags(m);
    let tail = m.payload;
    let pk = pkid_bytes(m);
    lemma_p_mqtt_string(m.topic, pk + tail);
    assert(spec_body(m) =~= mqtt_string(m.topic) + (pk + tail));
    if m.qos != QoS::AtMostOnce {
        lemma_p_u16(m.pkid, tail);
    } else {
        assert(pk + tail =~= tail);
    }
}

} // verus!
