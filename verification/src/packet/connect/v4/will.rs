//! The will of a Connect in MQTT 3.1.1.

use bytes::{Bytes, BytesMut};
use vstd::prelude::*;

use crate::buffer::{bytes_as_slice, bytes_len, bytes_mut_view, bytes_view, room};
use crate::packet::connect::{will_flags, LastWill, LastWillModel};
use crate::packet::publish::bit;
use crate::parse::{read_mqtt_bytes, read_mqtt_string, str_len, write_mqtt_bytes, write_mqtt_string};
use crate::property::{cap_add, capped, Properties};
use crate::wire::{lemma_p_mqtt_bytes, lemma_p_mqtt_string, mqtt_bytes, mqtt_string, p_mqtt_bytes, p_mqtt_string, utf8_len};
use crate::{Error, QoS};

verus! {

/// Reading the will that the connect flags announce in MQTT 3.1.1. Without
/// the will flag (bit 2), the will QoS and retain bits (3 to 5) must be
/// clear and there is no will; with it, the topic and the payload follow,
/// and the QoS bits must name a level.
#[verifier::opaque]
pub open spec fn p_will(flags: u8, s: Seq<u8>) -> Result<(Option<LastWillModel>, Seq<u8>), Error> {
    if (flags / 4) % 2 == 0 {
        if (flags / 8) % 8 != 0 {
            Err(Error::IncorrectPacketFormat)
        } else {
            Ok((None, s))
        }
    } else {
        match p_mqtt_string(s) {
            Err(e) => Err(e),
            Ok((topic, r)) => match p_mqtt_bytes(r) {
                Err(e) => Err(e),
                Ok((payload, r2)) => match QoS::spec_from_code((flags / 8) % 4) {
                    Err(e) => Err(e),
                    Ok(qos) => Ok((
                        Some(
                            LastWillModel {
                                qos,
                                retain: (flags / 32) % 2 == 1,
                                properties: Seq::empty(),
                                topic,
                                payload,
                            },
                        ),
                        r2,
                    )),
                },
            },
        }
    }
}

/// A will on the wire in MQTT 3.1.1: the topic, then the payload.
pub open spec fn will_bytes(w: LastWillModel) -> Seq<u8> {
    mqtt_string(w.topic) + mqtt_bytes(w.payload)
}

/// The number of bytes of a will on the wire in MQTT 3.1.1.
pub open spec fn will_len(w: LastWillModel) -> nat {
    2 + utf8_len(w.topic) + 2 + w.payload.len()
}

pub fn read(connect_flags: u8, bytes: &mut Bytes) -> (r: Result<Option<LastWill>, Error>)
    ensures
        match p_will(connect_flags, bytes_view(*old(bytes))) {
            Ok((w, rest)) => r matches Ok(o) && LastWill::opt_view(o) == w && bytes_view(*final(bytes)) == rest,
            Err(e) => r == Err::<Option<LastWill>, Error>(e),
        },
{
    proof {
        reveal(p_will);
        assert(connect_flags & 0b100 == 0 <==> (connect_flags / 4) % 2 == 0) by (bit_vector);
        assert(connect_flags & 0b0011_1000 != 0 <==> (connect_flags / 8) % 8 != 0) by (bit_vector);
        assert((connect_flags & 0b11000) >> 3 == (connect_flags / 8) % 4) by (bit_vector);
        assert(connect_flags & 0b0010_0000 != 0 <==> (connect_flags / 32) % 2 == 1) by (bit_vector);
    }
    let last_will = match connect_flags & 0b100 {
        0 if (connect_flags & 0b0011_1000) != 0 => {
            return Err(Error::IncorrectPacketFormat);
        },
        0 => None,
        _ => {
            let topic = read_mqtt_string(bytes)?;
            let payload = read_mqtt_bytes(bytes)?;
            let qos = QoS::from_code((connect_flags & 0b11000) >> 3)?;
            let retain = (connect_flags & 0b0010_0000) != 0;
            Some(LastWill { topic, payload, qos, retain, properties: Properties::new() })
        },
    };

    Ok(last_will)
}

pub fn write(packet: &LastWill, buffer: &mut BytesMut) -> (r: Result<u8, Error>)
    requires
        room(bytes_mut_view(*old(buffer)), will_len(packet@) as int),
    ensures
        r == Ok::<u8, Error>(will_flags(Some(packet@))),
        bytes_mut_view(*final(buffer)) == bytes_mut_view(*old(buffer)) + will_bytes(packet@),
{
    let ghost start = bytes_mut_view(*buffer);
    let q = packet.qos.code();
    proof {
        assert(q <= 2 ==> 0b100u8 | (q << 3u8) == 4 + 8 * q) by (bit_vector);
    }
    let mut connect_flags = 0b100 | (q << 3);
    if packet.retain {
        proof {
            let c = connect_flags;
            assert(c == 4 + 8 * q && q <= 2 ==> c | 0x20 == c + 32) by (bit_vector);
        }
        connect_flags |= 0x20;
    }

    write_mqtt_string(buffer, packet.topic.as_str());
    write_mqtt_bytes(buffer, bytes_as_slice(&packet.payload));
    proof {
        assert(bytes_mut_view(*buffer) =~= start + will_bytes(packet@));
    }
    Ok(connect_flags)
}

pub fn len(packet: &LastWill) -> (n: usize)
    ensures
        n == capped(will_len(packet@)),
{
    cap_add(cap_add(cap_add(2, str_len(&packet.topic)), 2), bytes_len(&packet.payload))
}

/// Whether a will reads back as written in MQTT 3.1.1: no properties, and a
/// topic and payload that fit their length prefixes.
pub open spec fn will_wf(w: LastWillModel) -> bool {
    &&& w.properties == Seq::<crate::property::PropertyModel>::empty()
    &&& utf8_len(w.topic) <= 65535
    &&& w.payload.len() <= 65535
}

/// A will reads back as written in MQTT 3.1.1, whatever follows it, under
/// connect flags whose will bits are those of the will.
pub proof fn lemma_roundtrip(w: LastWillModel, flags: u8, rest: Seq<u8>)
    requires
        will_wf(w),
        (flags / 4) % 2 == 1,
        (flags / 8) % 4 == w.qos.spec_code(),
        (flags / 32) % 2 == bit(w.retain),
    ensures
        p_will(flags, will_bytes(w) + rest) == Ok::<(Option<LastWillModel>, Seq<u8>), Error>((Some(w), rest)),
        will_bytes(w).len() == will_len(w),
{
    reveal(p_will);
    lemma_p_mqtt_bytes(w.payload, rest);
    lemma_p_mqtt_string(w.topic, mqtt_bytes(w.payload) + rest);
    assert(will_bytes(w) + rest =~= mqtt_string(w.topic) + (mqtt_bytes(w.payload) + rest));
    assert(w.properties =~= Seq::<crate::property::PropertyModel>::empty());
}

} // verus!
