//! The will of a Connect in MQTT 5.0.

use bytes::{Bytes, BytesMut};
use vstd::prelude::*;

use crate::buffer::{bytes_as_slice, bytes_len, bytes_mut_view, bytes_view, room};
use crate::packet::connect::{will_flags, LastWill, LastWillModel};
use crate::packet::publish::bit;
use crate::parse::{read_mqtt_bytes, read_mqtt_string, str_len, write_mqtt_bytes, write_mqtt_string};
use crate::property::{
    cap_add, capped, lemma_properties_roundtrip, lemma_props_bytes_len, p_properties, props_allowed, props_bytes,
    props_fit, props_len, props_shortest, Properties, PropertyType,
};
use crate::wire::{
    lemma_p_mqtt_bytes, lemma_p_mqtt_string, mqtt_bytes, mqtt_string, p_mqtt_bytes, p_mqtt_string, utf8_len,
    varint_len, varint_max,
};
use crate::{Error, QoS};

verus! {

/// The properties a will may carry.
pub open spec fn allowed() -> Seq<PropertyType> {
    seq![
        PropertyType::WillDelayInterval,
        PropertyType::PayloadFormatIndicator,
        PropertyType::MessageExpiryInterval,
        PropertyType::ContentType,
        PropertyType::ResponseTopic,
        PropertyType::CorrelationData,
        PropertyType::UserProperty,
    ]
}

/// The property types that the will of a Connect may carry in MQTT 5.0 are exactly these,
/// the list of the standard; reading one of any other type is refused.
pub proof fn lemma_allowed(t: PropertyType)
    ensures
        allowed().contains(t) <==> (
            t == PropertyType::WillDelayInterval
            || t == PropertyType::PayloadFormatIndicator
            || t == PropertyType::MessageExpiryInterval || t == PropertyType::ContentType
            || t == PropertyType::ResponseTopic || t == PropertyType::CorrelationData
            || t == PropertyType::UserProperty
        ),
{
    assert(allowed()[0] == PropertyType::WillDelayInterval);
    assert(allowed()[1] == PropertyType::PayloadFormatIndicator);
    assert(allowed()[2] == PropertyType::MessageExpiryInterval);
    assert(allowed()[3] == PropertyType::ContentType);
    assert(allowed()[4] == PropertyType::ResponseTopic);
    assert(allowed()[5] == PropertyType::CorrelationData);
    assert(allowed()[6] == PropertyType::UserProperty);
    if allowed().contains(t) {
        let i = choose|i: int| 0 <= i < allowed().len() && allowed()[i] == t;
        assert(0 <= i < 7);
    }
}

fn allowed_properties() -> (r: Vec<PropertyType>)
    ensures
        r@ == allowed(),
{
    vec![
        PropertyType::WillDelayInterval,
        PropertyType::PayloadFormatIndicator,
        PropertyType::MessageExpiryInterval,
        PropertyType::ContentType,
        PropertyType::ResponseTopic,
        PropertyType::CorrelationData,
        PropertyType::UserProperty,
    ]
}

/// Reading the will that the connect flags announce in MQTT 5.0. Without
/// the will flag (bit 2), the will QoS and retain bits (3 to 5) must be
/// clear and there is no will; with it, the will properties, the topic and
/// the payload follow, and the QoS bits must name a level.
#[verifier::opaque]
pub open spec fn p_will(flags: u8, s: Seq<u8>) -> Result<(Option<LastWillModel>, Seq<u8>), Error> {
    if (flags / 4) % 2 == 0 {
        if (flags / 8) % 8 != 0 {
            Err(Error::IncorrectPacketFormat)
        } else {
            Ok((None, s))
        }
    } else {
        match p_properties(s, allowed()) {
            Err(e) => Err(e),
            Ok((properties, r0)) => match p_mqtt_string(r0) {
                Err(e) => Err(e),
                Ok((topic, r)) => match p_mqtt_bytes(r) {
                    Err(e) => Err(e),
                    Ok((payload, r2)) => match QoS::spec_from_code((flags / 8) % 4) {
                        Err(e) => Err(e),
                        Ok(qos) => Ok(
                            (Some(LastWillModel { qos, retain: (flags / 32) % 2 == 1, properties, topic, payload }), r2),
                        ),
                    },
                },
            },
        }
    }
}

/// A will on the wire in MQTT 5.0: the will properties, the topic, then the
/// payload.
pub open spec fn will_bytes(w: LastWillModel) -> Seq<u8> {
    props_bytes(w.properties) + mqtt_string(w.topic) + mqtt_bytes(w.payload)
}

/// The number of bytes of a will on the wire in MQTT 5.0.
pub open spec fn will_len(w: LastWillModel) -> nat {
    varint_len(props_len(w.properties)) + props_len(w.properties) + 2 + utf8_len(w.topic) + 2 + w.payload.len()
}

pub fn read(connect_flags: u8, bytes: &mut Bytes) -> (r: Result<Option<LastWill>, Error>)
    ensures
        match p_will(connect_flags, bytes_view(*old(bytes))) {
            Ok((w, rest)) => r matches Ok(o) && LastWill::opt_view(o) == w && bytes_view(*final(bytes)) == rest,
            Err(e) => r == Err::<Option<LastWill>, Error>(e),
        },
{
    proof {
        reveal(p_will);
        assert(connect_flags & 0b100 == 0 <==> (connect_flags / 4) % 2 == 0) by (bit_vector);
        assert(connect_flags & 0b0011_1000 != 0 <==> (connect_flags / 8) % 8 != 0) by (bit_vector);
        assert((connect_flags & 0b11000) >> 3 == (connect_flags / 8) % 4) by (bit_vector);
        assert(connect_flags & 0b0010_0000 != 0 <==> (connect_flags / 32) % 2 == 1) by (bit_vector);
    }
    let last_will = match connect_flags & 0b100 {
        0 if (connect_flags & 0b0011_1000) != 0 => {
            return Err(Error::IncorrectPacketFormat);
        },
        0 => None,
        _ => {
            // Properties in variable header
            let allowed = allowed_properties();
            let properties = Properties::read(bytes, allowed.as_slice())?;

            let topic = read_mqtt_string(bytes)?;
            let payload = read_mqtt_bytes(bytes)?;
            let qos = QoS::from_code((connect_flags & 0b11000) >> 3)?;
            let retain = (connect_flags & 0b0010_0000) != 0;
            Some(LastWill { topic, payload, qos, retain, properties })
        },
    };

    Ok(last_will)
}

pub fn write(packet: &LastWill, buffer: &mut BytesMut) -> (r: Result<u8, Error>)
    requires
        props_len(packet@.properties) <= varint_max() ==> room(bytes_mut_view(*old(buffer)), will_len(packet@) as int),
    ensures
        props_len(packet@.properties) > varint_max() ==> r == Err::<u8, Error>(Error::PayloadTooLong)
            && bytes_mut_view(*final(buffer)) == bytes_mut_view(*old(buffer)),
        props_len(packet@.properties) <= varint_max() ==> r == Ok::<u8, Error>(will_flags(Some(packet@)))
            && bytes_mut_view(*final(buffer)) == bytes_mut_view(*old(buffer)) + will_bytes(packet@)
            && will_bytes(packet@).len() <= will_len(packet@),
{
    let ghost start = bytes_mut_view(*buffer);
    let q = packet.qos.code();
    proof {
        assert(q <= 2 ==> 0b100u8 | (q << 3u8) == 4 + 8 * q) by (bit_vector);
    }
    let mut connect_flags = 0b100 | (q << 3);
    if packet.retain {
        proof {
            let c = connect_flags;
            assert(c == 4 + 8 * q && q <= 2 ==> c | 0x20 == c + 32) by (bit_vector);
        }
        connect_flags |= 0x20;
    }

    packet.properties.write(buffer)?;

    write_mqtt_string(buffer, packet.topic.as_str());
    write_mqtt_bytes(buffer, bytes_as_slice(&packet.payload));
    proof {
        assert(bytes_mut_view(*buffer) =~= start + will_bytes(packet@));
    }
    Ok(connect_flags)
}

pub fn len(packet: &LastWill) -> (r: Result<usize, Error>)
    ensures
        props_len(packet@.properties) > varint_max() ==> r == Err::<usize, Error>(Error::PayloadTooLong),
        props_len(packet@.properties) <= varint_max() ==> r == Ok::<usize, Error>(capped(will_len(packet@)) as usize),
{
    let len = cap_add(cap_add(cap_add(2, str_len(&packet.topic)), 2), bytes_len(&packet.payload));

    let properties_len = packet.properties.len()?;
    let len = cap_add(len, properties_len.length() + properties_len.value());

    Ok(len)
}

/// Whether a will reads back as written in MQTT 5.0: properties that a will
/// may carry, each fitting and in its shortest form, and a topic and payload
/// that fit their length prefixes.
pub open spec fn will_wf(w: LastWillModel) -> bool {
    &&& props_allowed(w.properties, allowed())
    &&& props_fit(w.properties)
    &&& props_shortest(w.properties)
    &&& props_len(w.properties) <= varint_max()
    &&& utf8_len(w.topic) <= 65535
    &&& w.payload.len() <= 65535
}

/// A will reads back as written in MQTT 5.0, whatever follows it, under
/// connect flags whose will bits are those of the will.
pub proof fn lemma_roundtrip(w: LastWillModel, flags: u8, rest: Seq<u8>)
    requires
        will_wf(w),
        (flags / 4) % 2 == 1,
        (flags / 8) % 4 == w.qos.spec_code(),
        (flags / 32) % 2 == bit(w.retain),
    ensures
        p_will(flags, will_bytes(w) + rest) == Ok::<(Option<LastWillModel>, Seq<u8>), Error>((Some(w), rest)),
        will_bytes(w).len() == will_len(w),
{
    reveal(p_will);
    let after_props = mqtt_string(w.topic) + (mqtt_bytes(w.payload) + rest);
    lemma_p_mqtt_bytes(w.payload, rest);
    lemma_p_mqtt_string(w.topic, mqtt_bytes(w.payload) + rest);
    lemma_properties_roundtrip(w.properties, after_props, allowed());
    lemma_props_bytes_len(w.properties);
    assert(will_bytes(w) + rest =~= props_bytes(w.properties) + after_props);
}

} // verus!
