use bytes::{Bytes, BytesMut};
use vstd::prelude::*;

use super::{Disconnect, DisconnectModel, DisconnectReasonCode};
use crate::buffer::{bytes_mut_view, bytes_view, put_u8, room};
use crate::header::FixedHeader;
use crate::packet::{frame_room, len_result, wrote};
use crate::parse::{read_u8, VarInt};
use crate::property::{
    lemma_properties_roundtrip, lemma_props_bytes_len, p_properties, props_allowed, props_bytes,
    props_fit, props_len, props_shortest, Properties, PropertyModel, PropertyType,
};
use crate::wire::{lemma_p_u8, lemma_varint_bytes_len, p_u8, varint_len, varint_max};
use crate::Error;

verus! {

/// The properties a Disconnect may carry.
pub open spec fn allowed() -> Seq<PropertyType> {
    seq![
        PropertyType::SessionExpiryInterval,
        PropertyType::ReasonString,
        PropertyType::UserProperty,
        PropertyType::ServerReference,
    ]
}

/// The property types that a Disconnect may carry in MQTT 5.0 are exactly these,
/// the list of the standard; reading one of any other type is refused.
pub proof fn lemma_allowed(t: PropertyType)
    ensures
        allowed().contains(t) <==> (
            t == PropertyType::SessionExpiryInterval || t == PropertyType::ReasonString
            || t == PropertyType::UserProperty || t == PropertyType::ServerReference
        ),
{
    assert(allowed()[0] == PropertyType::SessionExpiryInterval);
    assert(allowed()[1] == PropertyType::ReasonString);
    assert(allowed()[2] == PropertyType::UserProperty);
    assert(allowed()[3] == PropertyType::ServerReference);
    if allowed().contains(t) {
        let i = choose|i: int| 0 <= i < allowed().len() && allowed()[i] == t;
        assert(0 <= i < 4);
    }
}

fn allowed_properties() -> (r: Vec<PropertyType>)
    ensures
        r@ == allowed(),
{
    vec![
        PropertyType::SessionExpiryInterval,
        PropertyType::ReasonString,
        PropertyType::UserProperty,
        PropertyType::ServerReference,
    ]
}

/// Reading a Disconnect in MQTT 5.0: the flags must be clear; then, when the
/// remaining length is not zero, the reason code; then, when it is at least
/// two, the properties.
pub open spec fn p_read(flags: u8, rl: nat, s: Seq<u8>) -> Result<DisconnectModel, Error> {
    if flags != 0 {
        Err(Error::MalformedPacket)
    } else if rl == 0 {
        Ok(DisconnectModel { reason_code: DisconnectReasonCode::NormalDisconnection, properties: Seq::empty() })
    } else {
        match p_u8(s) {
            Err(e) => Err(e),
            Ok((code, r)) => match DisconnectReasonCode::spec_from_code(code) {
                Err(e) => Err(e),
                Ok(reason_code) => if rl < 2 {
                    Ok(DisconnectModel { reason_code, properties: Seq::empty() })
                } else {
                    match p_properties(r, allowed()) {
                        Err(e) => Err(e),
                        Ok((properties, _)) => Ok(DisconnectModel { reason_code, properties }),
                    }
                },
            },
        }
    }
}

/// Whether a Disconnect has no variable header: a normal disconnection
/// without properties.
pub open spec fn is_short(m: DisconnectModel) -> bool {
    m.reason_code == DisconnectReasonCode::NormalDisconnection && m.properties.len() == 0
}

/// The remaining length of a Disconnect in MQTT 5.0.
pub open spec fn spec_len(m: DisconnectModel) -> int {
    if is_short(m) {
        0
    } else {
        (1 + varint_len(props_len(m.properties)) + props_len(m.properties)) as int
    }
}

/// The variable header of a Disconnect in MQTT 5.0.
pub open spec fn spec_body(m: DisconnectModel) -> Seq<u8> {
    if is_short(m) {
        Seq::empty()
    } else {
        seq![m.reason_code.spec_code()] + props_bytes(m.properties)
    }
}

pub fn read(fixed_header: FixedHeader, bytes: Bytes) -> (r: Result<Disconnect, Error>)
    ensures
        match p_read(fixed_header.control_field % 16, fixed_header.remaining_len.spec_value(), bytes_view(bytes)) {
            Ok(m) => r matches Ok(p) && p@ == m,
            Err(e) => r == Err::<Disconnect, Error>(e),
        },
{
    let mut bytes = bytes;
    if fixed_header.flags() != 0x00 {
        return Err(Error::MalformedPacket);
    };

    if fixed_header.remaining_len.value() == 0 {
        return Ok(Disconnect::new());
    }

    let reason_code = read_u8(&mut bytes)?;
    if fixed_header.remaining_len.value() < 2 {
        // Property length is omitted, no properties
        return Ok(Disconnect {
            reason_code: DisconnectReasonCode::from_code(reason_code)?,
            properties: Properties::new(),
        });
    }

    let allowed = allowed_properties();
    Ok(Disconnect {
        reason_code: DisconnectReasonCode::from_code(reason_code)?,
        properties: Properties::read(&mut bytes, allowed.as_slice())?,
    })
}

pub fn write(packet: &Disconnect, buffer: &mut BytesMut) -> (r: Result<usize, Error>)
    requires
        room(bytes_mut_view(*old(buffer)), frame_room(spec_len(packet@))),
    ensures
        wrote(r, bytes_mut_view(*old(buffer)), bytes_mut_view(*final(buffer)), 0xE0, spec_len(packet@), spec_body(packet@)),
{
    let ghost start = bytes_mut_view(*buffer);
    // packet type and flags
    put_u8(buffer, 0xE0);
    // remaining length
    let len = len(packet)?;
    proof {
        lemma_varint_bytes_len(len.spec_value());
        lemma_varint_bytes_len(props_len(packet.properties@));
    }
    len.write(buffer);

    if len.value() > 0 {
        // reason code
        put_u8(buffer, packet.reason_code.code());
        // properties
        packet.properties.write(buffer)?;
    }
    proof {
        assert(bytes_mut_view(*buffer) =~= start + crate::packet::frame(0xE0, spec_len(packet@) as nat, spec_body(packet@)));
    }
    Ok(1 + len.length() + len.value())
}

pub fn len(packet: &Disconnect) -> (r: Result<VarInt, Error>)
    ensures
        len_result(r, spec_len(packet@)),
{
    if packet.reason_code == DisconnectReasonCode::NormalDisconnection && packet.properties.is_empty() {
        return VarInt::new(0); // No variable header
    }

    let properties_len = packet.properties.len()?;
    // reason code and properties
    VarInt::new(1 + properties_len.length() + properties_len.value())
}

/// Whether a Disconnect reads back as written in MQTT 5.0.
pub open spec fn wf(m: DisconnectModel) -> bool {
    &&& props_allowed(m.properties, allowed())
    &&& props_fit(m.properties)
    &&& props_shortest(m.properties)
    &&& spec_len(m) <= varint_max()
}

/// A Disconnect reads back as written in MQTT 5.0, and its variable header
/// has its remaining length.
pub proof fn lemma_roundtrip(m: DisconnectModel)
    requires
        wf(m),
    ensures
        p_read(0, spec_len(m) as nat, spec_body(m)) == Ok::<DisconnectModel, Error>(m),
        spec_body(m).len() == spec_len(m),
{
    if is_short(m) {
        assert(m.properties =~= Seq::<PropertyModel>::empty());
    } else {
        let ps = m.properties;
        lemma_properties_roundtrip(ps, Seq::empty(), allowed());
        lemma_props_bytes_len(ps);
        assert(props_bytes(ps) + Seq::<u8>::empty() =~= props_bytes(ps));
        lemma_p_u8(m.reason_code.spec_code(), props_bytes(ps));
        m.reason_code.lemma_code();
    }
}

} // verus!
