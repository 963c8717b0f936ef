use bytes::{Bytes, BytesMut};
use vstd::prelude::*;

use super::v4::flag_byte;
use super::{ConnAck, ConnAckModel, ConnectReasonCode};
use crate::buffer::{bytes_mut_view, bytes_view, put_u8, room};
use crate::header::FixedHeader;
use crate::packet::{frame_room, len_result, wrote};
use crate::parse::{read_u8, VarInt};
use crate::property::{
    lemma_properties_roundtrip, lemma_props_bytes_len, p_properties, props_allowed, props_bytes,
    props_fit, props_len, props_shortest, Properties, PropertyType,
};
use crate::wire::{lemma_p_u8, lemma_varint_bytes_len, p_u8, varint_len, varint_max};
use crate::Error;

verus! {

/// The properties a ConnAck may carry.
pub open spec fn allowed() -> Seq<PropertyType> {
    seq![
        PropertyType::SessionExpiryInterval,
        PropertyType::ReceiveMaximum,
        PropertyType::MaximumQos,
        PropertyType::RetainAvailable,
        PropertyType::MaximumPacketSize,
        PropertyType::AssignedClientIdentifier,
        PropertyType::TopicAliasMaximum,
        PropertyType::ReasonString,
        PropertyType::UserProperty,
        PropertyType::WildcardSubscriptionAvailable,
        PropertyType::SubscriptionIdentifierAvailable,
        PropertyType::SharedSubscriptionAvailable,
        PropertyType::ServerKeepAlive,
        PropertyType::ResponseInformation,
        PropertyType::ServerReference,
        PropertyType::AuthenticationMethod,
        PropertyType::AuthenticationData,
    ]
}

/// The property types that a ConnAck may carry in MQTT 5.0 are exactly these,
/// the list of the standard; reading one of any other type is refused.
pub proof fn lemma_allowed(t: PropertyType)
    ensures
        allowed().contains(t) <==> (
            t == PropertyType::SessionExpiryInterval || t == PropertyType::ReceiveMaximum
            || t == PropertyType::MaximumQos || t == PropertyType::RetainAvailable
            || t == PropertyType::MaximumPacketSize
            || t == PropertyType::AssignedClientIdentifier
            || t == PropertyType::TopicAliasMaximum || t == PropertyType::ReasonString
            || t == PropertyType::UserProperty
            || t == PropertyType::WildcardSubscriptionAvailable
            || t == PropertyType::SubscriptionIdentifierAvailable
            || t == PropertyType::SharedSubscriptionAvailable
            || t == PropertyType::ServerKeepAlive || t == PropertyType::ResponseInformation
            || t == PropertyType::ServerReference || t == PropertyType::AuthenticationMethod
            || t == PropertyType::AuthenticationData
        ),
{
    assert(allowed()[0] == PropertyType::SessionExpiryInterval);
    assert(allowed()[1] == PropertyType::ReceiveMaximum);
    assert(allowed()[2] == PropertyType::MaximumQos);
    assert(allowed()[3] == PropertyType::RetainAvailable);
    assert(allowed()[4] == PropertyType::MaximumPacketSize);
    assert(allowed()[5] == PropertyType::AssignedClientIdentifier);
    assert(allowed()[6] == PropertyType::TopicAliasMaximum);
    assert(allowed()[7] == PropertyType::ReasonString);
    assert(allowed()[8] == PropertyType::UserProperty);
    assert(allowed()[9] == PropertyType::WildcardSubscriptionAvailable);
    assert(allowed()[10] == PropertyType::SubscriptionIdentifierAvailable);
    assert(allowed()[11] == PropertyType::SharedSubscriptionAvailable);
    assert(allowed()[12] == PropertyType::ServerKeepAlive);
    assert(allowed()[13] == PropertyType::ResponseInformation);
    assert(allowed()[14] == PropertyType::ServerReference);
    assert(allowed()[15] == PropertyType::AuthenticationMethod);
    assert(allowed()[16] == PropertyType::AuthenticationData);
    if allowed().contains(t) {
        let i = choose|i: int| 0 <= i < allowed().len() && allowed()[i] == t;
        assert(0 <= i < 17);
    }
}

fn allowed_properties() -> (r: Vec<PropertyType>)
    ensures
        r@ == allowed(),
{
    vec![
        PropertyType::SessionExpiryInterval,
        PropertyType::ReceiveMaximum,
        PropertyType::MaximumQos,
        PropertyType::RetainAvailable,
        PropertyType::MaximumPacketSize,
        PropertyType::AssignedClientIdentifier,
        PropertyType::TopicAliasMaximum,
        PropertyType::ReasonString,
        PropertyType::UserProperty,
        PropertyType::WildcardSubscriptionAvailable,
        PropertyType::SubscriptionIdentifierAvailable,
        PropertyType::SharedSubscriptionAvailable,
        PropertyType::ServerKeepAlive,
        PropertyType::ResponseInformation,
        PropertyType::ServerReference,
        PropertyType::AuthenticationMethod,
        PropertyType::AuthenticationData,
    ]
}

/// Reading a ConnAck in MQTT 5.0: the acknowledge flags, the reason code
/// byte, the properties, and then the code must name a reason.
pub open spec fn p_read(s: Seq<u8>) -> Result<ConnAckModel, Error> {
    match p_u8(s) {
        Err(e) => Err(e),
        Ok((flags, r)) => match p_u8(r) {
            Err(e) => Err(e),
            Ok((return_code, r2)) => match p_properties(r2, allowed()) {
                Err(e) => Err(e),
                Ok((properties, _)) => match ConnectReasonCode::spec_from_code(return_code) {
                    Err(e) => Err(e),
                    Ok(code) => Ok(ConnAckModel { session_present: flags % 2 == 1, code, properties }),
                },
            },
        },
    }
}

/// The remaining length of a ConnAck in MQTT 5.0.
pub open spec fn spec_len(m: ConnAckModel) -> int {
    (2 + varint_len(props_len(m.properties)) + props_len(m.properties)) as int
}

/// The variable header of a ConnAck in MQTT 5.0.
pub open spec fn spec_body(m: ConnAckModel) -> Seq<u8> {
    seq![flag_byte(m.session_present), m.code.spec_code()] + props_bytes(m.properties)
}

pub fn read(_fixed_header: FixedHeader, bytes: Bytes) -> (r: Result<ConnAck, Error>)
    ensures
        match p_read(bytes_view(bytes)) {
            Ok(m) => r matches Ok(p) && p@ == m,
            Err(e) => r == Err::<ConnAck, Error>(e),
        },
{
    let mut bytes = bytes;
    let flags = read_u8(&mut bytes)?;
    let return_code = read_u8(&mut bytes)?;
    let allowed = allowed_properties();
    let properties = Properties::read(&mut bytes, allowed.as_slice())?;

    proof {
        assert((flags & 0x01 == 1) == (flags % 2 == 1)) by (bit_vector);
    }
    let session_present = (flags & 0x01) == 1;
    let code = ConnectReasonCode::from_code(return_code)?;
    Ok(ConnAck { session_present, code, properties })
}

pub fn write(packet: &ConnAck, buffer: &mut BytesMut) -> (r: Result<usize, Error>)
    requires
        room(bytes_mut_view(*old(buffer)), frame_room(spec_len(packet@))),
    ensures
        wrote(r, bytes_mut_view(*old(buffer)), bytes_mut_view(*final(buffer)), 0x20, spec_len(packet@), spec_body(packet@)),
{
    let ghost start = bytes_mut_view(*buffer);
    // packet type and flags
    put_u8(buffer, 0x20);
    // remaining length
    let len = len(packet)?;
    proof {
        lemma_varint_bytes_len(len.spec_value());
        lemma_varint_bytes_len(props_len(packet.properties@));
    }
    len.write(buffer);
    // connect acknowledge flags
    put_u8(buffer, if packet.session_present { 1 } else { 0 });
    // reason code
    put_u8(buffer, packet.code.code());
    // properties
    packet.properties.write(buffer)?;
    proof {
        assert(bytes_mut_view(*buffer) =~= start + crate::packet::frame(0x20, spec_len(packet@) as nat, spec_body(packet@)));
    }
    Ok(1 + len.length() + len.value())
}

pub fn len(packet: &ConnAck) -> (r: Result<VarInt, Error>)
    ensures
        len_result(r, spec_len(packet@)),
{
    let properties_len = packet.properties.len()?;
    // connect acknowledge flags, connect reason code and properties
    VarInt::new(1 + 1 + properties_len.length() + properties_len.value())
}

/// Whether a ConnAck reads back as written in MQTT 5.0.
pub open spec fn wf(m: ConnAckModel) -> bool {
    &&& props_allowed(m.properties, allowed())
    &&& props_fit(m.properties)
    &&& props_shortest(m.properties)
    &&& spec_len(m) <= varint_max()
}

/// A ConnAck reads back as written in MQTT 5.0, and its variable header has
/// its remaining length.
pub proof fn lemma_roundtrip(m: ConnAckModel)
    requires
        wf(m),
    ensures
        p_read(spec_body(m)) == Ok::<ConnAckModel, Error>(m),
        spec_body(m).len() == spec_len(m),
{
    let ps = m.properties;
    lemma_properties_roundtrip(ps, Seq::empty(), allowed());
    lemma_props_bytes_len(ps);
    assert(props_bytes(ps) + Seq::<u8>::empty() =~= props_bytes(ps));
    lemma_p_u8(m.code.spec_code(), props_bytes(ps));
    lemma_p_u8(flag_byte(m.session_present), seq![m.code.spec_code()] + props_bytes(ps));
    assert(spec_body(m) =~= seq![flag_byte(m.session_present)] + (seq![m.code.spec_code()] + props_bytes(ps)));
    m.code.lemma_code();
}

} // verus!
