use bytes::{Bytes, BytesMut};
use vstd::prelude::*;

use super::{code_parser, codes_bytes, lemma_codes_roundtrip, read_codes, write_codes, UnsubAck, UnsubAckModel};
use crate::buffer::{bytes_len, bytes_mut_view, bytes_view, put_u16, put_u8, room};
use crate::header::FixedHeader;
use crate::packet::{frame_room, len_result, wrote};
use crate::parse::{read_u16, VarInt};
use crate::property::{
    cap_add, lemma_properties_roundtrip, lemma_props_bytes_len, p_properties, props_allowed, props_bytes,
    props_fit, props_len, props_shortest, Properties, PropertyType,
};
use crate::wire::{be16, lemma_p_u16, lemma_varint_bytes_len, p_many, p_u16, varint_len, varint_max};
use crate::Error;

verus! {

/// The properties a UnsubAck may carry.
pub open spec fn allowed() -> Seq<PropertyType> {
    seq![PropertyType::ReasonString, PropertyType::UserProperty]
}

/// The property types that an UnsubAck may carry in MQTT 5.0 are exactly these,
/// the list of the standard; reading one of any other type is refused.
pub proof fn lemma_allowed(t: PropertyType)
    ensures
        allowed().contains(t) <==> (
            t == PropertyType::ReasonString || t == PropertyType::UserProperty
        ),
{
    assert(allowed()[0] == PropertyType::ReasonString);
    assert(allowed()[1] == PropertyType::UserProperty);
    if allowed().contains(t) {
        let i = choose|i: int| 0 <= i < allowed().len() && allowed()[i] == t;
        assert(0 <= i < 2);
    }
}

fn allowed_properties() -> (r: Vec<PropertyType>)
    ensures
        r@ == allowed(),
{
    vec![PropertyType::ReasonString, PropertyType::UserProperty]
}

/// Reading a UnsubAck in MQTT 5.0: the packet identifier, the properties, then
/// reason codes until the input is used up; there must be at least one byte
/// of them.
pub open spec fn p_read(s: Seq<u8>) -> Result<UnsubAckModel, Error> {
    match p_u16(s) {
        Err(e) => Err(e),
        Ok((pkid, r)) => match p_properties(r, allowed()) {
            Err(e) => Err(e),
            Ok((properties, r2)) => if r2.len() == 0 {
                Err(Error::MalformedPacket)
            } else {
                match p_many(r2, code_parser()) {
                    Err(e) => Err(e),
                    Ok(reason_codes) => Ok(UnsubAckModel { pkid, properties, reason_codes }),
                }
            },
        },
    }
}

/// The remaining length of a UnsubAck in MQTT 5.0.
pub open spec fn spec_len(m: UnsubAckModel) -> int {
    (2 + m.reason_codes.len() + varint_len(props_len(m.properties)) + props_len(m.properties)) as int
}

/// The variable header and payload of a UnsubAck in MQTT 5.0.
pub open spec fn spec_body(m: UnsubAckModel) -> Seq<u8> {
    be16(m.pkid) + props_bytes(m.properties) + codes_bytes(m.reason_codes)
}

pub fn read(_fixed_header: FixedHeader, mut bytes: Bytes) -> (r: Result<UnsubAck, Error>)
    ensures
        match p_read(bytes_view(bytes)) {
            Ok(m) => r matches Ok(p) && p@ == m,
            Err(e) => r == Err::<UnsubAck, Error>(e),
        },
{
    let pkid = read_u16(&mut bytes)?;
    let allowed = allowed_properties();
    let properties = Properties::read(&mut bytes, allowed.as_slice())?;

    if bytes_len(&bytes) == 0 {
        return Err(Error::MalformedPacket);
    }

    let reason_codes = read_codes(&mut bytes)?;
    Ok(UnsubAck { pkid, properties, reason_codes })
}

pub fn write(packet: &UnsubAck, buffer: &mut BytesMut) -> (r: Result<usize, Error>)
    requires
        room(bytes_mut_view(*old(buffer)), frame_room(spec_len(packet@))),
    ensures
        wrote(r, bytes_mut_view(*old(buffer)), bytes_mut_view(*final(buffer)), 0xB0, spec_len(packet@), spec_body(packet@)),
{
    let ghost start = bytes_mut_view(*buffer);
    // packet type and flags
    put_u8(buffer, 0xB0);
    // remaining length
    let len = len(packet)?;
    proof {
        lemma_varint_bytes_len(len.spec_value());
        lemma_varint_bytes_len(props_len(packet.properties@));
    }
    len.write(buffer);
    // packet identifier
    put_u16(buffer, packet.pkid);
    // properties
    packet.properties.write(buffer)?;
    // reason codes
    write_codes(&packet.reason_codes, buffer);
    proof {
        assert(bytes_mut_view(*buffer) =~= start + crate::packet::frame(0xB0, spec_len(packet@) as nat, spec_body(packet@)));
    }
    Ok(1 + len.length() + len.value())
}

pub fn len(packet: &UnsubAck) -> (r: Result<VarInt, Error>)
    ensures
        len_result(r, spec_len(packet@)),
{
    let properties_len = packet.properties.len()?;
    let len = cap_add(cap_add(2, packet.reason_codes.len()), properties_len.length() + properties_len.value());
    VarInt::new(len)
}

/// Whether a UnsubAck reads back as written in MQTT 5.0: at least one reason
/// code, properties that a UnsubAck may carry, each fitting its length prefix
/// and written in its shortest form, and a remaining length that fits.
pub open spec fn wf(m: UnsubAckModel) -> bool {
    &&& m.reason_codes.len() > 0
    &&& props_allowed(m.properties, allowed())
    &&& props_fit(m.properties)
    &&& props_shortest(m.properties)
    &&& spec_len(m) <= varint_max()
}

/// A UnsubAck reads back as written in MQTT 5.0, and its variable header and
/// payload have its remaining length.
pub proof fn lemma_roundtrip(m: UnsubAckModel)
    requires
        wf(m),
    ensures
        p_read(spec_body(m)) == Ok::<UnsubAckModel, Error>(m),
        spec_body(m).len() == spec_len(m),
{
    let ps = m.properties;
    let codes = codes_bytes(m.reason_codes);
    lemma_codes_roundtrip(m.reason_codes);
    lemma_properties_roundtrip(ps, codes, allowed());
    lemma_props_bytes_len(ps);
    lemma_p_u16(m.pkid, props_bytes(ps) + codes);
    assert(spec_body(m) =~= be16(m.pkid) + (props_bytes(ps) + codes));
}

} // verus!
