use bytes::{Bytes, BytesMut};
use vstd::prelude::*;

use super::{PubComp, PubCompModel, PubCompReasonCode};
use crate::buffer::{bytes_mut_view, bytes_view, put_u16, put_u8, room};
use crate::header::FixedHeader;
use crate::packet::{frame_room, len_result, wrote};
use crate::parse::{read_u16, read_u8, VarInt};
use crate::property::{
    lemma_properties_roundtrip, lemma_props_bytes_len, p_properties, props_allowed, props_bytes,
    props_fit, props_len, props_shortest, Properties, PropertyModel, PropertyType,
};
use crate::wire::{
    be16, lemma_p_u16, lemma_p_u8, lemma_varint_bytes_len, p_u16, p_u8, varint_len,
    varint_max,
};
use crate::Error;

verus! {

/// The properties a PubComp may carry.
pub open spec fn allowed() -> Seq<PropertyType> {
    seq![PropertyType::ReasonString, PropertyType::UserProperty]
}

/// The property types that a PubComp may carry in MQTT 5.0 are exactly these,
/// the list of the standard; reading one of any other type is refused.
pub proof fn lemma_allowed(t: PropertyType)
    ensures
        allowed().contains(t) <==> (
            t == PropertyType::ReasonString || t == PropertyType::UserProperty
        ),
{
    assert(allowed()[0] == PropertyType::ReasonString);
    assert(allowed()[1] == PropertyType::UserProperty);
    if allowed().contains(t) {
        let i = choose|i: int| 0 <= i < allowed().len() && allowed()[i] == t;
        assert(0 <= i < 2);
    }
}

fn allowed_properties() -> (r: Vec<PropertyType>)
    ensures
        r@ == allowed(),
{
    vec![PropertyType::ReasonString, PropertyType::UserProperty]
}

/// Reading a PubComp in MQTT 5.0: the packet identifier; then, when the
/// remaining length is more than two, the reason code; then, when it is at
/// least four, the properties.
pub open spec fn p_read(rl: nat, s: Seq<u8>) -> Result<PubCompModel, Error> {
    match p_u16(s) {
        Err(e) => Err(e),
        Ok((pkid, r)) => if rl == 2 {
            Ok(PubCompModel { pkid, reason: PubCompReasonCode::Success, properties: Seq::empty() })
        } else {
            match p_u8(r) {
                Err(e) => Err(e),
                Ok((code, r2)) => match PubCompReasonCode::spec_from_code(code) {
                    Err(e) => Err(e),
                    Ok(reason) => if rl < 4 {
                        Ok(PubCompModel { pkid, reason, properties: Seq::empty() })
                    } else {
                        match p_properties(r2, allowed()) {
                            Err(e) => Err(e),
                            Ok((properties, _)) => Ok(PubCompModel { pkid, reason, properties }),
                        }
                    },
                },
            }
        },
    }
}

/// Whether a PubComp leaves out its reason code and properties: it succeeded
/// and has no properties.
pub open spec fn is_short(m: PubCompModel) -> bool {
    m.reason == PubCompReasonCode::Success && m.properties.len() == 0
}

/// The remaining length of a PubComp in MQTT 5.0.
pub open spec fn spec_len(m: PubCompModel) -> int {
    if is_short(m) {
        2
    } else {
        (3 + varint_len(props_len(m.properties)) + props_len(m.properties)) as int
    }
}

/// The variable header of a PubComp in MQTT 5.0.
pub open spec fn spec_body(m: PubCompModel) -> Seq<u8> {
    if is_short(m) {
        be16(m.pkid)
    } else {
        be16(m.pkid) + seq![m.reason.spec_code()] + props_bytes(m.properties)
    }
}

pub fn read(fixed_header: FixedHeader, bytes: Bytes) -> (r: Result<PubComp, Error>)
    ensures
        match p_read(fixed_header.remaining_len.spec_value(), bytes_view(bytes)) {
            Ok(m) => r matches Ok(p) && p@ == m,
            Err(e) => r == Err::<PubComp, Error>(e),
        },
{
    let mut bytes = bytes;
    let pkid = read_u16(&mut bytes)?;

    // No reason code or properties if remaining length == 2
    if fixed_header.remaining_len.value() == 2 {
        return Ok(PubComp::new(pkid));
    }

    let ack_reason = read_u8(&mut bytes)?;
    if fixed_header.remaining_len.value() < 4 {
        // Properties length is omitted
        return Ok(PubComp { pkid, reason: PubCompReasonCode::from_code(ack_reason)?, properties: Properties::new() });
    }

    let allowed = allowed_properties();
    Ok(PubComp {
        pkid,
        reason: PubCompReasonCode::from_code(ack_reason)?,
        properties: Properties::read(&mut bytes, allowed.as_slice())?,
    })
}

pub fn write(packet: &PubComp, buffer: &mut BytesMut) -> (r: Result<usize, Error>)
    requires
        room(bytes_mut_view(*old(buffer)), frame_room(spec_len(packet@))),
    ensures
        wrote(r, bytes_mut_view(*old(buffer)), bytes_mut_view(*final(buffer)), 0x70, spec_len(packet@), spec_body(packet@)),
{
    let ghost start = bytes_mut_view(*buffer);
    // packet type and flags
    put_u8(buffer, 0x70);
    // remaining length
    let len = len(packet)?;
    proof {
        lemma_varint_bytes_len(len.spec_value());
        lemma_varint_bytes_len(props_len(packet.properties@));
    }
    len.write(buffer);
    // packet identifier
    put_u16(buffer, packet.pkid);

    if len.value() > 2 {
        // reason code
        put_u8(buffer, packet.reason.code());
        // properties
        packet.properties.write(buffer)?;
    }
    proof {
        assert(bytes_mut_view(*buffer) =~= start + crate::packet::frame(0x70, spec_len(packet@) as nat, spec_body(packet@)));
    }
    Ok(1 + len.length() + len.value())
}

pub fn len(packet: &PubComp) -> (r: Result<VarInt, Error>)
    ensures
        len_result(r, spec_len(packet@)),
{
    let len: usize = 2; // packet identifier

    if packet.reason == PubCompReasonCode::Success && packet.properties.is_empty() {
        // Reason code and property length can be omitted in this case
        return VarInt::new(len);
    }

    let properties_len = packet.properties.len()?;
    // reason code and properties
    VarInt::new(len + 1 + properties_len.length() + properties_len.value())
}

/// Whether a PubComp reads back as written in MQTT 5.0: its properties may
/// stand in it, fit their length prefixes, have shortest subscription
/// identifiers, and the packet fits a remaining length.
pub open spec fn wf(m: PubCompModel) -> bool {
    &&& props_allowed(m.properties, allowed())
    &&& props_fit(m.properties)
    &&& props_shortest(m.properties)
    &&& spec_len(m) <= varint_max()
}

/// A PubComp reads back as written in MQTT 5.0, and its variable header has its
/// remaining length.
pub proof fn lemma_roundtrip(m: PubCompModel)
    requires
        wf(m),
    ensures
        p_read(spec_len(m) as nat, spec_body(m)) == Ok::<PubCompModel, Error>(m),
        spec_body(m).len() == spec_len(m),
{
    if is_short(m) {
        lemma_p_u16(m.pkid, Seq::empty());
        assert(be16(m.pkid) + Seq::<u8>::empty() =~= be16(m.pkid));
        assert(m.properties =~= Seq::<PropertyModel>::empty());
    } else {
        let ps = m.properties;
        lemma_properties_roundtrip(ps, Seq::empty(), allowed());
        lemma_props_bytes_len(ps);
        assert(props_bytes(ps) + Seq::<u8>::empty() =~= props_bytes(ps));
        lemma_p_u8(m.reason.spec_code(), props_bytes(ps));
        lemma_p_u16(m.pkid, seq![m.reason.spec_code()] + props_bytes(ps));
        assert(spec_body(m) =~= be16(m.pkid) + (seq![m.reason.spec_code()] + props_bytes(ps)));
        m.reason.lemma_code();
    }
}

} // verus!
