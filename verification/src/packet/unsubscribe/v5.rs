use bytes::{Bytes, BytesMut};
use vstd::prelude::*;

use super::{
    filters_len, lemma_strings_roundtrip, read_filters, string_enc, string_measure, string_parser, strings_fit,
    write_filters, Unsubscribe, UnsubscribeModel,
};
use crate::buffer::{bytes_len, bytes_mut_view, bytes_view, put_u16, put_u8, room};
use crate::header::FixedHeader;
use crate::packet::{frame_room, len_result, wrote};
use crate::parse::{read_u16, VarInt};
use crate::property::{
    cap_add, lemma_properties_roundtrip, lemma_props_bytes_len, p_properties, props_allowed, props_bytes,
    props_fit, props_len, props_shortest, Properties, PropertyType,
};
use crate::wire::{
    be16, concat_map, lemma_p_u16, lemma_varint_bytes_len, p_many, p_u16, sum_map, varint_len,
    varint_max,
};
use crate::Error;

verus! {

/// The properties an Unsubscribe may carry.
pub open spec fn allowed() -> Seq<PropertyType> {
    seq![PropertyType::UserProperty]
}

/// The property types that an Unsubscribe may carry in MQTT 5.0 are exactly these,
/// the list of the standard; reading one of any other type is refused.
pub proof fn lemma_allowed(t: PropertyType)
    ensures
        allowed().contains(t) <==> (
            t == PropertyType::UserProperty
        ),
{
    assert(allowed()[0] == PropertyType::UserProperty);
    if allowed().contains(t) {
        let i = choose|i: int| 0 <= i < allowed().len() && allowed()[i] == t;
        assert(0 <= i < 1);
    }
}

fn allowed_properties() -> (r: Vec<PropertyType>)
    ensures
        r@ == allowed(),
{
    vec![PropertyType::UserProperty]
}

/// Reading an Unsubscribe in MQTT 5.0: the packet identifier, the
/// properties, then topic filters until the input is used up; there must be
/// at least one byte of them.
pub open spec fn p_read(s: Seq<u8>) -> Result<UnsubscribeModel, Error> {
    match p_u16(s) {
        Err(e) => Err(e),
        Ok((pkid, r)) => match p_properties(r, allowed()) {
            Err(e) => Err(e),
            Ok((properties, r2)) => if r2.len() == 0 {
                Err(Error::MalformedPacket)
            } else {
                match p_many(r2, string_parser()) {
                    Err(e) => Err(e),
                    Ok(filters) => Ok(UnsubscribeModel { pkid, properties, filters }),
                }
            },
        },
    }
}

/// The remaining length of an Unsubscribe in MQTT 5.0.
pub open spec fn spec_len(m: UnsubscribeModel) -> int {
    (2 + sum_map(m.filters, string_measure()) + varint_len(props_len(m.properties)) + props_len(m.properties)) as int
}

/// The variable header and payload of an Unsubscribe in MQTT 5.0.
pub open spec fn spec_body(m: UnsubscribeModel) -> Seq<u8> {
    be16(m.pkid) + props_bytes(m.properties) + concat_map(m.filters, string_enc())
}

pub fn read(_fixed_header: FixedHeader, mut bytes: Bytes) -> (r: Result<Unsubscribe, Error>)
    ensures
        match p_read(bytes_view(bytes)) {
            Ok(m) => r matches Ok(p) && p@ == m,
            Err(e) => r == Err::<Unsubscribe, Error>(e),
        },
{
    let pkid = read_u16(&mut bytes)?;
    let allowed = allowed_properties();
    let properties = Properties::read(&mut bytes, allowed.as_slice())?;

    if bytes_len(&bytes) == 0 {
        return Err(Error::MalformedPacket);
    }

    let filters = read_filters(&mut bytes)?;
    Ok(Unsubscribe { pkid, filters, properties })
}

pub fn write(packet: &Unsubscribe, buffer: &mut BytesMut) -> (r: Result<usize, Error>)
    requires
        room(bytes_mut_view(*old(buffer)), frame_room(spec_len(packet@))),
    ensures
        wrote(r, bytes_mut_view(*old(buffer)), bytes_mut_view(*final(buffer)), 0xA2, spec_len(packet@), spec_body(packet@)),
{
    let ghost start = bytes_mut_view(*buffer);
    // packet type and flags
    put_u8(buffer, 0xA2);
    // remaining length
    let len = len(packet)?;
    proof {
        lemma_varint_bytes_len(len.spec_value());
        lemma_varint_bytes_len(props_len(packet.properties@));
    }
    len.write(buffer);
    // packet identifier
    put_u16(buffer, packet.pkid);
    // properties
    packet.properties.write(buffer)?;
    // topic filters
    write_filters(&packet.filters, buffer);
    proof {
        assert(bytes_mut_view(*buffer) =~= start + crate::packet::frame(0xA2, spec_len(packet@) as nat, spec_body(packet@)));
    }
    Ok(1 + len.length() + len.value())
}

pub fn len(packet: &Unsubscribe) -> (r: Result<VarInt, Error>)
    ensures
        len_result(r, spec_len(packet@)),
{
    // Packet id + length of filters (unlike subscribe this just a string,
    // hence 2 is prefixed for len per filter)
    let len = cap_add(2, filters_len(&packet.filters));
    let properties_len = packet.properties.len()?;
    let len = cap_add(len, properties_len.length() + properties_len.value());
    VarInt::new(len)
}

/// Whether an Unsubscribe reads back as written in MQTT 5.0: at least one
/// topic filter, each fitting its length prefix, properties that an
/// Unsubscribe may carry, each fitting and in its shortest form, and a
/// remaining length that fits.
pub open spec fn wf(m: UnsubscribeModel) -> bool {
    &&& m.filters.len() > 0
    &&& strings_fit(m.filters)
    &&& props_allowed(m.properties, allowed())
    &&& props_fit(m.properties)
    &&& props_shortest(m.properties)
    &&& spec_len(m) <= varint_max()
}

/// An Unsubscribe reads back as written in MQTT 5.0, and its variable header
/// and payload have its remaining length.
pub proof fn lemma_roundtrip(m: UnsubscribeModel)
    requires
        wf(m),
    ensures
        p_read(spec_body(m)) == Ok::<UnsubscribeModel, Error>(m),
        spec_body(m).len() == spec_len(m),
{
    let ps = m.properties;
    let filters = concat_map(m.filters, string_enc());
    lemma_strings_roundtrip(m.filters);
    assert(m.filters.contains(m.filters[0]));
    lemma_properties_roundtrip(ps, filters, allowed());
    lemma_props_bytes_len(ps);
    lemma_p_u16(m.pkid, props_bytes(ps) + filters);
    assert(spec_body(m) =~= be16(m.pkid) + (props_bytes(ps) + filters));
}

} // verus!
