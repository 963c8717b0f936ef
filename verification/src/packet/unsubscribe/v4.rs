use bytes::{Bytes, BytesMut};
use vstd::prelude::*;

use super::{
    filters_len, lemma_strings_roundtrip, read_filters, string_enc, string_measure, string_parser, strings_fit,
    write_filters, Unsubscribe, UnsubscribeModel,
};
use crate::buffer::{bytes_len, bytes_mut_view, bytes_view, put_u16, put_u8, room};
use crate::header::FixedHeader;
use crate::packet::{frame_room, len_result, wrote};
use crate::parse::{read_u16, VarInt};
use crate::property::{cap_add, Properties, PropertyModel};
use crate::wire::{
    be16, concat_map, lemma_p_u16, lemma_varint_bytes_len, p_many, p_u16, sum_map, varint_max,
};
use crate::Error;

verus! {

/// Reading an Unsubscribe in MQTT 3.1.1: the packet identifier, then topic
/// filters until the input is used up; there must be at least one byte of
/// them.
pub open spec fn p_read(s: Seq<u8>) -> Result<UnsubscribeModel, Error> {
    match p_u16(s) {
        Err(e) => Err(e),
        Ok((pkid, r)) => if r.len() == 0 {
            Err(Error::MalformedPacket)
        } else {
            match p_many(r, string_parser()) {
                Err(e) => Err(e),
                Ok(filters) => Ok(UnsubscribeModel { pkid, properties: Seq::empty(), filters }),
            }
        },
    }
}

/// The remaining length of an Unsubscribe in MQTT 3.1.1.
pub open spec fn spec_len(m: UnsubscribeModel) -> int {
    (2 + sum_map(m.filters, string_measure())) as int
}

/// The variable header and payload of an Unsubscribe in MQTT 3.1.1.
pub open spec fn spec_body(m: UnsubscribeModel) -> Seq<u8> {
    be16(m.pkid) + concat_map(m.filters, string_enc())
}

pub fn read(_fixed_header: FixedHeader, mut bytes: Bytes) -> (r: Result<Unsubscribe, Error>)
    ensures
        match p_read(bytes_view(bytes)) {
            Ok(m) => r matches Ok(p) && p@ == m,
            Err(e) => r == Err::<Unsubscribe, Error>(e),
        },
{
    let pkid = read_u16(&mut bytes)?;

    if bytes_len(&bytes) == 0 {
        return Err(Error::MalformedPacket);
    }

    let filters = read_filters(&mut bytes)?;
    Ok(Unsubscribe { pkid, filters, properties: Properties::new() })
}

pub fn write(packet: &Unsubscribe, buffer: &mut BytesMut) -> (r: Result<usize, Error>)
    requires
        room(bytes_mut_view(*old(buffer)), frame_room(spec_len(packet@))),
    ensures
        wrote(r, bytes_mut_view(*old(buffer)), bytes_mut_view(*final(buffer)), 0xA2, spec_len(packet@), spec_body(packet@)),
{
    let ghost start = bytes_mut_view(*buffer);
    // packet type and flags
    put_u8(buffer, 0xA2);
    // remaining length
    let len = len(packet)?;
    proof {
        lemma_varint_bytes_len(len.spec_value());
    }
    len.write(buffer);
    // packet identifier
    put_u16(buffer, packet.pkid);
    // topic filters
    write_filters(&packet.filters, buffer);
    proof {
        assert(bytes_mut_view(*buffer) =~= start + crate::packet::frame(0xA2, spec_len(packet@) as nat, spec_body(packet@)));
    }
    Ok(1 + len.length() + len.value())
}

pub fn len(packet: &Unsubscribe) -> (r: Result<VarInt, Error>)
    ensures
        len_result(r, spec_len(packet@)),
{
    // Packet id + length of filters
    let len = cap_add(2, filters_len(&packet.filters));
    VarInt::new(len)
}

/// Whether an Unsubscribe reads back as written in MQTT 3.1.1: at least one
/// topic filter, each fitting its length prefix, no properties, and a
/// remaining length that fits.
pub open spec fn wf(m: UnsubscribeModel) -> bool {
    &&& m.filters.len() > 0
    &&& strings_fit(m.filters)
    &&& m.properties == Seq::<PropertyModel>::empty()
    &&& spec_len(m) <= varint_max()
}

/// An Unsubscribe reads back as written in MQTT 3.1.1, and its variable
/// header and payload have its remaining length.
pub proof fn lemma_roundtrip(m: UnsubscribeModel)
    requires
        wf(m),
    ensures
        p_read(spec_body(m)) == Ok::<UnsubscribeModel, Error>(m),
        spec_body(m).len() == spec_len(m),
{
    lemma_strings_roundtrip(m.filters);
    lemma_p_u16(m.pkid, concat_map(m.filters, string_enc()));
    assert(m.filters.contains(m.filters[0]));
}

} // verus!
