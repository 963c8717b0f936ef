use bytes::{Bytes, BytesMut};
use vstd::prelude::*;

use super::{
    filter_enc, filter_measure, filter_parser, filters_fit, lemma_filters_roundtrip, Filter, FilterModel,
    Subscribe, SubscribeModel,
};
use crate::buffer::{bytes_mut_view, bytes_view, put_u16, put_u8, room};
use crate::header::FixedHeader;
use crate::packet::{frame_room, len_result, wrote};
use crate::parse::{read_u16, VarInt};
use crate::property::{
    cap_add, capped, lemma_properties_roundtrip, lemma_props_bytes_len, p_properties, props_allowed,
    props_bytes, props_fit, props_len, props_shortest, Properties, PropertyType,
};
use crate::wire::{
    be16, concat_map, lemma_concat_len, lemma_concat_push, lemma_p_u16,
    lemma_sum_prefix, lemma_sum_push, lemma_varint_bytes_len, p_many, p_u16, sum_map, varint_len, varint_max,
};
use crate::Error;

verus! {

/// The properties a Subscribe may carry.
pub open spec fn allowed() -> Seq<PropertyType> {
    seq![PropertyType::SubscriptionIdentifier, PropertyType::UserProperty]
}

/// The property types that a Subscribe may carry in MQTT 5.0 are exactly these,
/// the list of the standard; reading one of any other type is refused.
pub proof fn lemma_allowed(t: PropertyType)
    ensures
        allowed().contains(t) <==> (
            t == PropertyType::SubscriptionIdentifier || t == PropertyType::UserProperty
        ),
{
    assert(allowed()[0] == PropertyType::SubscriptionIdentifier);
    assert(allowed()[1] == PropertyType::UserProperty);
    if allowed().contains(t) {
        let i = choose|i: int| 0 <= i < allowed().len() && allowed()[i] == t;
        assert(0 <= i < 2);
    }
}

fn allowed_properties() -> (r: Vec<PropertyType>)
    ensures
        r@ == allowed(),
{
    vec![PropertyType::SubscriptionIdentifier, PropertyType::UserProperty]
}

/// Reading a Subscribe in MQTT 5.0: the packet identifier, the properties,
/// then filters until the input is used up; there must be at least one.
pub open spec fn p_read(s: Seq<u8>) -> Result<SubscribeModel, Error> {
    match p_u16(s) {
        Err(e) => Err(e),
        Ok((pkid, r)) => match p_properties(r, allowed()) {
            Err(e) => Err(e),
            Ok((properties, r2)) => match p_many(r2, filter_parser()) {
                Err(e) => Err(e),
                Ok(filters) => if filters.len() == 0 {
                    Err(Error::EmptySubscription)
                } else {
                    Ok(SubscribeModel { pkid, properties, filters })
                },
            },
        },
    }
}

/// The remaining length of a Subscribe in MQTT 5.0.
pub open spec fn spec_len(m: SubscribeModel) -> int {
    (2 + sum_map(m.filters, filter_measure()) + varint_len(props_len(m.properties)) + props_len(m.properties)) as int
}

/// The variable header and payload of a Subscribe in MQTT 5.0.
pub open spec fn spec_body(m: SubscribeModel) -> Seq<u8> {
    be16(m.pkid) + props_bytes(m.properties) + concat_map(m.filters, filter_enc())
}

pub fn read(_fixed_header: FixedHeader, bytes: Bytes) -> (r: Result<Subscribe, Error>)
    ensures
        match p_read(bytes_view(bytes)) {
            Ok(m) => r matches Ok(p) && p@ == m,
            Err(e) => r == Err::<Subscribe, Error>(e),
        },
{
    let mut bytes = bytes;
    let pkid = read_u16(&mut bytes)?;
    let allowed = allowed_properties();
    let properties = Properties::read(&mut bytes, allowed.as_slice())?;

    let filters = Filter::read(&mut bytes)?;

    if filters.len() == 0 {
        Err(Error::EmptySubscription)
    } else {
        Ok(Subscribe { pkid, filters, properties })
    }
}

pub fn write(packet: &Subscribe, buffer: &mut BytesMut) -> (r: Result<usize, Error>)
    requires
        room(bytes_mut_view(*old(buffer)), frame_room(spec_len(packet@))),
    ensures
        wrote(r, bytes_mut_view(*old(buffer)), bytes_mut_view(*final(buffer)), 0x82, spec_len(packet@), spec_body(packet@)),
{
    let ghost start = bytes_mut_view(*buffer);
    let ghost fs = packet@.filters;
    // packet type and flags
    put_u8(buffer, 0x82);
    // remaining length
    let len = len(packet)?;
    proof {
        lemma_varint_bytes_len(len.spec_value());
        lemma_varint_bytes_len(props_len(packet.properties@));
    }
    len.write(buffer);
    // packet identifier
    put_u16(buffer, packet.pkid);

    // properties
    packet.properties.write(buffer)?;
    let ghost mid = bytes_mut_view(*buffer);

    // topic filters
    let mut i: usize = 0;
    while i < packet.filters.len()
        invariant
            0 <= i <= fs.len(),
            fs == packet.filters@.map_values(|f: Filter| f@),
            fs.len() == packet.filters@.len(),
            bytes_mut_view(*buffer) == mid + concat_map(fs.take(i as int), filter_enc()),
            concat_map(fs.take(i as int), filter_enc()).len() == sum_map(fs.take(i as int), filter_measure()),
            room(mid, sum_map(fs, filter_measure()) as int),
        decreases fs.len() - i,
    {
        let f = &packet.filters[i];
        proof {
            lemma_concat_push(fs.take(i as int), f@, filter_enc());
            lemma_sum_push(fs.take(i as int), f@, filter_measure());
            assert(fs.take(i + 1) =~= fs.take(i as int).push(f@));
            lemma_sum_prefix(fs, i + 1, filter_measure());
        }
        f.write(buffer);
        i += 1;
        proof {
            assert(bytes_mut_view(*buffer) =~= mid + concat_map(fs.take(i as int), filter_enc()));
        }
    }
    proof {
        assert(fs.take(i as int) =~= fs);
        assert(bytes_mut_view(*buffer) =~= start + crate::packet::frame(0x82, spec_len(packet@) as nat, spec_body(packet@)));
    }

    Ok(1 + len.length() + len.value())
}

/// The length of the filters on the wire, capped as [capped] does.
fn filters_len(filters: &Vec<Filter>) -> (n: usize)
    ensures
        n == capped(sum_map(filters@.map_values(|f: Filter| f@), filter_measure())),
{
    let ghost fs = filters@.map_values(|f: Filter| f@);
    let mut n: usize = 0;
    let mut i: usize = 0;
    while i < filters.len()
        invariant
            0 <= i <= fs.len(),
            fs == filters@.map_values(|f: Filter| f@),
            fs.len() == filters@.len(),
            n == capped(sum_map(fs.take(i as int), filter_measure())),
        decreases fs.len() - i,
    {
        let f = &filters[i];
        proof {
            lemma_sum_push(fs.take(i as int), f@, filter_measure());
            assert(fs.take(i + 1) =~= fs.take(i as int).push(f@));
        }
        let filter_len = if f.len_fits() {
            f.len()
        } else {
            usize::MAX
        };
        n = cap_add(n, filter_len);
        i += 1;
    }
    proof {
        assert(fs.take(i as int) =~= fs);
    }
    n
}

pub fn len(packet: &Subscribe) -> (r: Result<VarInt, Error>)
    ensures
        len_result(r, spec_len(packet@)),
{
    // len of pkid + vec![subscribe filter len]
    let len = cap_add(2, filters_len(&packet.filters));

    let properties_len = packet.properties.len()?;
    VarInt::new(cap_add(len, properties_len.length() + properties_len.value()))
}

/// Whether a Subscribe reads back as written in MQTT 5.0: at least one
/// filter, topic filters and properties that fit their length prefixes,
/// properties that may stand there, and a remaining length that fits.
pub open spec fn wf(m: SubscribeModel) -> bool {
    &&& m.filters.len() > 0
    &&& filters_fit(m.filters)
    &&& props_allowed(m.properties, allowed())
    &&& props_fit(m.properties)
    &&& props_shortest(m.properties)
    &&& spec_len(m) <= varint_max()
}

/// A Subscribe reads back as written in MQTT 5.0, and its variable header and
/// payload have its remaining length.
pub proof fn lemma_roundtrip(m: SubscribeModel)
    requires
        wf(m),
    ensures
        p_read(spec_body(m)) == Ok::<SubscribeModel, Error>(m),
        spec_body(m).len() == spec_len(m),
{
    let fs = m.filters;
    lemma_filters_roundtrip(fs);
    assert forall|x: FilterModel| fs.contains(x) implies #[trigger] filter_enc()(x).len() == filter_measure()(x) by {}
    lemma_concat_len(fs, filter_enc(), filter_measure());
    let filters = concat_map(fs, filter_enc());
    lemma_properties_roundtrip(m.properties, filters, allowed());
    lemma_props_bytes_len(m.properties);
    lemma_p_u16(m.pkid, props_bytes(m.properties) + filters);
    assert(spec_body(m) =~= be16(m.pkid) + (props_bytes(m.properties) + filters));
}

} // verus!
