use bytes::{Bytes, BytesMut};
use vstd::prelude::*;

use super::{
    default_filter, filter_enc, filter_measure, filter_parser_v4, filters_fit, lemma_filter_roundtrip,
    lemma_filter_shrinks, Filter, FilterModel, RetainForwardRule, Subscribe, SubscribeModel,
};
use crate::buffer::{bytes_len, bytes_mut_view, bytes_view, put_u16, put_u8, room};
use crate::header::FixedHeader;
use crate::packet::{frame_room, len_result, wrote};
use crate::parse::{read_mqtt_string, read_u16, read_u8, VarInt};
use crate::property::{cap_add, capped, Properties, PropertyModel};
use crate::wire::{
    after_items, be16, concat_map, lemma_concat_len, lemma_concat_push, lemma_p_many_roundtrip,
    lemma_p_u16, lemma_sum_prefix, lemma_sum_push, lemma_varint_bytes_len, p_many, p_u16, sum_map, varint_max,
};
use crate::{Error, QoS};

verus! {

/// Reading a Subscribe in MQTT 3.1.1: the packet identifier, then filters
/// until the input is used up; there must be at least one.
pub open spec fn p_read(s: Seq<u8>) -> Result<SubscribeModel, Error> {
    match p_u16(s) {
        Err(e) => Err(e),
        Ok((pkid, r)) => match p_many(r, filter_parser_v4()) {
            Err(e) => Err(e),
            Ok(filters) => if filters.len() == 0 {
                Err(Error::EmptySubscription)
            } else {
                Ok(SubscribeModel { pkid, properties: Seq::empty(), filters })
            },
        },
    }
}

/// The remaining length of a Subscribe in MQTT 3.1.1.
pub open spec fn spec_len(m: SubscribeModel) -> int {
    (2 + sum_map(m.filters, filter_measure())) as int
}

/// The variable header and payload of a Subscribe in MQTT 3.1.1.
pub open spec fn spec_body(m: SubscribeModel) -> Seq<u8> {
    be16(m.pkid) + concat_map(m.filters, filter_enc())
}

/// Reads MQTT 3.1.1 filters until the input is used up.
fn read_filters(bytes: &mut Bytes) -> (r: Result<Vec<Filter>, Error>)
    ensures
        match p_many(bytes_view(*old(bytes)), filter_parser_v4()) {
            Ok(fs) => r matches Ok(v) && v@.map_values(|f: Filter| f@) == fs,
            Err(e) => r == Err::<Vec<Filter>, Error>(e),
        },
        r is Ok ==> bytes_view(*final(bytes)) == Seq::<u8>::empty(),
{
    let mut filters: Vec<Filter> = Vec::new();
    let ghost s0 = bytes_view(*bytes);
    proof {
        assert(filters@.map_values(|f: Filter| f@) =~= Seq::<FilterModel>::empty());
        assert(after_items(Seq::<FilterModel>::empty(), p_many(s0, filter_parser_v4())) =~= p_many(s0, filter_parser_v4()));
    }
    while bytes_len(bytes) > 0
        invariant
            p_many(s0, filter_parser_v4()) == after_items(
                filters@.map_values(|f: Filter| f@),
                p_many(bytes_view(*bytes), filter_parser_v4()),
            ),
            s0 == bytes_view(*old(bytes)),
        decreases bytes_view(*bytes).len(),
    {
        let ghost cur = bytes_view(*bytes);
        let ghost fs = filters@.map_values(|f: Filter| f@);
        proof {
            lemma_filter_shrinks(cur);
        }
        let path = read_mqtt_string(bytes)?;
        let options = read_u8(bytes)?;
        proof {
            assert(options & 0b0000_0011 == options % 4) by (bit_vector);
        }
        let requested_qos = options & 0b0000_0011;

        let filter = Filter {
            path,
            qos: QoS::from_code(requested_qos)?,
            nolocal: false,
            preserve_retain: false,
            retain_forward_rule: RetainForwardRule::OnEverySubscribe,
        };
        let ghost f = filter@;
        filters.push(filter);
        proof {
            let fs2 = filters@.map_values(|f: Filter| f@);
            assert(fs2 =~= fs.push(f));
            let rest_res = p_many(bytes_view(*bytes), filter_parser_v4());
            assert(after_items(fs2, rest_res) =~= after_items(fs, after_items(seq![f], rest_res))) by {
                if let Ok(ys) = rest_res {
                    assert(fs2 + ys =~= fs + (seq![f] + ys));
                }
            }
        }
    }
    proof {
        assert(after_items(filters@.map_values(|f: Filter| f@), Ok(Seq::empty())) =~= Ok(
            filters@.map_values(|f: Filter| f@),
        ));
    }
    Ok(filters)
}

pub fn read(_fixed_header: FixedHeader, mut bytes: Bytes) -> (r: Result<Subscribe, Error>)
    ensures
        match p_read(bytes_view(bytes)) {
            Ok(m) => r matches Ok(p) && p@ == m,
            Err(e) => r == Err::<Subscribe, Error>(e),
        },
{
    let pkid = read_u16(&mut bytes)?;
    let filters = read_filters(&mut bytes)?;

    if filters.len() == 0 {
        Err(Error::EmptySubscription)
    } else {
        Ok(Subscribe { pkid, filters, properties: Properties::new() })
    }
}

pub fn write(packet: &Subscribe, buffer: &mut BytesMut) -> (r: Result<usize, Error>)
    requires
        room(bytes_mut_view(*old(buffer)), frame_room(spec_len(packet@))),
    ensures
        wrote(r, bytes_mut_view(*old(buffer)), bytes_mut_view(*final(buffer)), 0x82, spec_len(packet@), spec_body(packet@)),
{
    let ghost start = bytes_mut_view(*buffer);
    let ghost fs = packet@.filters;
    // packet type and flags
    put_u8(buffer, 0x82);
    // remaining length
    let len = len(packet)?;
    proof {
        lemma_varint_bytes_len(len.spec_value());
    }
    len.write(buffer);
    // packet identifier
    put_u16(buffer, packet.pkid);

    let ghost mid = bytes_mut_view(*buffer);

    // topic filters
    let mut i: usize = 0;
    while i < packet.filters.len()
        invariant
            0 <= i <= fs.len(),
            fs == packet.filters@.map_values(|f: Filter| f@),
            fs.len() == packet.filters@.len(),
            bytes_mut_view(*buffer) == mid + concat_map(fs.take(i as int), filter_enc()),
            concat_map(fs.take(i as int), filter_enc()).len() == sum_map(fs.take(i as int), filter_measure()),
            room(mid, sum_map(fs, filter_measure()) as int),
        decreases fs.len() - i,
    {
        let f = &packet.filters[i];
        proof {
            lemma_concat_push(fs.take(i as int), f@, filter_enc());
            lemma_sum_push(fs.take(i as int), f@, filter_measure());
            assert(fs.take(i + 1) =~= fs.take(i as int).push(f@));
            lemma_sum_prefix(fs, i + 1, filter_measure());
        }
        f.write(buffer);
        i += 1;
        proof {
            assert(bytes_mut_view(*buffer) =~= mid + concat_map(fs.take(i as int), filter_enc()));
        }
    }
    proof {
        assert(fs.take(i as int) =~= fs);
        assert(bytes_mut_view(*buffer) =~= start + crate::packet::frame(0x82, spec_len(packet@) as nat, spec_body(packet@)));
    }

    Ok(1 + len.length() + len.value())
}

/// The length of the filters on the wire, capped as [capped] does.
fn filters_len(filters: &Vec<Filter>) -> (n: usize)
    ensures
        n == capped(sum_map(filters@.map_values(|f: Filter| f@), filter_measure())),
{
    let ghost fs = filters@.map_values(|f: Filter| f@);
    let mut n: usize = 0;
    let mut i: usize = 0;
    while i < filters.len()
        invariant
            0 <= i <= fs.len(),
            fs == filters@.map_values(|f: Filter| f@),
            fs.len() == filters@.len(),
            n == capped(sum_map(fs.take(i as int), filter_measure())),
        decreases fs.len() - i,
    {
        let f = &filters[i];
        proof {
            lemma_sum_push(fs.take(i as int), f@, filter_measure());
            assert(fs.take(i + 1) =~= fs.take(i as int).push(f@));
        }
        let filter_len = if f.len_fits() {
            f.len()
        } else {
            usize::MAX
        };
        n = cap_add(n, filter_len);
        i += 1;
    }
    proof {
        assert(fs.take(i as int) =~= fs);
    }
    n
}

pub fn len(packet: &Subscribe) -> (r: Result<VarInt, Error>)
    ensures
        len_result(r, spec_len(packet@)),
{
    // len of pkid + vec![subscribe filter len]
    let len = cap_add(2, filters_len(&packet.filters));
    VarInt::new(len)
}

/// Whether a filter has the default options, the only ones MQTT 3.1.1 has.
pub open spec fn is_default(f: FilterModel) -> bool {
    f == default_filter(f.path, f.qos)
}

/// Whether a Subscribe reads back as written in MQTT 3.1.1: at least one
/// filter, each with the default options and a topic filter that fits its
/// length prefix, no properties, and a remaining length that fits.
pub open spec fn wf(m: SubscribeModel) -> bool {
    &&& m.filters.len() > 0
    &&& filters_fit(m.filters)
    &&& forall|i: int| 0 <= i < m.filters.len() ==> is_default(#[trigger] m.filters[i])
    &&& m.properties == Seq::<PropertyModel>::empty()
    &&& spec_len(m) <= varint_max()
}

/// A Subscribe reads back as written in MQTT 3.1.1, and its variable header and
/// payload have its remaining length.
pub proof fn lemma_roundtrip(m: SubscribeModel)
    requires
        wf(m),
    ensures
        p_read(spec_body(m)) == Ok::<SubscribeModel, Error>(m),
        spec_body(m).len() == spec_len(m),
{
    let fs = m.filters;
    assert forall|x: FilterModel, rest: Seq<u8>| fs.contains(x) implies #[trigger] filter_parser_v4()(filter_enc()(x) + rest)
        == Ok::<(FilterModel, Seq<u8>), Error>((x, rest)) by {
        let i = choose|i: int| 0 <= i < fs.len() && fs[i] == x;
        assert(crate::wire::utf8_len(fs[i].path) <= 65535);
        lemma_filter_roundtrip(x, rest);
        assert(is_default(fs[i]));
    }
    assert forall|x: FilterModel| fs.contains(x) implies #[trigger] filter_enc()(x).len() > 0 by {}
    assert forall|x: FilterModel| fs.contains(x) implies #[trigger] filter_enc()(x).len() == filter_measure()(x) by {}
    lemma_p_many_roundtrip(fs, filter_enc(), filter_parser_v4());
    lemma_concat_len(fs, filter_enc(), filter_measure());
    let filters = concat_map(fs, filter_enc());
    lemma_p_u16(m.pkid, filters);
}

} // verus!
