//! Subscribe request

use bytes::{Bytes, BytesMut};
use vstd::prelude::*;

use crate::buffer::{bytes_len, bytes_mut_view, bytes_view, put_u8, room};
use crate::packet::publish::bit;
use crate::parse::{read_mqtt_string, read_u8, str_len, write_mqtt_string};
use crate::property::{Properties, PropertyModel};
use crate::wire::{
    after_items, concat_map, lemma_concat_len, lemma_p_many_roundtrip, sum_map, lemma_p_mqtt_string, lemma_p_u8, lemma_shrinks,
    mqtt_string, p_many, p_mqtt_string, p_u8, utf8_len,
};
use crate::{Error, QoS};

pub mod v4;
pub mod v5;

verus! {

/// Subscribe request
///
/// Sent from the client to the server to create one or more subscriptions.
/// Each subscription registers a client’s interest in one or more topics.
#[derive(Debug, Clone, PartialEq, Eq)]
pub struct Subscribe {
    pub pkid: u16,
    pub properties: Properties,
    pub filters: Vec<Filter>,
}

/// Subscription filter
#[derive(Debug, Clone, PartialEq, Eq)]
pub struct Filter {
    pub path: String,
    pub qos: QoS,
    pub nolocal: bool,
    pub preserve_retain: bool,
    pub retain_forward_rule: RetainForwardRule,
}

/// When the server sends retained messages for a subscription
#[derive(Debug, Clone, Copy, PartialEq, Eq, Structural)]
pub enum RetainForwardRule {
    OnEverySubscribe,
    OnNewSubscribe,
    Never,
}

/// A [Filter], as the specifications see it.
pub struct FilterModel {
    pub path: Seq<char>,
    pub qos: QoS,
    pub nolocal: bool,
    pub preserve_retain: bool,
    pub retain_forward_rule: RetainForwardRule,
}

/// A [Subscribe], as the specifications see it.
pub struct SubscribeModel {
    pub pkid: u16,
    pub properties: Seq<PropertyModel>,
    pub filters: Seq<FilterModel>,
}

impl View for Filter {
    type V = FilterModel;

    open spec fn view(&self) -> FilterModel {
        FilterModel {
            path: self.path@,
            qos: self.qos,
            nolocal: self.nolocal,
            preserve_retain: self.preserve_retain,
            retain_forward_rule: self.retain_forward_rule,
        }
    }
}

impl View for Subscribe {
    type V = SubscribeModel;

    open spec fn view(&self) -> SubscribeModel {
        SubscribeModel {
            pkid: self.pkid,
            properties: self.properties@,
            filters: self.filters@.map_values(|f: Filter| f@),
        }
    }
}

/// The filter of a subscription to `path` with QoS level `qos` and the
/// default options.
pub open spec fn default_filter(path: Seq<char>, qos: QoS) -> FilterModel {
    FilterModel {
        path,
        qos,
        nolocal: false,
        preserve_retain: false,
        retain_forward_rule: RetainForwardRule::OnEverySubscribe,
    }
}

/// The properties that `properties` gives, or none.
pub open spec fn or_empty(properties: Option<Properties>) -> Seq<PropertyModel> {
    match properties {
        Some(p) => p@,
        None => Seq::empty(),
    }
}

fn unwrap_or_default(properties: Option<Properties>) -> (r: Properties)
    ensures
        r@ == or_empty(properties),
{
    match properties {
        Some(p) => p,
        None => Properties::new(),
    }
}

impl Subscribe {
    pub fn new(filter: Filter, properties: Option<Properties>) -> (r: Self)
        ensures
            r@ == (SubscribeModel { pkid: 0, properties: or_empty(properties), filters: seq![filter@] }),
    {
        let ghost f = filter@;
        let r = Self { pkid: 0, filters: vec![filter], properties: unwrap_or_default(properties) };
        assert(r.filters@.map_values(|f: Filter| f@) =~= seq![f]);
        r
    }

    pub fn from_string(path: &str, qos: QoS) -> (r: Subscribe)
        ensures
            r@ == (SubscribeModel { pkid: 0, properties: Seq::empty(), filters: seq![default_filter(path@, qos)] }),
    {
        let filter = Filter {
            path: path.to_owned(),
            qos,
            nolocal: false,
            preserve_retain: false,
            retain_forward_rule: RetainForwardRule::OnEverySubscribe,
        };
        let ghost f = filter@;
        let r = Subscribe { pkid: 0, filters: vec![filter], properties: Properties::new() };
        assert(r.filters@.map_values(|f: Filter| f@) =~= seq![f]);
        r
    }

    pub fn new_many(filters: Vec<Filter>, properties: Option<Properties>) -> (r: Self)
        ensures
            r@ == (SubscribeModel {
                pkid: 0,
                properties: or_empty(properties),
                filters: filters@.map_values(|f: Filter| f@),
            }),
    {
        Self { pkid: 0, filters, properties: unwrap_or_default(properties) }
    }
}

/// The code of a retain forward rule in the subscription options.
pub open spec fn rfr_code(r: RetainForwardRule) -> u8 {
    match r {
        RetainForwardRule::OnEverySubscribe => 0,
        RetainForwardRule::OnNewSubscribe => 1,
        RetainForwardRule::Never => 2,
    }
}

/// The subscription options byte of a filter: the QoS level in bits 0 and
/// 1, no-local in bit 2, retain-as-published in bit 3 and the retain
/// forward rule in bits 4 and 5.
pub open spec fn options_byte(f: FilterModel) -> u8 {
    (f.qos.spec_code() + 4 * bit(f.nolocal) + 8 * bit(f.preserve_retain) + 16 * rfr_code(f.retain_forward_rule)) as u8
}

/// A filter on the wire: the topic filter, then the options.
pub open spec fn filter_bytes(f: FilterModel) -> Seq<u8> {
    mqtt_string(f.path) + seq![options_byte(f)]
}

/// The number of bytes of a filter on the wire.
pub open spec fn filter_len(f: FilterModel) -> nat {
    2 + utf8_len(f.path) + 1
}

pub open spec fn filter_enc() -> spec_fn(FilterModel) -> Seq<u8> {
    |f: FilterModel| filter_bytes(f)
}

pub open spec fn filter_measure() -> spec_fn(FilterModel) -> nat {
    |f: FilterModel| filter_len(f)
}

/// Reading a filter in MQTT 5.0: the topic filter, then the options; the
/// retain forward rule is checked before the QoS level.
pub open spec fn p_filter(s: Seq<u8>) -> Result<(FilterModel, Seq<u8>), Error> {
    match p_mqtt_string(s) {
        Err(e) => Err(e),
        Ok((path, r)) => match p_u8(r) {
            Err(e) => Err(e),
            Ok((options, r2)) => {
                let rule = (options / 16) % 4;
                if rule == 3 {
                    Err(Error::InvalidRetainForwardRule(rule))
                } else {
                    match QoS::spec_from_code(options % 4) {
                        Err(e) => Err(e),
                        Ok(qos) => Ok((
                            FilterModel {
                                path,
                                qos,
                                nolocal: (options / 4) % 2 == 1,
                                preserve_retain: (options / 8) % 2 == 1,
                                retain_forward_rule: if rule == 0 {
                                    RetainForwardRule::OnEverySubscribe
                                } else if rule == 1 {
                                    RetainForwardRule::OnNewSubscribe
                                } else {
                                    RetainForwardRule::Never
                                },
                            },
                            r2,
                        )),
                    }
                }
            },
        },
    }
}

pub open spec fn filter_parser() -> spec_fn(Seq<u8>) -> Result<(FilterModel, Seq<u8>), Error> {
    |s: Seq<u8>| p_filter(s)
}

/// Reading a filter in MQTT 3.1.1: the topic filter, then the options, of
/// which only the QoS level is read.
pub open spec fn p_filter_v4(s: Seq<u8>) -> Result<(FilterModel, Seq<u8>), Error> {
    match p_mqtt_string(s) {
        Err(e) => Err(e),
        Ok((path, r)) => match p_u8(r) {
            Err(e) => Err(e),
            Ok((options, r2)) => match QoS::spec_from_code(options % 4) {
                Err(e) => Err(e),
                Ok(qos) => Ok((default_filter(path, qos), r2)),
            },
        },
    }
}

pub open spec fn filter_parser_v4() -> spec_fn(Seq<u8>) -> Result<(FilterModel, Seq<u8>), Error> {
    |s: Seq<u8>| p_filter_v4(s)
}

/// Whether every topic filter fits its length prefix.
pub open spec fn filters_fit(fs: Seq<FilterModel>) -> bool {
    forall|i: int| 0 <= i < fs.len() ==> utf8_len(#[trigger] fs[i].path) <= 65535
}

/// A filter reads back as written in MQTT 5.0.
pub proof fn lemma_filter_roundtrip(f: FilterModel, rest: Seq<u8>)
    requires
        utf8_len(f.path) <= 65535,
    ensures
        p_filter(filter_bytes(f) + rest) == Ok::<(FilterModel, Seq<u8>), Error>((f, rest)),
        p_filter_v4(filter_bytes(f) + rest) == Ok::<(FilterModel, Seq<u8>), Error>((
            default_filter(f.path, f.qos),
            rest,
        )),
{
    let o = options_byte(f);
    lemma_p_u8(o, rest);
    lemma_p_mqtt_string(f.path, seq![o] + rest);
    assert(filter_bytes(f) + rest =~= mqtt_string(f.path) + (seq![o] + rest));
    assert(o as int == f.qos.spec_code() + 4 * bit(f.nolocal) + 8 * bit(f.preserve_retain) + 16 * rfr_code(
        f.retain_forward_rule,
    ));
}

/// The subscription options byte that is written for a filter: the QoS
/// level in bits 0 and 1 (0, 1 or 2), no-local in bit 2, retain-as-published
/// in bit 3, and the retain handling in bits 4 and 5 with the fixed values
/// of MQTT 5.0: 0 to send retained messages on every subscribe, 1 to send
/// them only on a new subscription, 2 never to send them. Bits 6 and 7 are 0.
/// The topic filter comes before it, with its two-byte length.
pub proof fn lemma_options_byte(f: FilterModel)
    ensures
        filter_bytes(f).len() == 2 + utf8_len(f.path) + 1,
        filter_bytes(f).drop_last() == mqtt_string(f.path),
        filter_bytes(f).last() & 3 == (match f.qos {
            QoS::AtMostOnce => 0u8,
            QoS::AtLeastOnce => 1u8,
            QoS::ExactlyOnce => 2u8,
        }),
        (filter_bytes(f).last() >> 2) & 1 == (if f.nolocal { 1u8 } else { 0u8 }),
        (filter_bytes(f).last() >> 3) & 1 == (if f.preserve_retain { 1u8 } else { 0u8 }),
        (filter_bytes(f).last() >> 4) & 3 == (match f.retain_forward_rule {
            RetainForwardRule::OnEverySubscribe => 0u8,
            RetainForwardRule::OnNewSubscribe => 1u8,
            RetainForwardRule::Never => 2u8,
        }),
        filter_bytes(f).last() >> 6 == 0,
{
    let o = options_byte(f);
    let q = f.qos.spec_code();
    let n = bit(f.nolocal);
    let r = bit(f.preserve_retain);
    let h = rfr_code(f.retain_forward_rule);
    assert(filter_bytes(f).drop_last() =~= mqtt_string(f.path));
    assert(filter_bytes(f).last() == o);
    assert(o == q + 4 * n + 8 * r + 16 * h);
    assert(o & 3 == q && (o >> 2) & 1 == n && (o >> 3) & 1 == r && (o >> 4) & 3 == h && o >> 6 == 0) by (bit_vector)
        requires
            o == q + 4 * n + 8 * r + 16 * h,
            q <= 2,
            n <= 1,
            r <= 1,
            h <= 2,
    ;
}

/// Reading a filter in MQTT 5.0 takes its options from the byte after the
/// topic filter: a retain handling (bits 4 and 5) of 3 is refused, then a
/// QoS level (bits 0 and 1) of 3 is refused; otherwise the QoS level is 0,
/// 1 or 2, no-local is bit 2, retain-as-published is bit 3, and the retain
/// handling 0 reads as sending retained messages on every subscribe, 1 as
/// sending them only on a new subscription and 2 as never sending them.
pub proof fn lemma_read_options(path: Seq<char>, o: u8, rest: Seq<u8>)
    requires
        utf8_len(path) <= 65535,
    ensures
        ({
            let got = p_filter(mqtt_string(path) + (seq![o] + rest));
            &&& (o >> 4) & 3 == 3 ==> got == Err::<(FilterModel, Seq<u8>), Error>(Error::InvalidRetainForwardRule(3))
            &&& (o >> 4) & 3 != 3 && o & 3 == 3 ==> got == Err::<(FilterModel, Seq<u8>), Error>(Error::InvalidQoS(3))
            &&& (o >> 4) & 3 != 3 && o & 3 != 3 ==> got == Ok::<(FilterModel, Seq<u8>), Error>((
                FilterModel {
                    path,
                    qos: if o & 3 == 0 {
                        QoS::AtMostOnce
                    } else if o & 3 == 1 {
                        QoS::AtLeastOnce
                    } else {
                        QoS::ExactlyOnce
                    },
                    nolocal: (o >> 2) & 1 == 1,
                    preserve_retain: (o >> 3) & 1 == 1,
                    retain_forward_rule: if (o >> 4) & 3 == 0 {
                        RetainForwardRule::OnEverySubscribe
                    } else if (o >> 4) & 3 == 1 {
                        RetainForwardRule::OnNewSubscribe
                    } else {
                        RetainForwardRule::Never
                    },
                },
                rest,
            ))
        }),
{
    lemma_p_mqtt_string(path, seq![o] + rest);
    lemma_p_u8(o, rest);
    assert(o & 3 == o % 4 && (o >> 2) & 1 == (o / 4) % 2 && (o >> 3) & 1 == (o / 8) % 2 && (o >> 4) & 3 == (o / 16) % 4)
        by (bit_vector);
}

/// What [Filter::write] writes, [Filter::read] reads back: filters written
/// one after the other, each with a topic filter that fits its length
/// prefix, are read back as the same filters, with every option kept, and
/// the input is used up.
pub proof fn lemma_filters_roundtrip(fs: Seq<FilterModel>)
    requires
        filters_fit(fs),
    ensures
        p_many(concat_map(fs, filter_enc()), filter_parser()) == Ok::<Seq<FilterModel>, Error>(fs),
{
    assert forall|x: FilterModel, rest: Seq<u8>| fs.contains(x) implies #[trigger] filter_parser()(filter_enc()(x) + rest)
        == Ok::<(FilterModel, Seq<u8>), Error>((x, rest)) by {
        let i = choose|i: int| 0 <= i < fs.len() && fs[i] == x;
        assert(utf8_len(fs[i].path) <= 65535);
        lemma_filter_roundtrip(x, rest);
    }
    assert forall|x: FilterModel| fs.contains(x) implies #[trigger] filter_enc()(x).len() > 0 by {}
    lemma_p_many_roundtrip(fs, filter_enc(), filter_parser());
}

/// Filters on the wire take as many bytes as their measure says.
pub proof fn lemma_filters_len(fs: Seq<FilterModel>)
    ensures
        concat_map(fs, filter_enc()).len() == sum_map(fs, filter_measure()),
{
    assert forall|x: FilterModel| fs.contains(x) implies #[trigger] filter_enc()(x).len() == filter_measure()(x) by {}
    lemma_concat_len(fs, filter_enc(), filter_measure());
}

/// Reading a filter gives back a suffix of the input.
pub proof fn lemma_filter_shrinks(s: Seq<u8>)
    ensures
        p_filter(s) matches Ok((f, r)) ==> r.len() < s.len(),
        p_filter_v4(s) matches Ok((f, r)) ==> r.len() < s.len(),
{
    lemma_shrinks(s);
    if let Ok((_, r)) = p_mqtt_string(s) {
        lemma_shrinks(r);
    }
}

impl Filter {
    pub fn new(path: String, qos: QoS) -> (r: Self)
        ensures
            r@ == default_filter(path@, qos),
    {
        Self {
            path,
            qos,
            nolocal: false,
            preserve_retain: false,
            retain_forward_rule: RetainForwardRule::OnEverySubscribe,
        }
    }

    /// Reads filters until the input is used up.
    pub fn read(bytes: &mut Bytes) -> (r: Result<Vec<Filter>, Error>)
        ensures
            match p_many(bytes_view(*old(bytes)), filter_parser()) {
                Ok(fs) => r matches Ok(v) && v@.map_values(|f: Filter| f@) == fs,
                Err(e) => r == Err::<Vec<Filter>, Error>(e),
            },
            r is Ok ==> bytes_view(*final(bytes)) == Seq::<u8>::empty(),
    {
        // variable header size = 2 (packet identifier)
        let mut filters: Vec<Filter> = Vec::new();
        let ghost s0 = bytes_view(*bytes);
        proof {
            assert(filters@.map_values(|f: Filter| f@) =~= Seq::<FilterModel>::empty());
            assert(after_items(Seq::<FilterModel>::empty(), p_many(s0, filter_parser())) =~= p_many(s0, filter_parser()));
        }

        while bytes_len(bytes) > 0
            invariant
                p_many(s0, filter_parser()) == after_items(
                    filters@.map_values(|f: Filter| f@),
                    p_many(bytes_view(*bytes), filter_parser()),
                ),
                s0 == bytes_view(*old(bytes)),
            decreases bytes_view(*bytes).len(),
        {
            let ghost cur = bytes_view(*bytes);
            let ghost fs = filters@.map_values(|f: Filter| f@);
            proof {
                lemma_filter_shrinks(cur);
            }
            let path = read_mqtt_string(bytes)?;
            let options = read_u8(bytes)?;
            let requested_qos = options & 0b0000_0011;

            let nolocal = (options >> 2) & 0b0000_0001;
            let nolocal = nolocal != 0;

            let preserve_retain = (options >> 3) & 0b0000_0001;
            let preserve_retain = preserve_retain != 0;

            let retain_forward_rule = (options >> 4) & 0b0000_0011;
            proof {
                assert(options & 0b0000_0011 == options % 4 && ((options >> 2) & 1 != 0) == ((options / 4) % 2 == 1)
                    && ((options >> 3) & 1 != 0) == ((options / 8) % 2 == 1) && (options >> 4) & 3 == (options / 16) % 4)
                    by (bit_vector);
            }
            let retain_forward_rule = match retain_forward_rule {
                0 => RetainForwardRule::OnEverySubscribe,
                1 => RetainForwardRule::OnNewSubscribe,
                2 => RetainForwardRule::Never,
                r => return Err(Error::InvalidRetainForwardRule(r)),
            };

            let filter = Filter {
                path,
                qos: QoS::from_code(requested_qos)?,
                nolocal,
                preserve_retain,
                retain_forward_rule,
            };
            let ghost f = filter@;
            filters.push(filter);
            proof {
                let fs2 = filters@.map_values(|f: Filter| f@);
                assert(fs2 =~= fs.push(f));
                let rest_res = p_many(bytes_view(*bytes), filter_parser());
                assert(after_items(fs2, rest_res) =~= after_items(fs, after_items(seq![f], rest_res))) by {
                    if let Ok(ys) = rest_res {
                        assert(fs2 + ys =~= fs + (seq![f] + ys));
                    }
                }
            }
        }
        proof {
            assert(after_items(filters@.map_values(|f: Filter| f@), Ok(Seq::empty())) =~= Ok(
                filters@.map_values(|f: Filter| f@),
            ));
        }

        Ok(filters)
    }

    /// Writes the filter: the topic filter, then the options.
    pub fn write(&self, buffer: &mut BytesMut)
        requires
            room(bytes_mut_view(*old(buffer)), filter_len(self@) as int),
        ensures
            bytes_mut_view(*final(buffer)) == bytes_mut_view(*old(buffer)) + filter_bytes(self@),
    {
        let qos = self.qos.code();
        let nolocal: u8 = if self.nolocal {
            0b0000_0100
        } else {
            0
        };
        let preserve_retain: u8 = if self.preserve_retain {
            0b0000_1000
        } else {
            0
        };
        let retain_forward_rule: u8 = match self.retain_forward_rule {
            RetainForwardRule::OnEverySubscribe => 0b0000_0000,
            RetainForwardRule::OnNewSubscribe => 0b0001_0000,
            RetainForwardRule::Never => 0b0010_0000,
        };
        let options = qos | nolocal | preserve_retain | retain_forward_rule;
        proof {
            assert(qos <= 2 && (nolocal == 0 || nolocal == 4) && (preserve_retain == 0 || preserve_retain == 8)
                && (retain_forward_rule == 0 || retain_forward_rule == 16 || retain_forward_rule == 32) ==> qos
                | nolocal | preserve_retain | retain_forward_rule == qos + nolocal + preserve_retain
                + retain_forward_rule) by (bit_vector);
        }

        write_mqtt_string(buffer, self.path.as_str());
        put_u8(buffer, options);
        proof {
            assert(bytes_mut_view(*buffer) =~= bytes_mut_view(*old(buffer)) + filter_bytes(self@));
        }
    }

    /// The number of bytes of the filter on the wire. The count must fit a
    /// `usize`.
    pub fn len(&self) -> (n: usize)
        requires
            filter_len(self@) <= usize::MAX,
        ensures
            n == filter_len(self@),
    {
        // filter len + filter + options
        2 + str_len(&self.path) + 1
    }

    /// Whether the number of bytes of the filter on the wire fits a `usize`.
    pub(crate) fn len_fits(&self) -> (r: bool)
        ensures
            r == (filter_len(self@) <= usize::MAX),
    {
        str_len(&self.path) <= usize::MAX - 3
    }
}

} // verus!
