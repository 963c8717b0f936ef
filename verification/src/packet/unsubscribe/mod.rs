//! Unsubscribe request

use bytes::{Bytes, BytesMut};
use vstd::prelude::*;

use crate::buffer::{bytes_len, bytes_mut_view, bytes_view, room};
use crate::packet::subscribe::or_empty;
use crate::parse::{read_mqtt_string, str_len, write_mqtt_string};
use crate::property::{cap_add, capped, Properties, PropertyModel};
use crate::wire::{
    after_items, concat_map, lemma_concat_len, lemma_concat_push, lemma_p_many_roundtrip, lemma_p_mqtt_string,
    lemma_shrinks, lemma_sum_prefix, lemma_sum_push, mqtt_string, p_many, p_mqtt_string, sum_map, utf8_len,
};
use crate::Error;

pub mod v4;
pub mod v5;

verus! {

/// Unsubscribe request
///
/// Sent by the client to the server to unsubscribe from topics.
#[derive(Debug, Clone, PartialEq, Eq)]
pub struct Unsubscribe {
    pub pkid: u16,
    pub properties: Properties,
    pub filters: Vec<String>,
}

/// An [Unsubscribe], as the specifications see it.
pub struct UnsubscribeModel {
    pub pkid: u16,
    pub properties: Seq<PropertyModel>,
    pub filters: Seq<Seq<char>>,
}

/// The characters of each string of a list.
pub open spec fn strings_view(v: Seq<String>) -> Seq<Seq<char>> {
    v.map_values(|s: String| s@)
}

impl View for Unsubscribe {
    type V = UnsubscribeModel;

    open spec fn view(&self) -> UnsubscribeModel {
        UnsubscribeModel { pkid: self.pkid, properties: self.properties@, filters: strings_view(self.filters@) }
    }
}

impl Unsubscribe {
    pub fn new(topic: &str) -> (r: Unsubscribe)
        ensures
            r@ == (UnsubscribeModel { pkid: 0, properties: Seq::empty(), filters: seq![topic@] }),
    {
        let r = Unsubscribe { pkid: 0, filters: vec![topic.to_owned()], properties: Properties::new() };
        assert(strings_view(r.filters@) =~= seq![topic@]);
        r
    }

    pub fn new_many(filters: Vec<String>, properties: Option<Properties>) -> (r: Self)
        ensures
            r@ == (UnsubscribeModel { pkid: 0, properties: or_empty(properties), filters: strings_view(filters@) }),
    {
        let properties = match properties {
            Some(p) => p,
            None => Properties::new(),
        };
        Self { pkid: 0, filters, properties }
    }
}

pub open spec fn string_enc() -> spec_fn(Seq<char>) -> Seq<u8> {
    |s: Seq<char>| mqtt_string(s)
}

pub open spec fn string_measure() -> spec_fn(Seq<char>) -> nat {
    |s: Seq<char>| 2 + utf8_len(s)
}

pub open spec fn string_parser() -> spec_fn(Seq<u8>) -> Result<(Seq<char>, Seq<u8>), Error> {
    |s: Seq<u8>| p_mqtt_string(s)
}

/// Whether every string fits its length prefix.
pub open spec fn strings_fit(fs: Seq<Seq<char>>) -> bool {
    forall|i: int| 0 <= i < fs.len() ==> utf8_len(#[trigger] fs[i]) <= 65535
}

/// Reads topic filters until the input is used up.
pub(crate) fn read_filters(bytes: &mut Bytes) -> (r: Result<Vec<String>, Error>)
    ensures
        match p_many(bytes_view(*old(bytes)), string_parser()) {
            Ok(fs) => r matches Ok(v) && strings_view(v@) == fs,
            Err(e) => r == Err::<Vec<String>, Error>(e),
        },
        r is Ok ==> bytes_view(*final(bytes)) == Seq::<u8>::empty(),
{
    let mut filters: Vec<String> = Vec::new();
    let ghost s0 = bytes_view(*bytes);
    proof {
        assert(strings_view(filters@) =~= Seq::<Seq<char>>::empty());
        assert(after_items(Seq::<Seq<char>>::empty(), p_many(s0, string_parser())) =~= p_many(s0, string_parser()));
    }
    while bytes_len(bytes) > 0
        invariant
            p_many(s0, string_parser()) == after_items(strings_view(filters@), p_many(bytes_view(*bytes), string_parser())),
            s0 == bytes_view(*old(bytes)),
        decreases bytes_view(*bytes).len(),
    {
        let ghost cur = bytes_view(*bytes);
        let ghost fs = strings_view(filters@);
        proof {
            lemma_shrinks(cur);
        }
        let filter = read_mqtt_string(bytes)?;
        let ghost f = filter@;
        filters.push(filter);
        proof {
            let fs2 = strings_view(filters@);
            assert(fs2 =~= fs.push(f));
            let rest_res = p_many(bytes_view(*bytes), string_parser());
            assert(after_items(fs2, rest_res) =~= after_items(fs, after_items(seq![f], rest_res))) by {
                if let Ok(ys) = rest_res {
                    assert(fs2 + ys =~= fs + (seq![f] + ys));
                }
            }
        }
    }
    proof {
        assert(after_items(strings_view(filters@), Ok(Seq::empty())) =~= Ok(strings_view(filters@)));
    }
    Ok(filters)
}

/// Writes the topic filters, each as a string.
pub(crate) fn write_filters(filters: &Vec<String>, buffer: &mut BytesMut)
    requires
        room(bytes_mut_view(*old(buffer)), sum_map(strings_view(filters@), string_measure()) as int),
    ensures
        bytes_mut_view(*final(buffer)) == bytes_mut_view(*old(buffer)) + concat_map(
            strings_view(filters@),
            string_enc(),
        ),
{
    let ghost start = bytes_mut_view(*buffer);
    let ghost fs = strings_view(filters@);
    let mut i: usize = 0;
    while i < filters.len()
        invariant
            0 <= i <= fs.len(),
            fs == strings_view(filters@),
            fs.len() == filters@.len(),
            bytes_mut_view(*buffer) == start + concat_map(fs.take(i as int), string_enc()),
            concat_map(fs.take(i as int), string_enc()).len() == sum_map(fs.take(i as int), string_measure()),
            room(start, sum_map(fs, string_measure()) as int),
        decreases fs.len() - i,
    {
        let topic = &filters[i];
        proof {
            lemma_concat_push(fs.take(i as int), topic@, string_enc());
            lemma_sum_push(fs.take(i as int), topic@, string_measure());
            assert(fs.take(i + 1) =~= fs.take(i as int).push(topic@));
            lemma_sum_prefix(fs, i + 1, string_measure());
        }
        write_mqtt_string(buffer, topic.as_str());
        i += 1;
        proof {
            assert(bytes_mut_view(*buffer) =~= start + concat_map(fs.take(i as int), string_enc()));
        }
    }
    proof {
        assert(fs.take(i as int) =~= fs);
    }
}

/// The length of the topic filters on the wire, capped as [capped] does.
pub(crate) fn filters_len(filters: &Vec<String>) -> (n: usize)
    ensures
        n == capped(sum_map(strings_view(filters@), string_measure())),
{
    let ghost fs = strings_view(filters@);
    let mut n: usize = 0;
    let mut i: usize = 0;
    while i < filters.len()
        invariant
            0 <= i <= fs.len(),
            fs == strings_view(filters@),
            fs.len() == filters@.len(),
            n == capped(sum_map(fs.take(i as int), string_measure())),
        decreases fs.len() - i,
    {
        let t = &filters[i];
        proof {
            lemma_sum_push(fs.take(i as int), t@, string_measure());
            assert(fs.take(i + 1) =~= fs.take(i as int).push(t@));
        }
        n = cap_add(n, cap_add(2, str_len(t)));
        i += 1;
    }
    proof {
        assert(fs.take(i as int) =~= fs);
    }
    n
}

/// Strings on the wire take as many bytes as their measure says.
pub proof fn lemma_strings_len(fs: Seq<Seq<char>>)
    ensures
        concat_map(fs, string_enc()).len() == sum_map(fs, string_measure()),
{
    assert forall|x: Seq<char>| fs.contains(x) implies #[trigger] string_enc()(x).len() == string_measure()(x) by {}
    lemma_concat_len(fs, string_enc(), string_measure());
}

/// Strings that fit their length prefixes read back as written, and take as
/// many bytes as their measure says.
pub proof fn lemma_strings_roundtrip(fs: Seq<Seq<char>>)
    requires
        strings_fit(fs),
    ensures
        p_many(concat_map(fs, string_enc()), string_parser()) == Ok::<Seq<Seq<char>>, Error>(fs),
        concat_map(fs, string_enc()).len() == sum_map(fs, string_measure()),
{
    assert forall|x: Seq<char>, rest: Seq<u8>| fs.contains(x) implies #[trigger] string_parser()(string_enc()(x) + rest)
        == Ok::<(Seq<char>, Seq<u8>), Error>((x, rest)) by {
        let i = choose|i: int| 0 <= i < fs.len() && fs[i] == x;
        assert(utf8_len(fs[i]) <= 65535);
        lemma_p_mqtt_string(x, rest);
    }
    assert forall|x: Seq<char>| fs.contains(x) implies #[trigger] string_enc()(x).len() > 0 by {}
    assert forall|x: Seq<char>| fs.contains(x) implies #[trigger] string_enc()(x).len() == string_measure()(x) by {}
    lemma_p_many_roundtrip(fs, string_enc(), string_parser());
    lemma_concat_len(fs, string_enc(), string_measure());
}

} // verus!
