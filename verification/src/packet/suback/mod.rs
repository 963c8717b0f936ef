//! Subscribe acknowledgment

use vstd::prelude::*;

use bytes::{Bytes, BytesMut};

use crate::buffer::{bytes_len, bytes_mut_view, bytes_view, put_u8, room};
use crate::parse::read_u8;
use crate::property::{Properties, PropertyModel};
use crate::wire::{after_items, lemma_shrinks, p_many, p_u8};
use crate::{reason, Error, QoS};

pub mod v4;
pub mod v5;

verus! {

/// Subscribe acknowledgment
///
/// Sent by the server to the client to confirm receipt and processing of a
/// SUBSCRIBE packet, with one reason code per subscription.
#[derive(Debug, Clone, PartialEq, Eq)]
pub struct SubAck {
    pub pkid: u16,
    pub properties: Properties,
    pub reason_codes: Vec<SubscribeReasonCode>,
}

/// A [SubAck], as the specifications see it.
pub struct SubAckModel {
    pub pkid: u16,
    pub properties: Seq<PropertyModel>,
    pub reason_codes: Seq<SubscribeReasonCode>,
}

impl View for SubAck {
    type V = SubAckModel;

    open spec fn view(&self) -> SubAckModel {
        SubAckModel { pkid: self.pkid, properties: self.properties@, reason_codes: self.reason_codes@ }
    }
}

impl SubAck {
    pub fn new(pkid: u16, reason_codes: Vec<SubscribeReasonCode>) -> (r: Self)
        ensures
            r@ == (SubAckModel { pkid, properties: Seq::empty(), reason_codes: reason_codes@ }),
    {
        SubAck { pkid, properties: Properties::new(), reason_codes }
    }
}

/// The outcome of one subscription of a SUBSCRIBE packet.
#[derive(Debug, Clone, Copy, PartialEq, Eq, Structural)]
pub enum SubscribeReasonCode {
    Success(QoS),
    Unspecified,
    ImplementationSpecific,
    NotAuthorized,
    TopicFilterInvalid,
    PkidInUse,
    QuotaExceeded,
    SharedSubscriptionsNotSupported,
    SubscriptionIdNotSupported,
    WildcardSubscriptionsNotSupported,
}

impl SubscribeReasonCode {
    /// The values of these codes on the wire are the fixed ones of MQTT: each
    /// is written as the value listed here, each value listed reads back as
    /// its code, and a value that reads as a code is that code's value.
    pub proof fn lemma_wire_codes()
        ensures
            SubscribeReasonCode::Success(QoS::AtMostOnce).spec_code() == 0x00,
            SubscribeReasonCode::Success(QoS::AtLeastOnce).spec_code() == 0x01,
            SubscribeReasonCode::Success(QoS::ExactlyOnce).spec_code() == 0x02,
            SubscribeReasonCode::spec_from_code(0x00) == Ok::<SubscribeReasonCode, Error>(SubscribeReasonCode::Success(QoS::AtMostOnce)),
            SubscribeReasonCode::spec_from_code(0x01) == Ok::<SubscribeReasonCode, Error>(SubscribeReasonCode::Success(QoS::AtLeastOnce)),
            SubscribeReasonCode::spec_from_code(0x02) == Ok::<SubscribeReasonCode, Error>(SubscribeReasonCode::Success(QoS::ExactlyOnce)),
            SubscribeReasonCode::Unspecified.spec_code() == 0x80,
            SubscribeReasonCode::ImplementationSpecific.spec_code() == 0x83,
            SubscribeReasonCode::NotAuthorized.spec_code() == 0x87,
            SubscribeReasonCode::TopicFilterInvalid.spec_code() == 0x8F,
            SubscribeReasonCode::PkidInUse.spec_code() == 0x91,
            SubscribeReasonCode::QuotaExceeded.spec_code() == 0x97,
            SubscribeReasonCode::SharedSubscriptionsNotSupported.spec_code() == 0x9E,
            SubscribeReasonCode::SubscriptionIdNotSupported.spec_code() == 0xA1,
            SubscribeReasonCode::WildcardSubscriptionsNotSupported.spec_code() == 0xA2,
            SubscribeReasonCode::spec_from_code(0x80) == Ok::<SubscribeReasonCode, Error>(SubscribeReasonCode::Unspecified),
            SubscribeReasonCode::spec_from_code(0x83) == Ok::<SubscribeReasonCode, Error>(SubscribeReasonCode::ImplementationSpecific),
            SubscribeReasonCode::spec_from_code(0x87) == Ok::<SubscribeReasonCode, Error>(SubscribeReasonCode::NotAuthorized),
            SubscribeReasonCode::spec_from_code(0x8F) == Ok::<SubscribeReasonCode, Error>(SubscribeReasonCode::TopicFilterInvalid),
            SubscribeReasonCode::spec_from_code(0x91) == Ok::<SubscribeReasonCode, Error>(SubscribeReasonCode::PkidInUse),
            SubscribeReasonCode::spec_from_code(0x97) == Ok::<SubscribeReasonCode, Error>(SubscribeReasonCode::QuotaExceeded),
            SubscribeReasonCode::spec_from_code(0x9E) == Ok::<SubscribeReasonCode, Error>(SubscribeReasonCode::SharedSubscriptionsNotSupported),
            SubscribeReasonCode::spec_from_code(0xA1) == Ok::<SubscribeReasonCode, Error>(SubscribeReasonCode::SubscriptionIdNotSupported),
            SubscribeReasonCode::spec_from_code(0xA2) == Ok::<SubscribeReasonCode, Error>(SubscribeReasonCode::WildcardSubscriptionsNotSupported),
            forall|c: u8| (#[trigger] SubscribeReasonCode::spec_from_code(c)) matches Ok(v) ==> v.spec_code() == c,
    {
    }
}

impl SubscribeReasonCode {
    /// The value of this code on the wire: the granted QoS level for a
    /// success, else the reason code.
    pub open spec fn spec_code(self) -> u8 {
        match self {
            SubscribeReasonCode::Success(qos) => qos.spec_code(),
            SubscribeReasonCode::Unspecified => reason::UNSPECIFIED_ERROR,
            SubscribeReasonCode::ImplementationSpecific => reason::IMPLEMENTATION_SPECIFIC_ERROR,
            SubscribeReasonCode::NotAuthorized => reason::NOT_AUTHORIZED,
            SubscribeReasonCode::TopicFilterInvalid => reason::TOPIC_FILTER_INVALID,
            SubscribeReasonCode::PkidInUse => reason::PACKET_IDENTIFIER_IN_USE,
            SubscribeReasonCode::QuotaExceeded => reason::QUOTA_EXCEEDED,
            SubscribeReasonCode::SharedSubscriptionsNotSupported => reason::SHARED_SUBSCRIPTIONS_NOT_SUPPORTED,
            SubscribeReasonCode::SubscriptionIdNotSupported => reason::SUBSCRIPTION_IDENTIFIERS_NOT_SUPPORTED,
            SubscribeReasonCode::WildcardSubscriptionsNotSupported => reason::WILDCARD_SUBSCRIPTIONS_NOT_SUPPORTED,
        }
    }

    /// The code that a value names, or the error for a value that names none.
    pub open spec fn spec_from_code(value: u8) -> Result<SubscribeReasonCode, Error> {
        if value == reason::GRANTED_QOS_0 {
            Ok(SubscribeReasonCode::Success(QoS::AtMostOnce))
        } else if value == reason::GRANTED_QOS_1 {
            Ok(SubscribeReasonCode::Success(QoS::AtLeastOnce))
        } else if value == reason::GRANTED_QOS_2 {
            Ok(SubscribeReasonCode::Success(QoS::ExactlyOnce))
        } else if value == reason::UNSPECIFIED_ERROR {
            Ok(SubscribeReasonCode::Unspecified)
        } else if value == reason::IMPLEMENTATION_SPECIFIC_ERROR {
            Ok(SubscribeReasonCode::ImplementationSpecific)
        } else if value == reason::NOT_AUTHORIZED {
            Ok(SubscribeReasonCode::NotAuthorized)
        } else if value == reason::TOPIC_FILTER_INVALID {
            Ok(SubscribeReasonCode::TopicFilterInvalid)
        } else if value == reason::PACKET_IDENTIFIER_IN_USE {
            Ok(SubscribeReasonCode::PkidInUse)
        } else if value == reason::QUOTA_EXCEEDED {
            Ok(SubscribeReasonCode::QuotaExceeded)
        } else if value == reason::SHARED_SUBSCRIPTIONS_NOT_SUPPORTED {
            Ok(SubscribeReasonCode::SharedSubscriptionsNotSupported)
        } else if value == reason::SUBSCRIPTION_IDENTIFIERS_NOT_SUPPORTED {
            Ok(SubscribeReasonCode::SubscriptionIdNotSupported)
        } else if value == reason::WILDCARD_SUBSCRIPTIONS_NOT_SUPPORTED {
            Ok(SubscribeReasonCode::WildcardSubscriptionsNotSupported)
        } else {
            Err(Error::InvalidSubscribeReasonCode(value))
        }
    }

    /// The value of this code on the wire.
    pub fn code(self) -> (c: u8)
        ensures
            c == self.spec_code(),
    {
        match self {
            SubscribeReasonCode::Success(qos) => qos.code(),
            SubscribeReasonCode::Unspecified => reason::UNSPECIFIED_ERROR,
            SubscribeReasonCode::ImplementationSpecific => reason::IMPLEMENTATION_SPECIFIC_ERROR,
            SubscribeReasonCode::NotAuthorized => reason::NOT_AUTHORIZED,
            SubscribeReasonCode::TopicFilterInvalid => reason::TOPIC_FILTER_INVALID,
            SubscribeReasonCode::PkidInUse => reason::PACKET_IDENTIFIER_IN_USE,
            SubscribeReasonCode::QuotaExceeded => reason::QUOTA_EXCEEDED,
            SubscribeReasonCode::SharedSubscriptionsNotSupported => reason::SHARED_SUBSCRIPTIONS_NOT_SUPPORTED,
            SubscribeReasonCode::SubscriptionIdNotSupported => reason::SUBSCRIPTION_IDENTIFIERS_NOT_SUPPORTED,
            SubscribeReasonCode::WildcardSubscriptionsNotSupported => reason::WILDCARD_SUBSCRIPTIONS_NOT_SUPPORTED,
        }
    }

    /// Decodes a code from its value on the wire.
    pub fn from_code(value: u8) -> (r: Result<SubscribeReasonCode, Error>)
        ensures
            r == SubscribeReasonCode::spec_from_code(value),
    {
        let v = match value {
            reason::GRANTED_QOS_0 => SubscribeReasonCode::Success(QoS::AtMostOnce),
            reason::GRANTED_QOS_1 => SubscribeReasonCode::Success(QoS::AtLeastOnce),
            reason::GRANTED_QOS_2 => SubscribeReasonCode::Success(QoS::ExactlyOnce),
            reason::UNSPECIFIED_ERROR => SubscribeReasonCode::Unspecified,
            reason::IMPLEMENTATION_SPECIFIC_ERROR => SubscribeReasonCode::ImplementationSpecific,
            reason::NOT_AUTHORIZED => SubscribeReasonCode::NotAuthorized,
            reason::TOPIC_FILTER_INVALID => SubscribeReasonCode::TopicFilterInvalid,
            reason::PACKET_IDENTIFIER_IN_USE => SubscribeReasonCode::PkidInUse,
            reason::QUOTA_EXCEEDED => SubscribeReasonCode::QuotaExceeded,
            reason::SHARED_SUBSCRIPTIONS_NOT_SUPPORTED => SubscribeReasonCode::SharedSubscriptionsNotSupported,
            reason::SUBSCRIPTION_IDENTIFIERS_NOT_SUPPORTED => SubscribeReasonCode::SubscriptionIdNotSupported,
            reason::WILDCARD_SUBSCRIPTIONS_NOT_SUPPORTED => SubscribeReasonCode::WildcardSubscriptionsNotSupported,
            v => return Err(Error::InvalidSubscribeReasonCode(v)),
        };
        Ok(v)
    }

    /// Every code's value names that code.
    pub proof fn lemma_code(self)
        ensures
            SubscribeReasonCode::spec_from_code(self.spec_code()) == Ok::<SubscribeReasonCode, Error>(self),
    {
    }
}

impl TryFrom<u8> for SubscribeReasonCode {
    type Error = Error;

    fn try_from(value: u8) -> (r: Result<Self, Self::Error>)
        ensures
            r == SubscribeReasonCode::spec_from_code(value),
    {
        SubscribeReasonCode::from_code(value)
    }
}

impl vstd::std_specs::convert::TryFromSpecImpl<u8> for SubscribeReasonCode {
    open spec fn obeys_try_from_spec() -> bool {
        true
    }

    open spec fn try_from_spec(v: u8) -> Result<Self, Self::Error> {
        SubscribeReasonCode::spec_from_code(v)
    }
}

impl From<SubscribeReasonCode> for u8 {
    fn from(value: SubscribeReasonCode) -> (r: u8)
        ensures
            r == value.spec_code(),
    {
        value.code()
    }
}

impl vstd::std_specs::convert::FromSpecImpl<SubscribeReasonCode> for u8 {
    open spec fn obeys_from_spec() -> bool {
        true
    }

    open spec fn from_spec(v: SubscribeReasonCode) -> u8 {
        v.spec_code()
    }
}

/// Reading one reason code: a byte that must name a code.
pub open spec fn p_code(s: Seq<u8>) -> Result<(SubscribeReasonCode, Seq<u8>), Error> {
    match p_u8(s) {
        Err(e) => Err(e),
        Ok((b, r)) => match SubscribeReasonCode::spec_from_code(b) {
            Err(e) => Err(e),
            Ok(c) => Ok((c, r)),
        },
    }
}

pub open spec fn code_parser() -> spec_fn(Seq<u8>) -> Result<(SubscribeReasonCode, Seq<u8>), Error> {
    |s: Seq<u8>| p_code(s)
}

/// The reason codes on the wire, one byte each.
pub open spec fn codes_bytes(codes: Seq<SubscribeReasonCode>) -> Seq<u8> {
    codes.map_values(|c: SubscribeReasonCode| c.spec_code())
}

/// Reads reason codes until the input is used up.
pub(crate) fn read_codes(bytes: &mut Bytes) -> (r: Result<Vec<SubscribeReasonCode>, Error>)
    ensures
        match p_many(bytes_view(*old(bytes)), code_parser()) {
            Ok(cs) => r matches Ok(v) && v@ == cs,
            Err(e) => r == Err::<Vec<SubscribeReasonCode>, Error>(e),
        },
        r is Ok ==> bytes_view(*final(bytes)) == Seq::<u8>::empty(),
{
    let mut codes: Vec<SubscribeReasonCode> = Vec::new();
    let ghost s0 = bytes_view(*bytes);
    proof {
        assert(after_items(codes@, p_many(s0, code_parser())) =~= p_many(s0, code_parser()));
    }
    while bytes_len(bytes) > 0
        invariant
            p_many(s0, code_parser()) == after_items(codes@, p_many(bytes_view(*bytes), code_parser())),
            s0 == bytes_view(*old(bytes)),
        decreases bytes_view(*bytes).len(),
    {
        let ghost cur = bytes_view(*bytes);
        let ghost cs = codes@;
        proof {
            lemma_shrinks(cur);
        }
        let return_code = read_u8(bytes)?;
        let code = SubscribeReasonCode::from_code(return_code)?;
        codes.push(code);
        proof {
            let rest_res = p_many(bytes_view(*bytes), code_parser());
            assert(after_items(codes@, rest_res) =~= after_items(cs, after_items(seq![code], rest_res))) by {
                if let Ok(ys) = rest_res {
                    assert(codes@ + ys =~= cs + (seq![code] + ys));
                }
            }
        }
    }
    proof {
        assert(after_items(codes@, Ok(Seq::empty())) =~= Ok(codes@));
    }
    Ok(codes)
}

/// Writes the reason codes, one byte each.
pub(crate) fn write_codes(codes: &Vec<SubscribeReasonCode>, buffer: &mut BytesMut)
    requires
        room(bytes_mut_view(*old(buffer)), codes@.len() as int),
    ensures
        bytes_mut_view(*final(buffer)) == bytes_mut_view(*old(buffer)) + codes_bytes(codes@),
{
    let ghost start = bytes_mut_view(*buffer);
    let mut i: usize = 0;
    while i < codes.len()
        invariant
            0 <= i <= codes@.len(),
            bytes_mut_view(*buffer) == start + codes_bytes(codes@.take(i as int)),
            room(start, codes@.len() as int),
        decreases codes@.len() - i,
    {
        put_u8(buffer, codes[i].code());
        proof {
            assert(codes_bytes(codes@.take(i + 1)) =~= codes_bytes(codes@.take(i as int)).push(codes@[i as int].spec_code()));
        }
        i += 1;
    }
    proof {
        assert(codes@.take(i as int) =~= codes@);
    }
}

/// A list of reason codes reads back as written.
pub proof fn lemma_codes_roundtrip(cs: Seq<SubscribeReasonCode>)
    ensures
        p_many(codes_bytes(cs), code_parser()) == Ok::<Seq<SubscribeReasonCode>, Error>(cs),
    decreases cs.len(),
{
    if cs.len() == 0 {
        assert(codes_bytes(cs) =~= Seq::<u8>::empty());
        assert(cs =~= Seq::<SubscribeReasonCode>::empty());
    } else {
        let c = cs[0];
        let tail = cs.drop_first();
        lemma_codes_roundtrip(tail);
        assert(codes_bytes(cs) =~= seq![c.spec_code()] + codes_bytes(tail));
        c.lemma_code();
        assert(codes_bytes(cs).drop_first() =~= codes_bytes(tail));
        assert(seq![c] + tail =~= cs);
    }
}

} // verus!
