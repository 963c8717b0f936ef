//! Unsubscribe acknowledgment

use bytes::{Bytes, BytesMut};
use vstd::prelude::*;

use crate::buffer::{bytes_len, bytes_mut_view, bytes_view, put_u8, room};
use crate::parse::read_u8;
use crate::property::{Properties, PropertyModel};
use crate::wire::{after_items, lemma_shrinks, p_many, p_u8};
use crate::{reason, Error};

pub mod v4;
pub mod v5;

verus! {

/// Unsubscribe acknowledgement
///
/// Sent by the server to the client to confirm receipt of an UNSUBSCRIBE packet.
#[derive(Debug, Clone, PartialEq, Eq)]
pub struct UnsubAck {
    pub pkid: u16,
    pub properties: Properties,
    pub reason_codes: Vec<UnsubscribeReasonCode>,
}

/// An [UnsubAck], as the specifications see it.
pub struct UnsubAckModel {
    pub pkid: u16,
    pub properties: Seq<PropertyModel>,
    pub reason_codes: Seq<UnsubscribeReasonCode>,
}

impl View for UnsubAck {
    type V = UnsubAckModel;

    open spec fn view(&self) -> UnsubAckModel {
        UnsubAckModel { pkid: self.pkid, properties: self.properties@, reason_codes: self.reason_codes@ }
    }
}

impl UnsubAck {
    pub fn new(pkid: u16) -> (r: Self)
        ensures
            r@ == (UnsubAckModel { pkid, properties: Seq::empty(), reason_codes: Seq::empty() }),
    {
        UnsubAck { pkid, reason_codes: Vec::new(), properties: Properties::new() }
    }
}

/// The outcome of one topic filter of an UNSUBSCRIBE packet.
#[derive(Debug, Clone, Copy, PartialEq, Eq, Structural)]
pub enum UnsubscribeReasonCode {
    Success,
    NoSubscriptionExisted,
    UnspecifiedError,
    ImplementationSpecificError,
    NotAuthorized,
    TopicFilterInvalid,
    PacketIdentifierInUse,
}

impl UnsubscribeReasonCode {
    /// The values of these codes on the wire are the fixed ones of MQTT: each
    /// is written as the value listed here, each value listed reads back as
    /// its code, and a value that reads as a code is that code's value.
    pub proof fn lemma_wire_codes()
        ensures
            UnsubscribeReasonCode::Success.spec_code() == 0x00,
            UnsubscribeReasonCode::NoSubscriptionExisted.spec_code() == 0x11,
            UnsubscribeReasonCode::UnspecifiedError.spec_code() == 0x80,
            UnsubscribeReasonCode::ImplementationSpecificError.spec_code() == 0x83,
            UnsubscribeReasonCode::NotAuthorized.spec_code() == 0x87,
            UnsubscribeReasonCode::TopicFilterInvalid.spec_code() == 0x8F,
            UnsubscribeReasonCode::PacketIdentifierInUse.spec_code() == 0x91,
            UnsubscribeReasonCode::spec_from_code(0x00) == Ok::<UnsubscribeReasonCode, Error>(UnsubscribeReasonCode::Success),
            UnsubscribeReasonCode::spec_from_code(0x11) == Ok::<UnsubscribeReasonCode, Error>(UnsubscribeReasonCode::NoSubscriptionExisted),
            UnsubscribeReasonCode::spec_from_code(0x80) == Ok::<UnsubscribeReasonCode, Error>(UnsubscribeReasonCode::UnspecifiedError),
            UnsubscribeReasonCode::spec_from_code(0x83) == Ok::<UnsubscribeReasonCode, Error>(UnsubscribeReasonCode::ImplementationSpecificError),
            UnsubscribeReasonCode::spec_from_code(0x87) == Ok::<UnsubscribeReasonCode, Error>(UnsubscribeReasonCode::NotAuthorized),
            UnsubscribeReasonCode::spec_from_code(0x8F) == Ok::<UnsubscribeReasonCode, Error>(UnsubscribeReasonCode::TopicFilterInvalid),
            UnsubscribeReasonCode::spec_from_code(0x91) == Ok::<UnsubscribeReasonCode, Error>(UnsubscribeReasonCode::PacketIdentifierInUse),
            forall|c: u8| (#[trigger] UnsubscribeReasonCode::spec_from_code(c)) matches Ok(v) ==> v.spec_code() == c,
    {
    }
}

impl UnsubscribeReasonCode {
    /// The value of this code on the wire.
    pub open spec fn spec_code(self) -> u8 {
        match self {
            UnsubscribeReasonCode::Success => reason::SUCCESS,
            UnsubscribeReasonCode::NoSubscriptionExisted => reason::NO_SUBSCRIPTION_EXISTED,
            UnsubscribeReasonCode::UnspecifiedError => reason::UNSPECIFIED_ERROR,
            UnsubscribeReasonCode::ImplementationSpecificError => reason::IMPLEMENTATION_SPECIFIC_ERROR,
            UnsubscribeReasonCode::NotAuthorized => reason::NOT_AUTHORIZED,
            UnsubscribeReasonCode::TopicFilterInvalid => reason::TOPIC_FILTER_INVALID,
            UnsubscribeReasonCode::PacketIdentifierInUse => reason::PACKET_IDENTIFIER_IN_USE,
        }
    }

    /// The code that a value names, or the error for a value that names none.
    pub open spec fn spec_from_code(value: u8) -> Result<UnsubscribeReasonCode, Error> {
        if value == reason::SUCCESS {
            Ok(UnsubscribeReasonCode::Success)
        } else if value == reason::NO_SUBSCRIPTION_EXISTED {
            Ok(UnsubscribeReasonCode::NoSubscriptionExisted)
        } else if value == reason::UNSPECIFIED_ERROR {
            Ok(UnsubscribeReasonCode::UnspecifiedError)
        } else if value == reason::IMPLEMENTATION_SPECIFIC_ERROR {
            Ok(UnsubscribeReasonCode::ImplementationSpecificError)
        } else if value == reason::NOT_AUTHORIZED {
            Ok(UnsubscribeReasonCode::NotAuthorized)
        } else if value == reason::TOPIC_FILTER_INVALID {
            Ok(UnsubscribeReasonCode::TopicFilterInvalid)
        } else if value == reason::PACKET_IDENTIFIER_IN_USE {
            Ok(UnsubscribeReasonCode::PacketIdentifierInUse)
        } else {
            Err(Error::InvalidSubscribeReasonCode(value))
        }
    }

    /// The value of this code on the wire.
    pub fn code(self) -> (c: u8)
        ensures
            c == self.spec_code(),
    {
        match self {
            UnsubscribeReasonCode::Success => reason::SUCCESS,
            UnsubscribeReasonCode::NoSubscriptionExisted => reason::NO_SUBSCRIPTION_EXISTED,
            UnsubscribeReasonCode::UnspecifiedError => reason::UNSPECIFIED_ERROR,
            UnsubscribeReasonCode::ImplementationSpecificError => reason::IMPLEMENTATION_SPECIFIC_ERROR,
            UnsubscribeReasonCode::NotAuthorized => reason::NOT_AUTHORIZED,
            UnsubscribeReasonCode::TopicFilterInvalid => reason::TOPIC_FILTER_INVALID,
            UnsubscribeReasonCode::PacketIdentifierInUse => reason::PACKET_IDENTIFIER_IN_USE,
        }
    }

    /// Decodes a code from its value on the wire.
    pub fn from_code(value: u8) -> (r: Result<UnsubscribeReasonCode, Error>)
        ensures
            r == UnsubscribeReasonCode::spec_from_code(value),
    {
        let code = match value {
            reason::SUCCESS => UnsubscribeReasonCode::Success,
            reason::NO_SUBSCRIPTION_EXISTED => UnsubscribeReasonCode::NoSubscriptionExisted,
            reason::UNSPECIFIED_ERROR => UnsubscribeReasonCode::UnspecifiedError,
            reason::IMPLEMENTATION_SPECIFIC_ERROR => UnsubscribeReasonCode::ImplementationSpecificError,
            reason::NOT_AUTHORIZED => UnsubscribeReasonCode::NotAuthorized,
            reason::TOPIC_FILTER_INVALID => UnsubscribeReasonCode::TopicFilterInvalid,
            reason::PACKET_IDENTIFIER_IN_USE => UnsubscribeReasonCode::PacketIdentifierInUse,
            num => return Err(Error::InvalidSubscribeReasonCode(num)),
        };
        Ok(code)
    }

    /// Every code's value names that code.
    pub proof fn lemma_code(self)
        ensures
            UnsubscribeReasonCode::spec_from_code(self.spec_code()) == Ok::<UnsubscribeReasonCode, Error>(self),
    {
    }
}

impl TryFrom<u8> for UnsubscribeReasonCode {
    type Error = Error;

    fn try_from(value: u8) -> (r: Result<Self, Self::Error>)
        ensures
            r == UnsubscribeReasonCode::spec_from_code(value),
    {
        UnsubscribeReasonCode::from_code(value)
    }
}

impl vstd::std_specs::convert::TryFromSpecImpl<u8> for UnsubscribeReasonCode {
    open spec fn obeys_try_from_spec() -> bool {
        true
    }

    open spec fn try_from_spec(v: u8) -> Result<Self, Self::Error> {
        UnsubscribeReasonCode::spec_from_code(v)
    }
}

/// Reading one reason code: a byte that must name a code.
pub open spec fn p_code(s: Seq<u8>) -> Result<(UnsubscribeReasonCode, Seq<u8>), Error> {
    match p_u8(s) {
        Err(e) => Err(e),
        Ok((b, r)) => match UnsubscribeReasonCode::spec_from_code(b) {
            Err(e) => Err(e),
            Ok(c) => Ok((c, r)),
        },
    }
}

pub open spec fn code_parser() -> spec_fn(Seq<u8>) -> Result<(UnsubscribeReasonCode, Seq<u8>), Error> {
    |s: Seq<u8>| p_code(s)
}

/// The reason codes on the wire, one byte each.
pub open spec fn codes_bytes(codes: Seq<UnsubscribeReasonCode>) -> Seq<u8> {
    codes.map_values(|c: UnsubscribeReasonCode| c.spec_code())
}

/// Reads reason codes until the input is used up.
pub(crate) fn read_codes(bytes: &mut Bytes) -> (r: Result<Vec<UnsubscribeReasonCode>, Error>)
    ensures
        match p_many(bytes_view(*old(bytes)), code_parser()) {
            Ok(cs) => r matches Ok(v) && v@ == cs,
            Err(e) => r == Err::<Vec<UnsubscribeReasonCode>, Error>(e),
        },
        r is Ok ==> bytes_view(*final(bytes)) == Seq::<u8>::empty(),
{
    let mut reason_codes: Vec<UnsubscribeReasonCode> = Vec::new();
    let ghost s0 = bytes_view(*bytes);
    proof {
        assert(after_items(reason_codes@, p_many(s0, code_parser())) =~= p_many(s0, code_parser()));
    }
    while bytes_len(bytes) > 0
        invariant
            p_many(s0, code_parser()) == after_items(reason_codes@, p_many(bytes_view(*bytes), code_parser())),
            s0 == bytes_view(*old(bytes)),
        decreases bytes_view(*bytes).len(),
    {
        let ghost cur = bytes_view(*bytes);
        let ghost cs = reason_codes@;
        proof {
            lemma_shrinks(cur);
        }
        let r = read_u8(bytes)?;
        let code = UnsubscribeReasonCode::from_code(r)?;
        reason_codes.push(code);
        proof {
            let rest_res = p_many(bytes_view(*bytes), code_parser());
            assert(after_items(reason_codes@, rest_res) =~= after_items(cs, after_items(seq![code], rest_res))) by {
                if let Ok(ys) = rest_res {
                    assert(reason_codes@ + ys =~= cs + (seq![code] + ys));
                }
            }
        }
    }
    proof {
        assert(after_items(reason_codes@, Ok(Seq::empty())) =~= Ok(reason_codes@));
    }
    Ok(reason_codes)
}

/// Writes the reason codes, one byte each.
pub(crate) fn write_codes(codes: &Vec<UnsubscribeReasonCode>, buffer: &mut BytesMut)
    requires
        room(bytes_mut_view(*old(buffer)), codes@.len() as int),
    ensures
        bytes_mut_view(*final(buffer)) == bytes_mut_view(*old(buffer)) + codes_bytes(codes@),
{
    let ghost start = bytes_mut_view(*buffer);
    let mut i: usize = 0;
    while i < codes.len()
        invariant
            0 <= i <= codes@.len(),
            bytes_mut_view(*buffer) == start + codes_bytes(codes@.take(i as int)),
            room(start, codes@.len() as int),
        decreases codes@.len() - i,
    {
        put_u8(buffer, codes[i].code());
        proof {
            assert(codes_bytes(codes@.take(i + 1)) =~= codes_bytes(codes@.take(i as int)).push(codes@[i as int].spec_code()));
        }
        i += 1;
    }
    proof {
        assert(codes@.take(i as int) =~= codes@);
    }
}

/// A list of reason codes reads back as written.
pub proof fn lemma_codes_roundtrip(cs: Seq<UnsubscribeReasonCode>)
    ensures
        p_many(codes_bytes(cs), code_parser()) == Ok::<Seq<UnsubscribeReasonCode>, Error>(cs),
    decreases cs.len(),
{
    if cs.len() == 0 {
        assert(codes_bytes(cs) =~= Seq::<u8>::empty());
        assert(cs =~= Seq::<UnsubscribeReasonCode>::empty());
    } else {
        let c = cs[0];
        let tail = cs.drop_first();
        lemma_codes_roundtrip(tail);
        assert(codes_bytes(cs) =~= seq![c.spec_code()] + codes_bytes(tail));
        c.lemma_code();
        assert(codes_bytes(cs).drop_first() =~= codes_bytes(tail));
        assert(seq![c] + tail =~= cs);
    }
}

} // verus!
