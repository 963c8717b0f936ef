//! Publish acknowledgement

use vstd::prelude::*;

use crate::property::{Properties, PropertyModel};
use crate::{reason, Error};

pub mod v4;
pub mod v5;

verus! {

/// Publish acknowledgement
///
/// Response to a PUBLISH packet with QoS 1.
#[derive(Debug, Clone, PartialEq, Eq)]
pub struct PubAck {
    pub pkid: u16,
    pub reason: PubAckReasonCode,
    pub properties: Properties,
}

/// A [PubAck], as the specifications see it.
pub struct PubAckModel {
    pub pkid: u16,
    pub reason: PubAckReasonCode,
    pub properties: Seq<PropertyModel>,
}

impl View for PubAck {
    type V = PubAckModel;

    open spec fn view(&self) -> PubAckModel {
        PubAckModel { pkid: self.pkid, reason: self.reason, properties: self.properties@ }
    }
}

impl PubAck {
    pub fn new(pkid: u16) -> (r: PubAck)
        ensures
            r@ == (PubAckModel { pkid, reason: PubAckReasonCode::Success, properties: Seq::empty() }),
    {
        PubAck { pkid, reason: PubAckReasonCode::Success, properties: Properties::new() }
    }
}

/// Return code in puback
#[derive(Debug, Clone, Copy, PartialEq, Eq, Structural)]
pub enum PubAckReasonCode {
    Success,
    NoMatchingSubscribers,
    UnspecifiedError,
    ImplementationSpecificError,
    NotAuthorized,
    TopicNameInvalid,
    PacketIdentifierInUse,
    QuotaExceeded,
    PayloadFormatInvalid,
}

impl PubAckReasonCode {
    /// The values of these codes on the wire are the fixed ones of MQTT: each
    /// is written as the value listed here, each value listed reads back as
    /// its code, and a value that reads as a code is that code's value.
    pub proof fn lemma_wire_codes()
        ensures
            PubAckReasonCode::Success.spec_code() == 0x00,
            PubAckReasonCode::NoMatchingSubscribers.spec_code() == 0x10,
            PubAckReasonCode::UnspecifiedError.spec_code() == 0x80,
            PubAckReasonCode::ImplementationSpecificError.spec_code() == 0x83,
            PubAckReasonCode::NotAuthorized.spec_code() == 0x87,
            PubAckReasonCode::TopicNameInvalid.spec_code() == 0x90,
            PubAckReasonCode::PacketIdentifierInUse.spec_code() == 0x91,
            PubAckReasonCode::QuotaExceeded.spec_code() == 0x97,
            PubAckReasonCode::PayloadFormatInvalid.spec_code() == 0x99,
            PubAckReasonCode::spec_from_code(0x00) == Ok::<PubAckReasonCode, Error>(PubAckReasonCode::Success),
            PubAckReasonCode::spec_from_code(0x10) == Ok::<PubAckReasonCode, Error>(PubAckReasonCode::NoMatchingSubscribers),
            PubAckReasonCode::spec_from_code(0x80) == Ok::<PubAckReasonCode, Error>(PubAckReasonCode::UnspecifiedError),
            PubAckReasonCode::spec_from_code(0x83) == Ok::<PubAckReasonCode, Error>(PubAckReasonCode::ImplementationSpecificError),
            PubAckReasonCode::spec_from_code(0x87) == Ok::<PubAckReasonCode, Error>(PubAckReasonCode::NotAuthorized),
            PubAckReasonCode::spec_from_code(0x90) == Ok::<PubAckReasonCode, Error>(PubAckReasonCode::TopicNameInvalid),
            PubAckReasonCode::spec_from_code(0x91) == Ok::<PubAckReasonCode, Error>(PubAckReasonCode::PacketIdentifierInUse),
            PubAckReasonCode::spec_from_code(0x97) == Ok::<PubAckReasonCode, Error>(PubAckReasonCode::QuotaExceeded),
            PubAckReasonCode::spec_from_code(0x99) == Ok::<PubAckReasonCode, Error>(PubAckReasonCode::PayloadFormatInvalid),
            forall|c: u8| (#[trigger] PubAckReasonCode::spec_from_code(c)) matches Ok(v) ==> v.spec_code() == c,
    {
    }
}

impl PubAckReasonCode {
    /// The value of this code on the wire.
    pub open spec fn spec_code(self) -> u8 {
        match self {
            PubAckReasonCode::Success => reason::SUCCESS,
            PubAckReasonCode::NoMatchingSubscribers => reason::NO_MATCHING_SUBSCRIBERS,
            PubAckReasonCode::UnspecifiedError => reason::UNSPECIFIED_ERROR,
            PubAckReasonCode::ImplementationSpecificError => reason::IMPLEMENTATION_SPECIFIC_ERROR,
            PubAckReasonCode::NotAuthorized => reason::NOT_AUTHORIZED,
            PubAckReasonCode::TopicNameInvalid => reason::TOPIC_NAME_INVALID,
            PubAckReasonCode::PacketIdentifierInUse => reason::PACKET_IDENTIFIER_IN_USE,
            PubAckReasonCode::QuotaExceeded => reason::QUOTA_EXCEEDED,
            PubAckReasonCode::PayloadFormatInvalid => reason::PAYLOAD_FORMAT_INVALID,
        }
    }

    /// The code that a value names, or the error for a value that names none.
    pub open spec fn spec_from_code(value: u8) -> Result<PubAckReasonCode, Error> {
        if value == reason::SUCCESS {
            Ok(PubAckReasonCode::Success)
        } else if value == reason::NO_MATCHING_SUBSCRIBERS {
            Ok(PubAckReasonCode::NoMatchingSubscribers)
        } else if value == reason::UNSPECIFIED_ERROR {
            Ok(PubAckReasonCode::UnspecifiedError)
        } else if value == reason::IMPLEMENTATION_SPECIFIC_ERROR {
            Ok(PubAckReasonCode::ImplementationSpecificError)
        } else if value == reason::NOT_AUTHORIZED {
            Ok(PubAckReasonCode::NotAuthorized)
        } else if value == reason::TOPIC_NAME_INVALID {
            Ok(PubAckReasonCode::TopicNameInvalid)
        } else if value == reason::PACKET_IDENTIFIER_IN_USE {
            Ok(PubAckReasonCode::PacketIdentifierInUse)
        } else if value == reason::QUOTA_EXCEEDED {
            Ok(PubAckReasonCode::QuotaExceeded)
        } else if value == reason::PAYLOAD_FORMAT_INVALID {
            Ok(PubAckReasonCode::PayloadFormatInvalid)
        } else {
            Err(Error::InvalidConnectReturnCode(value))
        }
    }

    /// The value of this code on the wire.
    pub fn code(self) -> (c: u8)
        ensures
            c == self.spec_code(),
    {
        match self {
            PubAckReasonCode::Success => reason::SUCCESS,
            PubAckReasonCode::NoMatchingSubscribers => reason::NO_MATCHING_SUBSCRIBERS,
            PubAckReasonCode::UnspecifiedError => reason::UNSPECIFIED_ERROR,
            PubAckReasonCode::ImplementationSpecificError => reason::IMPLEMENTATION_SPECIFIC_ERROR,
            PubAckReasonCode::NotAuthorized => reason::NOT_AUTHORIZED,
            PubAckReasonCode::TopicNameInvalid => reason::TOPIC_NAME_INVALID,
            PubAckReasonCode::PacketIdentifierInUse => reason::PACKET_IDENTIFIER_IN_USE,
            PubAckReasonCode::QuotaExceeded => reason::QUOTA_EXCEEDED,
            PubAckReasonCode::PayloadFormatInvalid => reason::PAYLOAD_FORMAT_INVALID,
        }
    }

    /// Decodes a code from its value on the wire.
    pub fn from_code(value: u8) -> (r: Result<PubAckReasonCode, Error>)
        ensures
            r == PubAckReasonCode::spec_from_code(value),
    {
        let code = match value {
            reason::SUCCESS => PubAckReasonCode::Success,
            reason::NO_MATCHING_SUBSCRIBERS => PubAckReasonCode::NoMatchingSubscribers,
            reason::UNSPECIFIED_ERROR => PubAckReasonCode::UnspecifiedError,
            reason::IMPLEMENTATION_SPECIFIC_ERROR => PubAckReasonCode::ImplementationSpecificError,
            reason::NOT_AUTHORIZED => PubAckReasonCode::NotAuthorized,
            reason::TOPIC_NAME_INVALID => PubAckReasonCode::TopicNameInvalid,
            reason::PACKET_IDENTIFIER_IN_USE => PubAckReasonCode::PacketIdentifierInUse,
            reason::QUOTA_EXCEEDED => PubAckReasonCode::QuotaExceeded,
            reason::PAYLOAD_FORMAT_INVALID => PubAckReasonCode::PayloadFormatInvalid,
            num => return Err(Error::InvalidConnectReturnCode(num)),
        };
        Ok(code)
    }

    /// Every code's value names that code.
    pub proof fn lemma_code(self)
        ensures
            PubAckReasonCode::spec_from_code(self.spec_code()) == Ok::<PubAckReasonCode, Error>(self),
    {
    }
}

impl TryFrom<u8> for PubAckReasonCode {
    type Error = Error;

    fn try_from(value: u8) -> (r: Result<Self, Self::Error>)
        ensures
            r == PubAckReasonCode::spec_from_code(value),
    {
        PubAckReasonCode::from_code(value)
    }
}

impl vstd::std_specs::convert::TryFromSpecImpl<u8> for PubAckReasonCode {
    open spec fn obeys_try_from_spec() -> bool {
        true
    }

    open spec fn try_from_spec(v: u8) -> Result<Self, Self::Error> {
        PubAckReasonCode::spec_from_code(v)
    }
}

} // verus!
