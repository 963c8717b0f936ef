//! Publish received

use vstd::prelude::*;

use crate::property::{Properties, PropertyModel};
use crate::{reason, Error};

pub mod v4;
pub mod v5;

verus! {

/// Publish received
///
/// Response to a PUBLISH packet with QoS 2.
/// It is the second packet of the QoS 2 protocol exchange.
#[derive(Debug, Clone, PartialEq, Eq)]
pub struct PubRec {
    pub pkid: u16,
    pub reason: PubRecReasonCode,
    pub properties: Properties,
}

/// A [PubRec], as the specifications see it.
pub struct PubRecModel {
    pub pkid: u16,
    pub reason: PubRecReasonCode,
    pub properties: Seq<PropertyModel>,
}

impl View for PubRec {
    type V = PubRecModel;

    open spec fn view(&self) -> PubRecModel {
        PubRecModel { pkid: self.pkid, reason: self.reason, properties: self.properties@ }
    }
}

impl PubRec {
    pub fn new(pkid: u16) -> (r: PubRec)
        ensures
            r@ == (PubRecModel { pkid, reason: PubRecReasonCode::Success, properties: Seq::empty() }),
    {
        PubRec { pkid, reason: PubRecReasonCode::Success, properties: Properties::new() }
    }
}

/// Return code in PubRec
#[derive(Debug, Clone, Copy, PartialEq, Eq, Structural)]
pub enum PubRecReasonCode {
    Success,
    NoMatchingSubscribers,
    UnspecifiedError,
    ImplementationSpecificError,
    NotAuthorized,
    TopicNameInvalid,
    PacketIdentifierInUse,
    QuotaExceeded,
    PayloadFormatInvalid,
}

impl PubRecReasonCode {
    /// The values of these codes on the wire are the fixed ones of MQTT: each
    /// is written as the value listed here, each value listed reads back as
    /// its code, and a value that reads as a code is that code's value.
    pub proof fn lemma_wire_codes()
        ensures
            PubRecReasonCode::Success.spec_code() == 0x00,
            PubRecReasonCode::NoMatchingSubscribers.spec_code() == 0x10,
            PubRecReasonCode::UnspecifiedError.spec_code() == 0x80,
            PubRecReasonCode::ImplementationSpecificError.spec_code() == 0x83,
            PubRecReasonCode::NotAuthorized.spec_code() == 0x87,
            PubRecReasonCode::TopicNameInvalid.spec_code() == 0x90,
            PubRecReasonCode::PacketIdentifierInUse.spec_code() == 0x91,
            PubRecReasonCode::QuotaExceeded.spec_code() == 0x97,
            PubRecReasonCode::PayloadFormatInvalid.spec_code() == 0x99,
            PubRecReasonCode::spec_from_code(0x00) == Ok::<PubRecReasonCode, Error>(PubRecReasonCode::Success),
            PubRecReasonCode::spec_from_code(0x10) == Ok::<PubRecReasonCode, Error>(PubRecReasonCode::NoMatchingSubscribers),
            PubRecReasonCode::spec_from_code(0x80) == Ok::<PubRecReasonCode, Error>(PubRecReasonCode::UnspecifiedError),
            PubRecReasonCode::spec_from_code(0x83) == Ok::<PubRecReasonCode, Error>(PubRecReasonCode::ImplementationSpecificError),
            PubRecReasonCode::spec_from_code(0x87) == Ok::<PubRecReasonCode, Error>(PubRecReasonCode::NotAuthorized),
            PubRecReasonCode::spec_from_code(0x90) == Ok::<PubRecReasonCode, Error>(PubRecReasonCode::TopicNameInvalid),
            PubRecReasonCode::spec_from_code(0x91) == Ok::<PubRecReasonCode, Error>(PubRecReasonCode::PacketIdentifierInUse),
            PubRecReasonCode::spec_from_code(0x97) == Ok::<PubRecReasonCode, Error>(PubRecReasonCode::QuotaExceeded),
            PubRecReasonCode::spec_from_code(0x99) == Ok::<PubRecReasonCode, Error>(PubRecReasonCode::PayloadFormatInvalid),
            forall|c: u8| (#[trigger] PubRecReasonCode::spec_from_code(c)) matches Ok(v) ==> v.spec_code() == c,
    {
    }
}

impl PubRecReasonCode {
    /// The value of this code on the wire.
    pub open spec fn spec_code(self) -> u8 {
        match self {
            PubRecReasonCode::Success => reason::SUCCESS,
            PubRecReasonCode::NoMatchingSubscribers => reason::NO_MATCHING_SUBSCRIBERS,
            PubRecReasonCode::UnspecifiedError => reason::UNSPECIFIED_ERROR,
            PubRecReasonCode::ImplementationSpecificError => reason::IMPLEMENTATION_SPECIFIC_ERROR,
            PubRecReasonCode::NotAuthorized => reason::NOT_AUTHORIZED,
            PubRecReasonCode::TopicNameInvalid => reason::TOPIC_NAME_INVALID,
            PubRecReasonCode::PacketIdentifierInUse => reason::PACKET_IDENTIFIER_IN_USE,
            PubRecReasonCode::QuotaExceeded => reason::QUOTA_EXCEEDED,
            PubRecReasonCode::PayloadFormatInvalid => reason::PAYLOAD_FORMAT_INVALID,
        }
    }

    /// The code that a value names, or the error for a value that names none.
    pub open spec fn spec_from_code(value: u8) -> Result<PubRecReasonCode, Error> {
        if value == reason::SUCCESS {
            Ok(PubRecReasonCode::Success)
        } else if value == reason::NO_MATCHING_SUBSCRIBERS {
            Ok(PubRecReasonCode::NoMatchingSubscribers)
        } else if value == reason::UNSPECIFIED_ERROR {
            Ok(PubRecReasonCode::UnspecifiedError)
        } else if value == reason::IMPLEMENTATION_SPECIFIC_ERROR {
            Ok(PubRecReasonCode::ImplementationSpecificError)
        } else if value == reason::NOT_AUTHORIZED {
            Ok(PubRecReasonCode::NotAuthorized)
        } else if value == reason::TOPIC_NAME_INVALID {
            Ok(PubRecReasonCode::TopicNameInvalid)
        } else if value == reason::PACKET_IDENTIFIER_IN_USE {
            Ok(PubRecReasonCode::PacketIdentifierInUse)
        } else if value == reason::QUOTA_EXCEEDED {
            Ok(PubRecReasonCode::QuotaExceeded)
        } else if value == reason::PAYLOAD_FORMAT_INVALID {
            Ok(PubRecReasonCode::PayloadFormatInvalid)
        } else {
            Err(Error::InvalidConnectReturnCode(value))
        }
    }

    /// The value of this code on the wire.
    pub fn code(self) -> (c: u8)
        ensures
            c == self.spec_code(),
    {
        match self {
            PubRecReasonCode::Success => reason::SUCCESS,
            PubRecReasonCode::NoMatchingSubscribers => reason::NO_MATCHING_SUBSCRIBERS,
            PubRecReasonCode::UnspecifiedError => reason::UNSPECIFIED_ERROR,
            PubRecReasonCode::ImplementationSpecificError => reason::IMPLEMENTATION_SPECIFIC_ERROR,
            PubRecReasonCode::NotAuthorized => reason::NOT_AUTHORIZED,
            PubRecReasonCode::TopicNameInvalid => reason::TOPIC_NAME_INVALID,
            PubRecReasonCode::PacketIdentifierInUse => reason::PACKET_IDENTIFIER_IN_USE,
            PubRecReasonCode::QuotaExceeded => reason::QUOTA_EXCEEDED,
            PubRecReasonCode::PayloadFormatInvalid => reason::PAYLOAD_FORMAT_INVALID,
        }
    }

    /// Decodes a code from its value on the wire.
    pub fn from_code(value: u8) -> (r: Result<PubRecReasonCode, Error>)
        ensures
            r == PubRecReasonCode::spec_from_code(value),
    {
        let code = match value {
            reason::SUCCESS => PubRecReasonCode::Success,
            reason::NO_MATCHING_SUBSCRIBERS => PubRecReasonCode::NoMatchingSubscribers,
            reason::UNSPECIFIED_ERROR => PubRecReasonCode::UnspecifiedError,
            reason::IMPLEMENTATION_SPECIFIC_ERROR => PubRecReasonCode::ImplementationSpecificError,
            reason::NOT_AUTHORIZED => PubRecReasonCode::NotAuthorized,
            reason::TOPIC_NAME_INVALID => PubRecReasonCode::TopicNameInvalid,
            reason::PACKET_IDENTIFIER_IN_USE => PubRecReasonCode::PacketIdentifierInUse,
            reason::QUOTA_EXCEEDED => PubRecReasonCode::QuotaExceeded,
            reason::PAYLOAD_FORMAT_INVALID => PubRecReasonCode::PayloadFormatInvalid,
            num => return Err(Error::InvalidConnectReturnCode(num)),
        };
        Ok(code)
    }

    /// Every code's value names that code.
    pub proof fn lemma_code(self)
        ensures
            PubRecReasonCode::spec_from_code(self.spec_code()) == Ok::<PubRecReasonCode, Error>(self),
    {
    }
}

impl TryFrom<u8> for PubRecReasonCode {
    type Error = Error;

    fn try_from(value: u8) -> (r: Result<Self, Self::Error>)
        ensures
            r == PubRecReasonCode::spec_from_code(value),
    {
        PubRecReasonCode::from_code(value)
    }
}

impl vstd::std_specs::convert::TryFromSpecImpl<u8> for PubRecReasonCode {
    open spec fn obeys_try_from_spec() -> bool {
        true
    }

    open spec fn try_from_spec(v: u8) -> Result<Self, Self::Error> {
        PubRecReasonCode::spec_from_code(v)
    }
}

} // verus!
