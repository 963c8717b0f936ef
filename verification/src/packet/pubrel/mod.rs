//! Publish release

use vstd::prelude::*;

use crate::property::{Properties, PropertyModel};
use crate::{reason, Error};

pub mod v4;
pub mod v5;

verus! {

/// Publish release
///
/// Response to a PUBREC packet.
/// It is the third packet of the QoS 2 protocol exchange.
#[derive(Debug, Clone, PartialEq, Eq)]
pub struct PubRel {
    pub pkid: u16,
    pub reason: PubRelReasonCode,
    pub properties: Properties,
}

/// A [PubRel], as the specifications see it.
pub struct PubRelModel {
    pub pkid: u16,
    pub reason: PubRelReasonCode,
    pub properties: Seq<PropertyModel>,
}

impl View for PubRel {
    type V = PubRelModel;

    open spec fn view(&self) -> PubRelModel {
        PubRelModel { pkid: self.pkid, reason: self.reason, properties: self.properties@ }
    }
}

impl PubRel {
    pub fn new(pkid: u16) -> (r: PubRel)
        ensures
            r@ == (PubRelModel { pkid, reason: PubRelReasonCode::Success, properties: Seq::empty() }),
    {
        PubRel { pkid, reason: PubRelReasonCode::Success, properties: Properties::new() }
    }
}

/// Return code in PubRel
#[derive(Debug, Clone, Copy, PartialEq, Eq, Structural)]
pub enum PubRelReasonCode {
    Success,
    PacketIdentifierNotFound,
}

impl PubRelReasonCode {
    /// The values of these codes on the wire are the fixed ones of MQTT: each
    /// is written as the value listed here, each value listed reads back as
    /// its code, and a value that reads as a code is that code's value.
    pub proof fn lemma_wire_codes()
        ensures
            PubRelReasonCode::Success.spec_code() == 0x00,
            PubRelReasonCode::PacketIdentifierNotFound.spec_code() == 0x92,
            PubRelReasonCode::spec_from_code(0x00) == Ok::<PubRelReasonCode, Error>(PubRelReasonCode::Success),
            PubRelReasonCode::spec_from_code(0x92) == Ok::<PubRelReasonCode, Error>(PubRelReasonCode::PacketIdentifierNotFound),
            forall|c: u8| (#[trigger] PubRelReasonCode::spec_from_code(c)) matches Ok(v) ==> v.spec_code() == c,
    {
    }
}

impl PubRelReasonCode {
    /// The value of this code on the wire.
    pub open spec fn spec_code(self) -> u8 {
        match self {
            PubRelReasonCode::Success => reason::SUCCESS,
            PubRelReasonCode::PacketIdentifierNotFound => reason::PACKET_IDENTIFIER_NOT_FOUND,
        }
    }

    /// The code that a value names, or the error for a value that names none.
    pub open spec fn spec_from_code(value: u8) -> Result<PubRelReasonCode, Error> {
        if value == reason::SUCCESS {
            Ok(PubRelReasonCode::Success)
        } else if value == reason::PACKET_IDENTIFIER_NOT_FOUND {
            Ok(PubRelReasonCode::PacketIdentifierNotFound)
        } else {
            Err(Error::InvalidConnectReturnCode(value))
        }
    }

    /// The value of this code on the wire.
    pub fn code(self) -> (c: u8)
        ensures
            c == self.spec_code(),
    {
        match self {
            PubRelReasonCode::Success => reason::SUCCESS,
            PubRelReasonCode::PacketIdentifierNotFound => reason::PACKET_IDENTIFIER_NOT_FOUND,
        }
    }

    /// Decodes a code from its value on the wire.
    pub fn from_code(value: u8) -> (r: Result<PubRelReasonCode, Error>)
        ensures
            r == PubRelReasonCode::spec_from_code(value),
    {
        let code = match value {
            reason::SUCCESS => PubRelReasonCode::Success,
            reason::PACKET_IDENTIFIER_NOT_FOUND => PubRelReasonCode::PacketIdentifierNotFound,
            num => return Err(Error::InvalidConnectReturnCode(num)),
        };
        Ok(code)
    }

    /// Every code's value names that code.
    pub proof fn lemma_code(self)
        ensures
            PubRelReasonCode::spec_from_code(self.spec_code()) == Ok::<PubRelReasonCode, Error>(self),
    {
    }
}

impl TryFrom<u8> for PubRelReasonCode {
    type Error = Error;

    fn try_from(value: u8) -> (r: Result<Self, Self::Error>)
        ensures
            r == PubRelReasonCode::spec_from_code(value),
    {
        PubRelReasonCode::from_code(value)
    }
}

impl vstd::std_specs::convert::TryFromSpecImpl<u8> for PubRelReasonCode {
    open spec fn obeys_try_from_spec() -> bool {
        true
    }

    open spec fn try_from_spec(v: u8) -> Result<Self, Self::Error> {
        PubRelReasonCode::spec_from_code(v)
    }
}

} // verus!
