//! Publish complete

use vstd::prelude::*;

use crate::property::{Properties, PropertyModel};
use crate::{reason, Error};

pub mod v4;
pub mod v5;

verus! {

/// Publish complete
///
/// Response to a PUBREL packet.
/// It is the fourth and final packet of the QoS 2 protocol exchange.
#[derive(Debug, Clone, PartialEq, Eq)]
pub struct PubComp {
    pub pkid: u16,
    pub reason: PubCompReasonCode,
    pub properties: Properties,
}

/// A [PubComp], as the specifications see it.
pub struct PubCompModel {
    pub pkid: u16,
    pub reason: PubCompReasonCode,
    pub properties: Seq<PropertyModel>,
}

impl View for PubComp {
    type V = PubCompModel;

    open spec fn view(&self) -> PubCompModel {
        PubCompModel { pkid: self.pkid, reason: self.reason, properties: self.properties@ }
    }
}

impl PubComp {
    pub fn new(pkid: u16) -> (r: PubComp)
        ensures
            r@ == (PubCompModel { pkid, reason: PubCompReasonCode::Success, properties: Seq::empty() }),
    {
        PubComp { pkid, reason: PubCompReasonCode::Success, properties: Properties::new() }
    }
}

/// Return code in PubComp
#[derive(Debug, Clone, Copy, PartialEq, Eq, Structural)]
pub enum PubCompReasonCode {
    Success,
    PacketIdentifierNotFound,
}

impl PubCompReasonCode {
    /// The values of these codes on the wire are the fixed ones of MQTT: each
    /// is written as the value listed here, each value listed reads back as
    /// its code, and a value that reads as a code is that code's value.
    pub proof fn lemma_wire_codes()
        ensures
            PubCompReasonCode::Success.spec_code() == 0x00,
            PubCompReasonCode::PacketIdentifierNotFound.spec_code() == 0x92,
            PubCompReasonCode::spec_from_code(0x00) == Ok::<PubCompReasonCode, Error>(PubCompReasonCode::Success),
            PubCompReasonCode::spec_from_code(0x92) == Ok::<PubCompReasonCode, Error>(PubCompReasonCode::PacketIdentifierNotFound),
            forall|c: u8| (#[trigger] PubCompReasonCode::spec_from_code(c)) matches Ok(v) ==> v.spec_code() == c,
    {
    }
}

impl PubCompReasonCode {
    /// The value of this code on the wire.
    pub open spec fn spec_code(self) -> u8 {
        match self {
            PubCompReasonCode::Success => reason::SUCCESS,
            PubCompReasonCode::PacketIdentifierNotFound => reason::PACKET_IDENTIFIER_NOT_FOUND,
        }
    }

    /// The code that a value names, or the error for a value that names none.
    pub open spec fn spec_from_code(value: u8) -> Result<PubCompReasonCode, Error> {
        if value == reason::SUCCESS {
            Ok(PubCompReasonCode::Success)
        } else if value == reason::PACKET_IDENTIFIER_NOT_FOUND {
            Ok(PubCompReasonCode::PacketIdentifierNotFound)
        } else {
            Err(Error::InvalidConnectReturnCode(value))
        }
    }

    /// The value of this code on the wire.
    pub fn code(self) -> (c: u8)
        ensures
            c == self.spec_code(),
    {
        match self {
            PubCompReasonCode::Success => reason::SUCCESS,
            PubCompReasonCode::PacketIdentifierNotFound => reason::PACKET_IDENTIFIER_NOT_FOUND,
        }
    }

    /// Decodes a code from its value on the wire.
    pub fn from_code(value: u8) -> (r: Result<PubCompReasonCode, Error>)
        ensures
            r == PubCompReasonCode::spec_from_code(value),
    {
        let code = match value {
            reason::SUCCESS => PubCompReasonCode::Success,
            reason::PACKET_IDENTIFIER_NOT_FOUND => PubCompReasonCode::PacketIdentifierNotFound,
            num => return Err(Error::InvalidConnectReturnCode(num)),
        };
        Ok(code)
    }

    /// Every code's value names that code.
    pub proof fn lemma_code(self)
        ensures
            PubCompReasonCode::spec_from_code(self.spec_code()) == Ok::<PubCompReasonCode, Error>(self),
    {
    }
}

impl TryFrom<u8> for PubCompReasonCode {
    type Error = Error;

    fn try_from(value: u8) -> (r: Result<Self, Self::Error>)
        ensures
            r == PubCompReasonCode::spec_from_code(value),
    {
        PubCompReasonCode::from_code(value)
    }
}

impl vstd::std_specs::convert::TryFromSpecImpl<u8> for PubCompReasonCode {
    open spec fn obeys_try_from_spec() -> bool {
        true
    }

    open spec fn try_from_spec(v: u8) -> Result<Self, Self::Error> {
        PubCompReasonCode::spec_from_code(v)
    }
}

} // verus!
