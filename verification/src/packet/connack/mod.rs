//! Connect acknowledgment

use vstd::prelude::*;

use crate::property::{Properties, PropertyModel};
use crate::{reason, Error};

pub mod v4;
pub mod v5;

verus! {

/// Connect acknowledgment
///
/// Packet sent by the server in response to a CONNECT packet received from a client.
#[derive(Debug, Clone, PartialEq, Eq)]
pub struct ConnAck {
    pub session_present: bool,
    pub code: ConnectReasonCode,
    pub properties: Properties,
}

/// A [ConnAck], as the specifications see it.
pub struct ConnAckModel {
    pub session_present: bool,
    pub code: ConnectReasonCode,
    pub properties: Seq<PropertyModel>,
}

impl View for ConnAck {
    type V = ConnAckModel;

    open spec fn view(&self) -> ConnAckModel {
        ConnAckModel { session_present: self.session_present, code: self.code, properties: self.properties@ }
    }
}

impl ConnAck {
    /// Create a new ConnAck packet
    pub fn new(session_present: bool) -> (r: Self)
        ensures
            r@ == (ConnAckModel { session_present, code: ConnectReasonCode::Success, properties: Seq::empty() }),
    {
        Self { session_present, code: ConnectReasonCode::Success, properties: Properties::new() }
    }

    /// Create a new ConnAck packet from a [ConnectReturnCode]
    pub fn from_return_code(code: ConnectReturnCode, session_present: bool) -> (r: Self)
        ensures
            r@ == (ConnAckModel { session_present, code: code.spec_reason(), properties: Seq::empty() }),
    {
        Self { session_present, code: code.reason(), properties: Properties::new() }
    }
}

/// MQTT 5.0 reason codes
/// 
/// A subset of these codes are used in MQTT 3.1.1 as well.
/// This means a [ConnectReturnCode] can always be converted to a [ConnectReasonCode],
/// but the conversion in the other direction is fallible.
#[derive(Debug, Clone, Copy, PartialEq, Eq, Structural)]
pub enum ConnectReasonCode {
    Success,
    UnspecifiedError,
    MalformedPacket,
    ProtocolError,
    ImplementationSpecificError,
    UnsupportedProtocolVersion,
    ClientIdentifierNotValid,
    BadUserNamePassword,
    NotAuthorized,
    ServerUnavailable,
    ServerBusy,
    Banned,
    BadAuthenticationMethod,
    TopicNameInvalid,
    PacketTooLarge,
    QuotaExceeded,
    PayloadFormatInvalid,
    RetainNotSupported,
    QoSNotSupported,
    UseAnotherServer,
    ServerMoved,
    ConnectionRateExceeded,
}

impl ConnectReasonCode {
    /// The values of these codes on the wire are the fixed ones of MQTT: each
    /// is written as the value listed here, each value listed reads back as
    /// its code, and a value that reads as a code is that code's value.
    pub proof fn lemma_wire_codes()
        ensures
            ConnectReasonCode::Success.spec_code() == 0x00,
            ConnectReasonCode::UnspecifiedError.spec_code() == 0x80,
            ConnectReasonCode::MalformedPacket.spec_code() == 0x81,
            ConnectReasonCode::ProtocolError.spec_code() == 0x82,
            ConnectReasonCode::ImplementationSpecificError.spec_code() == 0x83,
            ConnectReasonCode::UnsupportedProtocolVersion.spec_code() == 0x84,
            ConnectReasonCode::ClientIdentifierNotValid.spec_code() == 0x85,
            ConnectReasonCode::BadUserNamePassword.spec_code() == 0x86,
            ConnectReasonCode::NotAuthorized.spec_code() == 0x87,
            ConnectReasonCode::ServerUnavailable.spec_code() == 0x88,
            ConnectReasonCode::ServerBusy.spec_code() == 0x89,
            ConnectReasonCode::Banned.spec_code() == 0x8A,
            ConnectReasonCode::BadAuthenticationMethod.spec_code() == 0x8C,
            ConnectReasonCode::TopicNameInvalid.spec_code() == 0x90,
            ConnectReasonCode::PacketTooLarge.spec_code() == 0x95,
            ConnectReasonCode::QuotaExceeded.spec_code() == 0x97,
            ConnectReasonCode::PayloadFormatInvalid.spec_code() == 0x99,
            ConnectReasonCode::RetainNotSupported.spec_code() == 0x9A,
            ConnectReasonCode::QoSNotSupported.spec_code() == 0x9B,
            ConnectReasonCode::UseAnotherServer.spec_code() == 0x9C,
            ConnectReasonCode::ServerMoved.spec_code() == 0x9D,
            ConnectReasonCode::ConnectionRateExceeded.spec_code() == 0x9F,
            ConnectReasonCode::spec_from_code(0x00) == Ok::<ConnectReasonCode, Error>(ConnectReasonCode::Success),
            ConnectReasonCode::spec_from_code(0x80) == Ok::<ConnectReasonCode, Error>(ConnectReasonCode::UnspecifiedError),
            ConnectReasonCode::spec_from_code(0x81) == Ok::<ConnectReasonCode, Error>(ConnectReasonCode::MalformedPacket),
            ConnectReasonCode::spec_from_code(0x82) == Ok::<ConnectReasonCode, Error>(ConnectReasonCode::ProtocolError),
            ConnectReasonCode::spec_from_code(0x83) == Ok::<ConnectReasonCode, Error>(ConnectReasonCode::ImplementationSpecificError),
            ConnectReasonCode::spec_from_code(0x84) == Ok::<ConnectReasonCode, Error>(ConnectReasonCode::UnsupportedProtocolVersion),
            ConnectReasonCode::spec_from_code(0x85) == Ok::<ConnectReasonCode, Error>(ConnectReasonCode::ClientIdentifierNotValid),
            ConnectReasonCode::spec_from_code(0x86) == Ok::<ConnectReasonCode, Error>(ConnectReasonCode::BadUserNamePassword),
            ConnectReasonCode::spec_from_code(0x87) == Ok::<ConnectReasonCode, Error>(ConnectReasonCode::NotAuthorized),
            ConnectReasonCode::spec_from_code(0x88) == Ok::<ConnectReasonCode, Error>(ConnectReasonCode::ServerUnavailable),
            ConnectReasonCode::spec_from_code(0x89) == Ok::<ConnectReasonCode, Error>(ConnectReasonCode::ServerBusy),
            ConnectReasonCode::spec_from_code(0x8A) == Ok::<ConnectReasonCode, Error>(ConnectReasonCode::Banned),
            ConnectReasonCode::spec_from_code(0x8C) == Ok::<ConnectReasonCode, Error>(ConnectReasonCode::BadAuthenticationMethod),
            ConnectReasonCode::spec_from_code(0x90) == Ok::<ConnectReasonCode, Error>(ConnectReasonCode::TopicNameInvalid),
            ConnectReasonCode::spec_from_code(0x95) == Ok::<ConnectReasonCode, Error>(ConnectReasonCode::PacketTooLarge),
            ConnectReasonCode::spec_from_code(0x97) == Ok::<ConnectReasonCode, Error>(ConnectReasonCode::QuotaExceeded),
            ConnectReasonCode::spec_from_code(0x99) == Ok::<ConnectReasonCode, Error>(ConnectReasonCode::PayloadFormatInvalid),
            ConnectReasonCode::spec_from_code(0x9A) == Ok::<ConnectReasonCode, Error>(ConnectReasonCode::RetainNotSupported),
            ConnectReasonCode::spec_from_code(0x9B) == Ok::<ConnectReasonCode, Error>(ConnectReasonCode::QoSNotSupported),
            ConnectReasonCode::spec_from_code(0x9C) == Ok::<ConnectReasonCode, Error>(ConnectReasonCode::UseAnotherServer),
            ConnectReasonCode::spec_from_code(0x9D) == Ok::<ConnectReasonCode, Error>(ConnectReasonCode::ServerMoved),
            ConnectReasonCode::spec_from_code(0x9F) == Ok::<ConnectReasonCode, Error>(ConnectReasonCode::ConnectionRateExceeded),
            forall|c: u8| (#[trigger] ConnectReasonCode::spec_from_code(c)) matches Ok(v) ==> v.spec_code() == c,
    {
    }
}

impl ConnectReasonCode {
    /// The value of this code on the wire.
    pub open spec fn spec_code(self) -> u8 {
        match self {
            ConnectReasonCode::Success => reason::SUCCESS,
            ConnectReasonCode::UnspecifiedError => reason::UNSPECIFIED_ERROR,
            ConnectReasonCode::MalformedPacket => reason::MALFORMED_PACKET,
            ConnectReasonCode::ProtocolError => reason::PROTOCOL_ERROR,
            ConnectReasonCode::ImplementationSpecificError => reason::IMPLEMENTATION_SPECIFIC_ERROR,
            ConnectReasonCode::UnsupportedProtocolVersion => reason::UNSUPPORTED_PROTOCOL_VERSION,
            ConnectReasonCode::ClientIdentifierNotValid => reason::CLIENT_IDENTIFIER_NOT_VALID,
            ConnectReasonCode::BadUserNamePassword => reason::BAD_USER_NAME_OR_PASSWORD,
            ConnectReasonCode::NotAuthorized => reason::NOT_AUTHORIZED,
            ConnectReasonCode::ServerUnavailable => reason::SERVER_UNAVAILABLE,
            ConnectReasonCode::ServerBusy => reason::SERVER_BUSY,
            ConnectReasonCode::Banned => reason::BANNED,
            ConnectReasonCode::BadAuthenticationMethod => reason::BAD_AUTHENTICATION_METHOD,
            ConnectReasonCode::TopicNameInvalid => reason::TOPIC_NAME_INVALID,
            ConnectReasonCode::PacketTooLarge => reason::PACKET_TOO_LARGE,
            ConnectReasonCode::QuotaExceeded => reason::QUOTA_EXCEEDED,
            ConnectReasonCode::PayloadFormatInvalid => reason::PAYLOAD_FORMAT_INVALID,
            ConnectReasonCode::RetainNotSupported => reason::RETAIN_NOT_SUPPORTED,
            ConnectReasonCode::QoSNotSupported => reason::QOS_NOT_SUPPORTED,
            ConnectReasonCode::UseAnotherServer => reason::USE_ANOTHER_SERVER,
            ConnectReasonCode::ServerMoved => reason::SERVER_MOVED,
            ConnectReasonCode::ConnectionRateExceeded => reason::CONNECTION_RATE_EXCEEDED,
        }
    }

    /// The code that a value names, or the error for a value that names none.
    pub open spec fn spec_from_code(value: u8) -> Result<ConnectReasonCode, Error> {
        if value == reason::SUCCESS {
            Ok(ConnectReasonCode::Success)
        } else if value == reason::UNSPECIFIED_ERROR {
            Ok(ConnectReasonCode::UnspecifiedError)
        } else if value == reason::MALFORMED_PACKET {
            Ok(ConnectReasonCode::MalformedPacket)
        } else if value == reason::PROTOCOL_ERROR {
            Ok(ConnectReasonCode::ProtocolError)
        } else if value == reason::IMPLEMENTATION_SPECIFIC_ERROR {
            Ok(ConnectReasonCode::ImplementationSpecificError)
        } else if value == reason::UNSUPPORTED_PROTOCOL_VERSION {
            Ok(ConnectReasonCode::UnsupportedProtocolVersion)
        } else if value == reason::CLIENT_IDENTIFIER_NOT_VALID {
            Ok(ConnectReasonCode::ClientIdentifierNotValid)
        } else if value == reason::BAD_USER_NAME_OR_PASSWORD {
            Ok(ConnectReasonCode::BadUserNamePassword)
        } else if value == reason::NOT_AUTHORIZED {
            Ok(ConnectReasonCode::NotAuthorized)
        } else if value == reason::SERVER_UNAVAILABLE {
            Ok(ConnectReasonCode::ServerUnavailable)
        } else if value == reason::SERVER_BUSY {
            Ok(ConnectReasonCode::ServerBusy)
        } else if value == reason::BANNED {
            Ok(ConnectReasonCode::Banned)
        } else if value == reason::BAD_AUTHENTICATION_METHOD {
            Ok(ConnectReasonCode::BadAuthenticationMethod)
        } else if value == reason::TOPIC_NAME_INVALID {
            Ok(ConnectReasonCode::TopicNameInvalid)
        } else if value == reason::PACKET_TOO_LARGE {
            Ok(ConnectReasonCode::PacketTooLarge)
        } else if value == reason::QUOTA_EXCEEDED {
            Ok(ConnectReasonCode::QuotaExceeded)
        } else if value == reason::PAYLOAD_FORMAT_INVALID {
            Ok(ConnectReasonCode::PayloadFormatInvalid)
        } else if value == reason::RETAIN_NOT_SUPPORTED {
            Ok(ConnectReasonCode::RetainNotSupported)
        } else if value == reason::QOS_NOT_SUPPORTED {
            Ok(ConnectReasonCode::QoSNotSupported)
        } else if value == reason::USE_ANOTHER_SERVER {
            Ok(ConnectReasonCode::UseAnotherServer)
        } else if value == reason::SERVER_MOVED {
            Ok(ConnectReasonCode::ServerMoved)
        } else if value == reason::CONNECTION_RATE_EXCEEDED {
            Ok(ConnectReasonCode::ConnectionRateExceeded)
        } else {
            Err(Error::InvalidConnectReturnCode(value))
        }
    }

    /// The value of this code on the wire.
    pub fn code(self) -> (c: u8)
        ensures
            c == self.spec_code(),
    {
        match self {
            ConnectReasonCode::Success => reason::SUCCESS,
            ConnectReasonCode::UnspecifiedError => reason::UNSPECIFIED_ERROR,
            ConnectReasonCode::MalformedPacket => reason::MALFORMED_PACKET,
            ConnectReasonCode::ProtocolError => reason::PROTOCOL_ERROR,
            ConnectReasonCode::ImplementationSpecificError => reason::IMPLEMENTATION_SPECIFIC_ERROR,
            ConnectReasonCode::UnsupportedProtocolVersion => reason::UNSUPPORTED_PROTOCOL_VERSION,
            ConnectReasonCode::ClientIdentifierNotValid => reason::CLIENT_IDENTIFIER_NOT_VALID,
            ConnectReasonCode::BadUserNamePassword => reason::BAD_USER_NAME_OR_PASSWORD,
            ConnectReasonCode::NotAuthorized => reason::NOT_AUTHORIZED,
            ConnectReasonCode::ServerUnavailable => reason::SERVER_UNAVAILABLE,
            ConnectReasonCode::ServerBusy => reason::SERVER_BUSY,
            ConnectReasonCode::Banned => reason::BANNED,
            ConnectReasonCode::BadAuthenticationMethod => reason::BAD_AUTHENTICATION_METHOD,
            ConnectReasonCode::TopicNameInvalid => reason::TOPIC_NAME_INVALID,
            ConnectReasonCode::PacketTooLarge => reason::PACKET_TOO_LARGE,
            ConnectReasonCode::QuotaExceeded => reason::QUOTA_EXCEEDED,
            ConnectReasonCode::PayloadFormatInvalid => reason::PAYLOAD_FORMAT_INVALID,
            ConnectReasonCode::RetainNotSupported => reason::RETAIN_NOT_SUPPORTED,
            ConnectReasonCode::QoSNotSupported => reason::QOS_NOT_SUPPORTED,
            ConnectReasonCode::UseAnotherServer => reason::USE_ANOTHER_SERVER,
            ConnectReasonCode::ServerMoved => reason::SERVER_MOVED,
            ConnectReasonCode::ConnectionRateExceeded => reason::CONNECTION_RATE_EXCEEDED,
        }
    }

    /// Decodes a code from its value on the wire.
    pub fn from_code(value: u8) -> (r: Result<ConnectReasonCode, Error>)
        ensures
            r == ConnectReasonCode::spec_from_code(value),
    {
        let code = match value {
            reason::SUCCESS => ConnectReasonCode::Success,
            reason::UNSPECIFIED_ERROR => ConnectReasonCode::UnspecifiedError,
            reason::MALFORMED_PACKET => ConnectReasonCode::MalformedPacket,
            reason::PROTOCOL_ERROR => ConnectReasonCode::ProtocolError,
            reason::IMPLEMENTATION_SPECIFIC_ERROR => ConnectReasonCode::ImplementationSpecificError,
            reason::UNSUPPORTED_PROTOCOL_VERSION => ConnectReasonCode::UnsupportedProtocolVersion,
            reason::CLIENT_IDENTIFIER_NOT_VALID => ConnectReasonCode::ClientIdentifierNotValid,
            reason::BAD_USER_NAME_OR_PASSWORD => ConnectReasonCode::BadUserNamePassword,
            reason::NOT_AUTHORIZED => ConnectReasonCode::NotAuthorized,
            reason::SERVER_UNAVAILABLE => ConnectReasonCode::ServerUnavailable,
            reason::SERVER_BUSY => ConnectReasonCode::ServerBusy,
            reason::BANNED => ConnectReasonCode::Banned,
            reason::BAD_AUTHENTICATION_METHOD => ConnectReasonCode::BadAuthenticationMethod,
            reason::TOPIC_NAME_INVALID => ConnectReasonCode::TopicNameInvalid,
            reason::PACKET_TOO_LARGE => ConnectReasonCode::PacketTooLarge,
            reason::QUOTA_EXCEEDED => ConnectReasonCode::QuotaExceeded,
            reason::PAYLOAD_FORMAT_INVALID => ConnectReasonCode::PayloadFormatInvalid,
            reason::RETAIN_NOT_SUPPORTED => ConnectReasonCode::RetainNotSupported,
            reason::QOS_NOT_SUPPORTED => ConnectReasonCode::QoSNotSupported,
            reason::USE_ANOTHER_SERVER => ConnectReasonCode::UseAnotherServer,
            reason::SERVER_MOVED => ConnectReasonCode::ServerMoved,
            reason::CONNECTION_RATE_EXCEEDED => ConnectReasonCode::ConnectionRateExceeded,
            num => return Err(Error::InvalidConnectReturnCode(num)),
        };
        Ok(code)
    }

    /// Every code's value names that code.
    pub proof fn lemma_code(self)
        ensures
            ConnectReasonCode::spec_from_code(self.spec_code()) == Ok::<ConnectReasonCode, Error>(self),
    {
    }
}

impl TryFrom<u8> for ConnectReasonCode {
    type Error = Error;

    fn try_from(value: u8) -> (r: Result<Self, Self::Error>)
        ensures
            r == ConnectReasonCode::spec_from_code(value),
    {
        ConnectReasonCode::from_code(value)
    }
}

impl vstd::std_specs::convert::TryFromSpecImpl<u8> for ConnectReasonCode {
    open spec fn obeys_try_from_spec() -> bool {
        true
    }

    open spec fn try_from_spec(v: u8) -> Result<Self, Self::Error> {
        ConnectReasonCode::spec_from_code(v)
    }
}

/// MQTT 3.1.1 return codes
#[derive(Debug, Clone, Copy, PartialEq, Eq, Structural)]
pub enum ConnectReturnCode {
    Success,
    RefusedProtocolVersion,
    BadClientId,
    ServiceUnavailable,
    BadUserNamePassword,
    NotAuthorized,
}

impl ConnectReturnCode {
    /// The return codes of MQTT 3.1.1 on the wire are its fixed values: each
    /// is written as the value listed here, each value listed reads back as
    /// its code, and a value that reads as a code is that code's value.
    pub proof fn lemma_wire_codes()
        ensures
            ConnectReturnCode::Success.spec_code() == 0x00,
            ConnectReturnCode::RefusedProtocolVersion.spec_code() == 0x01,
            ConnectReturnCode::BadClientId.spec_code() == 0x02,
            ConnectReturnCode::ServiceUnavailable.spec_code() == 0x03,
            ConnectReturnCode::BadUserNamePassword.spec_code() == 0x04,
            ConnectReturnCode::NotAuthorized.spec_code() == 0x05,
            ConnectReturnCode::spec_from_code(0x00) == Ok::<ConnectReturnCode, Error>(ConnectReturnCode::Success),
            ConnectReturnCode::spec_from_code(0x01) == Ok::<ConnectReturnCode, Error>(ConnectReturnCode::RefusedProtocolVersion),
            ConnectReturnCode::spec_from_code(0x02) == Ok::<ConnectReturnCode, Error>(ConnectReturnCode::BadClientId),
            ConnectReturnCode::spec_from_code(0x03) == Ok::<ConnectReturnCode, Error>(ConnectReturnCode::ServiceUnavailable),
            ConnectReturnCode::spec_from_code(0x04) == Ok::<ConnectReturnCode, Error>(ConnectReturnCode::BadUserNamePassword),
            ConnectReturnCode::spec_from_code(0x05) == Ok::<ConnectReturnCode, Error>(ConnectReturnCode::NotAuthorized),
            forall|c: u8| (#[trigger] ConnectReturnCode::spec_from_code(c)) matches Ok(v) ==> v.spec_code() == c,
    {
    }
}

impl ConnectReturnCode {
    /// The value of this code on the wire.
    pub open spec fn spec_code(self) -> u8 {
        match self {
            ConnectReturnCode::Success => 0,
            ConnectReturnCode::RefusedProtocolVersion => 1,
            ConnectReturnCode::BadClientId => 2,
            ConnectReturnCode::ServiceUnavailable => 3,
            ConnectReturnCode::BadUserNamePassword => 4,
            ConnectReturnCode::NotAuthorized => 5,
        }
    }

    /// The code that a value names, or the error for a value that names none.
    pub open spec fn spec_from_code(value: u8) -> Result<ConnectReturnCode, Error> {
        if value == 0 {
            Ok(ConnectReturnCode::Success)
        } else if value == 1 {
            Ok(ConnectReturnCode::RefusedProtocolVersion)
        } else if value == 2 {
            Ok(ConnectReturnCode::BadClientId)
        } else if value == 3 {
            Ok(ConnectReturnCode::ServiceUnavailable)
        } else if value == 4 {
            Ok(ConnectReturnCode::BadUserNamePassword)
        } else if value == 5 {
            Ok(ConnectReturnCode::NotAuthorized)
        } else {
            Err(Error::InvalidConnectReturnCode(value))
        }
    }

    /// The value of this code on the wire.
    pub fn code(self) -> (c: u8)
        ensures
            c == self.spec_code(),
    {
        match self {
            ConnectReturnCode::Success => 0,
            ConnectReturnCode::RefusedProtocolVersion => 1,
            ConnectReturnCode::BadClientId => 2,
            ConnectReturnCode::ServiceUnavailable => 3,
            ConnectReturnCode::BadUserNamePassword => 4,
            ConnectReturnCode::NotAuthorized => 5,
        }
    }

    /// Decodes a code from its value on the wire.
    pub fn from_code(value: u8) -> (r: Result<ConnectReturnCode, Error>)
        ensures
            r == ConnectReturnCode::spec_from_code(value),
    {
        let code = match value {
            0 => ConnectReturnCode::Success,
            1 => ConnectReturnCode::RefusedProtocolVersion,
            2 => ConnectReturnCode::BadClientId,
            3 => ConnectReturnCode::ServiceUnavailable,
            4 => ConnectReturnCode::BadUserNamePassword,
            5 => ConnectReturnCode::NotAuthorized,
            num => return Err(Error::InvalidConnectReturnCode(num)),
        };
        Ok(code)
    }

    /// Every code's value names that code.
    pub proof fn lemma_code(self)
        ensures
            ConnectReturnCode::spec_from_code(self.spec_code()) == Ok::<ConnectReturnCode, Error>(self),
    {
    }
}

impl TryFrom<u8> for ConnectReturnCode {
    type Error = Error;

    fn try_from(value: u8) -> (r: Result<Self, Self::Error>)
        ensures
            r == ConnectReturnCode::spec_from_code(value),
    {
        ConnectReturnCode::from_code(value)
    }
}

impl vstd::std_specs::convert::TryFromSpecImpl<u8> for ConnectReturnCode {
    open spec fn obeys_try_from_spec() -> bool {
        true
    }

    open spec fn try_from_spec(v: u8) -> Result<Self, Self::Error> {
        ConnectReturnCode::spec_from_code(v)
    }
}

impl ConnectReturnCode {
    /// The MQTT 5.0 reason code that this return code stands for.
    pub open spec fn spec_reason(self) -> ConnectReasonCode {
        match self {
            ConnectReturnCode::Success => ConnectReasonCode::Success,
            ConnectReturnCode::RefusedProtocolVersion => ConnectReasonCode::UnsupportedProtocolVersion,
            ConnectReturnCode::BadClientId => ConnectReasonCode::ClientIdentifierNotValid,
            ConnectReturnCode::ServiceUnavailable => ConnectReasonCode::ServerUnavailable,
            ConnectReturnCode::BadUserNamePassword => ConnectReasonCode::BadUserNamePassword,
            ConnectReturnCode::NotAuthorized => ConnectReasonCode::NotAuthorized,
        }
    }

    /// The return code that a reason code stands for in MQTT 3.1.1, or the
    /// error for a reason code that MQTT 3.1.1 does not have.
    pub open spec fn spec_from_reason(value: ConnectReasonCode) -> Result<ConnectReturnCode, Error> {
        match value {
            ConnectReasonCode::Success => Ok(ConnectReturnCode::Success),
            ConnectReasonCode::UnsupportedProtocolVersion => Ok(ConnectReturnCode::RefusedProtocolVersion),
            ConnectReasonCode::ClientIdentifierNotValid => Ok(ConnectReturnCode::BadClientId),
            ConnectReasonCode::ServerUnavailable => Ok(ConnectReturnCode::ServiceUnavailable),
            ConnectReasonCode::BadUserNamePassword => Ok(ConnectReturnCode::BadUserNamePassword),
            ConnectReasonCode::NotAuthorized => Ok(ConnectReturnCode::NotAuthorized),
            _ => Err(Error::InvalidConnectReturnCode(value.spec_code())),
        }
    }

    /// The MQTT 5.0 reason code that this return code stands for.
    pub fn reason(self) -> (r: ConnectReasonCode)
        ensures
            r == self.spec_reason(),
    {
        match self {
            ConnectReturnCode::Success => ConnectReasonCode::Success,
            ConnectReturnCode::RefusedProtocolVersion => ConnectReasonCode::UnsupportedProtocolVersion,
            ConnectReturnCode::BadClientId => ConnectReasonCode::ClientIdentifierNotValid,
            ConnectReturnCode::ServiceUnavailable => ConnectReasonCode::ServerUnavailable,
            ConnectReturnCode::BadUserNamePassword => ConnectReasonCode::BadUserNamePassword,
            ConnectReturnCode::NotAuthorized => ConnectReasonCode::NotAuthorized,
        }
    }

    /// The return code that a reason code stands for in MQTT 3.1.1.
    pub fn from_reason(value: ConnectReasonCode) -> (r: Result<ConnectReturnCode, Error>)
        ensures
            r == ConnectReturnCode::spec_from_reason(value),
    {
        let code = match value {
            ConnectReasonCode::Success => ConnectReturnCode::Success,
            ConnectReasonCode::UnsupportedProtocolVersion => ConnectReturnCode::RefusedProtocolVersion,
            ConnectReasonCode::ClientIdentifierNotValid => ConnectReturnCode::BadClientId,
            ConnectReasonCode::ServerUnavailable => ConnectReturnCode::ServiceUnavailable,
            ConnectReasonCode::BadUserNamePassword => ConnectReturnCode::BadUserNamePassword,
            ConnectReasonCode::NotAuthorized => ConnectReturnCode::NotAuthorized,
            _ => {
                // MQTT 3.1.1 does not support all MQTT 5.0 reason codes
                return Err(Error::InvalidConnectReturnCode(value.code()));
            },
        };
        Ok(code)
    }

    /// Converting to a reason code and back gives the return code.
    pub proof fn lemma_reason(self)
        ensures
            ConnectReturnCode::spec_from_reason(self.spec_reason()) == Ok::<ConnectReturnCode, Error>(self),
    {
    }
}

impl From<ConnectReturnCode> for ConnectReasonCode {
    fn from(value: ConnectReturnCode) -> (r: Self)
        ensures
            r == value.spec_reason(),
    {
        value.reason()
    }
}

impl vstd::std_specs::convert::FromSpecImpl<ConnectReturnCode> for ConnectReasonCode {
    open spec fn obeys_from_spec() -> bool {
        true
    }

    open spec fn from_spec(v: ConnectReturnCode) -> Self {
        v.spec_reason()
    }
}

impl TryFrom<ConnectReasonCode> for ConnectReturnCode {
    type Error = Error;

    fn try_from(value: ConnectReasonCode) -> (r: Result<Self, Self::Error>)
        ensures
            r == ConnectReturnCode::spec_from_reason(value),
    {
        ConnectReturnCode::from_reason(value)
    }
}

impl vstd::std_specs::convert::TryFromSpecImpl<ConnectReasonCode> for ConnectReturnCode {
    open spec fn obeys_try_from_spec() -> bool {
        true
    }

    open spec fn try_from_spec(v: ConnectReasonCode) -> Result<Self, Self::Error> {
        ConnectReturnCode::spec_from_reason(v)
    }
}

} // verus!
