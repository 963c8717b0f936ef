//! Disconnect notification

use vstd::prelude::*;

use crate::property::{Properties, PropertyModel};
use crate::{reason, Error};

pub mod v4;
pub mod v5;

verus! {

/// Disconnect notification
///
/// The final MQTT packet sent from the client or the server.
/// It indicates the reason why the network connection is being closed.
#[derive(Debug, Default, Clone, PartialEq, Eq)]
pub struct Disconnect {
    /// Disconnect Reason Code
    pub reason_code: DisconnectReasonCode,
    /// Disconnect Properties
    pub properties: Properties,
}

/// A [Disconnect], as the specifications see it.
pub struct DisconnectModel {
    pub reason_code: DisconnectReasonCode,
    pub properties: Seq<PropertyModel>,
}

impl View for Disconnect {
    type V = DisconnectModel;

    open spec fn view(&self) -> DisconnectModel {
        DisconnectModel { reason_code: self.reason_code, properties: self.properties@ }
    }
}

impl Disconnect {
    pub fn new() -> (r: Self)
        ensures
            r@ == (DisconnectModel { reason_code: DisconnectReasonCode::NormalDisconnection, properties: Seq::empty() }),
    {
        Self { reason_code: DisconnectReasonCode::NormalDisconnection, properties: Properties::new() }
    }
}

/// Disconnect Reason Code
#[derive(Debug, Default, Clone, Copy, PartialEq, Eq, Structural)]
pub enum DisconnectReasonCode {
    /// Close the connection normally. Do not send the Will Message.
    #[default]
    NormalDisconnection,
    /// The Client wishes to disconnect but requires that the Server also publishes its Will Message.
    DisconnectWithWillMessage,
    /// The Connection is closed but the sender either does not wish to reveal the reason, or none of the other Reason Codes apply.
    UnspecifiedError,
    /// The received packet does not conform to this specification.
    MalformedPacket,
    /// An unexpected or out of order packet was received.
    ProtocolError,
    /// The packet received is valid but cannot be processed by this implementation.
    ImplementationSpecificError,
    /// The request is not authorized.
    NotAuthorized,
    /// The Server is busy and cannot continue processing requests from this Client.
    ServerBusy,
    /// The Server is shutting down.
    ServerShuttingDown,
    /// The Connection is closed because no packet has been received for 1.5 times the Keepalive time.
    KeepAliveTimeout,
    /// Another Connection using the same ClientID has connected causing this Connection to be closed.
    SessionTakenOver,
    /// The Topic Filter is correctly formed, but is not accepted by this Sever.
    TopicFilterInvalid,
    /// The Topic Name is correctly formed, but is not accepted by this Client or Server.
    TopicNameInvalid,
    /// The Client or Server has received more than Receive Maximum publication for which it has not sent PUBACK or PUBCOMP.
    ReceiveMaximumExceeded,
    /// The Client or Server has received a PUBLISH packet containing a Topic Alias which is greater than the Maximum Topic Alias it sent in the CONNECT or CONNACK packet.
    TopicAliasInvalid,
    /// The packet size is greater than Maximum Packet Size for this Client or Server.
    PacketTooLarge,
    /// The received data rate is too high.
    MessageRateTooHigh,
    /// An implementation or administrative imposed limit has been exceeded.
    QuotaExceeded,
    /// The Connection is closed due to an administrative action.
    AdministrativeAction,
    /// The payload format does not match the one specified by the Payload Format Indicator.
    PayloadFormatInvalid,
    /// The Server has does not support retained messages.
    RetainNotSupported,
    /// The Client specified a QoS greater than the QoS specified in a Maximum QoS in the CONNACK.
    QoSNotSupported,
    /// The Client should temporarily change its Server.
    UseAnotherServer,
    /// The Server is moved and the Client should permanently change its server location.
    ServerMoved,
    /// The Server does not support Shared Subscriptions.
    SharedSubscriptionNotSupported,
    /// This connection is closed because the connection rate is too high.
    ConnectionRateExceeded,
    /// The maximum connection time authorized for this connection has been exceeded.
    MaximumConnectTime,
    /// The Server does not support Subscription Identifiers; the subscription is not accepted.
    SubscriptionIdentifiersNotSupported,
    /// The Server does not support Wildcard subscription; the subscription is not accepted.
    WildcardSubscriptionsNotSupported,
}

impl DisconnectReasonCode {
    /// The values of these codes on the wire are the fixed ones of MQTT: each
    /// is written as the value listed here, each value listed reads back as
    /// its code, and a value that reads as a code is that code's value.
    pub proof fn lemma_wire_codes()
        ensures
            DisconnectReasonCode::NormalDisconnection.spec_code() == 0x00,
            DisconnectReasonCode::DisconnectWithWillMessage.spec_code() == 0x04,
            DisconnectReasonCode::UnspecifiedError.spec_code() == 0x80,
            DisconnectReasonCode::MalformedPacket.spec_code() == 0x81,
            DisconnectReasonCode::ProtocolError.spec_code() == 0x82,
            DisconnectReasonCode::ImplementationSpecificError.spec_code() == 0x83,
            DisconnectReasonCode::NotAuthorized.spec_code() == 0x87,
            DisconnectReasonCode::ServerBusy.spec_code() == 0x89,
            DisconnectReasonCode::ServerShuttingDown.spec_code() == 0x8B,
            DisconnectReasonCode::KeepAliveTimeout.spec_code() == 0x8D,
            DisconnectReasonCode::SessionTakenOver.spec_code() == 0x8E,
            DisconnectReasonCode::TopicFilterInvalid.spec_code() == 0x8F,
            DisconnectReasonCode::TopicNameInvalid.spec_code() == 0x90,
            DisconnectReasonCode::ReceiveMaximumExceeded.spec_code() == 0x93,
            DisconnectReasonCode::TopicAliasInvalid.spec_code() == 0x94,
            DisconnectReasonCode::PacketTooLarge.spec_code() == 0x95,
            DisconnectReasonCode::MessageRateTooHigh.spec_code() == 0x96,
            DisconnectReasonCode::QuotaExceeded.spec_code() == 0x97,
            DisconnectReasonCode::AdministrativeAction.spec_code() == 0x98,
            DisconnectReasonCode::PayloadFormatInvalid.spec_code() == 0x99,
            DisconnectReasonCode::RetainNotSupported.spec_code() == 0x9A,
            DisconnectReasonCode::QoSNotSupported.spec_code() == 0x9B,
            DisconnectReasonCode::UseAnotherServer.spec_code() == 0x9C,
            DisconnectReasonCode::ServerMoved.spec_code() == 0x9D,
            DisconnectReasonCode::SharedSubscriptionNotSupported.spec_code() == 0x9E,
            DisconnectReasonCode::ConnectionRateExceeded.spec_code() == 0x9F,
            DisconnectReasonCode::MaximumConnectTime.spec_code() == 0xA0,
            DisconnectReasonCode::SubscriptionIdentifiersNotSupported.spec_code() == 0xA1,
            DisconnectReasonCode::WildcardSubscriptionsNotSupported.spec_code() == 0xA2,
            DisconnectReasonCode::spec_from_code(0x00) == Ok::<DisconnectReasonCode, Error>(DisconnectReasonCode::NormalDisconnection),
            DisconnectReasonCode::spec_from_code(0x04) == Ok::<DisconnectReasonCode, Error>(DisconnectReasonCode::DisconnectWithWillMessage),
            DisconnectReasonCode::spec_from_code(0x80) == Ok::<DisconnectReasonCode, Error>(DisconnectReasonCode::UnspecifiedError),
            DisconnectReasonCode::spec_from_code(0x81) == Ok::<DisconnectReasonCode, Error>(DisconnectReasonCode::MalformedPacket),
            DisconnectReasonCode::spec_from_code(0x82) == Ok::<DisconnectReasonCode, Error>(DisconnectReasonCode::ProtocolError),
            DisconnectReasonCode::spec_from_code(0x83) == Ok::<DisconnectReasonCode, Error>(DisconnectReasonCode::ImplementationSpecificError),
            DisconnectReasonCode::spec_from_code(0x87) == Ok::<DisconnectReasonCode, Error>(DisconnectReasonCode::NotAuthorized),
            DisconnectReasonCode::spec_from_code(0x89) == Ok::<DisconnectReasonCode, Error>(DisconnectReasonCode::ServerBusy),
            DisconnectReasonCode::spec_from_code(0x8B) == Ok::<DisconnectReasonCode, Error>(DisconnectReasonCode::ServerShuttingDown),
            DisconnectReasonCode::spec_from_code(0x8D) == Ok::<DisconnectReasonCode, Error>(DisconnectReasonCode::KeepAliveTimeout),
            DisconnectReasonCode::spec_from_code(0x8E) == Ok::<DisconnectReasonCode, Error>(DisconnectReasonCode::SessionTakenOver),
            DisconnectReasonCode::spec_from_code(0x8F) == Ok::<DisconnectReasonCode, Error>(DisconnectReasonCode::TopicFilterInvalid),
            DisconnectReasonCode::spec_from_code(0x90) == Ok::<DisconnectReasonCode, Error>(DisconnectReasonCode::TopicNameInvalid),
            DisconnectReasonCode::spec_from_code(0x93) == Ok::<DisconnectReasonCode, Error>(DisconnectReasonCode::ReceiveMaximumExceeded),
            DisconnectReasonCode::spec_from_code(0x94) == Ok::<DisconnectReasonCode, Error>(DisconnectReasonCode::TopicAliasInvalid),
            DisconnectReasonCode::spec_from_code(0x95) == Ok::<DisconnectReasonCode, Error>(DisconnectReasonCode::PacketTooLarge),
            DisconnectReasonCode::spec_from_code(0x96) == Ok::<DisconnectReasonCode, Error>(DisconnectReasonCode::MessageRateTooHigh),
            DisconnectReasonCode::spec_from_code(0x97) == Ok::<DisconnectReasonCode, Error>(DisconnectReasonCode::QuotaExceeded),
            DisconnectReasonCode::spec_from_code(0x98) == Ok::<DisconnectReasonCode, Error>(DisconnectReasonCode::AdministrativeAction),
            DisconnectReasonCode::spec_from_code(0x99) == Ok::<DisconnectReasonCode, Error>(DisconnectReasonCode::PayloadFormatInvalid),
            DisconnectReasonCode::spec_from_code(0x9A) == Ok::<DisconnectReasonCode, Error>(DisconnectReasonCode::RetainNotSupported),
            DisconnectReasonCode::spec_from_code(0x9B) == Ok::<DisconnectReasonCode, Error>(DisconnectReasonCode::QoSNotSupported),
            DisconnectReasonCode::spec_from_code(0x9C) == Ok::<DisconnectReasonCode, Error>(DisconnectReasonCode::UseAnotherServer),
            DisconnectReasonCode::spec_from_code(0x9D) == Ok::<DisconnectReasonCode, Error>(DisconnectReasonCode::ServerMoved),
            DisconnectReasonCode::spec_from_code(0x9E) == Ok::<DisconnectReasonCode, Error>(DisconnectReasonCode::SharedSubscriptionNotSupported),
            DisconnectReasonCode::spec_from_code(0x9F) == Ok::<DisconnectReasonCode, Error>(DisconnectReasonCode::ConnectionRateExceeded),
            DisconnectReasonCode::spec_from_code(0xA0) == Ok::<DisconnectReasonCode, Error>(DisconnectReasonCode::MaximumConnectTime),
            DisconnectReasonCode::spec_from_code(0xA1) == Ok::<DisconnectReasonCode, Error>(DisconnectReasonCode::SubscriptionIdentifiersNotSupported),
            DisconnectReasonCode::spec_from_code(0xA2) == Ok::<DisconnectReasonCode, Error>(DisconnectReasonCode::WildcardSubscriptionsNotSupported),
            forall|c: u8| (#[trigger] DisconnectReasonCode::spec_from_code(c)) matches Ok(v) ==> v.spec_code() == c,
    {
    }
}

impl DisconnectReasonCode {
    /// The value of this code on the wire.
    pub open spec fn spec_code(self) -> u8 {
        match self {
            DisconnectReasonCode::NormalDisconnection => reason::NORMAL_DISCONNECTION,
            DisconnectReasonCode::DisconnectWithWillMessage => reason::DISCONNECT_WITH_WILL_MESSAGE,
            DisconnectReasonCode::UnspecifiedError => reason::UNSPECIFIED_ERROR,
            DisconnectReasonCode::MalformedPacket => reason::MALFORMED_PACKET,
            DisconnectReasonCode::ProtocolError => reason::PROTOCOL_ERROR,
            DisconnectReasonCode::ImplementationSpecificError => reason::IMPLEMENTATION_SPECIFIC_ERROR,
            DisconnectReasonCode::NotAuthorized => reason::NOT_AUTHORIZED,
            DisconnectReasonCode::ServerBusy => reason::SERVER_BUSY,
            DisconnectReasonCode::ServerShuttingDown => reason::SERVER_SHUTTING_DOWN,
            DisconnectReasonCode::KeepAliveTimeout => reason::KEEP_ALIVE_TIMEOUT,
            DisconnectReasonCode::SessionTakenOver => reason::SESSION_TAKEN_OVER,
            DisconnectReasonCode::TopicFilterInvalid => reason::TOPIC_FILTER_INVALID,
            DisconnectReasonCode::TopicNameInvalid => reason::TOPIC_NAME_INVALID,
            DisconnectReasonCode::ReceiveMaximumExceeded => reason::RECEIVE_MAXIMUM_EXCEEDED,
            DisconnectReasonCode::TopicAliasInvalid => reason::TOPIC_ALIAS_INVALID,
            DisconnectReasonCode::PacketTooLarge => reason::PACKET_TOO_LARGE,
            DisconnectReasonCode::MessageRateTooHigh => reason::MESSAGE_RATE_TOO_HIGH,
            DisconnectReasonCode::QuotaExceeded => reason::QUOTA_EXCEEDED,
            DisconnectReasonCode::AdministrativeAction => reason::ADMINISTRATIVE_ACTION,
            DisconnectReasonCode::PayloadFormatInvalid => reason::PAYLOAD_FORMAT_INVALID,
            DisconnectReasonCode::RetainNotSupported => reason::RETAIN_NOT_SUPPORTED,
            DisconnectReasonCode::QoSNotSupported => reason::QOS_NOT_SUPPORTED,
            DisconnectReasonCode::UseAnotherServer => reason::USE_ANOTHER_SERVER,
            DisconnectReasonCode::ServerMoved => reason::SERVER_MOVED,
            DisconnectReasonCode::SharedSubscriptionNotSupported => reason::SHARED_SUBSCRIPTIONS_NOT_SUPPORTED,
            DisconnectReasonCode::ConnectionRateExceeded => reason::CONNECTION_RATE_EXCEEDED,
            DisconnectReasonCode::MaximumConnectTime => reason::MAXIMUM_CONNECT_TIME,
            DisconnectReasonCode::SubscriptionIdentifiersNotSupported => reason::SUBSCRIPTION_IDENTIFIERS_NOT_SUPPORTED,
            DisconnectReasonCode::WildcardSubscriptionsNotSupported => reason::WILDCARD_SUBSCRIPTIONS_NOT_SUPPORTED,
        }
    }

    /// The code that a value names, or the error for a value that names none.
    pub open spec fn spec_from_code(value: u8) -> Result<DisconnectReasonCode, Error> {
        if value == reason::NORMAL_DISCONNECTION {
            Ok(DisconnectReasonCode::NormalDisconnection)
        } else if value == reason::DISCONNECT_WITH_WILL_MESSAGE {
            Ok(DisconnectReasonCode::DisconnectWithWillMessage)
        } else if value == reason::UNSPECIFIED_ERROR {
            Ok(DisconnectReasonCode::UnspecifiedError)
        } else if value == reason::MALFORMED_PACKET {
            Ok(DisconnectReasonCode::MalformedPacket)
        } else if value == reason::PROTOCOL_ERROR {
            Ok(DisconnectReasonCode::ProtocolError)
        } else if value == reason::IMPLEMENTATION_SPECIFIC_ERROR {
            Ok(DisconnectReasonCode::ImplementationSpecificError)
        } else if value == reason::NOT_AUTHORIZED {
            Ok(DisconnectReasonCode::NotAuthorized)
        } else if value == reason::SERVER_BUSY {
            Ok(DisconnectReasonCode::ServerBusy)
        } else if value == reason::SERVER_SHUTTING_DOWN {
            Ok(DisconnectReasonCode::ServerShuttingDown)
        } else if value == reason::KEEP_ALIVE_TIMEOUT {
            Ok(DisconnectReasonCode::KeepAliveTimeout)
        } else if value == reason::SESSION_TAKEN_OVER {
            Ok(DisconnectReasonCode::SessionTakenOver)
        } else if value == reason::TOPIC_FILTER_INVALID {
            Ok(DisconnectReasonCode::TopicFilterInvalid)
        } else if value == reason::TOPIC_NAME_INVALID {
            Ok(DisconnectReasonCode::TopicNameInvalid)
        } else if value == reason::RECEIVE_MAXIMUM_EXCEEDED {
            Ok(DisconnectReasonCode::ReceiveMaximumExceeded)
        } else if value == reason::TOPIC_ALIAS_INVALID {
            Ok(DisconnectReasonCode::TopicAliasInvalid)
        } else if value == reason::PACKET_TOO_LARGE {
            Ok(DisconnectReasonCode::PacketTooLarge)
        } else if value == reason::MESSAGE_RATE_TOO_HIGH {
            Ok(DisconnectReasonCode::MessageRateTooHigh)
        } else if value == reason::QUOTA_EXCEEDED {
            Ok(DisconnectReasonCode::QuotaExceeded)
        } else if value == reason::ADMINISTRATIVE_ACTION {
            Ok(DisconnectReasonCode::AdministrativeAction)
        } else if value == reason::PAYLOAD_FORMAT_INVALID {
            Ok(DisconnectReasonCode::PayloadFormatInvalid)
        } else if value == reason::RETAIN_NOT_SUPPORTED {
            Ok(DisconnectReasonCode::RetainNotSupported)
        } else if value == reason::QOS_NOT_SUPPORTED {
            Ok(DisconnectReasonCode::QoSNotSupported)
        } else if value == reason::USE_ANOTHER_SERVER {
            Ok(DisconnectReasonCode::UseAnotherServer)
        } else if value == reason::SERVER_MOVED {
            Ok(DisconnectReasonCode::ServerMoved)
        } else if value == reason::SHARED_SUBSCRIPTIONS_NOT_SUPPORTED {
            Ok(DisconnectReasonCode::SharedSubscriptionNotSupported)
        } else if value == reason::CONNECTION_RATE_EXCEEDED {
            Ok(DisconnectReasonCode::ConnectionRateExceeded)
        } else if value == reason::MAXIMUM_CONNECT_TIME {
            Ok(DisconnectReasonCode::MaximumConnectTime)
        } else if value == reason::SUBSCRIPTION_IDENTIFIERS_NOT_SUPPORTED {
            Ok(DisconnectReasonCode::SubscriptionIdentifiersNotSupported)
        } else if value == reason::WILDCARD_SUBSCRIPTIONS_NOT_SUPPORTED {
            Ok(DisconnectReasonCode::WildcardSubscriptionsNotSupported)
        } else {
            Err(Error::InvalidConnectReturnCode(value))
        }
    }

    /// The value of this code on the wire.
    pub fn code(self) -> (c: u8)
        ensures
            c == self.spec_code(),
    {
        match self {
            DisconnectReasonCode::NormalDisconnection => reason::NORMAL_DISCONNECTION,
            DisconnectReasonCode::DisconnectWithWillMessage => reason::DISCONNECT_WITH_WILL_MESSAGE,
            DisconnectReasonCode::UnspecifiedError => reason::UNSPECIFIED_ERROR,
            DisconnectReasonCode::MalformedPacket => reason::MALFORMED_PACKET,
            DisconnectReasonCode::ProtocolError => reason::PROTOCOL_ERROR,
            DisconnectReasonCode::ImplementationSpecificError => reason::IMPLEMENTATION_SPECIFIC_ERROR,
            DisconnectReasonCode::NotAuthorized => reason::NOT_AUTHORIZED,
            DisconnectReasonCode::ServerBusy => reason::SERVER_BUSY,
            DisconnectReasonCode::ServerShuttingDown => reason::SERVER_SHUTTING_DOWN,
            DisconnectReasonCode::KeepAliveTimeout => reason::KEEP_ALIVE_TIMEOUT,
            DisconnectReasonCode::SessionTakenOver => reason::SESSION_TAKEN_OVER,
            DisconnectReasonCode::TopicFilterInvalid => reason::TOPIC_FILTER_INVALID,
            DisconnectReasonCode::TopicNameInvalid => reason::TOPIC_NAME_INVALID,
            DisconnectReasonCode::ReceiveMaximumExceeded => reason::RECEIVE_MAXIMUM_EXCEEDED,
            DisconnectReasonCode::TopicAliasInvalid => reason::TOPIC_ALIAS_INVALID,
            DisconnectReasonCode::PacketTooLarge => reason::PACKET_TOO_LARGE,
            DisconnectReasonCode::MessageRateTooHigh => reason::MESSAGE_RATE_TOO_HIGH,
            DisconnectReasonCode::QuotaExceeded => reason::QUOTA_EXCEEDED,
            DisconnectReasonCode::AdministrativeAction => reason::ADMINISTRATIVE_ACTION,
            DisconnectReasonCode::PayloadFormatInvalid => reason::PAYLOAD_FORMAT_INVALID,
            DisconnectReasonCode::RetainNotSupported => reason::RETAIN_NOT_SUPPORTED,
            DisconnectReasonCode::QoSNotSupported => reason::QOS_NOT_SUPPORTED,
            DisconnectReasonCode::UseAnotherServer => reason::USE_ANOTHER_SERVER,
            DisconnectReasonCode::ServerMoved => reason::SERVER_MOVED,
            DisconnectReasonCode::SharedSubscriptionNotSupported => reason::SHARED_SUBSCRIPTIONS_NOT_SUPPORTED,
            DisconnectReasonCode::ConnectionRateExceeded => reason::CONNECTION_RATE_EXCEEDED,
            DisconnectReasonCode::MaximumConnectTime => reason::MAXIMUM_CONNECT_TIME,
            DisconnectReasonCode::SubscriptionIdentifiersNotSupported => reason::SUBSCRIPTION_IDENTIFIERS_NOT_SUPPORTED,
            DisconnectReasonCode::WildcardSubscriptionsNotSupported => reason::WILDCARD_SUBSCRIPTIONS_NOT_SUPPORTED,
        }
    }

    /// Decodes a code from its value on the wire.
    pub fn from_code(value: u8) -> (r: Result<DisconnectReasonCode, Error>)
        ensures
            r == DisconnectReasonCode::spec_from_code(value),
    {
        let code = match value {
            reason::NORMAL_DISCONNECTION => DisconnectReasonCode::NormalDisconnection,
            reason::DISCONNECT_WITH_WILL_MESSAGE => DisconnectReasonCode::DisconnectWithWillMessage,
            reason::UNSPECIFIED_ERROR => DisconnectReasonCode::UnspecifiedError,
            reason::MALFORMED_PACKET => DisconnectReasonCode::MalformedPacket,
            reason::PROTOCOL_ERROR => DisconnectReasonCode::ProtocolError,
            reason::IMPLEMENTATION_SPECIFIC_ERROR => DisconnectReasonCode::ImplementationSpecificError,
            reason::NOT_AUTHORIZED => DisconnectReasonCode::NotAuthorized,
            reason::SERVER_BUSY => DisconnectReasonCode::ServerBusy,
            reason::SERVER_SHUTTING_DOWN => DisconnectReasonCode::ServerShuttingDown,
            reason::KEEP_ALIVE_TIMEOUT => DisconnectReasonCode::KeepAliveTimeout,
            reason::SESSION_TAKEN_OVER => DisconnectReasonCode::SessionTakenOver,
            reason::TOPIC_FILTER_INVALID => DisconnectReasonCode::TopicFilterInvalid,
            reason::TOPIC_NAME_INVALID => DisconnectReasonCode::TopicNameInvalid,
            reason::RECEIVE_MAXIMUM_EXCEEDED => DisconnectReasonCode::ReceiveMaximumExceeded,
            reason::TOPIC_ALIAS_INVALID => DisconnectReasonCode::TopicAliasInvalid,
            reason::PACKET_TOO_LARGE => DisconnectReasonCode::PacketTooLarge,
            reason::MESSAGE_RATE_TOO_HIGH => DisconnectReasonCode::MessageRateTooHigh,
            reason::QUOTA_EXCEEDED => DisconnectReasonCode::QuotaExceeded,
            reason::ADMINISTRATIVE_ACTION => DisconnectReasonCode::AdministrativeAction,
            reason::PAYLOAD_FORMAT_INVALID => DisconnectReasonCode::PayloadFormatInvalid,
            reason::RETAIN_NOT_SUPPORTED => DisconnectReasonCode::RetainNotSupported,
            reason::QOS_NOT_SUPPORTED => DisconnectReasonCode::QoSNotSupported,
            reason::USE_ANOTHER_SERVER => DisconnectReasonCode::UseAnotherServer,
            reason::SERVER_MOVED => DisconnectReasonCode::ServerMoved,
            reason::SHARED_SUBSCRIPTIONS_NOT_SUPPORTED => DisconnectReasonCode::SharedSubscriptionNotSupported,
            reason::CONNECTION_RATE_EXCEEDED => DisconnectReasonCode::ConnectionRateExceeded,
            reason::MAXIMUM_CONNECT_TIME => DisconnectReasonCode::MaximumConnectTime,
            reason::SUBSCRIPTION_IDENTIFIERS_NOT_SUPPORTED => DisconnectReasonCode::SubscriptionIdentifiersNotSupported,
            reason::WILDCARD_SUBSCRIPTIONS_NOT_SUPPORTED => DisconnectReasonCode::WildcardSubscriptionsNotSupported,
            num => return Err(Error::InvalidConnectReturnCode(num)),
        };
        Ok(code)
    }

    /// Every code's value names that code.
    pub proof fn lemma_code(self)
        ensures
            DisconnectReasonCode::spec_from_code(self.spec_code()) == Ok::<DisconnectReasonCode, Error>(self),
    {
    }
}

impl TryFrom<u8> for DisconnectReasonCode {
    type Error = Error;

    fn try_from(value: u8) -> (r: Result<Self, Self::Error>)
        ensures
            r == DisconnectReasonCode::spec_from_code(value),
    {
        DisconnectReasonCode::from_code(value)
    }
}

impl vstd::std_specs::convert::TryFromSpecImpl<u8> for DisconnectReasonCode {
    open spec fn obeys_try_from_spec() -> bool {
        true
    }

    open spec fn try_from_spec(v: u8) -> Result<Self, Self::Error> {
        DisconnectReasonCode::spec_from_code(v)
    }
}

} // verus!
