//! Module for working with MQTT properties

use bytes::{Bytes, BytesMut};
use vstd::prelude::*;
use vstd::std_specs::iter::IteratorSpec;

use crate::buffer::{
    advance, bytes_as_slice, bytes_len, bytes_mut_view, bytes_view, put_u16, put_u32, put_u8, room,
};
use crate::parse::{
    read_mqtt_bytes, read_mqtt_string, read_u16, read_u32, read_u8, str_len, write_mqtt_bytes,
    write_mqtt_string, VarInt,
};
use crate::wire::{
    be16, be32, lemma_p_mqtt_bytes, lemma_p_mqtt_string, lemma_p_u16, lemma_p_u32, lemma_p_u8, lemma_shrinks,
    lemma_shrinks_trans, lemma_varint_roundtrip, pow128, lemma_varint_bytes_len, lemma_varint_frame_bound,
    mqtt_bytes, mqtt_string, p_mqtt_bytes, p_mqtt_string, p_u16, p_u32, p_u8, shrinks, utf8_len,
    varint_bytes, varint_frame, varint_len, varint_max, varint_value,
};
use crate::Error;

verus! {

/// MQTT 5.0 Property
///
/// This is a key-value pair that can be included in the variable header of packets.
/// A property consists of an identifier (encoded as a Variable Byte Integer) followed by a value.
///
/// This enumeration list all the possible properties that can be used in MQTT 5.0.
/// However, not all properties can be used in every packet.
#[derive(Debug, Clone, PartialEq, Eq)]
#[allow(clippy::enum_variant_names)]
pub enum Property {
    PayloadFormatIndicator(u8),
    MessageExpiryInterval(u32),
    ContentType(String),
    ResponseTopic(String),
    CorrelationData(Bytes),
    SubscriptionIdentifier(VarInt),
    SessionExpiryInterval(u32),
    AssignedClientIdentifier(String),
    ServerKeepAlive(u16),
    AuthenticationMethod(String),
    AuthenticationData(Bytes),
    RequestProblemInformation(bool),
    WillDelayInterval(u32),
    RequestResponseInformation(bool),
    ResponseInformation(String),
    ServerReference(String),
    ReasonString(String),
    ReceiveMaximum(u16),
    TopicAliasMaximum(u16),
    TopicAlias(u16),
    MaximumQos(u8),
    RetainAvailable(bool),
    UserProperty { name: String, value: String },
    MaximumPacketSize(u32),
    WildcardSubscriptionAvailable(bool),
    SubscriptionIdentifierAvailable(bool),
    SharedSubscriptionAvailable(bool),
}

/// The value of a [Property], as the specifications see it.
#[allow(inconsistent_fields)]
pub enum PropertyModel {
    PayloadFormatIndicator(u8),
    MessageExpiryInterval(u32),
    ContentType(Seq<char>),
    ResponseTopic(Seq<char>),
    CorrelationData(Seq<u8>),
    SubscriptionIdentifier { value: nat, length: nat },
    SessionExpiryInterval(u32),
    AssignedClientIdentifier(Seq<char>),
    ServerKeepAlive(u16),
    AuthenticationMethod(Seq<char>),
    AuthenticationData(Seq<u8>),
    RequestProblemInformation(bool),
    WillDelayInterval(u32),
    RequestResponseInformation(bool),
    ResponseInformation(Seq<char>),
    ServerReference(Seq<char>),
    ReasonString(Seq<char>),
    ReceiveMaximum(u16),
    TopicAliasMaximum(u16),
    TopicAlias(u16),
    MaximumQos(u8),
    RetainAvailable(bool),
    UserProperty { name: Seq<char>, value: Seq<char> },
    MaximumPacketSize(u32),
    WildcardSubscriptionAvailable(bool),
    SubscriptionIdentifierAvailable(bool),
    SharedSubscriptionAvailable(bool),
}

impl View for Property {
    type V = PropertyModel;

    open spec fn view(&self) -> PropertyModel {
        match self {
            Property::PayloadFormatIndicator(v) => PropertyModel::PayloadFormatIndicator(*v),
            Property::MessageExpiryInterval(v) => PropertyModel::MessageExpiryInterval(*v),
            Property::ContentType(s) => PropertyModel::ContentType(s@),
            Property::ResponseTopic(s) => PropertyModel::ResponseTopic(s@),
            Property::CorrelationData(b) => PropertyModel::CorrelationData(bytes_view(*b)),
            Property::SubscriptionIdentifier(v) => PropertyModel::SubscriptionIdentifier {
                value: v.spec_value(),
                length: v.spec_length(),
            },
            Property::SessionExpiryInterval(v) => PropertyModel::SessionExpiryInterval(*v),
            Property::AssignedClientIdentifier(s) => PropertyModel::AssignedClientIdentifier(s@),
            Property::ServerKeepAlive(v) => PropertyModel::ServerKeepAlive(*v),
            Property::AuthenticationMethod(s) => PropertyModel::AuthenticationMethod(s@),
            Property::AuthenticationData(b) => PropertyModel::AuthenticationData(bytes_view(*b)),
            Property::RequestProblemInformation(v) => PropertyModel::RequestProblemInformation(*v),
            Property::WillDelayInterval(v) => PropertyModel::WillDelayInterval(*v),
            Property::RequestResponseInformation(v) => PropertyModel::RequestResponseInformation(*v),
            Property::ResponseInformation(s) => PropertyModel::ResponseInformation(s@),
            Property::ServerReference(s) => PropertyModel::ServerReference(s@),
            Property::ReasonString(s) => PropertyModel::ReasonString(s@),
            Property::ReceiveMaximum(v) => PropertyModel::ReceiveMaximum(*v),
            Property::TopicAliasMaximum(v) => PropertyModel::TopicAliasMaximum(*v),
            Property::TopicAlias(v) => PropertyModel::TopicAlias(*v),
            Property::MaximumQos(v) => PropertyModel::MaximumQos(*v),
            Property::RetainAvailable(v) => PropertyModel::RetainAvailable(*v),
            Property::UserProperty { name, value } => PropertyModel::UserProperty { name: name@, value: value@ },
            Property::MaximumPacketSize(v) => PropertyModel::MaximumPacketSize(*v),
            Property::WildcardSubscriptionAvailable(v) => PropertyModel::WildcardSubscriptionAvailable(*v),
            Property::SubscriptionIdentifierAvailable(v) => PropertyModel::SubscriptionIdentifierAvailable(*v),
            Property::SharedSubscriptionAvailable(v) => PropertyModel::SharedSubscriptionAvailable(*v),
        }
    }
}

/// Identifiers of the different properties used in MQTT 5.0
#[derive(Debug, Clone, Copy, PartialEq, Eq, Structural)]
pub enum PropertyType {
    PayloadFormatIndicator,
    MessageExpiryInterval,
    ContentType,
    ResponseTopic,
    CorrelationData,
    SubscriptionIdentifier,
    SessionExpiryInterval,
    AssignedClientIdentifier,
    ServerKeepAlive,
    AuthenticationMethod,
    AuthenticationData,
    RequestProblemInformation,
    WillDelayInterval,
    RequestResponseInformation,
    ResponseInformation,
    ServerReference,
    ReasonString,
    ReceiveMaximum,
    TopicAliasMaximum,
    TopicAlias,
    MaximumQos,
    RetainAvailable,
    UserProperty,
    MaximumPacketSize,
    WildcardSubscriptionAvailable,
    SubscriptionIdentifierAvailable,
    SharedSubscriptionAvailable,
}

impl PropertyType {
    /// The values of these codes on the wire are the fixed ones of MQTT: each
    /// is written as the value listed here, each value listed reads back as
    /// its code, and a value that reads as a code is that code's value.
    pub proof fn lemma_wire_codes()
        ensures
            PropertyType::PayloadFormatIndicator.spec_code() == 0x01,
            PropertyType::MessageExpiryInterval.spec_code() == 0x02,
            PropertyType::ContentType.spec_code() == 0x03,
            PropertyType::ResponseTopic.spec_code() == 0x08,
            PropertyType::CorrelationData.spec_code() == 0x09,
            PropertyType::SubscriptionIdentifier.spec_code() == 0x0B,
            PropertyType::SessionExpiryInterval.spec_code() == 0x11,
            PropertyType::AssignedClientIdentifier.spec_code() == 0x12,
            PropertyType::ServerKeepAlive.spec_code() == 0x13,
            PropertyType::AuthenticationMethod.spec_code() == 0x15,
            PropertyType::AuthenticationData.spec_code() == 0x16,
            PropertyType::RequestProblemInformation.spec_code() == 0x17,
            PropertyType::WillDelayInterval.spec_code() == 0x18,
            PropertyType::RequestResponseInformation.spec_code() == 0x19,
            PropertyType::ResponseInformation.spec_code() == 0x1A,
            PropertyType::ServerReference.spec_code() == 0x1C,
            PropertyType::ReasonString.spec_code() == 0x1F,
            PropertyType::ReceiveMaximum.spec_code() == 0x21,
            PropertyType::TopicAliasMaximum.spec_code() == 0x22,
            PropertyType::TopicAlias.spec_code() == 0x23,
            PropertyType::MaximumQos.spec_code() == 0x24,
            PropertyType::RetainAvailable.spec_code() == 0x25,
            PropertyType::UserProperty.spec_code() == 0x26,
            PropertyType::MaximumPacketSize.spec_code() == 0x27,
            PropertyType::WildcardSubscriptionAvailable.spec_code() == 0x28,
            PropertyType::SubscriptionIdentifierAvailable.spec_code() == 0x29,
            PropertyType::SharedSubscriptionAvailable.spec_code() == 0x2A,
            PropertyType::spec_from_code(0x01) == Ok::<PropertyType, Error>(PropertyType::PayloadFormatIndicator),
            PropertyType::spec_from_code(0x02) == Ok::<PropertyType, Error>(PropertyType::MessageExpiryInterval),
            PropertyType::spec_from_code(0x03) == Ok::<PropertyType, Error>(PropertyType::ContentType),
            PropertyType::spec_from_code(0x08) == Ok::<PropertyType, Error>(PropertyType::ResponseTopic),
            PropertyType::spec_from_code(0x09) == Ok::<PropertyType, Error>(PropertyType::CorrelationData),
            PropertyType::spec_from_code(0x0B) == Ok::<PropertyType, Error>(PropertyType::SubscriptionIdentifier),
            PropertyType::spec_from_code(0x11) == Ok::<PropertyType, Error>(PropertyType::SessionExpiryInterval),
            PropertyType::spec_from_code(0x12) == Ok::<PropertyType, Error>(PropertyType::AssignedClientIdentifier),
            PropertyType::spec_from_code(0x13) == Ok::<PropertyType, Error>(PropertyType::ServerKeepAlive),
            PropertyType::spec_from_code(0x15) == Ok::<PropertyType, Error>(PropertyType::AuthenticationMethod),
            PropertyType::spec_from_code(0x16) == Ok::<PropertyType, Error>(PropertyType::AuthenticationData),
            PropertyType::spec_from_code(0x17) == Ok::<PropertyType, Error>(PropertyType::RequestProblemInformation),
            PropertyType::spec_from_code(0x18) == Ok::<PropertyType, Error>(PropertyType::WillDelayInterval),
            PropertyType::spec_from_code(0x19) == Ok::<PropertyType, Error>(PropertyType::RequestResponseInformation),
            PropertyType::spec_from_code(0x1A) == Ok::<PropertyType, Error>(PropertyType::ResponseInformation),
            PropertyType::spec_from_code(0x1C) == Ok::<PropertyType, Error>(PropertyType::ServerReference),
            PropertyType::spec_from_code(0x1F) == Ok::<PropertyType, Error>(PropertyType::ReasonString),
            PropertyType::spec_from_code(0x21) == Ok::<PropertyType, Error>(PropertyType::ReceiveMaximum),
            PropertyType::spec_from_code(0x22) == Ok::<PropertyType, Error>(PropertyType::TopicAliasMaximum),
            PropertyType::spec_from_code(0x23) == Ok::<PropertyType, Error>(PropertyType::TopicAlias),
            PropertyType::spec_from_code(0x24) == Ok::<PropertyType, Error>(PropertyType::MaximumQos),
            PropertyType::spec_from_code(0x25) == Ok::<PropertyType, Error>(PropertyType::RetainAvailable),
            PropertyType::spec_from_code(0x26) == Ok::<PropertyType, Error>(PropertyType::UserProperty),
            PropertyType::spec_from_code(0x27) == Ok::<PropertyType, Error>(PropertyType::MaximumPacketSize),
            PropertyType::spec_from_code(0x28) == Ok::<PropertyType, Error>(PropertyType::WildcardSubscriptionAvailable),
            PropertyType::spec_from_code(0x29) == Ok::<PropertyType, Error>(PropertyType::SubscriptionIdentifierAvailable),
            PropertyType::spec_from_code(0x2A) == Ok::<PropertyType, Error>(PropertyType::SharedSubscriptionAvailable),
            forall|c: u8| (#[trigger] PropertyType::spec_from_code(c)) matches Ok(v) ==> v.spec_code() == c,
    {
    }
}

impl PropertyType {
    /// The identifier of this property on the wire.
    pub open spec fn spec_code(self) -> u8 {
        match self {
            PropertyType::PayloadFormatIndicator => 1,
            PropertyType::MessageExpiryInterval => 2,
            PropertyType::ContentType => 3,
            PropertyType::ResponseTopic => 8,
            PropertyType::CorrelationData => 9,
            PropertyType::SubscriptionIdentifier => 11,
            PropertyType::SessionExpiryInterval => 17,
            PropertyType::AssignedClientIdentifier => 18,
            PropertyType::ServerKeepAlive => 19,
            PropertyType::AuthenticationMethod => 21,
            PropertyType::AuthenticationData => 22,
            PropertyType::RequestProblemInformation => 23,
            PropertyType::WillDelayInterval => 24,
            PropertyType::RequestResponseInformation => 25,
            PropertyType::ResponseInformation => 26,
            PropertyType::ServerReference => 28,
            PropertyType::ReasonString => 31,
            PropertyType::ReceiveMaximum => 33,
            PropertyType::TopicAliasMaximum => 34,
            PropertyType::TopicAlias => 35,
            PropertyType::MaximumQos => 36,
            PropertyType::RetainAvailable => 37,
            PropertyType::UserProperty => 38,
            PropertyType::MaximumPacketSize => 39,
            PropertyType::WildcardSubscriptionAvailable => 40,
            PropertyType::SubscriptionIdentifierAvailable => 41,
            PropertyType::SharedSubscriptionAvailable => 42,
        }
    }

    /// The property type an identifier names, or the error for one that names none.
    pub open spec fn spec_from_code(value: u8) -> Result<PropertyType, Error> {
        if value == 1 {
            Ok(PropertyType::PayloadFormatIndicator)
        } else if value == 2 {
            Ok(PropertyType::MessageExpiryInterval)
        } else if value == 3 {
            Ok(PropertyType::ContentType)
        } else if value == 8 {
            Ok(PropertyType::ResponseTopic)
        } else if value == 9 {
            Ok(PropertyType::CorrelationData)
        } else if value == 11 {
            Ok(PropertyType::SubscriptionIdentifier)
        } else if value == 17 {
            Ok(PropertyType::SessionExpiryInterval)
        } else if value == 18 {
            Ok(PropertyType::AssignedClientIdentifier)
        } else if value == 19 {
            Ok(PropertyType::ServerKeepAlive)
        } else if value == 21 {
            Ok(PropertyType::AuthenticationMethod)
        } else if value == 22 {
            Ok(PropertyType::AuthenticationData)
        } else if value == 23 {
            Ok(PropertyType::RequestProblemInformation)
        } else if value == 24 {
            Ok(PropertyType::WillDelayInterval)
        } else if value == 25 {
            Ok(PropertyType::RequestResponseInformation)
        } else if value == 26 {
            Ok(PropertyType::ResponseInformation)
        } else if value == 28 {
            Ok(PropertyType::ServerReference)
        } else if value == 31 {
            Ok(PropertyType::ReasonString)
        } else if value == 33 {
            Ok(PropertyType::ReceiveMaximum)
        } else if value == 34 {
            Ok(PropertyType::TopicAliasMaximum)
        } else if value == 35 {
            Ok(PropertyType::TopicAlias)
        } else if value == 36 {
            Ok(PropertyType::MaximumQos)
        } else if value == 37 {
            Ok(PropertyType::RetainAvailable)
        } else if value == 38 {
            Ok(PropertyType::UserProperty)
        } else if value == 39 {
            Ok(PropertyType::MaximumPacketSize)
        } else if value == 40 {
            Ok(PropertyType::WildcardSubscriptionAvailable)
        } else if value == 41 {
            Ok(PropertyType::SubscriptionIdentifierAvailable)
        } else if value == 42 {
            Ok(PropertyType::SharedSubscriptionAvailable)
        } else {
            Err(Error::InvalidPropertyType(value))
        }
    }

    /// The identifier of this property on the wire.
    pub fn code(self) -> (c: u8)
        ensures
            c == self.spec_code(),
    {
        match self {
            PropertyType::PayloadFormatIndicator => 1,
            PropertyType::MessageExpiryInterval => 2,
            PropertyType::ContentType => 3,
            PropertyType::ResponseTopic => 8,
            PropertyType::CorrelationData => 9,
            PropertyType::SubscriptionIdentifier => 11,
            PropertyType::SessionExpiryInterval => 17,
            PropertyType::AssignedClientIdentifier => 18,
            PropertyType::ServerKeepAlive => 19,
            PropertyType::AuthenticationMethod => 21,
            PropertyType::AuthenticationData => 22,
            PropertyType::RequestProblemInformation => 23,
            PropertyType::WillDelayInterval => 24,
            PropertyType::RequestResponseInformation => 25,
            PropertyType::ResponseInformation => 26,
            PropertyType::ServerReference => 28,
            PropertyType::ReasonString => 31,
            PropertyType::ReceiveMaximum => 33,
            PropertyType::TopicAliasMaximum => 34,
            PropertyType::TopicAlias => 35,
            PropertyType::MaximumQos => 36,
            PropertyType::RetainAvailable => 37,
            PropertyType::UserProperty => 38,
            PropertyType::MaximumPacketSize => 39,
            PropertyType::WildcardSubscriptionAvailable => 40,
            PropertyType::SubscriptionIdentifierAvailable => 41,
            PropertyType::SharedSubscriptionAvailable => 42,
        }
    }

    /// Decodes a property type from its identifier.
    pub fn from_code(value: u8) -> (r: Result<PropertyType, Error>)
        ensures
            r == PropertyType::spec_from_code(value),
    {
        let property = match value {
            1 => PropertyType::PayloadFormatIndicator,
            2 => PropertyType::MessageExpiryInterval,
            3 => PropertyType::ContentType,
            8 => PropertyType::ResponseTopic,
            9 => PropertyType::CorrelationData,
            11 => PropertyType::SubscriptionIdentifier,
            17 => PropertyType::SessionExpiryInterval,
            18 => PropertyType::AssignedClientIdentifier,
            19 => PropertyType::ServerKeepAlive,
            21 => PropertyType::AuthenticationMethod,
            22 => PropertyType::AuthenticationData,
            23 => PropertyType::RequestProblemInformation,
            24 => PropertyType::WillDelayInterval,
            25 => PropertyType::RequestResponseInformation,
            26 => PropertyType::ResponseInformation,
            28 => PropertyType::ServerReference,
            31 => PropertyType::ReasonString,
            33 => PropertyType::ReceiveMaximum,
            34 => PropertyType::TopicAliasMaximum,
            35 => PropertyType::TopicAlias,
            36 => PropertyType::MaximumQos,
            37 => PropertyType::RetainAvailable,
            38 => PropertyType::UserProperty,
            39 => PropertyType::MaximumPacketSize,
            40 => PropertyType::WildcardSubscriptionAvailable,
            41 => PropertyType::SubscriptionIdentifierAvailable,
            42 => PropertyType::SharedSubscriptionAvailable,
            num => return Err(Error::InvalidPropertyType(num)),
        };
        Ok(property)
    }
}

impl TryFrom<u8> for PropertyType {
    type Error = Error;

    fn try_from(value: u8) -> (r: Result<Self, Self::Error>)
        ensures
            r == PropertyType::spec_from_code(value),
    {
        PropertyType::from_code(value)
    }
}

impl vstd::std_specs::convert::TryFromSpecImpl<u8> for PropertyType {
    open spec fn obeys_try_from_spec() -> bool {
        true
    }

    open spec fn try_from_spec(v: u8) -> Result<Self, Self::Error> {
        PropertyType::spec_from_code(v)
    }
}

/// The type of a property.
pub open spec fn prop_type(p: PropertyModel) -> PropertyType {
    match p {
        PropertyModel::PayloadFormatIndicator(_) => PropertyType::PayloadFormatIndicator,
        PropertyModel::MessageExpiryInterval(_) => PropertyType::MessageExpiryInterval,
        PropertyModel::ContentType(_) => PropertyType::ContentType,
        PropertyModel::ResponseTopic(_) => PropertyType::ResponseTopic,
        PropertyModel::CorrelationData(_) => PropertyType::CorrelationData,
        PropertyModel::SubscriptionIdentifier{ .. } => PropertyType::SubscriptionIdentifier,
        PropertyModel::SessionExpiryInterval(_) => PropertyType::SessionExpiryInterval,
        PropertyModel::AssignedClientIdentifier(_) => PropertyType::AssignedClientIdentifier,
        PropertyModel::ServerKeepAlive(_) => PropertyType::ServerKeepAlive,
        PropertyModel::AuthenticationMethod(_) => PropertyType::AuthenticationMethod,
        PropertyModel::AuthenticationData(_) => PropertyType::AuthenticationData,
        PropertyModel::RequestProblemInformation(_) => PropertyType::RequestProblemInformation,
        PropertyModel::WillDelayInterval(_) => PropertyType::WillDelayInterval,
        PropertyModel::RequestResponseInformation(_) => PropertyType::RequestResponseInformation,
        PropertyModel::ResponseInformation(_) => PropertyType::ResponseInformation,
        PropertyModel::ServerReference(_) => PropertyType::ServerReference,
        PropertyModel::ReasonString(_) => PropertyType::ReasonString,
        PropertyModel::ReceiveMaximum(_) => PropertyType::ReceiveMaximum,
        PropertyModel::TopicAliasMaximum(_) => PropertyType::TopicAliasMaximum,
        PropertyModel::TopicAlias(_) => PropertyType::TopicAlias,
        PropertyModel::MaximumQos(_) => PropertyType::MaximumQos,
        PropertyModel::RetainAvailable(_) => PropertyType::RetainAvailable,
        PropertyModel::UserProperty{ .. } => PropertyType::UserProperty,
        PropertyModel::MaximumPacketSize(_) => PropertyType::MaximumPacketSize,
        PropertyModel::WildcardSubscriptionAvailable(_) => PropertyType::WildcardSubscriptionAvailable,
        PropertyModel::SubscriptionIdentifierAvailable(_) => PropertyType::SubscriptionIdentifierAvailable,
        PropertyModel::SharedSubscriptionAvailable(_) => PropertyType::SharedSubscriptionAvailable,
    }
}

/// The number of bytes of the value of a property, as the declared property
/// length counts them: a subscription identifier counts the length it was read
/// with.
pub open spec fn prop_len(p: PropertyModel) -> nat {
    match p {
        PropertyModel::PayloadFormatIndicator(_) => 1,
        PropertyModel::MessageExpiryInterval(_) => 4,
        PropertyModel::ContentType(s) => 2 + utf8_len(s),
        PropertyModel::ResponseTopic(s) => 2 + utf8_len(s),
        PropertyModel::CorrelationData(b) => 2 + b.len(),
        PropertyModel::SubscriptionIdentifier { value, length } => length,
        PropertyModel::SessionExpiryInterval(_) => 4,
        PropertyModel::AssignedClientIdentifier(s) => 2 + utf8_len(s),
        PropertyModel::ServerKeepAlive(_) => 2,
        PropertyModel::AuthenticationMethod(s) => 2 + utf8_len(s),
        PropertyModel::AuthenticationData(b) => 2 + b.len(),
        PropertyModel::RequestProblemInformation(_) => 1,
        PropertyModel::WillDelayInterval(_) => 4,
        PropertyModel::RequestResponseInformation(_) => 1,
        PropertyModel::ResponseInformation(s) => 2 + utf8_len(s),
        PropertyModel::ServerReference(s) => 2 + utf8_len(s),
        PropertyModel::ReasonString(s) => 2 + utf8_len(s),
        PropertyModel::ReceiveMaximum(_) => 2,
        PropertyModel::TopicAliasMaximum(_) => 2,
        PropertyModel::TopicAlias(_) => 2,
        PropertyModel::MaximumQos(_) => 1,
        PropertyModel::RetainAvailable(_) => 1,
        PropertyModel::UserProperty { name, value } => 2 + utf8_len(name) + 2 + utf8_len(value),
        PropertyModel::MaximumPacketSize(_) => 4,
        PropertyModel::WildcardSubscriptionAvailable(_) => 1,
        PropertyModel::SubscriptionIdentifierAvailable(_) => 1,
        PropertyModel::SharedSubscriptionAvailable(_) => 1,
    }
}

/// The bytes of the value of a property on the wire.
pub open spec fn prop_value_bytes(p: PropertyModel) -> Seq<u8> {
    match p {
        PropertyModel::PayloadFormatIndicator(v) => seq![v],
        PropertyModel::MessageExpiryInterval(v) => be32(v),
        PropertyModel::ContentType(s) => mqtt_string(s),
        PropertyModel::ResponseTopic(s) => mqtt_string(s),
        PropertyModel::CorrelationData(b) => mqtt_bytes(b),
        PropertyModel::SubscriptionIdentifier { value, length } => varint_bytes(value),
        PropertyModel::SessionExpiryInterval(v) => be32(v),
        PropertyModel::AssignedClientIdentifier(s) => mqtt_string(s),
        PropertyModel::ServerKeepAlive(v) => be16(v),
        PropertyModel::AuthenticationMethod(s) => mqtt_string(s),
        PropertyModel::AuthenticationData(b) => mqtt_bytes(b),
        PropertyModel::RequestProblemInformation(v) => seq![if v { 1u8 } else { 0u8 }],
        PropertyModel::WillDelayInterval(v) => be32(v),
        PropertyModel::RequestResponseInformation(v) => seq![if v { 1u8 } else { 0u8 }],
        PropertyModel::ResponseInformation(s) => mqtt_string(s),
        PropertyModel::ServerReference(s) => mqtt_string(s),
        PropertyModel::ReasonString(s) => mqtt_string(s),
        PropertyModel::ReceiveMaximum(v) => be16(v),
        PropertyModel::TopicAliasMaximum(v) => be16(v),
        PropertyModel::TopicAlias(v) => be16(v),
        PropertyModel::MaximumQos(v) => seq![v],
        PropertyModel::RetainAvailable(v) => seq![if v { 1u8 } else { 0u8 }],
        PropertyModel::UserProperty { name, value } => mqtt_string(name) + mqtt_string(value),
        PropertyModel::MaximumPacketSize(v) => be32(v),
        PropertyModel::WildcardSubscriptionAvailable(v) => seq![if v { 1u8 } else { 0u8 }],
        PropertyModel::SubscriptionIdentifierAvailable(v) => seq![if v { 1u8 } else { 0u8 }],
        PropertyModel::SharedSubscriptionAvailable(v) => seq![if v { 1u8 } else { 0u8 }],
    }
}

/// Reading the value of a property of type `t`.
#[verifier::opaque]
pub open spec fn p_prop_value(t: PropertyType, s: Seq<u8>) -> Result<(PropertyModel, Seq<u8>), Error> {
    match t {
        PropertyType::PayloadFormatIndicator => with_u8(s, |v: u8| PropertyModel::PayloadFormatIndicator(v)),
        PropertyType::MessageExpiryInterval => with_u32(s, |v: u32| PropertyModel::MessageExpiryInterval(v)),
        PropertyType::ContentType => with_string(s, |v: Seq<char>| PropertyModel::ContentType(v)),
        PropertyType::ResponseTopic => with_string(s, |v: Seq<char>| PropertyModel::ResponseTopic(v)),
        PropertyType::CorrelationData => with_bytes(s, |v: Seq<u8>| PropertyModel::CorrelationData(v)),
        PropertyType::SubscriptionIdentifier => match varint_frame(s, 0) {
            Ok(n) => Ok((PropertyModel::SubscriptionIdentifier { value: varint_value(s, n), length: n }, s.skip(n as int))),
            Err(e) => Err(e),
        },
        PropertyType::SessionExpiryInterval => with_u32(s, |v: u32| PropertyModel::SessionExpiryInterval(v)),
        PropertyType::AssignedClientIdentifier => with_string(s, |v: Seq<char>| PropertyModel::AssignedClientIdentifier(v)),
        PropertyType::ServerKeepAlive => with_u16(s, |v: u16| PropertyModel::ServerKeepAlive(v)),
        PropertyType::AuthenticationMethod => with_string(s, |v: Seq<char>| PropertyModel::AuthenticationMethod(v)),
        PropertyType::AuthenticationData => with_bytes(s, |v: Seq<u8>| PropertyModel::AuthenticationData(v)),
        PropertyType::RequestProblemInformation => with_u8(s, |v: u8| PropertyModel::RequestProblemInformation(v != 0)),
        PropertyType::WillDelayInterval => with_u32(s, |v: u32| PropertyModel::WillDelayInterval(v)),
        PropertyType::RequestResponseInformation => with_u8(s, |v: u8| PropertyModel::RequestResponseInformation(v != 0)),
        PropertyType::ResponseInformation => with_string(s, |v: Seq<char>| PropertyModel::ResponseInformation(v)),
        PropertyType::ServerReference => with_string(s, |v: Seq<char>| PropertyModel::ServerReference(v)),
        PropertyType::ReasonString => with_string(s, |v: Seq<char>| PropertyModel::ReasonString(v)),
        PropertyType::ReceiveMaximum => with_u16(s, |v: u16| PropertyModel::ReceiveMaximum(v)),
        PropertyType::TopicAliasMaximum => with_u16(s, |v: u16| PropertyModel::TopicAliasMaximum(v)),
        PropertyType::TopicAlias => with_u16(s, |v: u16| PropertyModel::TopicAlias(v)),
        PropertyType::MaximumQos => with_u8(s, |v: u8| PropertyModel::MaximumQos(v)),
        PropertyType::RetainAvailable => with_u8(s, |v: u8| PropertyModel::RetainAvailable(v != 0)),
        PropertyType::UserProperty => match p_mqtt_string(s) {
            Err(e) => Err(e),
            Ok((name, r)) => with_string(r, |value: Seq<char>| PropertyModel::UserProperty { name, value }),
        },
        PropertyType::MaximumPacketSize => with_u32(s, |v: u32| PropertyModel::MaximumPacketSize(v)),
        PropertyType::WildcardSubscriptionAvailable => with_u8(s, |v: u8| PropertyModel::WildcardSubscriptionAvailable(v != 0)),
        PropertyType::SubscriptionIdentifierAvailable => with_u8(s, |v: u8| PropertyModel::SubscriptionIdentifierAvailable(v != 0)),
        PropertyType::SharedSubscriptionAvailable => with_u8(s, |v: u8| PropertyModel::SharedSubscriptionAvailable(v != 0)),
    }
}

/// Reads the value of a property of type `t`.
fn read_value(t: PropertyType, stream: &mut Bytes) -> (r: Result<Property, Error>)
    ensures
        match p_prop_value(t, bytes_view(*old(stream))) {
            Ok((m, rest)) => r matches Ok(p) && p@ == m && bytes_view(*final(stream)) == rest,
            Err(e) => r == Err::<Property, Error>(e),
        },
{
    reveal(p_prop_value);
    let property = match t {
        PropertyType::PayloadFormatIndicator => Property::PayloadFormatIndicator(read_u8(stream)?),
        PropertyType::MessageExpiryInterval => Property::MessageExpiryInterval(read_u32(stream)?),
        PropertyType::ContentType => Property::ContentType(read_mqtt_string(stream)?),
        PropertyType::ResponseTopic => Property::ResponseTopic(read_mqtt_string(stream)?),
        PropertyType::CorrelationData => Property::CorrelationData(read_mqtt_bytes(stream)?),
        PropertyType::SubscriptionIdentifier => {
            proof {
                lemma_varint_frame_bound(bytes_view(*stream), 0);
            }
            let varint = VarInt::read(bytes_as_slice(stream))?;
            advance(stream, varint.length());
            Property::SubscriptionIdentifier(varint)
        },
        PropertyType::SessionExpiryInterval => Property::SessionExpiryInterval(read_u32(stream)?),
        PropertyType::AssignedClientIdentifier => Property::AssignedClientIdentifier(read_mqtt_string(stream)?),
        PropertyType::ServerKeepAlive => Property::ServerKeepAlive(read_u16(stream)?),
        PropertyType::AuthenticationMethod => Property::AuthenticationMethod(read_mqtt_string(stream)?),
        PropertyType::AuthenticationData => Property::AuthenticationData(read_mqtt_bytes(stream)?),
        PropertyType::RequestProblemInformation => Property::RequestProblemInformation(read_u8(stream)? != 0),
        PropertyType::WillDelayInterval => Property::WillDelayInterval(read_u32(stream)?),
        PropertyType::RequestResponseInformation => Property::RequestResponseInformation(read_u8(stream)? != 0),
        PropertyType::ResponseInformation => Property::ResponseInformation(read_mqtt_string(stream)?),
        PropertyType::ServerReference => Property::ServerReference(read_mqtt_string(stream)?),
        PropertyType::ReasonString => Property::ReasonString(read_mqtt_string(stream)?),
        PropertyType::ReceiveMaximum => Property::ReceiveMaximum(read_u16(stream)?),
        PropertyType::TopicAliasMaximum => Property::TopicAliasMaximum(read_u16(stream)?),
        PropertyType::TopicAlias => Property::TopicAlias(read_u16(stream)?),
        PropertyType::MaximumQos => Property::MaximumQos(read_u8(stream)?),
        PropertyType::RetainAvailable => Property::RetainAvailable(read_u8(stream)? != 0),
        PropertyType::UserProperty => {
            let name = read_mqtt_string(stream)?;
            let value = read_mqtt_string(stream)?;
            Property::UserProperty { name, value }
        },
        PropertyType::MaximumPacketSize => Property::MaximumPacketSize(read_u32(stream)?),
        PropertyType::WildcardSubscriptionAvailable => Property::WildcardSubscriptionAvailable(read_u8(stream)? != 0),
        PropertyType::SubscriptionIdentifierAvailable => Property::SubscriptionIdentifierAvailable(read_u8(stream)? != 0),
        PropertyType::SharedSubscriptionAvailable => Property::SharedSubscriptionAvailable(read_u8(stream)? != 0),
    };
    Ok(property)
}

/// Writes a property: its identifier, then its value.
fn write_property(property: &Property, stream: &mut BytesMut)
    requires
        room(bytes_mut_view(*old(stream)), prop_bytes(property@).len() as int),
    ensures
        bytes_mut_view(*final(stream)) == bytes_mut_view(*old(stream)) + prop_bytes(property@),
{
    let ghost start = bytes_mut_view(*stream);
    match property {
        Property::PayloadFormatIndicator(value) => {
            put_u8(stream, PropertyType::PayloadFormatIndicator.code());
            put_u8(stream, *value);
            proof {
                assert(bytes_mut_view(*stream) =~= start + prop_bytes(property@));
            }
        },
        Property::MessageExpiryInterval(value) => {
            put_u8(stream, PropertyType::MessageExpiryInterval.code());
            put_u32(stream, *value);
            proof {
                assert(bytes_mut_view(*stream) =~= start + prop_bytes(property@));
            }
        },
        Property::ContentType(value) => {
            put_u8(stream, PropertyType::ContentType.code());
            write_mqtt_string(stream, value.as_str());
            proof {
                assert(bytes_mut_view(*stream) =~= start + prop_bytes(property@));
            }
        },
        Property::ResponseTopic(value) => {
            put_u8(stream, PropertyType::ResponseTopic.code());
            write_mqtt_string(stream, value.as_str());
            proof {
                assert(bytes_mut_view(*stream) =~= start + prop_bytes(property@));
            }
        },
        Property::CorrelationData(value) => {
            put_u8(stream, PropertyType::CorrelationData.code());
            write_mqtt_bytes(stream, bytes_as_slice(value));
            proof {
                assert(bytes_mut_view(*stream) =~= start + prop_bytes(property@));
            }
        },
        Property::SubscriptionIdentifier(value) => {
            put_u8(stream, PropertyType::SubscriptionIdentifier.code());
            proof {
                use_type_invariant(value);
                value.lemma_inv();
                lemma_varint_bytes_len(value.spec_value());
            }
            value.write(stream);
            proof {
                assert(bytes_mut_view(*stream) =~= start + prop_bytes(property@));
            }
        },
        Property::SessionExpiryInterval(value) => {
            put_u8(stream, PropertyType::SessionExpiryInterval.code());
            put_u32(stream, *value);
            proof {
                assert(bytes_mut_view(*stream) =~= start + prop_bytes(property@));
            }
        },
        Property::AssignedClientIdentifier(value) => {
            put_u8(stream, PropertyType::AssignedClientIdentifier.code());
            write_mqtt_string(stream, value.as_str());
            proof {
                assert(bytes_mut_view(*stream) =~= start + prop_bytes(property@));
            }
        },
        Property::ServerKeepAlive(value) => {
            put_u8(stream, PropertyType::ServerKeepAlive.code());
            put_u16(stream, *value);
            proof {
                assert(bytes_mut_view(*stream) =~= start + prop_bytes(property@));
            }
        },
        Property::AuthenticationMethod(value) => {
            put_u8(stream, PropertyType::AuthenticationMethod.code());
            write_mqtt_string(stream, value.as_str());
            proof {
                assert(bytes_mut_view(*stream) =~= start + prop_bytes(property@));
            }
        },
        Property::AuthenticationData(value) => {
            put_u8(stream, PropertyType::AuthenticationData.code());
            write_mqtt_bytes(stream, bytes_as_slice(value));
            proof {
                assert(bytes_mut_view(*stream) =~= start + prop_bytes(property@));
            }
        },
        Property::RequestProblemInformation(value) => {
            put_u8(stream, PropertyType::RequestProblemInformation.code());
            put_u8(stream, if *value { 1 } else { 0 });
            proof {
                assert(bytes_mut_view(*stream) =~= start + prop_bytes(property@));
            }
        },
        Property::WillDelayInterval(value) => {
            put_u8(stream, PropertyType::WillDelayInterval.code());
            put_u32(stream, *value);
            proof {
                assert(bytes_mut_view(*stream) =~= start + prop_bytes(property@));
            }
        },
        Property::RequestResponseInformation(value) => {
            put_u8(stream, PropertyType::RequestResponseInformation.code());
            put_u8(stream, if *value { 1 } else { 0 });
            proof {
                assert(bytes_mut_view(*stream) =~= start + prop_bytes(property@));
            }
        },
        Property::ResponseInformation(value) => {
            put_u8(stream, PropertyType::ResponseInformation.code());
            write_mqtt_string(stream, value.as_str());
            proof {
                assert(bytes_mut_view(*stream) =~= start + prop_bytes(property@));
            }
        },
        Property::ServerReference(value) => {
            put_u8(stream, PropertyType::ServerReference.code());
            write_mqtt_string(stream, value.as_str());
            proof {
                assert(bytes_mut_view(*stream) =~= start + prop_bytes(property@));
            }
        },
        Property::ReasonString(value) => {
            put_u8(stream, PropertyType::ReasonString.code());
            write_mqtt_string(stream, value.as_str());
            proof {
                assert(bytes_mut_view(*stream) =~= start + prop_bytes(property@));
            }
        },
        Property::ReceiveMaximum(value) => {
            put_u8(stream, PropertyType::ReceiveMaximum.code());
            put_u16(stream, *value);
            proof {
                assert(bytes_mut_view(*stream) =~= start + prop_bytes(property@));
            }
        },
        Property::TopicAliasMaximum(value) => {
            put_u8(stream, PropertyType::TopicAliasMaximum.code());
            put_u16(stream, *value);
            proof {
                assert(bytes_mut_view(*stream) =~= start + prop_bytes(property@));
            }
        },
        Property::TopicAlias(value) => {
            put_u8(stream, PropertyType::TopicAlias.code());
            put_u16(stream, *value);
            proof {
                assert(bytes_mut_view(*stream) =~= start + prop_bytes(property@));
            }
        },
        Property::MaximumQos(value) => {
            put_u8(stream, PropertyType::MaximumQos.code());
            put_u8(stream, *value);
            proof {
                assert(bytes_mut_view(*stream) =~= start + prop_bytes(property@));
            }
        },
        Property::RetainAvailable(value) => {
            put_u8(stream, PropertyType::RetainAvailable.code());
            put_u8(stream, if *value { 1 } else { 0 });
            proof {
                assert(bytes_mut_view(*stream) =~= start + prop_bytes(property@));
            }
        },
        Property::UserProperty{ name, value } => {
            put_u8(stream, PropertyType::UserProperty.code());
            write_mqtt_string(stream, name.as_str());
            write_mqtt_string(stream, value.as_str());
            proof {
                assert(bytes_mut_view(*stream) =~= start + prop_bytes(property@));
            }
        },
        Property::MaximumPacketSize(value) => {
            put_u8(stream, PropertyType::MaximumPacketSize.code());
            put_u32(stream, *value);
            proof {
                assert(bytes_mut_view(*stream) =~= start + prop_bytes(property@));
            }
        },
        Property::WildcardSubscriptionAvailable(value) => {
            put_u8(stream, PropertyType::WildcardSubscriptionAvailable.code());
            put_u8(stream, if *value { 1 } else { 0 });
            proof {
                assert(bytes_mut_view(*stream) =~= start + prop_bytes(property@));
            }
        },
        Property::SubscriptionIdentifierAvailable(value) => {
            put_u8(stream, PropertyType::SubscriptionIdentifierAvailable.code());
            put_u8(stream, if *value { 1 } else { 0 });
            proof {
                assert(bytes_mut_view(*stream) =~= start + prop_bytes(property@));
            }
        },
        Property::SharedSubscriptionAvailable(value) => {
            put_u8(stream, PropertyType::SharedSubscriptionAvailable.code());
            put_u8(stream, if *value { 1 } else { 0 });
            proof {
                assert(bytes_mut_view(*stream) =~= start + prop_bytes(property@));
            }
        },
    }
}

impl Property {
    /// The number of bytes of the value. The count must fit a `usize`.
    pub fn len(&self) -> (n: usize)
        requires
            prop_len(self@) <= usize::MAX,
        ensures
            n == prop_len(self@),
    {
        match self {
            Property::PayloadFormatIndicator(_) => 1,
            Property::MessageExpiryInterval(_) => 4,
            Property::ContentType(v) => 2 + str_len(v),
            Property::ResponseTopic(v) => 2 + str_len(v),
            Property::CorrelationData(v) => 2 + bytes_len(v),
            Property::SubscriptionIdentifier(v) => v.length(),
            Property::SessionExpiryInterval(_) => 4,
            Property::AssignedClientIdentifier(v) => 2 + str_len(v),
            Property::ServerKeepAlive(_) => 2,
            Property::AuthenticationMethod(v) => 2 + str_len(v),
            Property::AuthenticationData(v) => 2 + bytes_len(v),
            Property::RequestProblemInformation(_) => 1,
            Property::WillDelayInterval(_) => 4,
            Property::RequestResponseInformation(_) => 1,
            Property::ResponseInformation(v) => 2 + str_len(v),
            Property::ServerReference(v) => 2 + str_len(v),
            Property::ReasonString(v) => 2 + str_len(v),
            Property::ReceiveMaximum(_) => 2,
            Property::TopicAliasMaximum(_) => 2,
            Property::TopicAlias(_) => 2,
            Property::MaximumQos(_) => 1,
            Property::RetainAvailable(_) => 1,
            Property::UserProperty{ name, value } => 2 + str_len(name) + 2 + str_len(value),
            Property::MaximumPacketSize(_) => 4,
            Property::WildcardSubscriptionAvailable(_) => 1,
            Property::SubscriptionIdentifierAvailable(_) => 1,
            Property::SharedSubscriptionAvailable(_) => 1,
        }
    }

    /// Whether the number of bytes of the value fits a `usize`.
    fn len_fits(&self) -> (r: bool)
        ensures
            r == (prop_len(self@) <= usize::MAX),
    {
        match self {
            Property::ContentType(v) => str_len(v) <= usize::MAX - 2,
            Property::ResponseTopic(v) => str_len(v) <= usize::MAX - 2,
            Property::AssignedClientIdentifier(v) => str_len(v) <= usize::MAX - 2,
            Property::AuthenticationMethod(v) => str_len(v) <= usize::MAX - 2,
            Property::ResponseInformation(v) => str_len(v) <= usize::MAX - 2,
            Property::ServerReference(v) => str_len(v) <= usize::MAX - 2,
            Property::ReasonString(v) => str_len(v) <= usize::MAX - 2,
            Property::CorrelationData(v) => bytes_len(v) <= usize::MAX - 2,
            Property::AuthenticationData(v) => bytes_len(v) <= usize::MAX - 2,
            Property::UserProperty{ name, value } => {
                let a = str_len(name);
                a <= usize::MAX - 4 && str_len(value) <= usize::MAX - 4 - a
            },
            // an identifier takes at most four bytes
            Property::SubscriptionIdentifier(v) => v.length() <= 4,
            _ => true,
        }
    }
}

/// `x`, or one more than the largest remaining length if `x` is larger.
pub open spec fn capped(x: nat) -> nat {
    if x > varint_max() {
        varint_max() + 1
    } else {
        x
    }
}

/// Adds two lengths, capping the sum as [capped] does.
pub(crate) fn cap_add(a: usize, b: usize) -> (r: usize)
    ensures
        r == capped(a as nat + b as nat),
{
    if a > 268_435_455 || b > 268_435_455 || a + b > 268_435_455 {
        268_435_456
    } else {
        a + b
    }
}

pub open spec fn with_u8(s: Seq<u8>, f: spec_fn(u8) -> PropertyModel) -> Result<(PropertyModel, Seq<u8>), Error> {
    match p_u8(s) {
        Ok((v, r)) => Ok((f(v), r)),
        Err(e) => Err(e),
    }
}

pub open spec fn with_u16(s: Seq<u8>, f: spec_fn(u16) -> PropertyModel) -> Result<(PropertyModel, Seq<u8>), Error> {
    match p_u16(s) {
        Ok((v, r)) => Ok((f(v), r)),
        Err(e) => Err(e),
    }
}

pub open spec fn with_u32(s: Seq<u8>, f: spec_fn(u32) -> PropertyModel) -> Result<(PropertyModel, Seq<u8>), Error> {
    match p_u32(s) {
        Ok((v, r)) => Ok((f(v), r)),
        Err(e) => Err(e),
    }
}

pub open spec fn with_string(s: Seq<u8>, f: spec_fn(Seq<char>) -> PropertyModel) -> Result<(PropertyModel, Seq<u8>), Error> {
    match p_mqtt_string(s) {
        Ok((v, r)) => Ok((f(v), r)),
        Err(e) => Err(e),
    }
}

pub open spec fn with_bytes(s: Seq<u8>, f: spec_fn(Seq<u8>) -> PropertyModel) -> Result<(PropertyModel, Seq<u8>), Error> {
    match p_mqtt_bytes(s) {
        Ok((v, r)) => Ok((f(v), r)),
        Err(e) => Err(e),
    }
}

/// A property on the wire: its identifier, then its value.
pub open spec fn prop_bytes(p: PropertyModel) -> Seq<u8> {
    seq![prop_type(p).spec_code()] + prop_value_bytes(p)
}

/// Every property on the wire begins with its identifier, the fixed value
/// of MQTT 5.0 for its kind.
pub proof fn lemma_prop_ids(p: PropertyModel)
    ensures
        prop_bytes(p).len() > 0,
        prop_bytes(p)[0] == (match p {
            PropertyModel::PayloadFormatIndicator(_) => 0x01u8,
            PropertyModel::MessageExpiryInterval(_) => 0x02u8,
            PropertyModel::ContentType(_) => 0x03u8,
            PropertyModel::ResponseTopic(_) => 0x08u8,
            PropertyModel::CorrelationData(_) => 0x09u8,
            PropertyModel::SubscriptionIdentifier{ .. } => 0x0Bu8,
            PropertyModel::SessionExpiryInterval(_) => 0x11u8,
            PropertyModel::AssignedClientIdentifier(_) => 0x12u8,
            PropertyModel::ServerKeepAlive(_) => 0x13u8,
            PropertyModel::AuthenticationMethod(_) => 0x15u8,
            PropertyModel::AuthenticationData(_) => 0x16u8,
            PropertyModel::RequestProblemInformation(_) => 0x17u8,
            PropertyModel::WillDelayInterval(_) => 0x18u8,
            PropertyModel::RequestResponseInformation(_) => 0x19u8,
            PropertyModel::ResponseInformation(_) => 0x1Au8,
            PropertyModel::ServerReference(_) => 0x1Cu8,
            PropertyModel::ReasonString(_) => 0x1Fu8,
            PropertyModel::ReceiveMaximum(_) => 0x21u8,
            PropertyModel::TopicAliasMaximum(_) => 0x22u8,
            PropertyModel::TopicAlias(_) => 0x23u8,
            PropertyModel::MaximumQos(_) => 0x24u8,
            PropertyModel::RetainAvailable(_) => 0x25u8,
            PropertyModel::UserProperty{ .. } => 0x26u8,
            PropertyModel::MaximumPacketSize(_) => 0x27u8,
            PropertyModel::WildcardSubscriptionAvailable(_) => 0x28u8,
            PropertyModel::SubscriptionIdentifierAvailable(_) => 0x29u8,
            PropertyModel::SharedSubscriptionAvailable(_) => 0x2Au8,
        }),
{
}

/// A property that is read is of the kind its identifier byte names, one
/// that the allow list lists: its own bytes begin with that same byte.
pub proof fn lemma_read_property_id(s: Seq<u8>, allow: Seq<PropertyType>)
    ensures
        p_property(s, allow) matches Ok((p, _)) ==> {
            &&& s.len() > 0
            &&& s[0] == prop_bytes(p)[0]
            &&& allow.contains(prop_type(p))
        },
{
    PropertyType::lemma_wire_codes();
    if let Ok((id, r)) = p_u8(s) {
        if let Ok(t) = PropertyType::spec_from_code(id) {
            lemma_p_prop_value_type(t, r);
        }
    }
}

/// The declared length of a list of properties: an identifier byte and the
/// value length of each.
pub open spec fn props_len(ps: Seq<PropertyModel>) -> nat
    decreases ps.len(),
{
    if ps.len() == 0 {
        0
    } else {
        1 + prop_len(ps[0]) + props_len(ps.drop_first())
    }
}

/// The properties of a list, one after the other.
pub open spec fn props_body(ps: Seq<PropertyModel>) -> Seq<u8>
    decreases ps.len(),
{
    if ps.len() == 0 {
        Seq::empty()
    } else {
        prop_bytes(ps[0]) + props_body(ps.drop_first())
    }
}

/// A list of properties on the wire: the declared length as a variable byte
/// integer, then the properties.
pub open spec fn props_bytes(ps: Seq<PropertyModel>) -> Seq<u8> {
    varint_bytes(props_len(ps)) + props_body(ps)
}

/// Whether every subscription identifier in the list has the length of the
/// shortest encoding of its value, as every one made by `VarInt::new` has.
pub open spec fn props_shortest(ps: Seq<PropertyModel>) -> bool {
    forall|i: int| 0 <= i < ps.len() ==> (#[trigger] ps[i] matches PropertyModel::SubscriptionIdentifier { value, length } ==> length == varint_len(value) && value <= varint_max())
}

/// Whether every property in the list may stand where `allow` lists the allowed types.
pub open spec fn props_allowed(ps: Seq<PropertyModel>, allow: Seq<PropertyType>) -> bool {
    forall|i: int| 0 <= i < ps.len() ==> allow.contains(prop_type(#[trigger] ps[i]))
}

/// Whether every string and binary value in the list fits its two-byte length.
pub open spec fn props_fit(ps: Seq<PropertyModel>) -> bool {
    forall|i: int| 0 <= i < ps.len() ==> prop_fits(#[trigger] ps[i])
}

/// Whether the string and binary values of a property fit their two-byte lengths.
pub open spec fn prop_fits(p: PropertyModel) -> bool {
    match p {
        PropertyModel::ContentType(s) => utf8_len(s) <= 65535,
        PropertyModel::ResponseTopic(s) => utf8_len(s) <= 65535,
        PropertyModel::CorrelationData(b) => b.len() <= 65535,
        PropertyModel::AssignedClientIdentifier(s) => utf8_len(s) <= 65535,
        PropertyModel::AuthenticationMethod(s) => utf8_len(s) <= 65535,
        PropertyModel::AuthenticationData(b) => b.len() <= 65535,
        PropertyModel::ResponseInformation(s) => utf8_len(s) <= 65535,
        PropertyModel::ServerReference(s) => utf8_len(s) <= 65535,
        PropertyModel::ReasonString(s) => utf8_len(s) <= 65535,
        PropertyModel::UserProperty { name, value } => utf8_len(name) <= 65535 && utf8_len(value) <= 65535,
        _ => true,
    }
}

/// Reading one property: its identifier, which must name a type that
/// `allow` lists, then its value.
pub open spec fn p_property(s: Seq<u8>, allow: Seq<PropertyType>) -> Result<(PropertyModel, Seq<u8>), Error> {
    match p_u8(s) {
        Err(e) => Err(e),
        Ok((id, r)) => match PropertyType::spec_from_code(id) {
            Err(e) => Err(e),
            Ok(t) => if !allow.contains(t) {
                Err(Error::InvalidPropertyType(t.spec_code()))
            } else {
                p_prop_value(t, r)
            },
        },
    }
}

/// Reading properties while fewer than `remaining` bytes of the declared
/// length have been read.
pub open spec fn p_props_items(s: Seq<u8>, allow: Seq<PropertyType>, remaining: int) -> Result<(Seq<PropertyModel>, Seq<u8>), Error>
    decreases s.len(),
{
    if remaining <= 0 {
        Ok((Seq::empty(), s))
    } else {
        match p_property(s, allow) {
            Err(e) => Err(e),
            Ok((p, r)) => if r.len() < s.len() {
                match p_props_items(r, allow, remaining - (s.len() - r.len())) {
                    Ok((ps, r2)) => Ok((seq![p] + ps, r2)),
                    Err(e) => Err(e),
                }
            } else {
                Err(Error::MalformedPacket)
            },
        }
    }
}

/// Reading a list of properties: the declared length, then properties until
/// that many bytes have been read.
pub open spec fn p_properties(s: Seq<u8>, allow: Seq<PropertyType>) -> Result<(Seq<PropertyModel>, Seq<u8>), Error> {
    match varint_frame(s, 0) {
        Err(e) => Err(e),
        Ok(n) => p_props_items(s.skip(n as int), allow, varint_value(s, n) as int),
    }
}

/// The result of reading properties after `ms` were read.
pub open spec fn after(ms: Seq<PropertyModel>, r: Result<(Seq<PropertyModel>, Seq<u8>), Error>) -> Result<(Seq<PropertyModel>, Seq<u8>), Error> {
    match r {
        Ok((ps, rest)) => Ok((ms + ps, rest)),
        Err(e) => Err(e),
    }
}

pub proof fn lemma_props_push(ps: Seq<PropertyModel>, p: PropertyModel)
    ensures
        props_len(ps.push(p)) == props_len(ps) + 1 + prop_len(p),
        props_body(ps.push(p)) == props_body(ps) + prop_bytes(p),
    decreases ps.len(),
{
    assert(ps.push(p)[0] == if ps.len() == 0 { p } else { ps[0] });
    if ps.len() == 0 {
        assert(ps.push(p).drop_first() =~= Seq::<PropertyModel>::empty());
        assert(props_body(ps.push(p).drop_first()) == Seq::<u8>::empty());
        assert(props_len(ps.push(p).drop_first()) == 0);
        assert(props_body(ps.push(p)) =~= props_body(ps) + prop_bytes(p));
    } else {
        lemma_props_push(ps.drop_first(), p);
        assert(ps.push(p).drop_first() =~= ps.drop_first().push(p));
        assert(props_body(ps.push(p)) =~= props_body(ps) + prop_bytes(p));
    }
}

pub proof fn lemma_props_len_prefix(ps: Seq<PropertyModel>, i: int)
    requires
        0 <= i <= ps.len(),
    ensures
        props_len(ps.take(i)) <= props_len(ps),
    decreases ps.len() - i,
{
    if i < ps.len() {
        lemma_props_len_prefix(ps, i + 1);
        lemma_props_push(ps.take(i), ps[i]);
        assert(ps.take(i + 1) =~= ps.take(i).push(ps[i]));
    } else {
        assert(ps.take(i) =~= ps);
    }
}

/// A property value that is read is followed by what is left of the input.
pub proof fn lemma_p_prop_value_shrinks(t: PropertyType, s: Seq<u8>)
    ensures
        shrinks(s, p_prop_value(t, s)),
{
    reveal(p_prop_value);
    lemma_varint_frame_bound(s, 0);
    lemma_shrinks(s);
    if let Ok((_, r1)) = p_mqtt_string(s) {
        lemma_shrinks(r1);
        if let Ok((_, r2)) = p_mqtt_string(r1) {
            lemma_shrinks_trans(s, r1, r2);
        }
    }
    if let Ok(n) = varint_frame(s, 0) {
        assert(s.skip(n as int) =~= s.skip(s.len() - s.skip(n as int).len()));
    }
}

/// A property value read as of type `t` is a property of that type.
pub proof fn lemma_p_prop_value_type(t: PropertyType, s: Seq<u8>)
    ensures
        p_prop_value(t, s) matches Ok((p, _)) ==> prop_type(p) == t,
{
    reveal(p_prop_value);
}

/// Reading properties item by item, when it succeeds, takes only properties
/// of allowed types and leaves a suffix of its input.
proof fn lemma_props_items_shape(s: Seq<u8>, allow: Seq<PropertyType>, remaining: int)
    ensures
        p_props_items(s, allow, remaining) matches Ok((ps, rest)) ==> {
            &&& shrinks(s, p_props_items(s, allow, remaining))
            &&& forall|i: int| 0 <= i < ps.len() ==> allow.contains(#[trigger] prop_type(ps[i]))
        },
    decreases s.len(),
{
    if remaining <= 0 {
        assert(s.skip(0) =~= s);
    } else {
        lemma_shrinks(s);
        if let Ok((id, r1)) = p_u8(s) {
            if let Ok(t) = PropertyType::spec_from_code(id) {
                lemma_p_prop_value_shrinks(t, r1);
                lemma_p_prop_value_type(t, r1);
                if let Ok((p, r)) = p_property(s, allow) {
                    lemma_shrinks_trans(s, r1, r);
                    if r.len() < s.len() {
                        lemma_props_items_shape(r, allow, remaining - (s.len() - r.len()));
                        if let Ok((ps, r2)) = p_props_items(r, allow, remaining - (s.len() - r.len())) {
                            lemma_shrinks_trans(s, r, r2);
                            let all = seq![p] + ps;
                            assert(allow.contains(prop_type(p)));
                            assert forall|i: int| 0 <= i < all.len() implies allow.contains(
                                #[trigger] prop_type(all[i]),
                            ) by {
                                if i > 0 {
                                    assert(all[i] == ps[i - 1]);
                                }
                            }
                        }
                    }
                }
            }
        }
    }
}

/// A successful read of properties takes only properties whose types the
/// allow list lists, and leaves a proper suffix of its input: at least the
/// declared length has been read.
pub proof fn lemma_properties_shape(s: Seq<u8>, allow: Seq<PropertyType>)
    ensures
        p_properties(s, allow) matches Ok((ps, rest)) ==> {
            &&& rest.len() < s.len()
            &&& rest == s.skip(s.len() - rest.len())
            &&& forall|i: int| 0 <= i < ps.len() ==> allow.contains(#[trigger] prop_type(ps[i]))
        },
{
    lemma_varint_frame_bound(s, 0);
    if let Ok(n) = varint_frame(s, 0) {
        let s1 = s.skip(n as int);
        lemma_props_items_shape(s1, allow, varint_value(s, n) as int);
        if let Ok((ps, rest)) = p_props_items(s1, allow, varint_value(s, n) as int) {
            assert(s1 =~= s.skip(s.len() - s1.len()));
            lemma_shrinks_trans(s, s1, rest);
        }
    }
}

/// The encoding of a property has an identifier byte and at most as many
/// value bytes as its declared length counts; as many, when it is a
/// subscription identifier with the length of its shortest encoding.
pub proof fn lemma_prop_bytes_len(p: PropertyModel)
    requires
        p matches PropertyModel::SubscriptionIdentifier { value, length } ==> 1 <= length <= 4 && value < pow128(length),
    ensures
        prop_bytes(p).len() <= 1 + prop_len(p),
        (p matches PropertyModel::SubscriptionIdentifier { value, length } ==> length == varint_len(value))
            ==> prop_bytes(p).len() == 1 + prop_len(p),
{
    if let PropertyModel::SubscriptionIdentifier { value, length } = p {
        reveal_with_fuel(pow128, 5);
        lemma_varint_bytes_len(value);
    }
}

/// Checks whether a property type is in a list.
fn allowed(allow_list: &[PropertyType], t: PropertyType) -> (r: bool)
    ensures
        r == allow_list@.contains(t),
{
    let mut i: usize = 0;
    while i < allow_list.len()
        invariant
            0 <= i <= allow_list@.len(),
            forall|j: int| 0 <= j < i ==> allow_list@[j] != t,
        decreases allow_list@.len() - i,
    {
        if allow_list[i] == t {
            return true;
        }
        i += 1;
    }
    false
}

/// A set of [Property] values, contained in the variable header of a packet.
///
/// This abstracts over the underlying property collection, only exposing an interface
/// that allows for extending the set and for iteration over the individual properties.
#[derive(Debug, Default, Clone, PartialEq, Eq)]
pub struct Properties(Vec<Property>);

impl View for Properties {
    type V = Seq<PropertyModel>;

    closed spec fn view(&self) -> Seq<PropertyModel> {
        self.0@.map_values(|p: Property| p@)
    }
}

impl Properties {
    /// Create a new empty [Properties] instance.
    pub fn new() -> (r: Self)
        ensures
            r@ == Seq::<PropertyModel>::empty(),
    {
        let r = Properties(Vec::new());
        assert(r@ =~= Seq::<PropertyModel>::empty());
        r
    }

    /// Create a new [Properties] instance containing a list of [Property]'s.
    pub fn from_vec(properties: Vec<Property>) -> (r: Self)
        ensures
            r@ == properties@.map_values(|p: Property| p@),
    {
        Properties(properties)
    }

    /// Add a property to the list of properties.
    pub fn add(&mut self, property: Property)
        ensures
            final(self)@ == old(self)@.push(property@),
    {
        self.0.push(property);
        proof {
            assert(self@ =~= old(self)@.push(property@));
        }
    }

    /// Whether there are no properties.
    pub fn is_empty(&self) -> (r: bool)
        ensures
            r == (self@.len() == 0),
    {
        self.0.len() == 0
    }

    /// Reads the properties of a packet, allowing only the types `allow_list` lists.
    pub fn read(stream: &mut Bytes, allow_list: &[PropertyType]) -> (r: Result<Self, Error>)
        ensures
            match p_properties(bytes_view(*old(stream)), allow_list@) {
                Ok((ps, rest)) => r matches Ok(p) && p@ == ps && bytes_view(*final(stream)) == rest,
                Err(e) => r == Err::<Properties, Error>(e),
            },
            r matches Ok(p) ==> {
                &&& bytes_view(*final(stream)).len() < bytes_view(*old(stream)).len()
                &&& bytes_view(*final(stream)) == bytes_view(*old(stream)).skip(
                    bytes_view(*old(stream)).len() - bytes_view(*final(stream)).len(),
                )
                &&& forall|i: int| 0 <= i < p@.len() ==> allow_list@.contains(#[trigger] prop_type(p@[i]))
            },
    {
        proof {
            lemma_properties_shape(bytes_view(*stream), allow_list@);
        }
        let mut properties: Vec<Property> = Vec::new();
        let ghost s = bytes_view(*stream);
        let properties_len = VarInt::read(bytes_as_slice(stream))?;
        proof {
            lemma_varint_frame_bound(s, 0);
        }
        advance(stream, properties_len.length());
        let total = properties_len.value();
        let ghost s0 = bytes_view(*stream);
        let ghost allow = allow_list@;

        let start_len = bytes_len(stream);
        let mut cursor: usize = 0;
        proof {
            assert(p_properties(bytes_view(*old(stream)), allow) == p_props_items(s0, allow, total as int));
            assert(properties@.map_values(|p: Property| p@) =~= Seq::<PropertyModel>::empty());
            assert(after(Seq::empty(), p_props_items(s0, allow, total as int)) =~= p_props_items(s0, allow, total as int));
        }
        while total > cursor
            invariant
                total <= varint_max(),
                allow == allow_list@,
                p_properties(bytes_view(*old(stream)), allow) == p_props_items(s0, allow, total as int),
                bytes_view(*stream).len() <= s0.len(),
                start_len == s0.len(),
                cursor == s0.len() - bytes_view(*stream).len(),
                p_props_items(s0, allow, total as int) == after(
                    properties@.map_values(|p: Property| p@),
                    p_props_items(bytes_view(*stream), allow, total - cursor),
                ),
            decreases bytes_view(*stream).len(),
        {
            let ghost cur = bytes_view(*stream);
            let ghost ms = properties@.map_values(|p: Property| p@);
            let id = read_u8(stream)?;
            let property_type = PropertyType::from_code(id)?;
            if !allowed(allow_list, property_type) {
                return Err(Error::InvalidPropertyType(property_type.code()));
            }
            let ghost r1 = bytes_view(*stream);
            let property = read_value(property_type, stream)?;
            proof {
                lemma_p_prop_value_shrinks(property_type, r1);
            }
            cursor = start_len - bytes_len(stream);
            properties.push(property);
            proof {
                let ms2 = properties@.map_values(|p: Property| p@);
                assert(ms2 =~= ms.push(property@));
                let rest_res = p_props_items(bytes_view(*stream), allow, total - cursor);
                assert(after(ms2, rest_res) =~= after(ms, after(seq![property@], rest_res))) by {
                    if let Ok((ps, r2)) = rest_res {
                        assert(ms2 + ps =~= ms + (seq![property@] + ps));
                    }
                }
            }
        }
        proof {
            assert(after(properties@.map_values(|p: Property| p@), Ok((Seq::empty(), bytes_view(*stream))))
                =~= Ok((properties@.map_values(|p: Property| p@), bytes_view(*stream))));
        }
        Ok(Properties(properties))
    }

    /// The size, as a variable byte integer, of the properties after serialization.
    pub fn len(&self) -> (r: Result<VarInt, Error>)
        ensures
            props_len(self@) <= varint_max() ==> (r matches Ok(v) && v.spec_value() == props_len(self@)
                && v.is_shortest()),
            props_len(self@) > varint_max() ==> r == Err::<VarInt, Error>(Error::PayloadTooLong),
    {
        let mut properties_len: usize = 0;
        let mut i: usize = 0;
        while i < self.0.len()
            invariant
                0 <= i <= self@.len(),
                self@.len() == self.0@.len(),
                properties_len == capped(props_len(self@.take(i as int))),
            decreases self.0@.len() - i,
        {
            let property = &self.0[i];
            proof {
                lemma_props_push(self@.take(i as int), property@);
                assert(self@.take(i + 1) =~= self@.take(i as int).push(property@));
            }
            // property id + property length; a length past a `usize` is
            // past the largest remaining length too
            let value_len = if property.len_fits() {
                property.len()
            } else {
                usize::MAX
            };
            properties_len = cap_add(properties_len, cap_add(1, value_len));
            i += 1;
        }
        proof {
            assert(self@.take(i as int) =~= self@);
        }
        VarInt::new(properties_len)
    }

    /// Writes the properties: their declared length, then each of them.
    ///
    /// The count returned is one more than the number of bytes of the
    /// declared length and the properties it declares.
    pub fn write(&self, stream: &mut BytesMut) -> (r: Result<usize, Error>)
        requires
            props_len(self@) <= varint_max() ==> room(
                bytes_mut_view(*old(stream)),
                (varint_len(props_len(self@)) + props_len(self@)) as int,
            ),
        ensures
            props_len(self@) > varint_max() ==> r == Err::<usize, Error>(Error::PayloadTooLong)
                && bytes_mut_view(*final(stream)) == bytes_mut_view(*old(stream)),
            props_len(self@) <= varint_max() ==> r == Ok::<usize, Error>(
                (1 + varint_len(props_len(self@)) + props_len(self@)) as usize,
            ) && bytes_mut_view(*final(stream)) == bytes_mut_view(*old(stream)) + props_bytes(self@)
                && props_bytes(self@).len() <= varint_len(props_len(self@)) + props_len(self@),
    {
        let ghost start = bytes_mut_view(*stream);
        let varint = self.len()?;
        varint.write(stream);
        proof {
            lemma_varint_bytes_len(props_len(self@));
        }
        let mut i: usize = 0;
        while i < self.0.len()
            invariant
                0 <= i <= self@.len(),
                self@.len() == self.0@.len(),
                props_len(self@) <= varint_max(),
                varint.spec_value() == props_len(self@),
                room(start, (varint_len(props_len(self@)) + props_len(self@)) as int),
                varint_len(props_len(self@)) <= 4,
                varint_bytes(props_len(self@)).len() == varint_len(props_len(self@)),
                bytes_mut_view(*stream) == start + varint_bytes(props_len(self@)) + props_body(self@.take(i as int)),
                props_body(self@.take(i as int)).len() <= props_len(self@.take(i as int)),
                props_len(self@.take(i as int)) <= props_len(self@),
            decreases self.0@.len() - i,
        {
            let property = &self.0[i];
            proof {
                lemma_props_push(self@.take(i as int), property@);
                assert(self@.take(i + 1) =~= self@.take(i as int).push(property@));
                lemma_props_len_prefix(self@, i + 1);
                if let Property::SubscriptionIdentifier(v) = property {
                    use_type_invariant(v);
                    v.lemma_inv();
                }
                lemma_prop_bytes_len(property@);
            }
            write_property(property, stream);
            i += 1;
            proof {
                assert(bytes_mut_view(*stream) =~= start + varint_bytes(props_len(self@)) + props_body(self@.take(i as int)));
            }
        }
        proof {
            assert(self@.take(i as int) =~= self@);
            assert(bytes_mut_view(*stream) =~= start + props_bytes(self@));
        }
        Ok(1 + varint.length() + varint.value())
    }
}

/// Every property type's identifier names that type.
pub proof fn lemma_property_type_code(t: PropertyType)
    ensures
        PropertyType::spec_from_code(t.spec_code()) == Ok::<PropertyType, Error>(t),
{
}

/// A property value reads back as written, whatever follows it.
#[verifier::spinoff_prover]
#[verifier::rlimit(50)]
pub proof fn lemma_prop_value_roundtrip(p: PropertyModel, rest: Seq<u8>)
    requires
        prop_fits(p),
        p matches PropertyModel::SubscriptionIdentifier { value, length } ==> length == varint_len(value) && value <= varint_max(),
    ensures
        p_prop_value(prop_type(p), prop_value_bytes(p) + rest) == Ok::<(PropertyModel, Seq<u8>), Error>((p, rest)),
{
    reveal(p_prop_value);
    match p {
        PropertyModel::PayloadFormatIndicator(v) => {
            lemma_p_u8(v, rest);
        },
        PropertyModel::MessageExpiryInterval(v) => {
            lemma_p_u32(v, rest);
        },
        PropertyModel::ContentType(v) => {
            lemma_p_mqtt_string(v, rest);
        },
        PropertyModel::ResponseTopic(v) => {
            lemma_p_mqtt_string(v, rest);
        },
        PropertyModel::CorrelationData(v) => {
            lemma_p_mqtt_bytes(v, rest);
        },
        PropertyModel::SubscriptionIdentifier { value, length } => {
            lemma_varint_roundtrip(value, rest);
        },
        PropertyModel::SessionExpiryInterval(v) => {
            lemma_p_u32(v, rest);
        },
        PropertyModel::AssignedClientIdentifier(v) => {
            lemma_p_mqtt_string(v, rest);
        },
        PropertyModel::ServerKeepAlive(v) => {
            lemma_p_u16(v, rest);
        },
        PropertyModel::AuthenticationMethod(v) => {
            lemma_p_mqtt_string(v, rest);
        },
        PropertyModel::AuthenticationData(v) => {
            lemma_p_mqtt_bytes(v, rest);
        },
        PropertyModel::RequestProblemInformation(v) => {
            lemma_p_u8(if v { 1u8 } else { 0u8 }, rest);
        },
        PropertyModel::WillDelayInterval(v) => {
            lemma_p_u32(v, rest);
        },
        PropertyModel::RequestResponseInformation(v) => {
            lemma_p_u8(if v { 1u8 } else { 0u8 }, rest);
        },
        PropertyModel::ResponseInformation(v) => {
            lemma_p_mqtt_string(v, rest);
        },
        PropertyModel::ServerReference(v) => {
            lemma_p_mqtt_string(v, rest);
        },
        PropertyModel::ReasonString(v) => {
            lemma_p_mqtt_string(v, rest);
        },
        PropertyModel::ReceiveMaximum(v) => {
            lemma_p_u16(v, rest);
        },
        PropertyModel::TopicAliasMaximum(v) => {
            lemma_p_u16(v, rest);
        },
        PropertyModel::TopicAlias(v) => {
            lemma_p_u16(v, rest);
        },
        PropertyModel::MaximumQos(v) => {
            lemma_p_u8(v, rest);
        },
        PropertyModel::RetainAvailable(v) => {
            lemma_p_u8(if v { 1u8 } else { 0u8 }, rest);
        },
        PropertyModel::UserProperty { name, value } => {
            lemma_p_mqtt_string(value, rest);
            lemma_p_mqtt_string(name, mqtt_string(value) + rest);
            assert(prop_value_bytes(p) + rest =~= mqtt_string(name) + (mqtt_string(value) + rest));
        },
        PropertyModel::MaximumPacketSize(v) => {
            lemma_p_u32(v, rest);
        },
        PropertyModel::WildcardSubscriptionAvailable(v) => {
            lemma_p_u8(if v { 1u8 } else { 0u8 }, rest);
        },
        PropertyModel::SubscriptionIdentifierAvailable(v) => {
            lemma_p_u8(if v { 1u8 } else { 0u8 }, rest);
        },
        PropertyModel::SharedSubscriptionAvailable(v) => {
            lemma_p_u8(if v { 1u8 } else { 0u8 }, rest);
        },
    }
}

/// A property whose type `allow` lists reads back as written.
pub proof fn lemma_prop_roundtrip(p: PropertyModel, rest: Seq<u8>, allow: Seq<PropertyType>)
    requires
        allow.contains(prop_type(p)),
        prop_fits(p),
        p matches PropertyModel::SubscriptionIdentifier { value, length } ==> length == varint_len(value) && value <= varint_max(),
    ensures
        p_property(prop_bytes(p) + rest, allow) == Ok::<(PropertyModel, Seq<u8>), Error>((p, rest)),
{
    let t = prop_type(p);
    lemma_property_type_code(t);
    lemma_p_u8(t.spec_code(), prop_value_bytes(p) + rest);
    assert(prop_bytes(p) + rest =~= seq![t.spec_code()] + (prop_value_bytes(p) + rest));
    lemma_prop_value_roundtrip(p, rest);
}

/// The list without its first property keeps the properties of the list.
proof fn lemma_props_tail(ps: Seq<PropertyModel>, allow: Seq<PropertyType>)
    requires
        ps.len() > 0,
    ensures
        props_allowed(ps, allow) ==> props_allowed(ps.drop_first(), allow) && allow.contains(prop_type(ps[0])),
        props_fit(ps) ==> props_fit(ps.drop_first()) && prop_fits(ps[0]),
        props_shortest(ps) ==> props_shortest(ps.drop_first()) && (ps[0] matches PropertyModel::SubscriptionIdentifier { value, length } ==> length == varint_len(value) && value <= varint_max()),
{
    let tail = ps.drop_first();
    assert forall|i: int| 0 <= i < tail.len() implies #[trigger] tail[i] == ps[i + 1] by {}
    if props_allowed(ps, allow) {
        assert(allow.contains(prop_type(ps[0])));
        assert forall|i: int| 0 <= i < tail.len() implies allow.contains(prop_type(#[trigger] tail[i])) by {
            assert(allow.contains(prop_type(ps[i + 1])));
        }
    }
    if props_fit(ps) {
        assert(prop_fits(ps[0]));
        assert forall|i: int| 0 <= i < tail.len() implies prop_fits(#[trigger] tail[i]) by {
            assert(prop_fits(ps[i + 1]));
        }
    }
    if props_shortest(ps) {
        assert(ps[0] matches PropertyModel::SubscriptionIdentifier { value, length } ==> length == varint_len(value) && value <= varint_max());
        assert forall|i: int| 0 <= i < tail.len() implies (#[trigger] tail[i] matches PropertyModel::SubscriptionIdentifier { value, length } ==> length == varint_len(value) && value <= varint_max()) by {
            assert(ps[i + 1] matches PropertyModel::SubscriptionIdentifier { value, length } ==> length == varint_len(value) && value <= varint_max());
        }
    }
}

/// Properties read back as written when each may stand where they are and
/// the declared length counts exactly their bytes.
pub proof fn lemma_props_items_roundtrip(ps: Seq<PropertyModel>, rest: Seq<u8>, allow: Seq<PropertyType>)
    requires
        props_allowed(ps, allow),
        props_fit(ps),
        props_shortest(ps),
    ensures
        p_props_items(props_body(ps) + rest, allow, props_len(ps) as int) == Ok::<(Seq<PropertyModel>, Seq<u8>), Error>((ps, rest)),
    decreases ps.len(),
{
    if ps.len() == 0 {
        assert(props_body(ps) + rest =~= rest);
        assert(ps =~= Seq::<PropertyModel>::empty());
    } else {
        let p = ps[0];
        let tail = ps.drop_first();
        lemma_props_tail(ps, allow);
        let r = props_body(tail) + rest;
        assert(props_body(ps) + rest =~= prop_bytes(p) + r);
        lemma_prop_roundtrip(p, r, allow);
        lemma_props_items_roundtrip(tail, rest, allow);
        if let PropertyModel::SubscriptionIdentifier { value, length } = p {
            lemma_varint_bytes_len(value);
            reveal_with_fuel(pow128, 5);
        }
        lemma_prop_bytes_len(p);
        assert(prop_bytes(p).len() == 1 + prop_len(p));
        let s = props_body(ps) + rest;
        assert(p_property(s, allow) == Ok::<(PropertyModel, Seq<u8>), Error>((p, r)));
        assert(s.len() - r.len() == 1 + prop_len(p));
        assert(props_len(ps) as int - (s.len() - r.len()) == props_len(tail) as int);
        assert((seq![p] + tail) =~= ps);
    }
}

/// A list of properties reads back as written when each may stand where it
/// is, every value fits its length prefix, every subscription identifier
/// has its shortest length and the declared length fits a variable byte
/// integer.
pub proof fn lemma_properties_roundtrip(ps: Seq<PropertyModel>, rest: Seq<u8>, allow: Seq<PropertyType>)
    requires
        props_allowed(ps, allow),
        props_fit(ps),
        props_shortest(ps),
        props_len(ps) <= varint_max(),
    ensures
        p_properties(props_bytes(ps) + rest, allow) == Ok::<(Seq<PropertyModel>, Seq<u8>), Error>((ps, rest)),
{
    let body = props_body(ps) + rest;
    lemma_varint_roundtrip(props_len(ps), body);
    assert(props_bytes(ps) + rest =~= varint_bytes(props_len(ps)) + body);
    lemma_props_items_roundtrip(ps, rest, allow);
}

/// Properties that each count their exact bytes are encoded in as many
/// bytes as their declared length, plus the bytes of that length.
pub proof fn lemma_props_bytes_len(ps: Seq<PropertyModel>)
    requires
        props_shortest(ps),
        props_len(ps) <= varint_max(),
    ensures
        props_body(ps).len() == props_len(ps),
        props_bytes(ps).len() == varint_len(props_len(ps)) + props_len(ps),
    decreases ps.len(),
{
    lemma_varint_bytes_len(props_len(ps));
    if ps.len() > 0 {
        let tail = ps.drop_first();
        lemma_props_tail(ps, Seq::empty());
        if let PropertyModel::SubscriptionIdentifier { value, length } = ps[0] {
            lemma_varint_bytes_len(value);
            reveal_with_fuel(pow128, 5);
        }
        lemma_prop_bytes_len(ps[0]);
        lemma_props_bytes_len(tail);
    }
}

impl core::ops::Deref for Properties {
    type Target = [Property];

    fn deref(&self) -> (r: &Self::Target)
        ensures
            r@.map_values(|p: Property| p@) == self@,
    {
        self.0.as_slice()
    }
}

impl IntoIterator for Properties {
    type Item = Property;
    type IntoIter = std::vec::IntoIter<Property>;

    fn into_iter(self) -> (r: Self::IntoIter)
        ensures
            r.remaining().map_values(|p: Property| p@) == self@,
    {
        proof {
            broadcast use vstd::std_specs::vec::axiom_spec_into_iter;
        }
        self.0.into_iter()
    }
}

impl<'a> IntoIterator for &'a Properties {
    type Item = &'a Property;
    type IntoIter = std::slice::Iter<'a, Property>;

    fn into_iter(self) -> (r: Self::IntoIter)
        ensures
            r.remaining().map_values(|p: &Property| p@) == self@,
    {
        proof {
            broadcast use vstd::std_specs::slice::axiom_spec_slice_iter;
        }
        self.0.iter()
    }
}

} // verus!
