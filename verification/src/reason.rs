//! Reason code values defined by MQTT 5.0.

use vstd::prelude::*;

verus! {

pub const SUCCESS: u8 = 0x00;
pub const NORMAL_DISCONNECTION: u8 = 0x00;
pub const GRANTED_QOS_0: u8 = 0x00;
pub const GRANTED_QOS_1: u8 = 0x01;
pub const GRANTED_QOS_2: u8 = 0x02;
pub const DISCONNECT_WITH_WILL_MESSAGE: u8 = 0x04;
pub const NO_MATCHING_SUBSCRIBERS: u8 = 0x10;
pub const NO_SUBSCRIPTION_EXISTED: u8 = 0x11;
pub const CONTINUE_AUTHENTICATION: u8 = 0x18;
pub const RE_AUTHENTICATE: u8 = 0x19;
pub const UNSPECIFIED_ERROR: u8 = 0x80;
pub const MALFORMED_PACKET: u8 = 0x81;
pub const PROTOCOL_ERROR: u8 = 0x82;
pub const IMPLEMENTATION_SPECIFIC_ERROR: u8 = 0x83;
pub const UNSUPPORTED_PROTOCOL_VERSION: u8 = 0x84;
pub const CLIENT_IDENTIFIER_NOT_VALID: u8 = 0x85;
pub const BAD_USER_NAME_OR_PASSWORD: u8 = 0x86;
pub const NOT_AUTHORIZED: u8 = 0x87;
pub const SERVER_UNAVAILABLE: u8 = 0x88;
pub const SERVER_BUSY: u8 = 0x89;
pub const BANNED: u8 = 0x8A;
pub const SERVER_SHUTTING_DOWN: u8 = 0x8B;
pub const BAD_AUTHENTICATION_METHOD: u8 = 0x8C;
pub const KEEP_ALIVE_TIMEOUT: u8 = 0x8D;
pub const SESSION_TAKEN_OVER: u8 = 0x8E;
pub const TOPIC_FILTER_INVALID: u8 = 0x8F;
pub const TOPIC_NAME_INVALID: u8 = 0x90;
pub const PACKET_IDENTIFIER_IN_USE: u8 = 0x91;
pub const PACKET_IDENTIFIER_NOT_FOUND: u8 = 0x92;
pub const RECEIVE_MAXIMUM_EXCEEDED: u8 = 0x93;
pub const TOPIC_ALIAS_INVALID: u8 = 0x94;
pub const PACKET_TOO_LARGE: u8 = 0x95;
pub const MESSAGE_RATE_TOO_HIGH: u8 = 0x96;
pub const QUOTA_EXCEEDED: u8 = 0x97;
pub const ADMINISTRATIVE_ACTION: u8 = 0x98;
pub const PAYLOAD_FORMAT_INVALID: u8 = 0x99;
pub const RETAIN_NOT_SUPPORTED: u8 = 0x9A;
pub const QOS_NOT_SUPPORTED: u8 = 0x9B;
pub const USE_ANOTHER_SERVER: u8 = 0x9C;
pub const SERVER_MOVED: u8 = 0x9D;
pub const SHARED_SUBSCRIPTIONS_NOT_SUPPORTED: u8 = 0x9E;
pub const CONNECTION_RATE_EXCEEDED: u8 = 0x9F;
pub const MAXIMUM_CONNECT_TIME: u8 = 0xA0;
pub const SUBSCRIPTION_IDENTIFIERS_NOT_SUPPORTED: u8 = 0xA1;
pub const WILDCARD_SUBSCRIPTIONS_NOT_SUPPORTED: u8 = 0xA2;

} // verus!
