//! Authentication exchange

use vstd::prelude::*;

use crate::property::{Properties, PropertyModel};
use crate::{reason, Error};

pub mod v5;

verus! {

/// Authentication exchange
///
/// Sent from client to server or server to client as part of an extended authentication exchange.
#[derive(Debug, Clone, PartialEq, Eq)]
pub struct Auth {
    pub code: AuthReasonCode,
    pub properties: Properties,
}

/// An [Auth], as the specifications see it.
pub struct AuthModel {
    pub code: AuthReasonCode,
    pub properties: Seq<PropertyModel>,
}

impl View for Auth {
    type V = AuthModel;

    open spec fn view(&self) -> AuthModel {
        AuthModel { code: self.code, properties: self.properties@ }
    }
}

impl Auth {
    pub fn new(code: AuthReasonCode) -> (r: Self)
        ensures
            r@ == (AuthModel { code, properties: Seq::empty() }),
    {
        Self { code, properties: Properties::new() }
    }
}

/// Auth packet reason code
#[derive(Debug, Clone, Copy, PartialEq, Eq, Structural)]
pub enum AuthReasonCode {
    Success,
    Continue,
    ReAuthentivate,
}

impl AuthReasonCode {
    /// The values of these codes on the wire are the fixed ones of MQTT: each
    /// is written as the value listed here, each value listed reads back as
    /// its code, and a value that reads as a code is that code's value.
    pub proof fn lemma_wire_codes()
        ensures
            AuthReasonCode::Success.spec_code() == 0x00,
            AuthReasonCode::Continue.spec_code() == 0x18,
            AuthReasonCode::ReAuthentivate.spec_code() == 0x19,
            AuthReasonCode::spec_from_code(0x00) == Ok::<AuthReasonCode, Error>(AuthReasonCode::Success),
            AuthReasonCode::spec_from_code(0x18) == Ok::<AuthReasonCode, Error>(AuthReasonCode::Continue),
            AuthReasonCode::spec_from_code(0x19) == Ok::<AuthReasonCode, Error>(AuthReasonCode::ReAuthentivate),
            forall|c: u8| (#[trigger] AuthReasonCode::spec_from_code(c)) matches Ok(v) ==> v.spec_code() == c,
    {
    }
}

impl AuthReasonCode {
    /// The value of this code on the wire.
    pub open spec fn spec_code(self) -> u8 {
        match self {
            AuthReasonCode::Success => reason::SUCCESS,
            AuthReasonCode::Continue => reason::CONTINUE_AUTHENTICATION,
            AuthReasonCode::ReAuthentivate => reason::RE_AUTHENTICATE,
        }
    }

    /// The code that a value names, or the error for a value that names none.
    pub open spec fn spec_from_code(value: u8) -> Result<AuthReasonCode, Error> {
        if value == reason::SUCCESS {
            Ok(AuthReasonCode::Success)
        } else if value == reason::CONTINUE_AUTHENTICATION {
            Ok(AuthReasonCode::Continue)
        } else if value == reason::RE_AUTHENTICATE {
            Ok(AuthReasonCode::ReAuthentivate)
        } else {
            Err(Error::MalformedPacket)
        }
    }

    /// The value of this code on the wire.
    pub fn code(self) -> (c: u8)
        ensures
            c == self.spec_code(),
    {
        match self {
            AuthReasonCode::Success => reason::SUCCESS,
            AuthReasonCode::Continue => reason::CONTINUE_AUTHENTICATION,
            AuthReasonCode::ReAuthentivate => reason::RE_AUTHENTICATE,
        }
    }

    /// Decodes a code from its value on the wire.
    pub fn from_code(value: u8) -> (r: Result<AuthReasonCode, Error>)
        ensures
            r == AuthReasonCode::spec_from_code(value),
    {
        let code = match value {
            reason::SUCCESS => AuthReasonCode::Success,
            reason::CONTINUE_AUTHENTICATION => AuthReasonCode::Continue,
            reason::RE_AUTHENTICATE => AuthReasonCode::ReAuthentivate,
            _ => return Err(Error::MalformedPacket),
        };
        Ok(code)
    }

    /// Every code's value names that code.
    pub proof fn lemma_code(self)
        ensures
            AuthReasonCode::spec_from_code(self.spec_code()) == Ok::<AuthReasonCode, Error>(self),
    {
    }
}

impl TryFrom<u8> for AuthReasonCode {
    type Error = Error;

    fn try_from(value: u8) -> (r: Result<Self, Self::Error>)
        ensures
            r == AuthReasonCode::spec_from_code(value),
    {
        AuthReasonCode::from_code(value)
    }
}

impl vstd::std_specs::convert::TryFromSpecImpl<u8> for AuthReasonCode {
    open spec fn obeys_try_from_spec() -> bool {
        true
    }

    open spec fn try_from_spec(v: u8) -> Result<Self, Self::Error> {
        AuthReasonCode::spec_from_code(v)
    }
}

} // verus!
