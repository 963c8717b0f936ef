use bytes::{Bytes, BytesMut};
use vstd::prelude::*;

use super::{Auth, AuthModel, AuthReasonCode};
use crate::buffer::{bytes_mut_view, bytes_view, put_u8, room};
use crate::header::FixedHeader;
use crate::packet::{frame_room, len_result, wrote};
use crate::parse::{read_u8, VarInt};
use crate::property::{
    lemma_properties_roundtrip, lemma_props_bytes_len, p_properties, props_allowed, props_bytes,
    props_fit, props_len, props_shortest, Properties, PropertyType,
};
use crate::wire::{lemma_p_u8, lemma_varint_bytes_len, p_u8, varint_len, varint_max};
use crate::Error;

verus! {

/// The properties an Auth may carry.
pub open spec fn allowed() -> Seq<PropertyType> {
    seq![
        PropertyType::AuthenticationMethod,
        PropertyType::AuthenticationData,
        PropertyType::ReasonString,
        PropertyType::UserProperty,
    ]
}

/// The property types that an Auth may carry in MQTT 5.0 are exactly these,
/// the list of the standard; reading one of any other type is refused.
pub proof fn lemma_allowed(t: PropertyType)
    ensures
        allowed().contains(t) <==> (
            t == PropertyType::AuthenticationMethod || t == PropertyType::AuthenticationData
            || t == PropertyType::ReasonString || t == PropertyType::UserProperty
        ),
{
    assert(allowed()[0] == PropertyType::AuthenticationMethod);
    assert(allowed()[1] == PropertyType::AuthenticationData);
    assert(allowed()[2] == PropertyType::ReasonString);
    assert(allowed()[3] == PropertyType::UserProperty);
    if allowed().contains(t) {
        let i = choose|i: int| 0 <= i < allowed().len() && allowed()[i] == t;
        assert(0 <= i < 4);
    }
}

fn allowed_properties() -> (r: Vec<PropertyType>)
    ensures
        r@ == allowed(),
{
    vec![
        PropertyType::AuthenticationMethod,
        PropertyType::AuthenticationData,
        PropertyType::ReasonString,
        PropertyType::UserProperty,
    ]
}

/// Reading an Auth: the reason code byte, the properties, and then the code
/// must name a reason.
pub open spec fn p_read(s: Seq<u8>) -> Result<AuthModel, Error> {
    match p_u8(s) {
        Err(e) => Err(e),
        Ok((code, r)) => match p_properties(r, allowed()) {
            Err(e) => Err(e),
            Ok((properties, _)) => match AuthReasonCode::spec_from_code(code) {
                Err(e) => Err(e),
                Ok(code) => Ok(AuthModel { code, properties }),
            },
        },
    }
}

/// The remaining length of an Auth.
pub open spec fn spec_len(m: AuthModel) -> int {
    (1 + varint_len(props_len(m.properties)) + props_len(m.properties)) as int
}

/// The variable header of an Auth: the reason code, then the properties.
pub open spec fn spec_body(m: AuthModel) -> Seq<u8> {
    seq![m.code.spec_code()] + props_bytes(m.properties)
}

pub fn read(_fixed_header: FixedHeader, bytes: Bytes) -> (r: Result<Auth, Error>)
    ensures
        match p_read(bytes_view(bytes)) {
            Ok(m) => r matches Ok(p) && p@ == m,
            Err(e) => r == Err::<Auth, Error>(e),
        },
{
    let mut bytes = bytes;
    let code = read_u8(&mut bytes)?;
    let allowed = allowed_properties();
    let properties = Properties::read(&mut bytes, allowed.as_slice())?;
    let auth = Auth { code: AuthReasonCode::from_code(code)?, properties };

    Ok(auth)
}

pub fn write(packet: &Auth, buffer: &mut BytesMut) -> (r: Result<usize, Error>)
    requires
        room(bytes_mut_view(*old(buffer)), frame_room(spec_len(packet@))),
    ensures
        wrote(r, bytes_mut_view(*old(buffer)), bytes_mut_view(*final(buffer)), 0xF0, spec_len(packet@), spec_body(packet@)),
{
    let ghost start = bytes_mut_view(*buffer);
    // packet type and flags
    put_u8(buffer, 0xF0);
    // remaining length
    let len = len(packet)?;
    proof {
        lemma_varint_bytes_len(len.spec_value());
        lemma_varint_bytes_len(props_len(packet.properties@));
    }
    len.write(buffer);
    // reason code
    put_u8(buffer, packet.code.code());
    // properties
    packet.properties.write(buffer)?;
    proof {
        assert(bytes_mut_view(*buffer) =~= start + crate::packet::frame(0xF0, spec_len(packet@) as nat, spec_body(packet@)));
    }
    Ok(1 + len.length() + len.value())
}

pub fn len(packet: &Auth) -> (r: Result<VarInt, Error>)
    ensures
        len_result(r, spec_len(packet@)),
{
    let properties_len = packet.properties.len()?;
    // reason code and properties
    VarInt::new(1 + properties_len.length() + properties_len.value())
}

/// Whether an Auth reads back as written.
pub open spec fn wf(m: AuthModel) -> bool {
    &&& props_allowed(m.properties, allowed())
    &&& props_fit(m.properties)
    &&& props_shortest(m.properties)
    &&& spec_len(m) <= varint_max()
}

/// An Auth reads back as written, and its variable header has its remaining length.
pub proof fn lemma_roundtrip(m: AuthModel)
    requires
        wf(m),
    ensures
        p_read(spec_body(m)) == Ok::<AuthModel, Error>(m),
        spec_body(m).len() == spec_len(m),
{
    let ps = m.properties;
    lemma_properties_roundtrip(ps, Seq::empty(), allowed());
    lemma_props_bytes_len(ps);
    assert(props_bytes(ps) + Seq::<u8>::empty() =~= props_bytes(ps));
    lemma_p_u8(m.code.spec_code(), props_bytes(ps));
    m.code.lemma_code();
}

} // verus!
