use bytes::{Bytes, BytesMut};
use vstd::prelude::*;

use super::v4::{lemma_filled, lemma_flags_value, lemma_set_flags};
use super::{
    connect_flags_of, is_protocol_name, lemma_connect_flags, lemma_login_roundtrip, login_opt_bytes,
    login_opt_len, login_wf, p_login, Connect, ConnectModel, LastWillModel, Login, LoginModel,
};
use crate::buffer::{bytes_as_slice, bytes_mut_as_slice, bytes_mut_set, bytes_mut_view, bytes_view, put_u16, put_u8, room};
use crate::header::FixedHeader;
use crate::packet::publish::bit;
use crate::packet::{frame_room, len_result, wrote};
use crate::parse::{read_mqtt_bytes, read_mqtt_string, read_u16, read_u8, str_len, write_mqtt_string, VarInt};
use crate::property::{
    cap_add, lemma_properties_roundtrip, lemma_props_bytes_len, p_properties, props_allowed, props_bytes, props_fit,
    props_len, props_shortest, Properties, PropertyModel, PropertyType,
};
use crate::wire::{
    be16, lemma_mqtt_name, lemma_p_mqtt_bytes, lemma_p_mqtt_string, lemma_p_u16, lemma_p_u8,
    lemma_varint_bytes_len, mqtt_name, mqtt_name_bytes, mqtt_string, p_mqtt_bytes, p_mqtt_string, p_u16, p_u8,
    utf8_len, varint_bytes, varint_len, varint_max,
};
use crate::Error;

mod will;

verus! {

/// The properties a Connect may carry.
pub open spec fn allowed() -> Seq<PropertyType> {
    seq![
        PropertyType::SessionExpiryInterval,
        PropertyType::ReceiveMaximum,
        PropertyType::MaximumPacketSize,
        PropertyType::TopicAliasMaximum,
        PropertyType::RequestResponseInformation,
        PropertyType::RequestProblemInformation,
        PropertyType::UserProperty,
        PropertyType::AuthenticationMethod,
        PropertyType::AuthenticationData,
    ]
}

/// The property types that a Connect may carry in MQTT 5.0 are exactly these,
/// the list of the standard; reading one of any other type is refused.
pub proof fn lemma_allowed(t: PropertyType)
    ensures
        allowed().contains(t) <==> (
            t == PropertyType::SessionExpiryInterval || t == PropertyType::ReceiveMaximum
            || t == PropertyType::MaximumPacketSize || t == PropertyType::TopicAliasMaximum
            || t == PropertyType::RequestResponseInformation
            || t == PropertyType::RequestProblemInformation
            || t == PropertyType::UserProperty || t == PropertyType::AuthenticationMethod
            || t == PropertyType::AuthenticationData
        ),
{
    assert(allowed()[0] == PropertyType::SessionExpiryInterval);
    assert(allowed()[1] == PropertyType::ReceiveMaximum);
    assert(allowed()[2] == PropertyType::MaximumPacketSize);
    assert(allowed()[3] == PropertyType::TopicAliasMaximum);
    assert(allowed()[4] == PropertyType::RequestResponseInformation);
    assert(allowed()[5] == PropertyType::RequestProblemInformation);
    assert(allowed()[6] == PropertyType::UserProperty);
    assert(allowed()[7] == PropertyType::AuthenticationMethod);
    assert(allowed()[8] == PropertyType::AuthenticationData);
    if allowed().contains(t) {
        let i = choose|i: int| 0 <= i < allowed().len() && allowed()[i] == t;
        assert(0 <= i < 9);
    }
}

fn allowed_properties() -> (r: Vec<PropertyType>)
    ensures
        r@ == allowed(),
{
    vec![
        PropertyType::SessionExpiryInterval,
        PropertyType::ReceiveMaximum,
        PropertyType::MaximumPacketSize,
        PropertyType::TopicAliasMaximum,
        PropertyType::RequestResponseInformation,
        PropertyType::RequestProblemInformation,
        PropertyType::UserProperty,
        PropertyType::AuthenticationMethod,
        PropertyType::AuthenticationData,
    ]
}

/// A will, or none, on the wire in MQTT 5.0.
pub open spec fn will_opt_bytes(w: Option<LastWillModel>) -> Seq<u8> {
    match w {
        None => Seq::empty(),
        Some(w) => will::will_bytes(w),
    }
}

/// The number of bytes of a will, or none, on the wire in MQTT 5.0.
pub open spec fn will_opt_len(w: Option<LastWillModel>) -> nat {
    match w {
        None => 0,
        Some(w) => will::will_len(w),
    }
}

/// Reading the variable header of a Connect in MQTT 5.0: the protocol name,
/// whose bytes must be `MQTT`; the protocol level, which must be `5`; the
/// connect flags; the keep alive time; and the properties.
pub open spec fn p_variable_header(s: Seq<u8>) -> Result<(u8, u16, Seq<PropertyModel>, Seq<u8>), Error> {
    match p_mqtt_bytes(s) {
        Err(e) => Err(e),
        Ok((name, r1)) => if name != mqtt_name_bytes() {
            Err(Error::InvalidProtocol)
        } else {
            match p_u8(r1) {
                Err(e) => Err(e),
                Ok((level, r2)) => if level != 5 {
                    Err(Error::InvalidProtocolLevel(level))
                } else {
                    match p_u8(r2) {
                        Err(e) => Err(e),
                        Ok((flags, r3)) => match p_u16(r3) {
                            Err(e) => Err(e),
                            Ok((keep_alive, r4)) => match p_properties(r4, allowed()) {
                                Err(e) => Err(e),
                                Ok((properties, r5)) => Ok((flags, keep_alive, properties, r5)),
                            },
                        },
                    }
                },
            }
        },
    }
}

/// Reading the payload of a Connect in MQTT 5.0 with connect flags `flags`:
/// the client identifier, then the will and the credentials that the flags
/// announce.
pub open spec fn p_payload(flags: u8, s: Seq<u8>) -> Result<(Seq<char>, Option<LastWillModel>, Option<LoginModel>), Error> {
    match p_mqtt_string(s) {
        Err(e) => Err(e),
        Ok((client_id, r1)) => match will::p_will(flags, r1) {
            Err(e) => Err(e),
            Ok((last_will, r2)) => match p_login(flags, r2) {
                Err(e) => Err(e),
                Ok((login, _)) => Ok((client_id, last_will, login)),
            },
        },
    }
}

/// Reading a Connect in MQTT 5.0: the variable header, then the payload.
pub open spec fn p_read(s: Seq<u8>) -> Result<ConnectModel, Error> {
    match p_variable_header(s) {
        Err(e) => Err(e),
        Ok((flags, keep_alive, properties, r)) => match p_payload(flags, r) {
            Err(e) => Err(e),
            Ok((client_id, last_will, login)) => Ok(
                ConnectModel { keep_alive, clean_start: (flags / 2) % 2 == 1, properties, client_id, last_will, login },
            ),
        },
    }
}

/// The remaining length of a Connect in MQTT 5.0.
pub open spec fn spec_len(m: ConnectModel) -> int {
    (10 + varint_len(props_len(m.properties)) + props_len(m.properties) + 2 + utf8_len(m.client_id) + will_opt_len(
        m.last_will,
    ) + login_opt_len(m.login)) as int
}

/// The variable header and payload of a Connect in MQTT 5.0, with the
/// connect flags `flags`.
pub open spec fn body_with_flags(m: ConnectModel, flags: u8) -> Seq<u8> {
    mqtt_string(mqtt_name()) + seq![5u8, flags] + be16(m.keep_alive) + props_bytes(m.properties) + mqtt_string(
        m.client_id,
    ) + will_opt_bytes(m.last_will) + login_opt_bytes(m.login)
}

/// The variable header and payload of a Connect in MQTT 5.0.
pub open spec fn spec_body(m: ConnectModel) -> Seq<u8> {
    body_with_flags(m, connect_flags_of(m))
}

/// Whether writing the Connect `m` into a buffer holding `before` left it
/// holding `after` with result `r`: the packet appended, and its size. When
/// the remaining length is too large, only the control field, and the error.
pub open spec fn written(m: ConnectModel, r: Result<usize, Error>, before: Seq<u8>, after: Seq<u8>) -> bool {
    wrote(r, before, after, 0x10, spec_len(m), spec_body(m))
}

pub fn read(_fixed_header: FixedHeader, mut bytes: Bytes) -> (r: Result<Connect, Error>)
    ensures
        match p_read(bytes_view(bytes)) {
            Ok(m) => r matches Ok(p) && p@ == m,
            Err(e) => r == Err::<Connect, Error>(e),
        },
{
    let protocol_name = read_mqtt_bytes(&mut bytes)?;
    if !is_protocol_name(bytes_as_slice(&protocol_name)) {
        return Err(Error::InvalidProtocol);
    }

    let protocol_level = read_u8(&mut bytes)?;
    if protocol_level != 5 {
        return Err(Error::InvalidProtocolLevel(protocol_level));
    }

    let connect_flags = read_u8(&mut bytes)?;
    proof {
        assert((connect_flags & 0b10) != 0 <==> (connect_flags / 2) % 2 == 1) by (bit_vector);
    }
    let clean_start = (connect_flags & 0b10) != 0;
    let keep_alive = read_u16(&mut bytes)?;

    let allowed = allowed_properties();
    let properties = Properties::read(&mut bytes, allowed.as_slice())?;

    let client_id = read_mqtt_string(&mut bytes)?;
    let last_will = will::read(connect_flags, &mut bytes)?;
    let login = Login::read(connect_flags, &mut bytes)?;

    let last_will = match last_will {
        Some(w) => Some(Box::new(w)),
        None => None,
    };
    let login = match login {
        Some(l) => Some(Box::new(l)),
        None => None,
    };
    Ok(Connect { keep_alive, clean_start, properties, client_id, last_will, login })
}

#[verifier::spinoff_prover]
#[verifier::rlimit(60)]
pub fn write(packet: &Connect, buffer: &mut BytesMut) -> (r: Result<usize, Error>)
    requires
        room(bytes_mut_view(*old(buffer)), frame_room(spec_len(packet@))),
    ensures
        written(packet@, r, bytes_mut_view(*old(buffer)), bytes_mut_view(*final(buffer))),
{
    let ghost start = bytes_mut_view(*buffer);
    let ghost m = packet@;
    let start_len = bytes_mut_as_slice(buffer).len();
    // packet type and flags
    put_u8(buffer, 0x10);
    // remaining length
    let len = len(packet)?;
    proof {
        lemma_varint_bytes_len(len.spec_value());
        lemma_varint_bytes_len(props_len(m.properties));
        if let Some(w) = m.last_will {
            assert(props_len(w.properties) <= varint_max());
        }
        reveal_strlit("MQTT");
        assert("MQTT"@ =~= mqtt_name());
        lemma_mqtt_name("MQTT"@);
    }
    len.write(buffer);
    // protocol name
    write_mqtt_string(buffer, "MQTT");
    // protocol version
    put_u8(buffer, 0x05);
    let ghost pre = bytes_mut_view(*buffer);
    // connect flags
    let connect_flags_index = start_len + 1 + len.length() + 2 + 4 + 1;
    let mut connect_flags: u8 = if packet.clean_start {
        0b10
    } else {
        0
    };
    let ghost c0 = connect_flags;
    put_u8(buffer, connect_flags);
    // keep alive time
    put_u16(buffer, packet.keep_alive);
    // properties
    packet.properties.write(buffer)?;

    // client identifier
    write_mqtt_string(buffer, packet.client_id.as_str());
    let ghost after_id = bytes_mut_view(*buffer);

    // last will message
    let mut wflags: u8 = 0;
    if let Some(w) = &packet.last_will {
        wflags = will::write(w, buffer)?;
    }
    let ghost after_will = bytes_mut_view(*buffer);
    proof {
        if m.last_will is None {
            assert(after_id + will_opt_bytes(m.last_will) =~= after_id);
        }
    }
    // username and password
    let mut lflags: u8 = 0;
    if let Some(l) = &packet.login {
        lflags = l.write(buffer);
    }
    proof {
        if m.login is None {
            assert(after_will + login_opt_bytes(m.login) =~= after_will);
        }
        lemma_flags_value(m, connect_flags, wflags, lflags);
    }
    connect_flags = connect_flags | wflags | lflags;

    // update connect flags
    proof {
        let a = be16(m.keep_alive) + props_bytes(m.properties);
        assert(after_id =~= pre.push(c0) + a + mqtt_string(m.client_id));
        lemma_filled(
            start,
            varint_bytes(len.spec_value()),
            mqtt_string(mqtt_name()),
            5,
            c0,
            a,
            mqtt_string(m.client_id),
            will_opt_bytes(m.last_will),
            login_opt_bytes(m.login),
        );
        lemma_set_flags(
            start,
            varint_bytes(len.spec_value()),
            mqtt_string(mqtt_name()),
            5,
            c0,
            connect_flags,
            a,
            mqtt_string(m.client_id),
            will_opt_bytes(m.last_will),
            login_opt_bytes(m.login),
        );
        assert(mqtt_string(mqtt_name()) + seq![5u8, connect_flags] + a =~= mqtt_string(mqtt_name()) + seq![5u8, connect_flags] + be16(
            m.keep_alive,
        ) + props_bytes(m.properties));
        assert(mqtt_string(mqtt_name()) + seq![5u8, c0] + a =~= mqtt_string(mqtt_name()) + seq![5u8, c0] + be16(
            m.keep_alive,
        ) + props_bytes(m.properties));
    }
    bytes_mut_set(buffer, connect_flags_index, connect_flags);
    Ok(1 + len.length() + len.value())
}

pub fn len(packet: &Connect) -> (r: Result<VarInt, Error>)
    ensures
        len_result(r, spec_len(packet@)),
{
    let mut len: usize = 6 // protocol name
         + 1 // protocol version
         + 1 // connect flags
         + 2; // keep alive

    let properties_len = packet.properties.len()?;
    len = cap_add(len, properties_len.length() + properties_len.value());

    len = cap_add(len, cap_add(2, str_len(&packet.client_id)));

    // last will len
    if let Some(w) = &packet.last_will {
        len = cap_add(len, will::len(w)?);
    }
    // username and password len
    if let Some(l) = &packet.login {
        let login_len = if l.len_fits() {
            l.len()
        } else {
            usize::MAX
        };
        len = cap_add(len, login_len);
    }

    VarInt::new(len)
}

/// Whether a Connect reads back as written in MQTT 5.0: properties that a
/// Connect may carry, each fitting and in its shortest form; a client
/// identifier that fits its length prefix; a will and credentials that read
/// back as written; and a remaining length that fits.
pub open spec fn wf(m: ConnectModel) -> bool {
    &&& props_allowed(m.properties, allowed())
    &&& props_fit(m.properties)
    &&& props_shortest(m.properties)
    &&& utf8_len(m.client_id) <= 65535
    &&& (m.last_will matches Some(w) ==> will::will_wf(w))
    &&& (m.login matches Some(l) ==> login_wf(l))
    &&& spec_len(m) <= varint_max()
}

/// The will and the credentials of a Connect read back as written under its
/// connect flags.
proof fn lemma_tail_roundtrip(m: ConnectModel)
    requires
        wf(m),
    ensures
        will::p_will(connect_flags_of(m), will_opt_bytes(m.last_will) + login_opt_bytes(m.login)) == Ok::<
            (Option<LastWillModel>, Seq<u8>),
            Error,
        >((m.last_will, login_opt_bytes(m.login))),
        p_login(connect_flags_of(m), login_opt_bytes(m.login)) == Ok::<(Option<LoginModel>, Seq<u8>), Error>(
            (m.login, Seq::empty()),
        ),
        will_opt_bytes(m.last_will).len() == will_opt_len(m.last_will),
        login_opt_bytes(m.login).len() == login_opt_len(m.login),
{
    let f = connect_flags_of(m);
    let lb = login_opt_bytes(m.login);
    let wb = will_opt_bytes(m.last_will);
    lemma_connect_flags(m);
    match m.login {
        None => {
            reveal(p_login);
            assert(lb =~= Seq::<u8>::empty());
        },
        Some(l) => {
            lemma_login_roundtrip(l, f, Seq::empty());
            assert(lb + Seq::<u8>::empty() =~= lb);
        },
    }
    match m.last_will {
        None => {
            reveal(will::p_will);
            assert(wb + lb =~= lb);
        },
        Some(w) => {
            will::lemma_roundtrip(w, f, lb);
        },
    }
}

/// The layout of a Connect's variable header and payload, regrouped from the
/// end.
proof fn lemma_body_shape(name: Seq<u8>, f: u8, c: Seq<u8>, p: Seq<u8>, d: Seq<u8>, e: Seq<u8>, g: Seq<u8>)
    ensures
        name + seq![5u8, f] + c + p + d + e + g == name + (seq![5u8] + (seq![f] + (c + (p + (d + (e + g)))))),
{
    assert(name + seq![5u8, f] + c + p + d + e + g =~= name + (seq![5u8] + (seq![f] + (c + (p + (d + (e
        + g)))))));
}

/// A Connect reads back as written in MQTT 5.0, and its variable header and
/// payload have its remaining length.
#[verifier::spinoff_prover]
#[verifier::rlimit(60)]
pub proof fn lemma_roundtrip(m: ConnectModel)
    requires
        wf(m),
    ensures
        p_read(spec_body(m)) == Ok::<ConnectModel, Error>(m),
        spec_body(m).len() == spec_len(m),
{
    let f = connect_flags_of(m);
    let lb = login_opt_bytes(m.login);
    let wb = will_opt_bytes(m.last_will);
    lemma_tail_roundtrip(m);
    lemma_connect_flags(m);
    lemma_mqtt_name(m.client_id);
    let r6 = wb + lb;
    let r5 = mqtt_string(m.client_id) + r6;
    let r4 = props_bytes(m.properties) + r5;
    let r3 = be16(m.keep_alive) + r4;
    let r2 = seq![f] + r3;
    let r1 = seq![5u8] + r2;
    let s = mqtt_string(mqtt_name()) + r1;
    lemma_p_mqtt_string(m.client_id, r6);
    lemma_properties_roundtrip(m.properties, r5, allowed());
    lemma_props_bytes_len(m.properties);
    lemma_p_u16(m.keep_alive, r4);
    lemma_p_u8(f, r3);
    lemma_p_u8(5, r2);
    lemma_p_mqtt_bytes(mqtt_name_bytes(), r1);
    lemma_body_shape(
        mqtt_string(mqtt_name()),
        f,
        be16(m.keep_alive),
        props_bytes(m.properties),
        mqtt_string(m.client_id),
        wb,
        lb,
    );
    assert(p_variable_header(s) == Ok::<(u8, u16, Seq<PropertyModel>, Seq<u8>), Error>(
        (f, m.keep_alive, m.properties, r5),
    ));
    assert(p_payload(f, r5) == Ok::<(Seq<char>, Option<LastWillModel>, Option<LoginModel>), Error>(
        (m.client_id, m.last_will, m.login),
    ));
}

} // verus!
