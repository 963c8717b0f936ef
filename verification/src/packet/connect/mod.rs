//! Connection request

use bytes::{Bytes, BytesMut};
use vstd::prelude::*;

use crate::buffer::{bytes_from_vec, bytes_mut_view, bytes_view, room};
use crate::packet::publish::bit;
use crate::parse::{read_mqtt_string, str_len, write_mqtt_string};
use crate::property::{Properties, PropertyModel};
use crate::wire::{lemma_utf8_len_zero, mqtt_string, p_mqtt_string, utf8_len};
use crate::{Error, QoS};

pub mod v4;
pub mod v5;

verus! {

/// Connection request
///
/// The first packet that must be sent to a server after a client establishes a network connection.
#[derive(Debug, Clone, PartialEq, Eq)]
pub struct Connect {
    /// MQTT keep alive time
    pub keep_alive: u16,
    /// Clean session. Asks the broker to clear previous state
    pub clean_start: bool,
    /// Properties of the connect packet
    pub properties: Properties,
    /// Client Identifier - must be present in the payload
    pub client_id: String,
    /// Will message that broker needs to publish when the client disconnects
    pub last_will: Option<Box<LastWill>>,
    /// Login credentials
    pub login: Option<Box<Login>>,
}

/// LastWill that broker forwards on behalf of the client
#[derive(Debug, Clone, PartialEq, Eq)]
pub struct LastWill {
    pub qos: QoS,
    pub retain: bool,
    pub properties: Properties,
    pub topic: String,
    pub payload: Bytes,
}

#[derive(Debug, Clone, PartialEq, Eq)]
pub struct Login {
    pub username: String,
    pub password: String,
}

/// A [Login], as the specifications see it.
pub struct LoginModel {
    pub username: Seq<char>,
    pub password: Seq<char>,
}

/// A [LastWill], as the specifications see it.
pub struct LastWillModel {
    pub qos: QoS,
    pub retain: bool,
    pub properties: Seq<PropertyModel>,
    pub topic: Seq<char>,
    pub payload: Seq<u8>,
}

/// A [Connect], as the specifications see it.
pub struct ConnectModel {
    pub keep_alive: u16,
    pub clean_start: bool,
    pub properties: Seq<PropertyModel>,
    pub client_id: Seq<char>,
    pub last_will: Option<LastWillModel>,
    pub login: Option<LoginModel>,
}

impl View for Login {
    type V = LoginModel;

    open spec fn view(&self) -> LoginModel {
        LoginModel { username: self.username@, password: self.password@ }
    }
}

impl View for LastWill {
    type V = LastWillModel;

    open spec fn view(&self) -> LastWillModel {
        LastWillModel {
            qos: self.qos,
            retain: self.retain,
            properties: self.properties@,
            topic: self.topic@,
            payload: bytes_view(self.payload),
        }
    }
}

/// The model of an optional will.
pub open spec fn will_view(w: Option<Box<LastWill>>) -> Option<LastWillModel> {
    match w {
        Some(b) => Some((*b)@),
        None => None,
    }
}

/// The model of optional credentials.
pub open spec fn login_view(l: Option<Box<Login>>) -> Option<LoginModel> {
    match l {
        Some(b) => Some((*b)@),
        None => None,
    }
}

impl View for Connect {
    type V = ConnectModel;

    open spec fn view(&self) -> ConnectModel {
        ConnectModel {
            keep_alive: self.keep_alive,
            clean_start: self.clean_start,
            properties: self.properties@,
            client_id: self.client_id@,
            last_will: will_view(self.last_will),
            login: login_view(self.login),
        }
    }
}

impl Connect {
    pub fn new(keep_alive: u16, clean_start: bool, client_id: &str) -> (r: Self)
        ensures
            r@ == (ConnectModel {
                keep_alive,
                clean_start,
                properties: Seq::empty(),
                client_id: client_id@,
                last_will: None,
                login: None,
            }),
    {
        Self {
            keep_alive,
            clean_start,
            properties: Properties::new(),
            client_id: client_id.to_owned(),
            last_will: None,
            login: None,
        }
    }

    pub fn set_login(&mut self, u: &str, p: &str) -> (r: &mut Connect)
        ensures
            (*r)@ == (ConnectModel {
                keep_alive: old(self).keep_alive,
                clean_start: old(self).clean_start,
                properties: old(self).properties@,
                client_id: old(self).client_id@,
                last_will: will_view(old(self).last_will),
                login: Some(LoginModel { username: u@, password: p@ }),
            }),
            *final(self) == *final(r),
    {
        let login = Login { username: u.to_owned(), password: p.to_owned() };

        self.login = Some(Box::new(login));
        self
    }
}

impl LastWill {
    /// The will, or none, as reading it gives it.
    pub open spec fn opt_view(w: Option<LastWill>) -> Option<LastWillModel> {
        match w {
            Some(x) => Some(x@),
            None => None,
        }
    }

    pub fn new(topic: &str, payload: Vec<u8>, qos: QoS, retain: bool) -> (r: LastWill)
        ensures
            r@ == (LastWillModel { qos, retain, properties: Seq::empty(), topic: topic@, payload: payload@ }),
    {
        LastWill { topic: topic.to_owned(), payload: bytes_from_vec(payload), qos, retain, properties: Properties::new() }
    }

    pub fn new_v5(topic: &str, payload: Vec<u8>, qos: QoS, retain: bool) -> (r: Self)
        ensures
            r@ == (LastWillModel { qos, retain, properties: Seq::empty(), topic: topic@, payload: payload@ }),
    {
        Self { topic: topic.to_owned(), payload: bytes_from_vec(payload), qos, retain, properties: Properties::new() }
    }
}

/// The bits of the connect flags that a will sets: the will flag, its QoS
/// level in bits 3 and 4, and its retain flag in bit 5.
pub open spec fn will_flags(w: Option<LastWillModel>) -> u8 {
    match w {
        None => 0,
        Some(w) => (4 + 8 * w.qos.spec_code() + 32 * bit(w.retain)) as u8,
    }
}

/// The bits of the connect flags that credentials set: bit 7 for a user
/// name, bit 6 for a password, each only when it is not empty.
pub open spec fn login_flags(l: LoginModel) -> u8 {
    ((if l.username.len() > 0 { 0x80int } else { 0 }) + (if l.password.len() > 0 { 0x40int } else { 0 })) as u8
}

/// The connect flags of a Connect: the clean start flag in bit 1, then the
/// will and credential bits.
pub open spec fn connect_flags_of(m: ConnectModel) -> u8 {
    (2 * bit(m.clean_start) + will_flags(m.last_will) + match m.login {
        None => 0u8,
        Some(l) => login_flags(l),
    }) as u8
}

/// The connect flags of a Connect, bit by bit as MQTT fixes them: bit 0 is
/// reserved and 0, bit 1 is the clean start flag, bit 2 says that a will is
/// there, bits 3 and 4 are the will's QoS level (0, 1 or 2) and bit 5 its
/// retain flag, bit 6 says that a non-empty password follows and bit 7 that
/// a non-empty user name follows.
pub proof fn lemma_connect_flag_bits(m: ConnectModel)
    ensures
        ({
            let f = connect_flags_of(m);
            &&& f & 1 == 0
            &&& ((f >> 1) & 1 == 1) == m.clean_start
            &&& ((f >> 2) & 1 == 1) == (m.last_will is Some)
            &&& (m.last_will matches Some(w) ==> (f >> 3) & 3 == (match w.qos {
                QoS::AtMostOnce => 0u8,
                QoS::AtLeastOnce => 1u8,
                QoS::ExactlyOnce => 2u8,
            }) && ((f >> 5) & 1 == 1) == w.retain)
            &&& (m.last_will is None ==> (f >> 3) & 7 == 0)
            &&& ((f >> 6) & 1 == 1) == (m.login matches Some(l) && l.password.len() > 0)
            &&& ((f >> 7) & 1 == 1) == (m.login matches Some(l) && l.username.len() > 0)
        }),
{
    let f = connect_flags_of(m);
    let c: u8 = bit(m.clean_start);
    let w: u8 = if m.last_will is Some { 1 } else { 0 };
    let q: u8 = match m.last_will {
        Some(x) => x.qos.spec_code(),
        None => 0,
    };
    let r: u8 = match m.last_will {
        Some(x) => bit(x.retain),
        None => 0,
    };
    let pw: u8 = if m.login matches Some(l) && l.password.len() > 0 { 1 } else { 0 };
    let un: u8 = if m.login matches Some(l) && l.username.len() > 0 { 1 } else { 0 };
    assert(f == 2 * c + 4 * w + 8 * q + 32 * r + 64 * pw + 128 * un);
    assert(f & 1 == 0 && (f >> 1) & 1 == c && (f >> 2) & 1 == w && (f >> 3) & 3 == q && (f >> 5) & 1 == r && (f
        >> 6) & 1 == pw && (f >> 7) & 1 == un && (w == 0 ==> (f >> 3) & 7 == 0)) by (bit_vector)
        requires
            f == 2 * c + 4 * w + 8 * q + 32 * r + 64 * pw + 128 * un,
            c <= 1,
            w <= 1,
            q <= 2,
            r <= 1,
            pw <= 1,
            un <= 1,
            w == 0 ==> q == 0 && r == 0,
    ;
}

/// The credentials on the wire: the user name and the password, each only
/// when it is not empty.
pub open spec fn login_bytes(l: LoginModel) -> Seq<u8> {
    (if l.username.len() > 0 { mqtt_string(l.username) } else { Seq::empty() }) + (if l.password.len() > 0 {
        mqtt_string(l.password)
    } else {
        Seq::empty()
    })
}

/// The number of bytes of the credentials on the wire.
pub open spec fn login_len(l: LoginModel) -> nat {
    (if l.username.len() > 0 { 2 + utf8_len(l.username) } else { 0 }) + (if l.password.len() > 0 {
        2 + utf8_len(l.password)
    } else {
        0
    })
}

/// Optional credentials on the wire.
pub open spec fn login_opt_bytes(l: Option<LoginModel>) -> Seq<u8> {
    match l {
        None => Seq::empty(),
        Some(l) => login_bytes(l),
    }
}

/// The number of bytes of optional credentials on the wire.
pub open spec fn login_opt_len(l: Option<LoginModel>) -> nat {
    match l {
        None => 0,
        Some(l) => login_len(l),
    }
}

/// Reading the credentials that the connect flags announce: a user name if
/// bit 7 is set, then a password if bit 6 is set. When both are empty there
/// are no credentials.
#[verifier::opaque]
pub open spec fn p_login(flags: u8, s: Seq<u8>) -> Result<(Option<LoginModel>, Seq<u8>), Error> {
    let user = if (flags / 128) % 2 == 0 {
        Ok((Seq::<char>::empty(), s))
    } else {
        p_mqtt_string(s)
    };
    match user {
        Err(e) => Err(e),
        Ok((username, r)) => {
            let pass = if (flags / 64) % 2 == 0 {
                Ok((Seq::<char>::empty(), r))
            } else {
                p_mqtt_string(r)
            };
            match pass {
                Err(e) => Err(e),
                Ok((password, r2)) => if username.len() == 0 && password.len() == 0 {
                    Ok((None, r2))
                } else {
                    Ok((Some(LoginModel { username, password }), r2))
                },
            }
        },
    }
}

/// Whether credentials read back as written: not both empty, each fitting
/// its length prefix.
pub open spec fn login_wf(l: LoginModel) -> bool {
    &&& l.username.len() > 0 || l.password.len() > 0
    &&& utf8_len(l.username) <= 65535
    &&& utf8_len(l.password) <= 65535
}

impl Login {
    pub fn new(u: &str, p: &str) -> (r: Login)
        ensures
            r@ == (LoginModel { username: u@, password: p@ }),
    {
        Login { username: u.to_owned(), password: p.to_owned() }
    }

    pub fn read(connect_flags: u8, bytes: &mut Bytes) -> (r: Result<Option<Login>, Error>)
        ensures
            match p_login(connect_flags, bytes_view(*old(bytes))) {
                Ok((l, rest)) => r matches Ok(o) && login_view(
                    match o {
                        Some(x) => Some(Box::new(x)),
                        None => None,
                    },
                ) == l && bytes_view(*final(bytes)) == rest,
                Err(e) => r == Err::<Option<Login>, Error>(e),
            },
    {
        proof {
            reveal(p_login);
            assert(connect_flags & 0b1000_0000 == 0 <==> (connect_flags / 128) % 2 == 0) by (bit_vector);
            assert(connect_flags & 0b0100_0000 == 0 <==> (connect_flags / 64) % 2 == 0) by (bit_vector);
        }
        let username = match connect_flags & 0b1000_0000 {
            0 => String::new(),
            _ => read_mqtt_string(bytes)?,
        };

        let password = match connect_flags & 0b0100_0000 {
            0 => String::new(),
            _ => read_mqtt_string(bytes)?,
        };

        proof {
            lemma_utf8_len_zero(username@);
            lemma_utf8_len_zero(password@);
        }
        if str_len(&username) == 0 && str_len(&password) == 0 {
            Ok(None)
        } else {
            Ok(Some(Login { username, password }))
        }
    }

    pub fn write(&self, buffer: &mut BytesMut) -> (connect_flags: u8)
        requires
            room(bytes_mut_view(*old(buffer)), login_len(self@) as int),
        ensures
            connect_flags == login_flags(self@),
            bytes_mut_view(*final(buffer)) == bytes_mut_view(*old(buffer)) + login_bytes(self@),
    {
        let ghost start = bytes_mut_view(*buffer);
        proof {
            lemma_utf8_len_zero(self.username@);
            lemma_utf8_len_zero(self.password@);
        }
        let mut connect_flags: u8 = 0;
        if str_len(&self.username) != 0 {
            connect_flags |= 0x80;
            proof {
                assert(0u8 | 0x80u8 == 0x80u8) by (bit_vector);
            }
            write_mqtt_string(buffer, self.username.as_str());
        }
        let ghost mid = bytes_mut_view(*buffer);

        if str_len(&self.password) != 0 {
            proof {
                assert(connect_flags == 0 || connect_flags == 0x80);
                assert(connect_flags == 0 || connect_flags == 0x80 ==> (connect_flags | 0x40) == connect_flags + 0x40)
                    by (bit_vector);
            }
            connect_flags |= 0x40;
            write_mqtt_string(buffer, self.password.as_str());
        }
        proof {
            assert(bytes_mut_view(*buffer) =~= start + login_bytes(self@));
        }

        connect_flags
    }

    /// The number of bytes of the credentials on the wire. The count must
    /// fit a `usize`.
    pub(crate) fn len(&self) -> (n: usize)
        requires
            login_len(self@) <= usize::MAX,
        ensures
            n == login_len(self@),
    {
        proof {
            lemma_utf8_len_zero(self.username@);
            lemma_utf8_len_zero(self.password@);
        }
        let mut len: usize = 0;

        if str_len(&self.username) != 0 {
            len += 2 + str_len(&self.username);
        }

        if str_len(&self.password) != 0 {
            len += 2 + str_len(&self.password);
        }

        len
    }

    /// Whether the number of bytes of the credentials on the wire fits a
    /// `usize`.
    pub(crate) fn len_fits(&self) -> (r: bool)
        ensures
            r == (login_len(self@) <= usize::MAX),
    {
        proof {
            lemma_utf8_len_zero(self.username@);
            lemma_utf8_len_zero(self.password@);
        }
        let u = str_len(&self.username);
        let p = str_len(&self.password);
        let used: usize = if u == 0 {
            0
        } else if u <= usize::MAX - 2 {
            u + 2
        } else {
            return false;
        };
        p == 0 || (used <= usize::MAX - 2 && p <= usize::MAX - 2 - used)
    }
}

/// Credentials read back as written, whatever follows them, under connect
/// flags whose bits 7 and 6 are those of the credentials.
pub proof fn lemma_login_roundtrip(l: LoginModel, flags: u8, rest: Seq<u8>)
    requires
        login_wf(l),
        (flags / 128) % 2 == (if l.username.len() > 0 { 1int } else { 0 }),
        (flags / 64) % 2 == (if l.password.len() > 0 { 1int } else { 0 }),
    ensures
        p_login(flags, login_bytes(l) + rest) == Ok::<(Option<LoginModel>, Seq<u8>), Error>((Some(l), rest)),
        login_bytes(l).len() == login_len(l),
{
    reveal(p_login);
    let u = l.username;
    let p = l.password;
    let pb = if p.len() > 0 { mqtt_string(p) } else { Seq::empty() };
    let ub = if u.len() > 0 { mqtt_string(u) } else { Seq::empty() };
    assert(login_bytes(l) + rest =~= ub + (pb + rest));
    if u.len() > 0 {
        crate::wire::lemma_p_mqtt_string(u, pb + rest);
    } else {
        assert(ub + (pb + rest) =~= pb + rest);
        assert(u =~= Seq::<char>::empty());
    }
    if p.len() > 0 {
        crate::wire::lemma_p_mqtt_string(p, rest);
    } else {
        assert(pb + rest =~= rest);
        assert(p =~= Seq::<char>::empty());
    }
}

/// The bits of connect flags made of a clean start bit `c`, will bits `w`
/// and credential bits `l`: each field reads back from the sum.
pub proof fn lemma_flag_bits(c: u8, w: u8, l: u8)
    by (bit_vector)
    requires
        c == 0 || c == 2,
        w == 0 || (w & 3 == 0 && w < 64),
        l == 0 || l == 0x40 || l == 0x80 || l == 0xC0,
    ensures
        c + w + l < 256,
        (((c + w + l) as u8) / 2) % 2 == c / 2,
        (((c + w + l) as u8) / 4) % 2 == (w / 4) % 2,
        (((c + w + l) as u8) / 8) % 4 == (w / 8) % 4,
        (((c + w + l) as u8) / 8) % 8 == (w / 8) % 8,
        (((c + w + l) as u8) / 32) % 2 == (w / 32) % 2,
        (((c + w + l) as u8) / 64) % 2 == (l / 64) % 2,
        (((c + w + l) as u8) / 128) % 2 == (l / 128) % 2,
{
}

/// The will bits of a will with QoS code `q` and retain bit `r`: each field
/// reads back from them.
pub proof fn lemma_will_flag_bits(q: u8, r: u8)
    by (bit_vector)
    requires
        q <= 2,
        r <= 1,
    ensures
        4 + 8 * q + 32 * r < 64,
        ((4 + 8 * q + 32 * r) as u8) & 3 == 0,
        (((4 + 8 * q + 32 * r) as u8) / 4) % 2 == 1,
        (((4 + 8 * q + 32 * r) as u8) / 8) % 4 == q,
        (((4 + 8 * q + 32 * r) as u8) / 32) % 2 == r,
{
}

/// The will and credential bits of a Connect's flags, and its clean start
/// bit, each read back from its connect flags.
pub proof fn lemma_connect_flags(m: ConnectModel)
    ensures
        (connect_flags_of(m) / 2) % 2 == bit(m.clean_start),
        m.last_will matches Some(w) ==> {
            &&& (connect_flags_of(m) / 4) % 2 == 1
            &&& (connect_flags_of(m) / 8) % 4 == w.qos.spec_code()
            &&& (connect_flags_of(m) / 32) % 2 == bit(w.retain)
        },
        m.last_will is None ==> (connect_flags_of(m) / 4) % 2 == 0 && (connect_flags_of(m) / 8) % 8 == 0,
        (connect_flags_of(m) / 128) % 2 == (match m.login {
            Some(l) => if l.username.len() > 0 { 1int } else { 0 },
            None => 0,
        }),
        (connect_flags_of(m) / 64) % 2 == (match m.login {
            Some(l) => if l.password.len() > 0 { 1int } else { 0 },
            None => 0,
        }),
{
    let c = (2 * bit(m.clean_start)) as u8;
    let w = will_flags(m.last_will);
    let l: u8 = match m.login {
        None => 0u8,
        Some(x) => login_flags(x),
    };
    if let Some(x) = m.last_will {
        lemma_will_flag_bits(x.qos.spec_code(), bit(x.retain));
    }
    lemma_flag_bits(c, w, l);
}

/// Checks that bytes are the protocol name of MQTT.
pub(crate) fn is_protocol_name(b: &[u8]) -> (r: bool)
    ensures
        r == (b@ == crate::wire::mqtt_name_bytes()),
{
    let r = b.len() == 4 && b[0] == 0x4D && b[1] == 0x51 && b[2] == 0x54 && b[3] == 0x54;
    proof {
        if r {
            assert(b@ =~= crate::wire::mqtt_name_bytes());
        }
    }
    r
}

} // verus!
