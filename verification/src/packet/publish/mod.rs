//! Publish message

use bytes::Bytes;
use vstd::prelude::*;

use crate::buffer::{bytes_from_vec, bytes_view};
use crate::property::{Properties, PropertyModel};
use crate::{Error, QoS};

pub mod v4;
pub mod v5;

verus! {

/// Publish message
///
/// Sent from a client to a server or from a server to a client to transport an application message.
#[derive(Debug, Clone, PartialEq, Eq)]
pub struct Publish {
    pub dup: bool,
    pub qos: QoS,
    pub retain: bool,
    pub topic: String,
    pub pkid: u16,
    pub properties: Properties,
    pub payload: Bytes,
}

/// A [Publish], as the specifications see it.
pub struct PublishModel {
    pub dup: bool,
    pub qos: QoS,
    pub retain: bool,
    pub topic: Seq<char>,
    pub pkid: u16,
    pub properties: Seq<PropertyModel>,
    pub payload: Seq<u8>,
}

impl View for Publish {
    type V = PublishModel;

    open spec fn view(&self) -> PublishModel {
        PublishModel {
            dup: self.dup,
            qos: self.qos,
            retain: self.retain,
            topic: self.topic@,
            pkid: self.pkid,
            properties: self.properties@,
            payload: bytes_view(self.payload),
        }
    }
}

impl Publish {
    pub fn new(topic: &str, qos: QoS, payload: Vec<u8>) -> (r: Self)
        ensures
            r@ == (PublishModel {
                dup: false,
                qos,
                retain: false,
                topic: topic@,
                pkid: 0,
                properties: Seq::empty(),
                payload: payload@,
            }),
    {
        Publish {
            dup: false,
            qos,
            retain: false,
            pkid: 0,
            topic: topic.to_owned(),
            payload: bytes_from_vec(payload),
            properties: Properties::new(),
        }
    }
}

/// A flag as a bit.
pub open spec fn bit(b: bool) -> u8 {
    if b {
        1
    } else {
        0
    }
}

/// The control field of a Publish: the packet type, then the dup flag, the
/// QoS level and the retain flag.
pub open spec fn spec_byte1(m: PublishModel) -> u8 {
    (48 + 8 * bit(m.dup) + 2 * m.qos.spec_code() + bit(m.retain)) as u8
}

/// The control field of a Publish, bit by bit as MQTT fixes it: the packet
/// type 3 in the high four bits, the dup flag in bit 3, the QoS level (0, 1
/// or 2) in bits 1 and 2, and the retain flag in bit 0.
pub proof fn lemma_byte1_bits(m: PublishModel)
    ensures
        spec_byte1(m) >> 4 == 3,
        ((spec_byte1(m) >> 3) & 1 == 1) == m.dup,
        (spec_byte1(m) >> 1) & 3 == (match m.qos {
            QoS::AtMostOnce => 0u8,
            QoS::AtLeastOnce => 1u8,
            QoS::ExactlyOnce => 2u8,
        }),
        (spec_byte1(m) & 1 == 1) == m.retain,
{
    let b = spec_byte1(m);
    let d = bit(m.dup);
    let q = m.qos.spec_code();
    let r = bit(m.retain);
    assert(b == 48 + 8 * d + 2 * q + r);
    assert(b >> 4 == 3 && (b >> 3) & 1 == d && (b >> 1) & 3 == q && b & 1 == r) by (bit_vector)
        requires
            b == 48 + 8 * d + 2 * q + r,
            d <= 1,
            q <= 2,
            r <= 1,
    ;
}

/// The packet identifier on the wire: present for QoS levels above 0.
pub open spec fn pkid_bytes(m: PublishModel) -> Seq<u8> {
    if m.qos != QoS::AtMostOnce {
        crate::wire::be16(m.pkid)
    } else {
        Seq::empty()
    }
}

/// The number of bytes the packet identifier is counted with: two when the
/// QoS level is above 0 and the identifier is not 0.
pub open spec fn pkid_len(m: PublishModel) -> nat {
    if m.qos != QoS::AtMostOnce && m.pkid != 0 {
        2
    } else {
        0
    }
}

/// Whether the packet identifier is 0 where the QoS level asks for one.
pub open spec fn pkid_missing(m: PublishModel) -> bool {
    m.qos != QoS::AtMostOnce && m.pkid == 0
}

/// Whether the packet identifier is present exactly where the QoS level asks
/// for one, and not 0 there.
pub open spec fn pkid_wf(m: PublishModel) -> bool {
    if m.qos == QoS::AtMostOnce {
        m.pkid == 0
    } else {
        m.pkid != 0
    }
}

/// The control field of a Publish as the exec code computes it.
pub(crate) fn byte1(packet: &Publish) -> (b: u8)
    ensures
        b == spec_byte1(packet@),
{
    let dup: u8 = if packet.dup { 1 } else { 0 };
    let qos = packet.qos.code();
    let retain: u8 = if packet.retain { 1 } else { 0 };
    proof {
        assert(dup <= 1 && qos <= 2 && retain <= 1 ==> 0b0011_0000 | retain | (qos << 1) | (dup << 3) == 48 + 8 * dup + 2 * qos + retain) by (bit_vector);
    }
    0b0011_0000 | retain | (qos << 1) | (dup << 3)
}

/// The dup flag, QoS level and retain flag that the flags of a control
/// field hold, or the error for a QoS level that names none.
pub open spec fn spec_flags(flags: u8) -> Result<(bool, QoS, bool), Error> {
    match QoS::spec_from_code((flags / 2) % 4) {
        Err(e) => Err(e),
        Ok(qos) => Ok(((flags / 8) % 2 == 1, qos, flags % 2 == 1)),
    }
}

/// Reads the dup flag, QoS level and retain flag from the flags of a control field.
pub(crate) fn read_flags(flags: u8) -> (r: Result<(bool, QoS, bool), Error>)
    requires
        flags < 16,
    ensures
        r == spec_flags(flags),
{
    proof {
        assert(flags < 16 ==> ((flags & 0b1000 != 0) == ((flags / 8) % 2 == 1) && (flags & 0b0110) >> 1 == (flags
            / 2) % 4 && (flags & 0b0001 != 0) == (flags % 2 == 1))) by (bit_vector);
    }
    let dup = (flags & 0b1000) != 0;
    let qos = QoS::from_code((flags & 0b0110) >> 1)?;
    let retain = (flags & 0b0001) != 0;
    Ok((dup, qos, retain))
}

/// The flags of the control field of a Publish read back as written.
pub proof fn lemma_flags(m: PublishModel)
    ensures
        spec_flags(spec_byte1(m) % 16) == Ok::<(bool, QoS, bool), Error>((m.dup, m.qos, m.retain)),
{
    let f = spec_byte1(m) % 16;
    assert(f == 8 * bit(m.dup) + 2 * m.qos.spec_code() + bit(m.retain));
}

} // verus!
