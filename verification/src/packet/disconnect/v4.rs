use bytes::{Bytes, BytesMut};
use vstd::prelude::*;

use super::{Disconnect, DisconnectModel, DisconnectReasonCode};
use crate::buffer::{bytes_mut_view, put_u8, room};
use crate::header::FixedHeader;
use crate::packet::{frame_room, len_result, wrote};
use crate::parse::VarInt;
use crate::wire::{lemma_varint_bytes_len};
use crate::Error;

verus! {

/// Reading a Disconnect in MQTT 3.1.1: the flags must be clear; nothing is read.
pub open spec fn p_read(flags: u8) -> Result<DisconnectModel, Error> {
    if flags != 0 {
        Err(Error::MalformedPacket)
    } else {
        Ok(DisconnectModel { reason_code: DisconnectReasonCode::NormalDisconnection, properties: Seq::empty() })
    }
}

pub fn read(fixed_header: FixedHeader, _bytes: Bytes) -> (r: Result<Disconnect, Error>)
    ensures
        match p_read(fixed_header.control_field % 16) {
            Ok(m) => r matches Ok(p) && p@ == m,
            Err(e) => r == Err::<Disconnect, Error>(e),
        },
{
    if fixed_header.flags() != 0x00 {
        return Err(Error::MalformedPacket);
    };

    Ok(Disconnect::new())
}

pub fn write(packet: &Disconnect, buffer: &mut BytesMut) -> (r: Result<usize, Error>)
    requires
        room(bytes_mut_view(*old(buffer)), frame_room(0)),
    ensures
        wrote(r, bytes_mut_view(*old(buffer)), bytes_mut_view(*final(buffer)), 0xE0, 0, Seq::empty()),
        r == Ok::<usize, Error>(2),
        bytes_mut_view(*final(buffer)) == bytes_mut_view(*old(buffer)) + seq![0xE0u8, 0x00u8],
{
    let ghost start = bytes_mut_view(*buffer);
    // packet type and flags
    put_u8(buffer, 0xE0);
    // remaining length
    let len = len(packet)?;
    proof {
        lemma_varint_bytes_len(0);
    }
    len.write(buffer);
    proof {
        assert(bytes_mut_view(*buffer) =~= start + crate::packet::frame(0xE0, 0, Seq::empty()));
    }
    Ok(1 + len.length() + len.value())
}

pub fn len(_packet: &Disconnect) -> (r: Result<VarInt, Error>)
    ensures
        len_result(r, 0),
        r matches Ok(v) && v.spec_value() == 0 && v.spec_length() == 1,
{
    VarInt::new(0) // no payload
}

/// A normal Disconnect without properties reads back as written in MQTT 3.1.1.
pub proof fn lemma_roundtrip(m: DisconnectModel)
    requires
        m.reason_code == DisconnectReasonCode::NormalDisconnection,
        m.properties == Seq::<crate::property::PropertyModel>::empty(),
    ensures
        p_read(0) == Ok::<DisconnectModel, Error>(m),
{
}

} // verus!
