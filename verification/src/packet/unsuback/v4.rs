use bytes::{Bytes, BytesMut};
use vstd::prelude::*;

use super::{UnsubAck, UnsubAckModel};
use crate::buffer::{bytes_mut_view, bytes_view, put_u16, put_u8, room};
use crate::header::FixedHeader;
use crate::packet::{frame_room, len_result, wrote};
use crate::parse::{read_u16, VarInt};
use crate::property::PropertyModel;
use crate::wire::{be16, lemma_p_u16, p_u16};
use crate::Error;

verus! {

/// Reading an UnsubAck in MQTT 3.1.1 whose fixed header gives a remaining
/// length of `remaining_len`: that length must be `2`, and the packet
/// identifier is read.
pub open spec fn p_read(remaining_len: nat, s: Seq<u8>) -> Result<UnsubAckModel, Error> {
    if remaining_len != 2 {
        Err(Error::PayloadSizeIncorrect)
    } else {
        match p_u16(s) {
            Err(e) => Err(e),
            Ok((pkid, _)) => Ok(UnsubAckModel { pkid, properties: Seq::empty(), reason_codes: Seq::empty() }),
        }
    }
}

/// The remaining length of an UnsubAck in MQTT 3.1.1.
pub open spec fn spec_len(m: UnsubAckModel) -> int {
    2
}

/// The variable header of an UnsubAck in MQTT 3.1.1: the packet identifier.
pub open spec fn spec_body(m: UnsubAckModel) -> Seq<u8> {
    be16(m.pkid)
}

pub fn read(fixed_header: FixedHeader, mut bytes: Bytes) -> (r: Result<UnsubAck, Error>)
    ensures
        match p_read(fixed_header.remaining_len.spec_value(), bytes_view(bytes)) {
            Ok(m) => r matches Ok(p) && p@ == m,
            Err(e) => r == Err::<UnsubAck, Error>(e),
        },
{
    if fixed_header.remaining_len.value() != 2 {
        return Err(Error::PayloadSizeIncorrect);
    }

    let pkid = read_u16(&mut bytes)?;
    Ok(UnsubAck::new(pkid))
}

pub fn write(packet: &UnsubAck, buffer: &mut BytesMut) -> (r: Result<usize, Error>)
    requires
        room(bytes_mut_view(*old(buffer)), frame_room(spec_len(packet@))),
    ensures
        wrote(r, bytes_mut_view(*old(buffer)), bytes_mut_view(*final(buffer)), 0xB0, spec_len(packet@), spec_body(packet@)),
{
    let ghost start = bytes_mut_view(*buffer);
    put_u8(buffer, 0xB0);
    put_u8(buffer, 0x02);
    put_u16(buffer, packet.pkid);
    proof {
        assert(crate::wire::varint_bytes(2) =~= seq![2u8]);
        assert(bytes_mut_view(*buffer) =~= start + crate::packet::frame(0xB0, 2, spec_body(packet@)));
    }
    Ok(4)
}

pub fn len(_packet: &UnsubAck) -> (r: Result<VarInt, Error>)
    ensures
        len_result(r, spec_len(_packet@)),
{
    VarInt::new(2) // pkid
}

/// An UnsubAck without reason codes or properties reads back as written in
/// MQTT 3.1.1, and its variable header has its remaining length.
pub proof fn lemma_roundtrip(m: UnsubAckModel)
    requires
        m.reason_codes.len() == 0,
        m.properties == Seq::<PropertyModel>::empty(),
    ensures
        p_read(2, spec_body(m)) == Ok::<UnsubAckModel, Error>(m),
        spec_body(m).len() == spec_len(m),
{
    lemma_p_u16(m.pkid, Seq::empty());
    assert(be16(m.pkid) + Seq::<u8>::empty() =~= be16(m.pkid));
    assert(m.reason_codes =~= Seq::empty());
}

} // verus!
