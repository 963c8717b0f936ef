use bytes::{Bytes, BytesMut};
use vstd::prelude::*;

use super::{PubRel, PubRelModel, PubRelReasonCode};
use crate::buffer::{bytes_mut_view, bytes_view, put_u16, put_u8, room};
use crate::header::FixedHeader;
use crate::packet::{frame_room, len_result, wrote};
use crate::parse::{read_u16, VarInt};
use crate::wire::{be16, lemma_be16_u16_at, lemma_varint_bytes_len, p_u16};
use crate::Error;

verus! {

/// Reading a PubRel in MQTT 3.1.1: the packet identifier; nothing else is read.
pub open spec fn p_read(s: Seq<u8>) -> Result<PubRelModel, Error> {
    match p_u16(s) {
        Err(e) => Err(e),
        Ok((pkid, _)) => Ok(PubRelModel { pkid, reason: PubRelReasonCode::Success, properties: Seq::empty() }),
    }
}

/// The remaining length of a PubRel in MQTT 3.1.1.
pub open spec fn spec_len(m: PubRelModel) -> int {
    2
}

/// The variable header of a PubRel in MQTT 3.1.1: the packet identifier.
pub open spec fn spec_body(m: PubRelModel) -> Seq<u8> {
    be16(m.pkid)
}

pub fn read(_fixed_header: FixedHeader, bytes: Bytes) -> (r: Result<PubRel, Error>)
    ensures
        match p_read(bytes_view(bytes)) {
            Ok(m) => r matches Ok(p) && p@ == m,
            Err(e) => r == Err::<PubRel, Error>(e),
        },
{
    let mut bytes = bytes;
    let pkid = read_u16(&mut bytes)?;
    Ok(PubRel::new(pkid))
}

pub fn write(packet: &PubRel, buffer: &mut BytesMut) -> (r: Result<usize, Error>)
    requires
        room(bytes_mut_view(*old(buffer)), frame_room(spec_len(packet@))),
    ensures
        wrote(r, bytes_mut_view(*old(buffer)), bytes_mut_view(*final(buffer)), 0x62, spec_len(packet@), spec_body(packet@)),
{
    let ghost start = bytes_mut_view(*buffer);
    // packet type and flags
    put_u8(buffer, 0x62);
    // remaining length
    let len = len(packet)?;
    proof {
        lemma_varint_bytes_len(len.spec_value());
    }
    len.write(buffer);
    // packet identifier
    put_u16(buffer, packet.pkid);
    proof {
        assert(bytes_mut_view(*buffer) =~= start + crate::packet::frame(0x62, 2, spec_body(packet@)));
    }
    Ok(1 + len.length() + len.value())
}

pub fn len(_packet: &PubRel) -> (r: Result<VarInt, Error>)
    ensures
        len_result(r, spec_len(_packet@)),
{
    VarInt::new(2) // pkid
}

/// A PubRel with the success code and no properties reads back as written in
/// MQTT 3.1.1, and its variable header has its remaining length.
pub proof fn lemma_roundtrip(m: PubRelModel)
    requires
        m.reason == PubRelReasonCode::Success,
        m.properties == Seq::<crate::property::PropertyModel>::empty(),
    ensures
        p_read(spec_body(m)) == Ok::<PubRelModel, Error>(m),
        spec_body(m).len() == spec_len(m),
{
    lemma_be16_u16_at(m.pkid, Seq::empty());
    assert(be16(m.pkid) + Seq::<u8>::empty() =~= be16(m.pkid));
}

} // verus!
