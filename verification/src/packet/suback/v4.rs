use bytes::{Bytes, BytesMut};
use vstd::prelude::*;

use super::{code_parser, codes_bytes, lemma_codes_roundtrip, read_codes, write_codes, SubAck, SubAckModel};
use crate::buffer::{bytes_len, bytes_mut_view, bytes_view, put_u16, put_u8, room};
use crate::header::FixedHeader;
use crate::packet::{frame_room, len_result, wrote};
use crate::parse::{read_u16, VarInt};
use crate::property::{cap_add, PropertyModel};
use crate::wire::{be16, lemma_p_u16, lemma_varint_bytes_len, p_many, p_u16, varint_max};
use crate::Error;

verus! {

/// Reading a SubAck in MQTT 3.1.1: the packet identifier, then reason codes
/// until the input is used up; there must be at least one byte of them.
pub open spec fn p_read(s: Seq<u8>) -> Result<SubAckModel, Error> {
    match p_u16(s) {
        Err(e) => Err(e),
        Ok((pkid, r)) => if r.len() == 0 {
            Err(Error::MalformedPacket)
        } else {
            match p_many(r, code_parser()) {
                Err(e) => Err(e),
                Ok(reason_codes) => Ok(SubAckModel { pkid, properties: Seq::empty(), reason_codes }),
            }
        },
    }
}

/// The remaining length of a SubAck in MQTT 3.1.1.
pub open spec fn spec_len(m: SubAckModel) -> int {
    2 + m.reason_codes.len() as int
}

/// The variable header and payload of a SubAck in MQTT 3.1.1.
pub open spec fn spec_body(m: SubAckModel) -> Seq<u8> {
    be16(m.pkid) + codes_bytes(m.reason_codes)
}

pub fn read(_fixed_header: FixedHeader, mut bytes: Bytes) -> (r: Result<SubAck, Error>)
    ensures
        match p_read(bytes_view(bytes)) {
            Ok(m) => r matches Ok(p) && p@ == m,
            Err(e) => r == Err::<SubAck, Error>(e),
        },
{
    let pkid = read_u16(&mut bytes)?;

    if bytes_len(&bytes) == 0 {
        return Err(Error::MalformedPacket);
    }

    let return_codes = read_codes(&mut bytes)?;
    Ok(SubAck::new(pkid, return_codes))
}

pub fn write(packet: &SubAck, buffer: &mut BytesMut) -> (r: Result<usize, Error>)
    requires
        room(bytes_mut_view(*old(buffer)), frame_room(spec_len(packet@))),
    ensures
        wrote(r, bytes_mut_view(*old(buffer)), bytes_mut_view(*final(buffer)), 0x90, spec_len(packet@), spec_body(packet@)),
{
    let ghost start = bytes_mut_view(*buffer);
    put_u8(buffer, 0x90);
    let len = len(packet)?;
    proof {
        lemma_varint_bytes_len(len.spec_value());
    }
    len.write(buffer);
    put_u16(buffer, packet.pkid);
    write_codes(&packet.reason_codes, buffer);
    proof {
        assert(bytes_mut_view(*buffer) =~= start + crate::packet::frame(0x90, spec_len(packet@) as nat, spec_body(packet@)));
    }
    Ok(1 + len.length() + len.value())
}

pub fn len(packet: &SubAck) -> (r: Result<VarInt, Error>)
    ensures
        len_result(r, spec_len(packet@)),
{
    let len = cap_add(2, packet.reason_codes.len());
    VarInt::new(len)
}

/// Whether a SubAck reads back as written in MQTT 3.1.1: at least one reason
/// code, no properties, and a remaining length that fits.
pub open spec fn wf(m: SubAckModel) -> bool {
    &&& m.reason_codes.len() > 0
    &&& m.properties == Seq::<PropertyModel>::empty()
    &&& spec_len(m) <= varint_max()
}

/// A SubAck reads back as written in MQTT 3.1.1, and its variable header and
/// payload have its remaining length.
pub proof fn lemma_roundtrip(m: SubAckModel)
    requires
        wf(m),
    ensures
        p_read(spec_body(m)) == Ok::<SubAckModel, Error>(m),
        spec_body(m).len() == spec_len(m),
{
    lemma_codes_roundtrip(m.reason_codes);
    lemma_p_u16(m.pkid, codes_bytes(m.reason_codes));
}

} // verus!
