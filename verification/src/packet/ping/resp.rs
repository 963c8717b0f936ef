use bytes::{Bytes, BytesMut};
use vstd::prelude::*;

use super::PingResp;
use crate::buffer::{bytes_mut_view, extend_from_slice, room};
use crate::header::FixedHeader;
use crate::packet::{frame_room, len_result, wrote};
use crate::parse::VarInt;
use crate::Error;

verus! {

pub fn read(_fixed_header: FixedHeader, _bytes: Bytes) -> (r: Result<PingResp, Error>)
    ensures
        r is Ok,
{
    Ok(PingResp {})
}

pub fn write(_packet: &PingResp, buffer: &mut BytesMut) -> (r: Result<usize, Error>)
    requires
        room(bytes_mut_view(*old(buffer)), frame_room(0)),
    ensures
        wrote(r, bytes_mut_view(*old(buffer)), bytes_mut_view(*final(buffer)), 0xD0, 0, Seq::empty()),
        r == Ok::<usize, Error>(2),
        bytes_mut_view(*final(buffer)) == bytes_mut_view(*old(buffer)) + seq![0xD0u8, 0x00u8],
{
    extend_from_slice(buffer, &[0xD0, 0x00]);
    proof {
        reveal_with_fuel(crate::wire::varint_bytes, 1);
        assert(bytes_mut_view(*buffer) =~= bytes_mut_view(*old(buffer)) + crate::packet::frame(0xD0, 0, Seq::empty()));
    }
    Ok(2)
}

pub fn len(_packet: &PingResp) -> (r: Result<VarInt, Error>)
    ensures
        len_result(r, 0),
        r matches Ok(v) && v.spec_value() == 0 && v.spec_length() == 1,
{
    VarInt::new(0) // no payload
}

} // verus!
