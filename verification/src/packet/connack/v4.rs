use bytes::{Bytes, BytesMut};
use vstd::prelude::*;

use super::{ConnAck, ConnAckModel, ConnectReturnCode};
use crate::buffer::{bytes_mut_view, bytes_view, put_u8, room};
use crate::header::FixedHeader;
use crate::packet::{frame, frame_room, len_result};
use crate::parse::{read_u8, VarInt};
use crate::property::Properties;
use crate::wire::{lemma_p_u8, lemma_varint_bytes_len, p_u8, varint_bytes};
use crate::Error;

verus! {

/// Reading a ConnAck in MQTT 3.1.1: the acknowledge flags, then a return code.
pub open spec fn p_read(s: Seq<u8>) -> Result<ConnAckModel, Error> {
    match p_u8(s) {
        Err(e) => Err(e),
        Ok((flags, r)) => match p_u8(r) {
            Err(e) => Err(e),
            Ok((return_code, _)) => match ConnectReturnCode::spec_from_code(return_code) {
                Err(e) => Err(e),
                Ok(code) => Ok(ConnAckModel {
                    session_present: flags % 2 == 1,
                    code: code.spec_reason(),
                    properties: Seq::empty(),
                }),
            },
        },
    }
}

/// The session-present flag as a byte.
pub open spec fn flag_byte(b: bool) -> u8 {
    if b {
        1
    } else {
        0
    }
}

/// The acknowledge flags of a ConnAck hold the session present flag in bit
/// 0; the other bits are 0.
pub proof fn lemma_flag_byte(b: bool)
    ensures
        (flag_byte(b) % 2 == 1) == b,
        flag_byte(b) / 2 == 0,
{
}

pub fn read(_fixed_header: FixedHeader, bytes: Bytes) -> (r: Result<ConnAck, Error>)
    ensures
        match p_read(bytes_view(bytes)) {
            Ok(m) => r matches Ok(p) && p@ == m,
            Err(e) => r == Err::<ConnAck, Error>(e),
        },
{
    let mut bytes = bytes;
    let flags = read_u8(&mut bytes)?;
    let return_code = read_u8(&mut bytes)?;

    proof {
        assert((flags & 0x01 == 1) == (flags % 2 == 1)) by (bit_vector);
    }
    let session_present = (flags & 0x01) == 1;
    let code = ConnectReturnCode::from_code(return_code)?;
    Ok(ConnAck { session_present, code: code.reason(), properties: Properties::new() })
}

/// The variable header of a ConnAck in MQTT 3.1.1: the acknowledge flags,
/// then the return code of its reason, if MQTT 3.1.1 has one.
pub open spec fn spec_body(m: ConnAckModel) -> Seq<u8> {
    match ConnectReturnCode::spec_from_reason(m.code) {
        Ok(c) => seq![flag_byte(m.session_present), c.spec_code()],
        Err(_) => seq![flag_byte(m.session_present)],
    }
}

/// Whether writing the ConnAck `m` into a buffer holding `before` left it
/// holding `after` with result `r`: the packet and its size when MQTT 3.1.1
/// has a return code for its reason; otherwise the control field, the
/// remaining length and the acknowledge flags, and the error.
pub open spec fn written(m: ConnAckModel, r: Result<usize, Error>, before: Seq<u8>, after: Seq<u8>) -> bool {
    match ConnectReturnCode::spec_from_reason(m.code) {
        Ok(c) => r == Ok::<usize, Error>(4) && after == before + frame(0x20, 2, spec_body(m)),
        Err(e) => r == Err::<usize, Error>(e) && after == before + seq![0x20u8, 2u8, flag_byte(m.session_present)],
    }
}

/// Writes a ConnAck in MQTT 3.1.1. Its code must be one that MQTT 3.1.1
/// has; for another one the error comes after three bytes were written.
pub fn write(packet: &ConnAck, buffer: &mut BytesMut) -> (r: Result<usize, Error>)
    requires
        room(bytes_mut_view(*old(buffer)), frame_room(2)),
    ensures
        written(packet@, r, bytes_mut_view(*old(buffer)), bytes_mut_view(*final(buffer))),
{
    let ghost start = bytes_mut_view(*buffer);
    // packet type and flags
    put_u8(buffer, 0x20);
    // remaining length
    let len = len(packet)?;
    proof {
        lemma_varint_bytes_len(2);
        reveal_with_fuel(varint_bytes, 1);
    }
    len.write(buffer);
    // connect acknowledge flags
    put_u8(buffer, if packet.session_present { 1 } else { 0 });
    // return code
    let code = ConnectReturnCode::from_reason(packet.code);
    match code {
        Ok(c) => {
            put_u8(buffer, c.code());
            proof {
                assert(bytes_mut_view(*buffer) =~= start + frame(0x20, 2, spec_body(packet@)));
            }
            Ok(1 + len.length() + len.value())
        },
        Err(e) => {
            proof {
                assert(bytes_mut_view(*buffer) =~= start + seq![0x20u8, 2u8, flag_byte(packet.session_present)]);
            }
            Err(e)
        },
    }
}

pub fn len(_packet: &ConnAck) -> (r: Result<VarInt, Error>)
    ensures
        len_result(r, 2),
{
    // sesssion present + code
    VarInt::new(1 + 1)
}

/// A ConnAck without properties whose code MQTT 3.1.1 has reads back as
/// written in MQTT 3.1.1.
pub proof fn lemma_roundtrip(m: ConnAckModel, c: ConnectReturnCode)
    requires
        ConnectReturnCode::spec_from_reason(m.code) == Ok::<ConnectReturnCode, Error>(c),
        m.properties == Seq::<crate::property::PropertyModel>::empty(),
    ensures
        p_read(seq![flag_byte(m.session_present), c.spec_code()]) == Ok::<ConnAckModel, Error>(m),
{
    let s = seq![flag_byte(m.session_present), c.spec_code()];
    lemma_p_u8(c.spec_code(), Seq::empty());
    assert(seq![c.spec_code()] + Seq::<u8>::empty() =~= seq![c.spec_code()]);
    lemma_p_u8(flag_byte(m.session_present), seq![c.spec_code()]);
    assert(seq![flag_byte(m.session_present)] + seq![c.spec_code()] =~= s);
    c.lemma_code();
    assert(c.spec_reason() == m.code);
}

} // verus!
