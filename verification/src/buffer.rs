//! The byte buffers of the `bytes` crate and the UTF-8 check of `std`, as the
//! rest of the library sees them.
//!
//! Everything here is trusted: each item states what the outside function
//! does, as its source and documentation show it, over the contents of the
//! buffers (`bytes_view`, `bytes_mut_view`).

use bytes::{Buf, BufMut, Bytes, BytesMut};
use std::str::Utf8Error;
use vstd::prelude::*;
use vstd::utf8::*;

use crate::wire::{be16, be32};

verus! {

#[verifier::external_type_specification]
#[verifier::external_body]
pub struct ExBytes(Bytes);

#[verifier::external_type_specification]
#[verifier::external_body]
pub struct ExBytesMut(BytesMut);

#[verifier::external_type_specification]
#[verifier::external_body]
pub struct ExUtf8Error(Utf8Error);

/// The bytes that a `Bytes` handle gives access to.
pub uninterp spec fn bytes_view(b: Bytes) -> Seq<u8>;

/// The bytes that a `BytesMut` buffer holds.
pub uninterp spec fn bytes_mut_view(b: BytesMut) -> Seq<u8>;

/// The error value that `std::str::from_utf8` reports for bytes that are not UTF-8.
pub uninterp spec fn utf8_error_of(v: Seq<u8>) -> Utf8Error;

/// Whether `n` more bytes can be appended to a buffer that holds `b`: a
/// `BytesMut` never grows past `isize::MAX` bytes.
pub open spec fn room(b: Seq<u8>, n: int) -> bool {
    b.len() + n <= isize::MAX
}

/// `Clone` of `Bytes`: another handle on the same bytes. The packet types
/// that hold `Bytes` derive `Clone` through it.
pub assume_specification[ <Bytes as Clone>::clone ](b: &Bytes) -> (r: Bytes)
    ensures
        bytes_view(r) == bytes_view(*b),
;

/// `BytesMut` as a slice (`Deref`): the bytes it holds.
#[verifier::external_body]
pub(crate) fn bytes_mut_as_slice(b: &BytesMut) -> (s: &[u8])
    ensures
        s@ == bytes_mut_view(*b),
{
    b
}

/// `BufMut::put_u8` on `BytesMut`: appends one byte.
#[verifier::external_body]
pub(crate) fn put_u8(b: &mut BytesMut, v: u8)
    requires
        room(bytes_mut_view(*old(b)), 1),
    ensures
        bytes_mut_view(*final(b)) == bytes_mut_view(*old(b)).push(v),
{
    b.put_u8(v)
}

/// `BufMut::put_u16` on `BytesMut`: appends the two bytes of `v`, most significant first.
#[verifier::external_body]
pub(crate) fn put_u16(b: &mut BytesMut, v: u16)
    requires
        room(bytes_mut_view(*old(b)), 2),
    ensures
        bytes_mut_view(*final(b)) == bytes_mut_view(*old(b)) + be16(v),
{
    b.put_u16(v)
}

/// `BufMut::put_u32` on `BytesMut`: appends the four bytes of `v`, most significant first.
#[verifier::external_body]
pub(crate) fn put_u32(b: &mut BytesMut, v: u32)
    requires
        room(bytes_mut_view(*old(b)), 4),
    ensures
        bytes_mut_view(*final(b)) == bytes_mut_view(*old(b)) + be32(v),
{
    b.put_u32(v)
}

/// `BytesMut::extend_from_slice`: appends the bytes of `s`.
#[verifier::external_body]
pub(crate) fn extend_from_slice(b: &mut BytesMut, s: &[u8])
    requires
        room(bytes_mut_view(*old(b)), s@.len() as int),
    ensures
        bytes_mut_view(*final(b)) == bytes_mut_view(*old(b)) + s@,
{
    b.extend_from_slice(s)
}

/// Indexing into the bytes of a `BytesMut` (`DerefMut`, then `IndexMut`):
/// sets the byte at `i`.
#[verifier::external_body]
pub(crate) fn bytes_mut_set(b: &mut BytesMut, i: usize, v: u8)
    requires
        i < bytes_mut_view(*old(b)).len(),
    ensures
        bytes_mut_view(*final(b)) == bytes_mut_view(*old(b)).update(i as int, v),
{
    b[i] = v;
}

/// `BytesMut::split_to`: removes the first `at` bytes and returns them.
#[verifier::external_body]
pub(crate) fn bytes_mut_split_to(b: &mut BytesMut, at: usize) -> (front: BytesMut)
    requires
        at <= bytes_mut_view(*old(b)).len(),
    ensures
        bytes_mut_view(front) == bytes_mut_view(*old(b)).take(at as int),
        bytes_mut_view(*final(b)) == bytes_mut_view(*old(b)).skip(at as int),
{
    b.split_to(at)
}

/// `BytesMut::freeze`: the same bytes as an immutable `Bytes`.
#[verifier::external_body]
pub(crate) fn freeze(b: BytesMut) -> (r: Bytes)
    ensures
        bytes_view(r) == bytes_mut_view(b),
{
    b.freeze()
}

/// `Bytes::len`: the number of bytes.
#[verifier::external_body]
pub(crate) fn bytes_len(b: &Bytes) -> (n: usize)
    ensures
        n == bytes_view(*b).len(),
{
    b.len()
}

/// `Bytes` as a slice (`Deref`): the bytes it gives access to.
#[verifier::external_body]
pub(crate) fn bytes_as_slice(b: &Bytes) -> (s: &[u8])
    ensures
        s@ == bytes_view(*b),
{
    b
}

/// `Bytes::from(Vec<u8>)`: the bytes of the vector.
#[verifier::external_body]
pub(crate) fn bytes_from_vec(v: Vec<u8>) -> (b: Bytes)
    ensures
        bytes_view(b) == v@,
{
    Bytes::from(v)
}

/// `Buf::get_u8` on `Bytes`: takes the first byte.
#[verifier::external_body]
pub(crate) fn get_u8(b: &mut Bytes) -> (v: u8)
    requires
        bytes_view(*old(b)).len() >= 1,
    ensures
        v == bytes_view(*old(b))[0],
        bytes_view(*final(b)) == bytes_view(*old(b)).skip(1),
{
    b.get_u8()
}

/// `Buf::get_u16` on `Bytes`: takes the first two bytes, most significant first.
#[verifier::external_body]
pub(crate) fn get_u16(b: &mut Bytes) -> (v: u16)
    requires
        bytes_view(*old(b)).len() >= 2,
    ensures
        be16(v) == bytes_view(*old(b)).take(2),
        bytes_view(*final(b)) == bytes_view(*old(b)).skip(2),
{
    b.get_u16()
}

/// `Buf::get_u32` on `Bytes`: takes the first four bytes, most significant first.
#[verifier::external_body]
pub(crate) fn get_u32(b: &mut Bytes) -> (v: u32)
    requires
        bytes_view(*old(b)).len() >= 4,
    ensures
        be32(v) == bytes_view(*old(b)).take(4),
        bytes_view(*final(b)) == bytes_view(*old(b)).skip(4),
{
    b.get_u32()
}

/// `Bytes::split_to`: removes the first `at` bytes and returns them.
#[verifier::external_body]
pub(crate) fn bytes_split_to(b: &mut Bytes, at: usize) -> (front: Bytes)
    requires
        at <= bytes_view(*old(b)).len(),
    ensures
        bytes_view(front) == bytes_view(*old(b)).take(at as int),
        bytes_view(*final(b)) == bytes_view(*old(b)).skip(at as int),
{
    b.split_to(at)
}

/// `Buf::advance` on `Bytes`: drops the first `n` bytes.
#[verifier::external_body]
pub(crate) fn advance(b: &mut Bytes, n: usize)
    requires
        n <= bytes_view(*old(b)).len(),
    ensures
        bytes_view(*final(b)) == bytes_view(*old(b)).skip(n as int),
{
    b.advance(n)
}

/// `std::str::from_utf8`: the characters that valid UTF-8 bytes encode, and
/// otherwise the error that the function reports for them.
#[verifier::external_body]
pub(crate) fn str_from_utf8(v: &[u8]) -> (r: Result<&str, Utf8Error>)
    ensures
        match r {
            Ok(s) => valid_utf8(v@) && s@ == decode_utf8(v@),
            Err(e) => !valid_utf8(v@) && e == utf8_error_of(v@),
        },
{
    std::str::from_utf8(v)
}

} // verus!
