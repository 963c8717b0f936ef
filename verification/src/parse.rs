//! Parsing utility functions

use bytes::{Bytes, BytesMut};
use vstd::prelude::*;
use vstd::utf8::*;

use crate::buffer::{
    bytes_as_slice, bytes_len, bytes_mut_view, bytes_split_to, bytes_view, extend_from_slice,
    get_u16, get_u32, get_u8, put_u16, put_u8, room, str_from_utf8,
};
use crate::wire::{
    be16, be32, lemma_be16_u16_at, lemma_be32_u32_at, lemma_u16_at_be16, lemma_u32_at_be32,
    lemma_varint_bytes_len, mqtt_bytes, mqtt_string, p_mqtt_bytes, p_mqtt_string, p_u16, p_u32,
    p_u8, pow128, took, utf8_len, varint_bytes, varint_frame, varint_len, varint_max, varint_value,
};
use crate::Error;

verus! {

/// Variable Byte Integer
///
/// An unsigned integer that is encoded in one to four bytes.
///
/// In MQTT 3.1.1, it is used only for the `Remaining Length` in the fixed header.
/// In MQTT 5.0, it is formalized and used in multiple places.
#[derive(Debug, Clone, Copy, PartialEq, Eq, PartialOrd, Ord)]
pub struct VarInt {
    value: u32,
    length: u8,
}

impl From<VarInt> for u32 {
    fn from(val: VarInt) -> (r: u32)
        ensures
            r == val.spec_value(),
    {
        val.value
    }
}

impl vstd::std_specs::convert::FromSpecImpl<VarInt> for u32 {
    open spec fn obeys_from_spec() -> bool {
        true
    }

    open spec fn from_spec(v: VarInt) -> u32 {
        v.spec_value() as u32
    }
}

impl VarInt {
    /// One to four bytes, and a value that fits in them.
    #[verifier::type_invariant]
    pub closed spec fn inv(self) -> bool {
        &&& 1 <= self.length <= 4
        &&& (self.value as nat) < pow128(self.length as nat)
    }

    /// What the invariant of every variable byte integer gives.
    pub proof fn lemma_inv(self)
        requires
            self.inv(),
        ensures
            1 <= self.spec_length() <= 4,
            self.spec_value() < pow128(self.spec_length()),
            self.spec_value() <= varint_max(),
            varint_len(self.spec_value()) <= self.spec_length(),
    {
        Self::lemma_pow128_bound(self.length as nat);
        reveal_with_fuel(pow128, 5);
    }

    /// The numeric value.
    pub closed spec fn spec_value(self) -> nat {
        self.value as nat
    }

    /// The number of bytes the integer was read from, or takes when written.
    pub closed spec fn spec_length(self) -> nat {
        self.length as nat
    }

    /// Whether the length is that of the shortest encoding of the value, as
    /// for every integer made by `new`.
    pub open spec fn is_shortest(self) -> bool {
        self.spec_length() == varint_len(self.spec_value())
    }

    proof fn lemma_pow128_bound(k: nat)
        requires
            1 <= k <= 4,
        ensures
            pow128(k) <= 268_435_456,
            k <= 3 ==> pow128(k) <= 2_097_152,
    {
        reveal_with_fuel(pow128, 5);
    }

    /// Creates a new variable byte integer
    ///
    /// # Errors
    /// This will return an error if the value is too large to be encoded
    pub fn new(value: usize) -> (r: Result<Self, Error>)
        ensures
            value <= varint_max() ==> (r matches Ok(v) && v.spec_value() == value && v.is_shortest()),
            value > varint_max() ==> r == Err::<VarInt, Error>(Error::PayloadTooLong),
    {
        let length: u8 = if value <= 127 {
            1
        } else if value <= 16_383 {
            2
        } else if value <= 2_097_151 {
            3
        } else if value <= 268_435_455 {
            4
        } else {
            return Err(Error::PayloadTooLong);
        };
        proof {
            reveal_with_fuel(pow128, 5);
        }
        Ok(Self { value: value as u32, length })
    }

    /// Creates a variable byte integer with a value known to be within the range.
    pub fn constant(value: usize) -> (v: Self)
        requires
            value <= varint_max(),
        ensures
            v.spec_value() == value,
            v.is_shortest(),
    {
        let length: u8 = if value <= 127 {
            1
        } else if value <= 16_383 {
            2
        } else if value <= 2_097_151 {
            3
        } else {
            4
        };
        proof {
            reveal_with_fuel(pow128, 5);
        }
        Self { value: value as u32, length }
    }

    /// The numeric value of the variable byte integer
    pub fn value(&self) -> (v: usize)
        ensures
            v == self.spec_value(),
            v <= varint_max(),
            v < pow128(self.spec_length()),
    {
        proof {
            use_type_invariant(self);
            Self::lemma_pow128_bound(self.length as nat);
        }
        self.value as usize
    }

    /// The number of bytes required to encode this variable byte integer
    pub fn length(&self) -> (l: usize)
        ensures
            l == self.spec_length(),
            1 <= l <= 4,
            self.spec_value() < pow128(self.spec_length()),
            self.spec_value() <= varint_max(),
    {
        proof {
            use_type_invariant(self);
            Self::lemma_pow128_bound(self.length as nat);
        }
        self.length as usize
    }

    proof fn lemma_varint_value_bound(s: Seq<u8>, n: nat)
        ensures
            varint_value(s, n) < pow128(n),
        decreases n,
    {
        if n > 0 {
            Self::lemma_varint_value_bound(s, (n - 1) as nat);
            let k = (n - 1) as nat;
            let d = (s[k as int] % 128) as nat;
            assert(varint_value(s, k) + d * pow128(k) < pow128(n)) by (nonlinear_arith)
                requires
                    varint_value(s, k) < pow128(k),
                    d < 128,
                    pow128(n) == 128 * pow128(k),
            ;
        }
    }

    /// Read a variable byte integer from the stream
    ///
    /// This returns the variable byte integer, whose length is the number of bytes that have been read
    pub fn read(stream: &[u8]) -> (r: Result<Self, Error>)
        ensures
            match varint_frame(stream@, 0) {
                Ok(n) => r matches Ok(v) && v.spec_length() == n && v.spec_value() == varint_value(stream@, n),
                Err(e) => r == Err::<VarInt, Error>(e),
            },
    {
        let mut value: u32 = 0;
        let mut length: u8 = 0;
        let mut multiplier: u32 = 1;
        let mut i: usize = 0;

        // Use continuation bit at position 7 to continue reading next byte to frame 'length'.
        // Stream 0b1xxx_xxxx 0b1yyy_yyyy 0b1zzz_zzzz 0b0www_wwww will
        // be framed as number 0bwww_wwww_zzz_zzzz_yyy_yyyy_xxx_xxxx
        while i < stream.len()
            invariant
                i == length,
                i < 4,
                multiplier == pow128(i as nat),
                value == varint_value(stream@, i as nat),
                varint_frame(stream@, 0) == varint_frame(stream@, i as nat),
            decreases stream.len() - i,
        {
            let byte = stream[i];
            proof {
                Self::lemma_varint_value_bound(stream@, i as nat);
                Self::lemma_pow128_bound((i + 1) as nat);
                reveal_with_fuel(pow128, 2);
                assert(byte & 0b0111_1111 == byte % 128) by (bit_vector);
                assert((byte & 0b1000_0000 == 0) == (byte < 128)) by (bit_vector);
                let d = (byte % 128) as nat;
                assert(value + d * multiplier < pow128((i + 1) as nat)) by (nonlinear_arith)
                    requires
                        value < multiplier,
                        d < 128,
                        pow128((i + 1) as nat) == 128 * multiplier,
                ;
            }
            value = value + ((byte & 0b0111_1111) as u32) * multiplier;
            length += 1;

            // stop when continuation bit is 0
            if (byte & 0b1000_0000) == 0 {
                return Ok(Self { value, length });
            }
            // Only a max of 4 bytes allowed for remaining length
            if length >= 4 {
                return Err(Error::MalformedRemainingLength);
            }
            multiplier = multiplier * 128;
            i += 1;
        }

        // Not enough bytes in stream to frame remaining length
        // Wait for at least one more byte
        Err(Error::InsufficientBytes(1))
    }

    /// Write a variable byte integer to the stream, in its shortest encoding
    pub fn write(&self, stream: &mut BytesMut)
        requires
            room(bytes_mut_view(*old(stream)), varint_len(self.spec_value()) as int),
        ensures
            bytes_mut_view(*final(stream)) == bytes_mut_view(*old(stream)) + varint_bytes(self.spec_value()),
    {
        proof {
            use_type_invariant(self);
            Self::lemma_pow128_bound(self.length as nat);
            lemma_varint_bytes_len(self.value as nat);
        }
        let ghost start = bytes_mut_view(*stream);
        let ghost target = start + varint_bytes(self.value as nat);
        let mut x: u32 = self.value;
        let mut done = false;

        while !done
            invariant
                !done ==> bytes_mut_view(*stream) + varint_bytes(x as nat) == target,
                !done ==> x <= varint_max(),
                done ==> bytes_mut_view(*stream) == target,
                target.len() == start.len() + varint_len(self.value as nat),
                varint_len(self.value as nat) <= 4,
                bytes_mut_view(*stream).len() >= start.len(),
                room(start, varint_len(self.value as nat) as int),
            decreases (if done { 0int } else { x as int + 1 }),
        {
            proof {
                lemma_varint_bytes_len(x as nat);
                assert(x >> 7 == x / 128) by (bit_vector);
                assert((x % 128) as u8 | 128 == (x % 128) as u8 + 128) by (bit_vector);
                reveal_with_fuel(varint_bytes, 2);
            }
            let mut byte = (x % 128) as u8;
            let ghost old_x = x;
            x >>= 7;
            if x > 0 {
                byte |= 128;
            } else {
                done = true;
            }
            put_u8(stream, byte);
            proof {
                if old_x >= 128 {
                    assert(bytes_mut_view(*stream) + varint_bytes(x as nat) =~= target);
                } else {
                    assert(bytes_mut_view(*stream) =~= target);
                }
            }
        }
    }
}

/// A checked version of [`bytes::Buf::get_u8`]
pub fn read_u8(stream: &mut Bytes) -> (r: Result<u8, Error>)
    ensures
        took(r, p_u8(bytes_view(*old(stream))), bytes_view(*final(stream))),
        r is Err ==> bytes_view(*final(stream)) == bytes_view(*old(stream)),
{
    if bytes_len(stream) < 1 {
        return Err(Error::MalformedPacket);
    }
    Ok(get_u8(stream))
}

/// A checked version of [`bytes::Buf::get_u16`]
pub fn read_u16(stream: &mut Bytes) -> (r: Result<u16, Error>)
    ensures
        took(r, p_u16(bytes_view(*old(stream))), bytes_view(*final(stream))),
        r is Err ==> bytes_view(*final(stream)) == bytes_view(*old(stream)),
{
    if bytes_len(stream) < 2 {
        return Err(Error::MalformedPacket);
    }
    let ghost s = bytes_view(*stream);
    let v = get_u16(stream);
    proof {
        lemma_u16_at_be16(s);
        lemma_be16_u16_at(v, Seq::empty());
        assert(be16(v) + Seq::<u8>::empty() =~= be16(v));
    }
    Ok(v)
}

/// A checked version of [`bytes::Buf::get_u32`]
pub fn read_u32(stream: &mut Bytes) -> (r: Result<u32, Error>)
    ensures
        took(r, p_u32(bytes_view(*old(stream))), bytes_view(*final(stream))),
        r is Err ==> bytes_view(*final(stream)) == bytes_view(*old(stream)),
{
    if bytes_len(stream) < 4 {
        return Err(Error::MalformedPacket);
    }
    let ghost s = bytes_view(*stream);
    let v = get_u32(stream);
    proof {
        lemma_u32_at_be32(s);
        lemma_be32_u32_at(v, Seq::empty());
        assert(be32(v) + Seq::<u8>::empty() =~= be32(v));
    }
    Ok(v)
}

/// Read Binary Data from a byte stream.
pub fn read_mqtt_bytes(stream: &mut Bytes) -> (r: Result<Bytes, Error>)
    ensures
        match p_mqtt_bytes(bytes_view(*old(stream))) {
            Ok((b, rest)) => r matches Ok(v) && bytes_view(v) == b && bytes_view(*final(stream)) == rest,
            Err(e) => r == Err::<Bytes, Error>(e),
        },
{
    let len = read_u16(stream)?;

    // Prevent attacks with wrong remaining length. This method is used in
    // `packet.assembly()` with (enough) bytes to frame packet. Ensures that
    // reading variable len string or bytes doesn't cross promised boundary
    // with `read_fixed_header()`
    let len = len as usize;
    if len > bytes_len(stream) {
        return Err(Error::BoundaryCrossed(len));
    }

    Ok(bytes_split_to(stream, len))
}

/// Read a UTF-8 Encoded String from a byte stream.
pub fn read_mqtt_string(stream: &mut Bytes) -> (r: Result<String, Error>)
    ensures
        match p_mqtt_string(bytes_view(*old(stream))) {
            Ok((v, rest)) => r matches Ok(s) && s@ == v && bytes_view(*final(stream)) == rest,
            Err(e) => r == Err::<String, Error>(e),
        },
{
    let s = read_mqtt_bytes(stream)?;
    match str_from_utf8(bytes_as_slice(&s)) {
        Ok(v) => Ok(v.to_owned()),
        Err(e) => Err(Error::Utf8Encoding(e)),
    }
}

/// Write Binary Data to a byte stream.
///
/// The length prefix is the number of bytes as a `u16`; data longer than
/// `65535` bytes gets that length modulo `65536`.
pub fn write_mqtt_bytes(stream: &mut BytesMut, bytes: &[u8])
    requires
        room(bytes_mut_view(*old(stream)), (2 + bytes@.len()) as int),
    ensures
        bytes_mut_view(*final(stream)) == bytes_mut_view(*old(stream)) + mqtt_bytes(bytes@),
{
    let n = bytes.len();
    proof {
        assert(n as u16 == (n % 65536) as u16) by (bit_vector);
    }
    put_u16(stream, n as u16);
    extend_from_slice(stream, bytes);
    proof {
        assert(bytes_mut_view(*stream) =~= bytes_mut_view(*old(stream)) + mqtt_bytes(bytes@));
    }
}

/// Write a UTF-8 Encoded String to a byte stream.
pub fn write_mqtt_string(stream: &mut BytesMut, string: &str)
    requires
        room(bytes_mut_view(*old(stream)), (2 + utf8_len(string@)) as int),
    ensures
        bytes_mut_view(*final(stream)) == bytes_mut_view(*old(stream)) + mqtt_string(string@),
{
    write_mqtt_bytes(stream, string.as_bytes());
}

/// The number of bytes of the UTF-8 encoding of a string.
pub fn str_len(s: &String) -> (n: usize)
    ensures
        n == utf8_len(s@),
{
    s.as_str().as_bytes().len()
}

} // verus!
