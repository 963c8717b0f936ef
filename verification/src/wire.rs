//! The byte-level model of the MQTT wire format: how integers, variable byte
//! integers, binary data and strings are laid out.

use vstd::prelude::*;
use vstd::utf8::*;

use crate::Error;

verus! {

/// Two bytes of `v`, most significant first.
pub open spec fn be16(v: u16) -> Seq<u8> {
    seq![(v / 256) as u8, (v % 256) as u8]
}

/// Four bytes of `v`, most significant first.
pub open spec fn be32(v: u32) -> Seq<u8> {
    seq![
        (v / 0x100_0000) as u8,
        ((v / 0x1_0000) % 256) as u8,
        ((v / 256) % 256) as u8,
        (v % 256) as u8,
    ]
}

/// The number that the first two bytes of `s` encode, most significant first.
pub open spec fn u16_at(s: Seq<u8>) -> u16 {
    (s[0] * 256 + s[1]) as u16
}

/// The number that the first four bytes of `s` encode, most significant first.
pub open spec fn u32_at(s: Seq<u8>) -> u32 {
    (s[0] * 0x100_0000 + s[1] * 0x1_0000 + s[2] * 256 + s[3]) as u32
}

/// `128` to the power `k`.
pub open spec fn pow128(k: nat) -> nat
    decreases k,
{
    if k == 0 {
        1
    } else {
        128 * pow128((k - 1) as nat)
    }
}

/// The largest value a variable byte integer can hold.
pub open spec fn varint_max() -> nat {
    268_435_455
}

/// The number of bytes in the shortest encoding of `v` as a variable byte integer.
pub open spec fn varint_len(v: nat) -> nat {
    if v < 128 {
        1
    } else if v < 16_384 {
        2
    } else if v < 2_097_152 {
        3
    } else {
        4
    }
}

/// The shortest encoding of `v` as a variable byte integer: seven bits per
/// byte, least significant group first, the high bit set on every byte but
/// the last.
pub open spec fn varint_bytes(v: nat) -> Seq<u8>
    decreases v,
{
    if v < 128 {
        seq![v as u8]
    } else {
        seq![(v % 128 + 128) as u8] + varint_bytes(v / 128)
    }
}

/// The value of the first `n` bytes of `s` read as the seven-bit groups of a
/// variable byte integer.
pub open spec fn varint_value(s: Seq<u8>, n: nat) -> nat
    decreases n,
{
    if n == 0 {
        0
    } else {
        varint_value(s, (n - 1) as nat) + (s[n - 1] % 128) as nat * pow128((n - 1) as nat)
    }
}

/// Binary data on the wire: a two-byte length, then the bytes. The length is
/// the number of bytes taken modulo `65536`, as a `u16` cast gives it.
pub open spec fn mqtt_bytes(b: Seq<u8>) -> Seq<u8> {
    be16((b.len() % 65536) as u16) + b
}

/// A string on the wire: its UTF-8 encoding as binary data.
pub open spec fn mqtt_string(s: Seq<char>) -> Seq<u8> {
    mqtt_bytes(encode_utf8(s))
}

/// The number of bytes of the UTF-8 encoding of `s`.
pub open spec fn utf8_len(s: Seq<char>) -> nat {
    encode_utf8(s).len()
}

/// Integers go on the wire most significant byte first: the bytes written
/// for a two-byte or a four-byte integer are its base-256 digits from the
/// highest, and reading two or four bytes gives the number they are those
/// digits of.
pub proof fn lemma_byte_order(a: u16, b: u32, s: Seq<u8>)
    ensures
        be16(a).len() == 2,
        be16(a)[0] * 256 + be16(a)[1] == a,
        be32(b).len() == 4,
        be32(b)[0] * 0x100_0000 + be32(b)[1] * 0x1_0000 + be32(b)[2] * 256 + be32(b)[3] == b,
        s.len() >= 2 ==> u16_at(s) == s[0] * 256 + s[1],
        s.len() >= 4 ==> u32_at(s) == s[0] * 0x100_0000 + s[1] * 0x1_0000 + s[2] * 256 + s[3],
{
    if s.len() >= 2 {
        assert(s[0] * 256 + s[1] <= 0xFFFF);
    }
    if s.len() >= 4 {
        assert(s[0] * 0x100_0000 + s[1] * 0x1_0000 + s[2] * 256 + s[3] <= 0xFFFF_FFFF);
    }
}

/// A variable byte integer goes on the wire in groups of seven bits, the
/// lowest first: its first byte holds the value's lowest seven bits, with
/// bit 7 set exactly when more bytes follow, which hold the value divided by
/// 128.
pub proof fn lemma_varint_first_byte(v: nat)
    ensures
        varint_bytes(v)[0] % 128 == v % 128,
        (varint_bytes(v)[0] >= 128) == (v >= 128),
        v >= 128 ==> varint_bytes(v).drop_first() == varint_bytes(v / 128),
        v < 128 ==> varint_bytes(v).len() == 1,
{
    if v >= 128 {
        assert((seq![(v % 128 + 128) as u8] + varint_bytes(v / 128)).drop_first() =~= varint_bytes(v / 128));
    }
}

pub proof fn lemma_be16_u16_at(v: u16, rest: Seq<u8>)
    ensures
        u16_at(be16(v) + rest) == v,
        (be16(v) + rest).skip(2) == rest,
        (be16(v) + rest).len() == rest.len() + 2,
{
    assert((be16(v) + rest).skip(2) =~= rest);
}

pub proof fn lemma_u16_at_be16(s: Seq<u8>)
    requires
        s.len() >= 2,
    ensures
        be16(u16_at(s)) == s.take(2),
{
    assert(be16(u16_at(s)) =~= s.take(2));
}

pub proof fn lemma_be32_u32_at(v: u32, rest: Seq<u8>)
    ensures
        u32_at(be32(v) + rest) == v,
        (be32(v) + rest).skip(4) == rest,
        (be32(v) + rest).len() == rest.len() + 4,
{
    assert(v == (((v / 0x100_0000) as u8) as u32) * 0x100_0000 + ((((v / 0x1_0000) % 256) as u8) as u32) * 0x1_0000
        + ((((v / 256) % 256) as u8) as u32) * 256 + (((v % 256) as u8) as u32)) by (bit_vector);
    assert((be32(v) + rest).skip(4) =~= rest);
}

pub proof fn lemma_u32_at_be32(s: Seq<u8>)
    requires
        s.len() >= 4,
    ensures
        be32(u32_at(s)) == s.take(4),
{
    let (a, b, c, d) = (s[0], s[1], s[2], s[3]);
    let v: u32 = u32_at(s);
    assert(v == a as u32 * 0x100_0000 + b as u32 * 0x1_0000 + c as u32 * 256 + d as u32) by (nonlinear_arith)
        requires
            v == (a * 0x100_0000 + b * 0x1_0000 + c * 256 + d) as u32,
            a < 256, b < 256, c < 256, d < 256,
    ;
    assert({
        let w = a as u32 * 0x100_0000 + b as u32 * 0x1_0000 + c as u32 * 256 + d as u32;
        &&& (w / 0x100_0000) as u8 == a
        &&& ((w / 0x1_0000) % 256) as u8 == b
        &&& ((w / 256) % 256) as u8 == c
        &&& (w % 256) as u8 == d
    }) by (bit_vector);
    assert(be32(u32_at(s)) =~= s.take(4));
}


/// Whether the bytes that a reader had (`before`) and has left (`after`)
/// agree with the outcome `spec` of one reading step: on success the value
/// read is `v` and the rest of the input is left, on failure the error is `e`.
pub open spec fn took<T>(r: Result<T, Error>, spec: Result<(T, Seq<u8>), Error>, after: Seq<u8>) -> bool {
    match spec {
        Ok((v, rest)) => r == Ok::<T, Error>(v) && after == rest,
        Err(e) => r == Err::<T, Error>(e),
    }
}

/// Reading one byte.
pub open spec fn p_u8(s: Seq<u8>) -> Result<(u8, Seq<u8>), Error> {
    if s.len() < 1 {
        Err(Error::MalformedPacket)
    } else {
        Ok((s[0], s.skip(1)))
    }
}

/// Reading a two-byte integer, most significant byte first.
pub open spec fn p_u16(s: Seq<u8>) -> Result<(u16, Seq<u8>), Error> {
    if s.len() < 2 {
        Err(Error::MalformedPacket)
    } else {
        Ok((u16_at(s), s.skip(2)))
    }
}

/// Reading a four-byte integer, most significant byte first.
pub open spec fn p_u32(s: Seq<u8>) -> Result<(u32, Seq<u8>), Error> {
    if s.len() < 4 {
        Err(Error::MalformedPacket)
    } else {
        Ok((u32_at(s), s.skip(4)))
    }
}

/// Reading binary data: a two-byte length, then that many bytes, which must
/// all be there.
pub open spec fn p_mqtt_bytes(s: Seq<u8>) -> Result<(Seq<u8>, Seq<u8>), Error> {
    match p_u16(s) {
        Err(e) => Err(e),
        Ok((len, r)) => if len > r.len() {
            Err(Error::BoundaryCrossed(len as usize))
        } else {
            Ok((r.take(len as int), r.skip(len as int)))
        },
    }
}

/// Reading a string: binary data that must be valid UTF-8.
pub open spec fn p_mqtt_string(s: Seq<u8>) -> Result<(Seq<char>, Seq<u8>), Error> {
    match p_mqtt_bytes(s) {
        Err(e) => Err(e),
        Ok((b, r)) => if valid_utf8(b) {
            Ok((decode_utf8(b), r))
        } else {
            Err(Error::Utf8Encoding(crate::buffer::utf8_error_of(b)))
        },
    }
}

pub proof fn lemma_p_u8(v: u8, rest: Seq<u8>)
    ensures
        p_u8(seq![v] + rest) == Ok::<(u8, Seq<u8>), Error>((v, rest)),
{
    assert((seq![v] + rest).skip(1) =~= rest);
}

pub proof fn lemma_p_u16(v: u16, rest: Seq<u8>)
    ensures
        p_u16(be16(v) + rest) == Ok::<(u16, Seq<u8>), Error>((v, rest)),
{
    lemma_be16_u16_at(v, rest);
}

pub proof fn lemma_p_u32(v: u32, rest: Seq<u8>)
    ensures
        p_u32(be32(v) + rest) == Ok::<(u32, Seq<u8>), Error>((v, rest)),
{
    lemma_be32_u32_at(v, rest);
}

/// Binary data of at most `65535` bytes reads back as written.
pub proof fn lemma_p_mqtt_bytes(b: Seq<u8>, rest: Seq<u8>)
    requires
        b.len() <= 65535,
    ensures
        p_mqtt_bytes(mqtt_bytes(b) + rest) == Ok::<(Seq<u8>, Seq<u8>), Error>((b, rest)),
{
    let len = (b.len() % 65536) as u16;
    assert(mqtt_bytes(b) + rest =~= be16(len) + (b + rest));
    lemma_p_u16(len, b + rest);
    assert((b + rest).take(len as int) =~= b);
    assert((b + rest).skip(len as int) =~= rest);
}

/// A string whose encoding has at most `65535` bytes reads back as written.
pub proof fn lemma_p_mqtt_string(s: Seq<char>, rest: Seq<u8>)
    requires
        utf8_len(s) <= 65535,
    ensures
        p_mqtt_string(mqtt_string(s) + rest) == Ok::<(Seq<char>, Seq<u8>), Error>((s, rest)),
{
    lemma_p_mqtt_bytes(encode_utf8(s), rest);
    encode_utf8_valid_utf8(s);
    encode_utf8_decode_utf8(s);
}

/// The variable byte integer encoding has as many bytes as `varint_len` says.
pub proof fn lemma_varint_bytes_len(v: nat)
    requires
        v <= varint_max(),
    ensures
        varint_bytes(v).len() == varint_len(v),
        1 <= varint_len(v) <= 4,
    decreases v,
{
    if v >= 128 {
        lemma_varint_bytes_len(v / 128);
    }
}

/// Where the variable byte integer at position `i` of `s` ends, counting
/// from the start of `s`: its last byte is the first one from `i` on that has
/// the high bit clear. Four bytes at most are read.
pub open spec fn varint_frame(s: Seq<u8>, i: nat) -> Result<nat, Error>
    decreases 4 - i,
{
    if i >= s.len() {
        Err(Error::InsufficientBytes(1))
    } else if s[i as int] < 128 {
        Ok(i + 1)
    } else if i + 1 >= 4 {
        Err(Error::MalformedRemainingLength)
    } else {
        varint_frame(s, i + 1)
    }
}

/// The shortest encoding of a variable byte integer reads back as written,
/// whatever follows it.
pub proof fn lemma_varint_roundtrip(v: nat, rest: Seq<u8>)
    requires
        v <= varint_max(),
    ensures
        varint_frame(varint_bytes(v) + rest, 0) == Ok::<nat, Error>(varint_len(v)),
        varint_value(varint_bytes(v) + rest, varint_len(v)) == v,
        (varint_bytes(v) + rest).take(varint_len(v) as int) == varint_bytes(v),
        (varint_bytes(v) + rest).skip(varint_len(v) as int) == rest,
{
    lemma_varint_bytes_len(v);
    let s = varint_bytes(v) + rest;
    reveal_with_fuel(varint_bytes, 5);
    reveal_with_fuel(varint_frame, 5);
    reveal_with_fuel(varint_value, 5);
    reveal_with_fuel(pow128, 4);
    assert(pow128(0) == 1 && pow128(1) == 128 && pow128(2) == 16_384 && pow128(3) == 2_097_152);
    assert(varint_value(s, 0) == 0);
    assert(varint_value(s, 1) == (s[0] % 128) as nat);
    if v < 128 {
        assert(s[0] == v);
        assert(varint_value(s, 1) == v);
    } else if v < 16_384 {
        assert(s[0] == v % 128 + 128);
        assert(s[1] == v / 128);
        assert(varint_value(s, 1) == v % 128);
        assert(varint_value(s, 2) == v % 128 + (v / 128) * 128);
    } else if v < 2_097_152 {
        assert(s[0] == v % 128 + 128);
        assert(s[1] == (v / 128) % 128 + 128);
        assert(s[2] == v / 16_384);
        assert(varint_value(s, 1) == v % 128);
        assert(varint_value(s, 2) == v % 128 + ((v / 128) % 128) * 128);
        assert(varint_value(s, 3) == v % 128 + ((v / 128) % 128) * 128 + (v / 16_384) * 16_384);
    } else {
        assert(s[0] == v % 128 + 128);
        assert(s[1] == (v / 128) % 128 + 128);
        assert(s[2] == (v / 16_384) % 128 + 128);
        assert(s[3] == v / 2_097_152);
        assert(varint_value(s, 1) == v % 128);
        assert(varint_value(s, 2) == v % 128 + ((v / 128) % 128) * 128);
        assert(varint_value(s, 3) == v % 128 + ((v / 128) % 128) * 128 + ((v / 16_384) % 128) * 16_384);
        assert(varint_value(s, 4) == v % 128 + ((v / 128) % 128) * 128 + ((v / 16_384) % 128) * 16_384
            + (v / 2_097_152) * 2_097_152);
    }
    assert(s.take(varint_len(v) as int) =~= varint_bytes(v));
    assert(s.skip(varint_len(v) as int) =~= rest);
}

/// A reading step that succeeds gives back a suffix of its input.
pub open spec fn shrinks<T>(s: Seq<u8>, r: Result<(T, Seq<u8>), Error>) -> bool {
    r matches Ok((v, rest)) ==> rest.len() <= s.len() && rest == s.skip(s.len() - rest.len())
}

/// A variable byte integer, when its bytes are there, ends after the
/// position it starts at and within the first four bytes.
pub proof fn lemma_varint_frame_bound(s: Seq<u8>, i: nat)
    requires
        i < 4,
    ensures
        varint_frame(s, i) matches Ok(n) ==> i < n <= s.len() && n <= 4,
    decreases 4 - i,
{
    if i < s.len() && s[i as int] >= 128 && i + 1 < 4 {
        lemma_varint_frame_bound(s, i + 1);
    }
}

/// The reading steps for integers, binary data and strings each give back a
/// suffix of their input.
pub proof fn lemma_shrinks(s: Seq<u8>)
    ensures
        shrinks(s, p_u8(s)),
        shrinks(s, p_u16(s)),
        shrinks(s, p_u32(s)),
        shrinks(s, p_mqtt_bytes(s)),
        shrinks(s, p_mqtt_string(s)),
{
    if s.len() >= 2 {
        let r = s.skip(2);
        let len = u16_at(s);
        if len <= r.len() {
            assert(r.skip(len as int) =~= s.skip(s.len() - r.skip(len as int).len()));
        }
    }
}

pub proof fn lemma_shrinks_trans(s: Seq<u8>, r1: Seq<u8>, r2: Seq<u8>)
    requires
        r1.len() <= s.len(),
        r1 == s.skip(s.len() - r1.len()),
        r2.len() <= r1.len(),
        r2 == r1.skip(r1.len() - r2.len()),
    ensures
        r2 == s.skip(s.len() - r2.len()),
{
    assert(r2 =~= s.skip(s.len() - r2.len()));
}

/// The encodings of a list of items, one after the other.
pub open spec fn concat_map<A>(xs: Seq<A>, f: spec_fn(A) -> Seq<u8>) -> Seq<u8>
    decreases xs.len(),
{
    if xs.len() == 0 {
        Seq::empty()
    } else {
        f(xs[0]) + concat_map(xs.drop_first(), f)
    }
}

/// The sum of a measure over a list of items.
pub open spec fn sum_map<A>(xs: Seq<A>, g: spec_fn(A) -> nat) -> nat
    decreases xs.len(),
{
    if xs.len() == 0 {
        0
    } else {
        g(xs[0]) + sum_map(xs.drop_first(), g)
    }
}

/// Reading items until the input is used up.
pub open spec fn p_many<A>(s: Seq<u8>, p: spec_fn(Seq<u8>) -> Result<(A, Seq<u8>), Error>) -> Result<Seq<A>, Error>
    decreases s.len(),
{
    if s.len() == 0 {
        Ok(Seq::empty())
    } else {
        match p(s) {
            Err(e) => Err(e),
            Ok((x, r)) => if r.len() < s.len() {
                match p_many(r, p) {
                    Ok(xs) => Ok(seq![x] + xs),
                    Err(e) => Err(e),
                }
            } else {
                Err(Error::MalformedPacket)
            },
        }
    }
}

/// The result of reading items after `xs` were read.
pub open spec fn after_items<A>(xs: Seq<A>, r: Result<Seq<A>, Error>) -> Result<Seq<A>, Error> {
    match r {
        Ok(ys) => Ok(xs + ys),
        Err(e) => Err(e),
    }
}

pub proof fn lemma_concat_push<A>(xs: Seq<A>, x: A, f: spec_fn(A) -> Seq<u8>)
    ensures
        concat_map(xs.push(x), f) == concat_map(xs, f) + f(x),
    decreases xs.len(),
{
    assert(xs.push(x)[0] == if xs.len() == 0 { x } else { xs[0] });
    if xs.len() == 0 {
        assert(xs.push(x).drop_first() =~= Seq::<A>::empty());
        assert(concat_map(xs.push(x).drop_first(), f) == Seq::<u8>::empty());
        assert(concat_map(xs.push(x), f) =~= concat_map(xs, f) + f(x));
    } else {
        lemma_concat_push(xs.drop_first(), x, f);
        assert(xs.push(x).drop_first() =~= xs.drop_first().push(x));
        assert(concat_map(xs.push(x), f) =~= concat_map(xs, f) + f(x));
    }
}

pub proof fn lemma_sum_push<A>(xs: Seq<A>, x: A, g: spec_fn(A) -> nat)
    ensures
        sum_map(xs.push(x), g) == sum_map(xs, g) + g(x),
    decreases xs.len(),
{
    assert(xs.push(x)[0] == if xs.len() == 0 { x } else { xs[0] });
    if xs.len() == 0 {
        assert(xs.push(x).drop_first() =~= Seq::<A>::empty());
        assert(sum_map(xs.push(x).drop_first(), g) == 0);
    } else {
        lemma_sum_push(xs.drop_first(), x, g);
        assert(xs.push(x).drop_first() =~= xs.drop_first().push(x));
    }
}

/// The encoding of a list is as long as the sum of the lengths of the
/// encodings of its items.
pub proof fn lemma_concat_len<A>(xs: Seq<A>, f: spec_fn(A) -> Seq<u8>, g: spec_fn(A) -> nat)
    requires
        forall|x: A| xs.contains(x) ==> #[trigger] f(x).len() == g(x),
    ensures
        concat_map(xs, f).len() == sum_map(xs, g),
    decreases xs.len(),
{
    if xs.len() > 0 {
        assert(xs.contains(xs[0]));
        assert forall|x: A| xs.drop_first().contains(x) implies #[trigger] f(x).len() == g(x) by {
            let i = choose|i: int| 0 <= i < xs.drop_first().len() && xs.drop_first()[i] == x;
            assert(xs[i + 1] == x);
            assert(xs.contains(x));
        }
        lemma_concat_len(xs.drop_first(), f, g);
    }
}

/// A list of items reads back as written when each item reads back as
/// written, whatever follows it, from a non-empty encoding.
pub proof fn lemma_p_many_roundtrip<A>(
    xs: Seq<A>,
    f: spec_fn(A) -> Seq<u8>,
    p: spec_fn(Seq<u8>) -> Result<(A, Seq<u8>), Error>,
)
    requires
        forall|x: A, rest: Seq<u8>| xs.contains(x) ==> #[trigger] p(f(x) + rest) == Ok::<(A, Seq<u8>), Error>((x, rest)),
        forall|x: A| xs.contains(x) ==> #[trigger] f(x).len() > 0,
    ensures
        p_many(concat_map(xs, f), p) == Ok::<Seq<A>, Error>(xs),
    decreases xs.len(),
{
    if xs.len() == 0 {
        assert(xs =~= Seq::<A>::empty());
    } else {
        let x = xs[0];
        let tail = xs.drop_first();
        assert(xs.contains(x));
        assert forall|y: A| tail.contains(y) implies xs.contains(y) by {
            let i = choose|i: int| 0 <= i < tail.len() && tail[i] == y;
            assert(xs[i + 1] == y);
        }
        let r = concat_map(tail, f);
        assert(p(f(x) + r) == Ok::<(A, Seq<u8>), Error>((x, r)));
        assert(f(x).len() > 0);
        lemma_p_many_roundtrip(tail, f, p);
        assert(seq![x] + tail =~= xs);
    }
}

/// The sum over a prefix of a list is at most the sum over the list.
pub proof fn lemma_sum_prefix<A>(xs: Seq<A>, i: int, g: spec_fn(A) -> nat)
    requires
        0 <= i <= xs.len(),
    ensures
        sum_map(xs.take(i), g) <= sum_map(xs, g),
    decreases xs.len() - i,
{
    if i < xs.len() {
        lemma_sum_prefix(xs, i + 1, g);
        lemma_sum_push(xs.take(i), xs[i], g);
        assert(xs.take(i + 1) =~= xs.take(i).push(xs[i]));
    } else {
        assert(xs.take(i) =~= xs);
    }
}

/// The protocol name of MQTT, as characters.
pub open spec fn mqtt_name() -> Seq<char> {
    seq!['M', 'Q', 'T', 'T']
}

/// The protocol name of MQTT, as its UTF-8 bytes.
pub open spec fn mqtt_name_bytes() -> Seq<u8> {
    seq![0x4Du8, 0x51u8, 0x54u8, 0x54u8]
}

/// The protocol name encodes to its bytes, and characters encode to those
/// bytes only if they are the protocol name.
pub proof fn lemma_mqtt_name(s: Seq<char>)
    ensures
        encode_utf8(mqtt_name()) == mqtt_name_bytes(),
        encode_utf8(s) == mqtt_name_bytes() <==> s == mqtt_name(),
{
    let n = mqtt_name();
    assert(encode_utf8(n) =~= mqtt_name_bytes()) by {
        reveal_with_fuel(encode_utf8, 5);
        assert(0x4Du32 & 0x7F == 0x4D && 0x51u32 & 0x7F == 0x51 && 0x54u32 & 0x7F == 0x54) by (bit_vector);
        assert('M' as u32 == 0x4D && 'Q' as u32 == 0x51 && 'T' as u32 == 0x54);
        assert(n.drop_first() =~= seq!['Q', 'T', 'T']);
        assert(n.drop_first().drop_first() =~= seq!['T', 'T']);
        assert(n.drop_first().drop_first().drop_first() =~= seq!['T']);
        assert(n.drop_first().drop_first().drop_first().drop_first() =~= Seq::<char>::empty());
    }
    encode_utf8_decode_utf8(s);
    encode_utf8_decode_utf8(n);
}

/// A string has no UTF-8 bytes exactly when it has no characters.
pub proof fn lemma_utf8_len_zero(s: Seq<char>)
    ensures
        utf8_len(s) == 0 <==> s.len() == 0,
{
    if s.len() > 0 {
        assert(encode_utf8(s) == encode_scalar(s[0] as u32) + encode_utf8(s.drop_first()));
        assert(encode_scalar(s[0] as u32).len() > 0);
    }
}

} // verus!
