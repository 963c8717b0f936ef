# rumqtt_bytes

Reading and writing MQTT packets, for MQTT 3.1.1 (`V4`) and MQTT 5.0 (`V5`),
over the byte buffers of the `bytes` crate, verified with Verus.

## Layout

- `src/wire.rs`: the byte-level model of the wire format (integers, variable
  byte integers, binary data, strings, lists) and its read-back lemmas.
- `src/buffer.rs`: the trusted boundary to `bytes::{Bytes, BytesMut}` and to
  `std::str::from_utf8`, stated over the contents of the buffers.
- `src/parse.rs`, `src/header.rs`, `src/property.rs`: variable byte integers,
  the fixed header, and MQTT 5.0 properties.
- `src/packet/<kind>/{v4,v5}.rs`: each packet kind, with a spec parser
  `p_read`, the bytes `spec_body` that its writer produces, the remaining
  length `spec_len`, and a `lemma_roundtrip`.
- `src/packet/{v4,v5}.rs`: the `Protocol` implementations `V4` and `V5`, the
  specification of reading and writing a whole frame, and the laws
  `lemma_write_size` (the predicted size is what is written) and
  `lemma_write_read` (what is written reads back).
- `app/lib.rs`: the `tokio_util` codec around `Protocol`.
- `tests/`: scenario tests.
