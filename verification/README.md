# rumqttc

An MQTT client library whose wire format and client logic are verified with
Verus.

- `src/mqttbytes/` — quality of service, packet types, the fixed header and
  the remaining-length encoding, the primitive fields, and the MQTT 3.1.1
  packets (`v4/`): parsing each packet from its frame, reading packets off a
  byte stream (`mqtt_read`), and writing Publish packets. Every parser has a
  specification over byte sequences; the laws (write-then-read of Publish
  packets, reading a stream of written packets in order, independence from
  what follows a packet) are proved there.
- `src/mqttbytes/buffer.rs` — the trusted interface to `bytes::BytesMut` and
  to `String::from_utf8`.
- `src/v4.rs`, `src/v5.rs` — the requests that clients hand to an event loop,
  and the acknowledgement owed for a received publication.
- `src/connection.rs` — what one poll of the event loop yields when a
  connection is iterated.
- `src/quic.rs` — the buffer that a vectored write over a QUIC stream sends.
- `src/benchmark.rs` — the data of the parser benchmark.
- `app/` — the parts that do I/O: the benchmark program, the client handles
  that send requests over channels, and the connection that blocks on a
  runtime.
