//! A client library for MQTT: the wire format of MQTT 3.1.1 packets
//! (framing, parsing and writing), the requests that clients hand to an
//! event loop, and the decisions that drive a connection.

pub mod benchmark;
pub mod connection;
pub mod mqttbytes;
pub mod quic;
pub mod v4;
pub mod v5;
