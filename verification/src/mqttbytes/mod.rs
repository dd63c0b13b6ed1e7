//! The MQTT wire format: quality of service levels, packet types, the fixed
//! header every packet starts with, and the primitive fields (integers and
//! length-prefixed strings) that packets are made of.

pub mod buffer;
pub mod v4;

use vstd::prelude::*;
use vstd::utf8::*;

verus! {

/// Errors met while framing, parsing or writing MQTT packets.
#[derive(Debug, Clone, Copy, PartialEq, Eq, Structural)]
pub enum Error {
    NotConnect(PacketType),
    UnexpectedConnect,
    InvalidConnectReturnCode(u8),
    InvalidProtocol,
    InvalidProtocolLevel(u8),
    IncorrectPacketFormat,
    InvalidPacketType(u8),
    InvalidPropertyType(u8),
    InvalidQoS(u8),
    InvalidSubscribeReasonCode(u8),
    PacketIdZero,
    PayloadSizeIncorrect,
    PayloadTooLong,
    PayloadSizeLimitExceeded(usize),
    PayloadRequired,
    TopicNotUtf8,
    BoundaryCrossed(usize),
    MalformedPacket,
    MalformedRemainingLength,
    EmptySubscription,
    /// More bytes are needed to frame a packet: at least this many.
    InsufficientBytes(usize),
}

/// The control packet types of MQTT, numbered 1 to 14 on the wire.
#[derive(Debug, Clone, Copy, PartialEq, Eq, Structural)]
pub enum PacketType {
    Connect,
    ConnAck,
    Publish,
    PubAck,
    PubRec,
    PubRel,
    PubComp,
    Subscribe,
    SubAck,
    Unsubscribe,
    UnsubAck,
    PingReq,
    PingResp,
    Disconnect,
}

/// The protocol level announced in a Connect packet.
#[derive(Debug, Clone, Copy, PartialEq, Eq, Structural)]
pub enum Protocol {
    V4,
    V5,
}

/// Quality of service of a publication.
#[derive(Debug, Clone, Copy, PartialEq, Eq, Structural)]
pub enum QoS {
    AtMostOnce,
    AtLeastOnce,
    ExactlyOnce,
}

/// The fixed header that starts every MQTT packet: the first byte (packet
/// type and flags), the length of the fixed header itself (the first byte
/// and the one to four bytes of the remaining length), and the remaining
/// length, the number of bytes that follow the fixed header.
#[derive(Debug, Clone, Copy, PartialEq, Eq, Structural)]
pub struct FixedHeader {
    pub byte1: u8,
    pub fixed_header_len: usize,
    pub remaining_len: usize,
}

/// The wire value of a quality of service.
pub open spec fn qos_value(q: QoS) -> u8 {
    match q {
        QoS::AtMostOnce => 0,
        QoS::AtLeastOnce => 1,
        QoS::ExactlyOnce => 2,
    }
}

/// The quality of service with wire value `num`.
pub open spec fn spec_qos(num: u8) -> Result<QoS, Error> {
    if num == 0 {
        Ok(QoS::AtMostOnce)
    } else if num == 1 {
        Ok(QoS::AtLeastOnce)
    } else if num == 2 {
        Ok(QoS::ExactlyOnce)
    } else {
        Err(Error::InvalidQoS(num))
    }
}

/// The packet type with number `num` (the high four bits of the first byte).
pub open spec fn spec_packet_type(num: u8) -> Result<PacketType, Error> {
    if num == 1 {
        Ok(PacketType::Connect)
    } else if num == 2 {
        Ok(PacketType::ConnAck)
    } else if num == 3 {
        Ok(PacketType::Publish)
    } else if num == 4 {
        Ok(PacketType::PubAck)
    } else if num == 5 {
        Ok(PacketType::PubRec)
    } else if num == 6 {
        Ok(PacketType::PubRel)
    } else if num == 7 {
        Ok(PacketType::PubComp)
    } else if num == 8 {
        Ok(PacketType::Subscribe)
    } else if num == 9 {
        Ok(PacketType::SubAck)
    } else if num == 10 {
        Ok(PacketType::Unsubscribe)
    } else if num == 11 {
        Ok(PacketType::UnsubAck)
    } else if num == 12 {
        Ok(PacketType::PingReq)
    } else if num == 13 {
        Ok(PacketType::PingResp)
    } else if num == 14 {
        Ok(PacketType::Disconnect)
    } else {
        Err(Error::InvalidPacketType(num))
    }
}

/// The weight of the `k`-th byte of a remaining length: 128 to the power `k`.
pub open spec fn weight(k: nat) -> nat {
    if k == 0 {
        1
    } else if k == 1 {
        128
    } else if k == 2 {
        16384
    } else {
        2097152
    }
}

/// Decodes a remaining length from `s`, of which `k` bytes have been read
/// already, adding up to `acc`. Each byte carries seven bits of the value,
/// least significant first; a byte below 128 ends the number. A fourth byte
/// that does not end it makes the length malformed; running out of bytes
/// before the end asks for one more. The result is the number of bytes read
/// and the value.
pub open spec fn spec_length(s: Seq<u8>, k: nat, acc: nat) -> Result<(nat, nat), Error>
    decreases 4 - k,
{
    if k >= s.len() {
        Err(Error::InsufficientBytes(1))
    } else {
        let b = s[k as int];
        let acc2 = acc + (b % 128) as nat * weight(k);
        if b < 128 {
            Ok(((k + 1) as nat, acc2))
        } else if k + 1 >= 4 {
            Err(Error::MalformedRemainingLength)
        } else {
            spec_length(s, (k + 1) as nat, acc2)
        }
    }
}

/// The fixed header at the start of `s`.
pub open spec fn spec_parse_fixed_header(s: Seq<u8>) -> Result<FixedHeader, Error> {
    if s.len() < 2 {
        Err(Error::InsufficientBytes((2 - s.len()) as usize))
    } else {
        match spec_length(s.skip(1), 0, 0) {
            Err(e) => Err(e),
            Ok((len_len, len)) => Ok(
                FixedHeader {
                    byte1: s[0],
                    fixed_header_len: (len_len + 1) as usize,
                    remaining_len: len as usize,
                },
            ),
        }
    }
}

/// The number of bytes of a whole packet with fixed header `h`.
pub open spec fn spec_frame_length(h: FixedHeader) -> int {
    h.fixed_header_len + h.remaining_len
}

/// Checks that `s` starts with a whole packet whose remaining length is at
/// most `max_packet_size`, and gives its fixed header.
pub open spec fn spec_check(s: Seq<u8>, max_packet_size: usize) -> Result<FixedHeader, Error> {
    match spec_parse_fixed_header(s) {
        Err(e) => Err(e),
        Ok(h) => if h.remaining_len > max_packet_size {
            Err(Error::PayloadSizeLimitExceeded(h.remaining_len))
        } else if s.len() < spec_frame_length(h) {
            Err(Error::InsufficientBytes((spec_frame_length(h) - s.len()) as usize))
        } else {
            Ok(h)
        },
    }
}

/// Reads one byte at position `p` of `s`.
pub open spec fn spec_read_u8(s: Seq<u8>, p: int) -> Result<(u8, int), Error> {
    if 0 <= p < s.len() {
        Ok((s[p], p + 1))
    } else {
        Err(Error::MalformedPacket)
    }
}

/// The big-endian value of two bytes.
pub open spec fn be_u16(hi: u8, lo: u8) -> u16 {
    (hi as int * 256 + lo as int) as u16
}

/// Reads a big-endian 16 bit integer at position `p` of `s`.
pub open spec fn spec_read_u16(s: Seq<u8>, p: int) -> Result<(u16, int), Error> {
    if 0 <= p && p + 2 <= s.len() {
        Ok((be_u16(s[p], s[p + 1]), p + 2))
    } else {
        Err(Error::MalformedPacket)
    }
}

/// Reads a length-prefixed run of bytes at position `p` of `s`.
pub open spec fn spec_read_mqtt_bytes(s: Seq<u8>, p: int) -> Result<(Seq<u8>, int), Error> {
    match spec_read_u16(s, p) {
        Err(e) => Err(e),
        Ok((len, q)) => if len > s.len() - q {
            Err(Error::BoundaryCrossed(len as usize))
        } else {
            Ok((s.subrange(q, q + len), q + len))
        },
    }
}

/// Reads a length-prefixed UTF-8 string at position `p` of `s`.
pub open spec fn spec_read_mqtt_string(s: Seq<u8>, p: int) -> Result<(Seq<char>, int), Error> {
    match spec_read_mqtt_bytes(s, p) {
        Err(e) => Err(e),
        Ok((b, q)) => if valid_utf8(b) {
            Ok((decode_utf8(b), q))
        } else {
            Err(Error::TopicNotUtf8)
        },
    }
}

/// The bytes of a big-endian 16 bit integer.
pub open spec fn u16_bytes(v: u16) -> Seq<u8> {
    seq![(v / 256) as u8, (v % 256) as u8]
}

/// The encoding of a remaining length: seven bits per byte, least
/// significant first, with the high bit set on every byte but the last.
pub open spec fn encode_length(x: nat) -> Seq<u8>
    decreases x,
{
    if x < 128 {
        seq![x as u8]
    } else {
        seq![(x % 128 + 128) as u8] + encode_length(x / 128)
    }
}

impl QoS {
    /// The wire value of this quality of service.
    pub fn value(&self) -> (r: u8)
        ensures
            r == qos_value(*self),
    {
        match self {
            QoS::AtMostOnce => 0,
            QoS::AtLeastOnce => 1,
            QoS::ExactlyOnce => 2,
        }
    }
}

/// The quality of service with wire value `num`.
pub fn qos(num: u8) -> (r: Result<QoS, Error>)
    ensures
        r == spec_qos(num),
{
    match num {
        0 => Ok(QoS::AtMostOnce),
        1 => Ok(QoS::AtLeastOnce),
        2 => Ok(QoS::ExactlyOnce),
        _ => Err(Error::InvalidQoS(num)),
    }
}

impl FixedHeader {
    /// The packet type that the first byte announces.
    pub fn packet_type(&self) -> (r: Result<PacketType, Error>)
        ensures
            r == spec_packet_type(self.byte1 / 16),
    {
        let num: u8 = self.byte1 / 16;
        match num {
            1 => Ok(PacketType::Connect),
            2 => Ok(PacketType::ConnAck),
            3 => Ok(PacketType::Publish),
            4 => Ok(PacketType::PubAck),
            5 => Ok(PacketType::PubRec),
            6 => Ok(PacketType::PubRel),
            7 => Ok(PacketType::PubComp),
            8 => Ok(PacketType::Subscribe),
            9 => Ok(PacketType::SubAck),
            10 => Ok(PacketType::Unsubscribe),
            11 => Ok(PacketType::UnsubAck),
            12 => Ok(PacketType::PingReq),
            13 => Ok(PacketType::PingResp),
            14 => Ok(PacketType::Disconnect),
            _ => Err(Error::InvalidPacketType(num)),
        }
    }

    /// The number of bytes of the whole packet.
    pub fn frame_length(&self) -> (r: usize)
        requires
            spec_frame_length(*self) <= usize::MAX,
        ensures
            r == spec_frame_length(*self),
    {
        self.fixed_header_len + self.remaining_len
    }
}

/// Decodes the remaining length at the start of `stream` (the bytes after
/// the first byte of a packet): the number of bytes it takes and its value.
pub fn length(stream: &[u8]) -> (r: Result<(usize, usize), Error>)
    ensures
        match r {
            Ok((n, v)) => spec_length(stream@, 0, 0) == Ok::<(nat, nat), Error>((n as nat, v as nat)),
            Err(e) => spec_length(stream@, 0, 0) == Err::<(nat, nat), Error>(e),
        },
        r is Ok ==> r->Ok_0.0 <= 4 && r->Ok_0.1 < 268435456,
{
    let mut len: usize = 0;
    let mut len_len: usize = 0;
    let mut mult: usize = 1;
    loop
        invariant
            len_len < 4,
            mult == weight(len_len as nat),
            len < mult,
            spec_length(stream@, 0, 0) == spec_length(stream@, len_len as nat, len as nat),
        decreases 4 - len_len,
    {
        if len_len >= stream.len() {
            return Err(Error::InsufficientBytes(1));
        }
        let byte: u8 = stream[len_len];
        len = len + (byte % 128) as usize * mult;
        len_len = len_len + 1;
        if byte < 128 {
            return Ok((len_len, len));
        }
        if len_len >= 4 {
            return Err(Error::MalformedRemainingLength);
        }
        mult = mult * 128;
    }
}

/// Parses the fixed header at the start of `stream`.
pub fn parse_fixed_header(stream: &[u8]) -> (r: Result<FixedHeader, Error>)
    ensures
        r == spec_parse_fixed_header(stream@),
        r is Ok ==> r->Ok_0.fixed_header_len <= 5 && r->Ok_0.remaining_len < 268435456,
{
    let stream_len: usize = stream.len();
    if stream_len < 2 {
        return Err(Error::InsufficientBytes(2 - stream_len));
    }
    let byte1: u8 = stream[0];
    let rest = vstd::slice::slice_subrange(stream, 1, stream_len);
    assert(rest@ == stream@.skip(1));
    match length(rest) {
        Err(e) => Err(e),
        Ok((len_len, len)) => {
            Ok(FixedHeader { byte1, fixed_header_len: len_len + 1, remaining_len: len })
        },
    }
}

/// Checks that `stream` starts with a whole packet whose remaining length is
/// at most `max_packet_size`, and gives its fixed header.
pub fn check(stream: &[u8], max_packet_size: usize) -> (r: Result<FixedHeader, Error>)
    ensures
        r == spec_check(stream@, max_packet_size),
        r is Ok ==> spec_frame_length(r->Ok_0) <= stream@.len(),
        r is Ok ==> r->Ok_0.fixed_header_len <= 5 && r->Ok_0.remaining_len < 268435456,
{
    let stream_len: usize = stream.len();
    let fixed_header = match parse_fixed_header(stream) {
        Ok(h) => h,
        Err(e) => return Err(e),
    };
    if fixed_header.remaining_len > max_packet_size {
        return Err(Error::PayloadSizeLimitExceeded(fixed_header.remaining_len));
    }
    let frame_length = fixed_header.frame_length();
    if stream_len < frame_length {
        return Err(Error::InsufficientBytes(frame_length - stream_len));
    }
    Ok(fixed_header)
}

/// Reads one byte at position `p` of `s`.
pub fn read_u8(s: &[u8], p: usize) -> (r: Result<(u8, usize), Error>)
    ensures
        match r {
            Ok((v, q)) => spec_read_u8(s@, p as int) == Ok::<(u8, int), Error>((v, q as int)),
            Err(e) => spec_read_u8(s@, p as int) == Err::<(u8, int), Error>(e),
        },
{
    if p < s.len() {
        Ok((s[p], p + 1))
    } else {
        Err(Error::MalformedPacket)
    }
}

/// Reads a big-endian 16 bit integer at position `p` of `s`.
pub fn read_u16(s: &[u8], p: usize) -> (r: Result<(u16, usize), Error>)
    ensures
        match r {
            Ok((v, q)) => spec_read_u16(s@, p as int) == Ok::<(u16, int), Error>((v, q as int)),
            Err(e) => spec_read_u16(s@, p as int) == Err::<(u16, int), Error>(e),
        },
{
    if p < s.len() && s.len() - p >= 2 {
        let hi: u16 = s[p] as u16;
        let lo: u16 = s[p + 1] as u16;
        Ok((hi * 256 + lo, p + 2))
    } else {
        Err(Error::MalformedPacket)
    }
}

/// Reads a length-prefixed run of bytes at position `p` of `s`.
pub fn read_mqtt_bytes(s: &[u8], p: usize) -> (r: Result<(Vec<u8>, usize), Error>)
    ensures
        match r {
            Ok((v, q)) => spec_read_mqtt_bytes(s@, p as int) == Ok::<(Seq<u8>, int), Error>(
                (v@, q as int),
            ),
            Err(e) => spec_read_mqtt_bytes(s@, p as int) == Err::<(Seq<u8>, int), Error>(e),
        },
{
    let (len, q) = match read_u16(s, p) {
        Ok(v) => v,
        Err(e) => return Err(e),
    };
    let len: usize = len as usize;
    if len > s.len() - q {
        return Err(Error::BoundaryCrossed(len));
    }
    let bytes = vstd::slice::slice_to_vec(vstd::slice::slice_subrange(s, q, q + len));
    Ok((bytes, q + len))
}

/// Reads a length-prefixed UTF-8 string at position `p` of `s`.
pub fn read_mqtt_string(s: &[u8], p: usize) -> (r: Result<(String, usize), Error>)
    ensures
        match r {
            Ok((v, q)) => spec_read_mqtt_string(s@, p as int) == Ok::<(Seq<char>, int), Error>(
                (v@, q as int),
            ),
            Err(e) => spec_read_mqtt_string(s@, p as int) == Err::<(Seq<char>, int), Error>(e),
        },
{
    let (bytes, q) = match read_mqtt_bytes(s, p) {
        Ok(v) => v,
        Err(e) => return Err(e),
    };
    match buffer::string_from_utf8(bytes) {
        Some(text) => Ok((text, q)),
        None => Err(Error::TopicNotUtf8),
    }
}

/// Decoding a remaining length gives back the value that was encoded, and
/// the number of bytes of its encoding, when the encoding takes at most four
/// bytes in all.
pub proof fn lemma_length_decodes_encoding(s: Seq<u8>, k: nat, acc: nat, x: nat)
    requires
        k + encode_length(x).len() <= 4,
        k + encode_length(x).len() <= s.len(),
        s.subrange(k as int, (k + encode_length(x).len()) as int) == encode_length(x),
    ensures
        spec_length(s, k, acc) == Ok::<(nat, nat), Error>(
            ((k + encode_length(x).len()) as nat, acc + x * weight(k)),
        ),
    decreases x,
{
    let e = encode_length(x);
    assert(s[k as int] == e[0]);
    if x < 128 {
        assert(e =~= seq![x as u8]);
        assert((x as u8) % 128 == x);
    } else {
        let e2 = encode_length(x / 128);
        assert(e =~= seq![(x % 128 + 128) as u8] + e2);
        assert(e2.len() >= 1) by {
            reveal_with_fuel(encode_length, 2);
        }
        assert(s.subrange((k + 1) as int, (k + 1 + e2.len()) as int) =~= e2) by {
            assert forall|i: int| 0 <= i < e2.len() implies s.subrange(
                (k + 1) as int,
                (k + 1 + e2.len()) as int,
            )[i] == e2[i] by {
                assert(s.subrange(k as int, (k + e.len()) as int)[i + 1] == e[i + 1]);
            }
        }
        lemma_length_decodes_encoding(s, (k + 1) as nat, acc + (x % 128) * weight(k), x / 128);
        assert(((x % 128 + 128) as u8) % 128 == x % 128);
        assert(weight((k + 1) as nat) == 128 * weight(k));
        assert(x == 128 * (x / 128) + x % 128);
        assert((x % 128) * weight(k) + (x / 128) * (128 * weight(k)) == x * weight(k))
            by (nonlinear_arith)
            requires
                x == 128 * (x / 128) + x % 128,
        ;
    }
}

/// Reading a 16 bit integer where one was written gives it back.
pub proof fn lemma_read_u16_written(pre: Seq<u8>, v: u16, post: Seq<u8>)
    ensures
        spec_read_u16(pre + u16_bytes(v) + post, pre.len() as int) == Ok::<(u16, int), Error>(
            (v, pre.len() as int + 2),
        ),
{
    let s = pre + u16_bytes(v) + post;
    assert(s[pre.len() as int] == (v / 256) as u8);
    assert(s[pre.len() as int + 1] == (v % 256) as u8);
}

/// Reading a length-prefixed run of bytes where one was written gives it
/// back.
pub proof fn lemma_read_mqtt_bytes_written(pre: Seq<u8>, x: Seq<u8>, post: Seq<u8>)
    requires
        x.len() <= 65535,
    ensures
        spec_read_mqtt_bytes(pre + u16_bytes(x.len() as u16) + x + post, pre.len() as int) == Ok::<
            (Seq<u8>, int),
            Error,
        >((x, pre.len() as int + 2 + x.len() as int)),
{
    let s = pre + u16_bytes(x.len() as u16) + x + post;
    assert(s == pre + u16_bytes(x.len() as u16) + (x + post));
    lemma_read_u16_written(pre, x.len() as u16, x + post);
    assert(s.subrange(pre.len() as int + 2, pre.len() as int + 2 + x.len() as int) =~= x);
}

/// Reading a length-prefixed string where the UTF-8 encoding of `t` was
/// written gives `t` back.
pub proof fn lemma_read_mqtt_string_written(pre: Seq<u8>, t: Seq<char>, post: Seq<u8>)
    requires
        encode_utf8(t).len() <= 65535,
    ensures
        spec_read_mqtt_string(
            pre + u16_bytes(encode_utf8(t).len() as u16) + encode_utf8(t) + post,
            pre.len() as int,
        ) == Ok::<(Seq<char>, int), Error>((t, pre.len() as int + 2 + encode_utf8(t).len() as int)),
{
    lemma_read_mqtt_bytes_written(pre, encode_utf8(t), post);
    encode_utf8_valid_utf8(t);
    encode_utf8_decode_utf8(t);
}

/// A remaining length that decodes from `s` decodes the same way whatever
/// follows `s`.
pub proof fn lemma_length_prefix(s: Seq<u8>, rest: Seq<u8>, k: nat, acc: nat)
    requires
        spec_length(s, k, acc) is Ok,
    ensures
        spec_length(s + rest, k, acc) == spec_length(s, k, acc),
    decreases 4 - k,
{
    let b = s[k as int];
    assert((s + rest)[k as int] == b);
    if b >= 128 && k + 1 < 4 {
        lemma_length_prefix(s, rest, (k + 1) as nat, acc + (b % 128) as nat * weight(k));
    }
}

/// A stream that checks out checks out the same way whatever follows it.
pub proof fn lemma_check_prefix(s: Seq<u8>, rest: Seq<u8>, max_packet_size: usize)
    requires
        spec_check(s, max_packet_size) is Ok,
    ensures
        spec_check(s + rest, max_packet_size) == spec_check(s, max_packet_size),
{
    assert((s + rest).skip(1) =~= s.skip(1) + rest);
    lemma_length_prefix(s.skip(1), rest, 0, 0);
    assert((s + rest)[0] == s[0]);
}

/// A decoded remaining length takes between one and four bytes.
pub proof fn lemma_length_bounds(s: Seq<u8>, k: nat, acc: nat)
    requires
        k < 4,
    ensures
        spec_length(s, k, acc) matches Ok((n, v)) ==> k + 1 <= n <= 4,
    decreases 4 - k,
{
    if k < s.len() {
        let b = s[k as int];
        if b >= 128 && k + 1 < 4 {
            lemma_length_bounds(s, (k + 1) as nat, acc + (b % 128) as nat * weight(k));
        }
    }
}

} // verus!
