//! MQTT 3.1.1 packets, and reading them off a stream of bytes.

pub mod ack;
pub mod connack;
pub mod connect;
pub mod publish;
pub mod roundtrip;
pub mod suback;
pub mod subscribe;
pub mod unsubscribe;

use crate::mqttbytes::buffer::{buffer_bytes, buffer_contents, buffer_split_to};
use crate::mqttbytes::{
    check, encode_length, lemma_check_prefix, lemma_length_bounds, lemma_length_decodes_encoding,
    lemma_read_mqtt_string_written, lemma_read_u16_written, qos_value, spec_check,
    spec_frame_length, spec_packet_type, spec_parse_fixed_header, spec_qos, spec_read_mqtt_string,
    u16_bytes, Error, FixedHeader, PacketType, QoS,
};
use ack::{spec_pkid, spec_unsuback_pkid, PubAck, PubComp, PubRec, PubRel, UnsubAck};
use bytes::BytesMut;
use connack::{spec_connack, ConnAck};
use connect::{spec_connect, Connect, ConnectV};
use publish::{
    lemma_encode_length_len, spec_publish, spec_publish_byte1, spec_publish_len, spec_publish_write,
    Publish, PublishV,
};
use suback::{spec_suback, SubAck, SubAckV};
use subscribe::{spec_subscribe, Subscribe, SubscribeV};
use unsubscribe::{spec_unsubscribe, Unsubscribe, UnsubscribeV};
use vstd::prelude::*;
use vstd::utf8::*;

verus! {

/// An MQTT 3.1.1 packet.
#[derive(Debug, Clone, PartialEq, Eq)]
pub enum Packet {
    Connect(Connect),
    ConnAck(ConnAck),
    Publish(Publish),
    PubAck(PubAck),
    PubRec(PubRec),
    PubRel(PubRel),
    PubComp(PubComp),
    Subscribe(Subscribe),
    SubAck(SubAck),
    Unsubscribe(Unsubscribe),
    UnsubAck(UnsubAck),
    PingReq,
    PingResp,
    Disconnect,
}

/// What a `Packet` holds, as mathematical values.
pub enum PacketV {
    Connect(ConnectV),
    ConnAck(ConnAck),
    Publish(PublishV),
    PubAck(PubAck),
    PubRec(PubRec),
    PubRel(PubRel),
    PubComp(PubComp),
    Subscribe(SubscribeV),
    SubAck(SubAckV),
    Unsubscribe(UnsubscribeV),
    UnsubAck(UnsubAck),
    PingReq,
    PingResp,
    Disconnect,
}

impl View for Packet {
    type V = PacketV;

    open spec fn view(&self) -> PacketV {
        match self {
            Packet::Connect(p) => PacketV::Connect(p@),
            Packet::ConnAck(p) => PacketV::ConnAck(*p),
            Packet::Publish(p) => PacketV::Publish(p@),
            Packet::PubAck(p) => PacketV::PubAck(*p),
            Packet::PubRec(p) => PacketV::PubRec(*p),
            Packet::PubRel(p) => PacketV::PubRel(*p),
            Packet::PubComp(p) => PacketV::PubComp(*p),
            Packet::Subscribe(p) => PacketV::Subscribe(p@),
            Packet::SubAck(p) => PacketV::SubAck(p@),
            Packet::Unsubscribe(p) => PacketV::Unsubscribe(p@),
            Packet::UnsubAck(p) => PacketV::UnsubAck(*p),
            Packet::PingReq => PacketV::PingReq,
            Packet::PingResp => PacketV::PingResp,
            Packet::Disconnect => PacketV::Disconnect,
        }
    }
}

/// Wraps the result of parsing one kind of packet.
pub open spec fn wrap<T>(r: Result<T, Error>, f: spec_fn(T) -> PacketV) -> Result<PacketV, Error> {
    match r {
        Ok(v) => Ok(f(v)),
        Err(e) => Err(e),
    }
}

/// The packet of type `t` in the frame `s`, whose fixed header is `h`.
pub open spec fn spec_assemble(t: PacketType, h: crate::mqttbytes::FixedHeader, s: Seq<u8>) -> Result<
    PacketV,
    Error,
> {
    match t {
        PacketType::Connect => wrap(spec_connect(h, s), |p| PacketV::Connect(p)),
        PacketType::ConnAck => wrap(spec_connack(h, s), |p| PacketV::ConnAck(p)),
        PacketType::Publish => wrap(spec_publish(h, s), |p| PacketV::Publish(p)),
        PacketType::PubAck => wrap(spec_pkid(h, s), |id: u16| PacketV::PubAck(PubAck { pkid: id })),
        PacketType::PubRec => wrap(spec_pkid(h, s), |id: u16| PacketV::PubRec(PubRec { pkid: id })),
        PacketType::PubRel => wrap(spec_pkid(h, s), |id: u16| PacketV::PubRel(PubRel { pkid: id })),
        PacketType::PubComp => wrap(
            spec_pkid(h, s),
            |id: u16| PacketV::PubComp(PubComp { pkid: id }),
        ),
        PacketType::Subscribe => wrap(spec_subscribe(h, s), |p| PacketV::Subscribe(p)),
        PacketType::SubAck => wrap(spec_suback(h, s), |p| PacketV::SubAck(p)),
        PacketType::Unsubscribe => wrap(spec_unsubscribe(h, s), |p| PacketV::Unsubscribe(p)),
        PacketType::UnsubAck => wrap(
            spec_unsuback_pkid(h, s),
            |id: u16| PacketV::UnsubAck(UnsubAck { pkid: id }),
        ),
        PacketType::PingReq => Ok(PacketV::PingReq),
        PacketType::PingResp => Ok(PacketV::PingResp),
        PacketType::Disconnect => Ok(PacketV::Disconnect),
    }
}

/// Reading one packet off the stream `s`, with at most `max_packet_size`
/// bytes after the fixed header: the packet or the error, and how many
/// bytes of the stream are used up. A stream that does not hold a whole
/// packet (or announces too long a one) is left as it is; otherwise the
/// packet's frame is used up, whether the packet parses or not. Ping
/// requests and responses and disconnects may come with no bytes after the
/// fixed header; any other packet must have some.
pub open spec fn spec_mqtt_read(s: Seq<u8>, max_packet_size: usize) -> (Result<PacketV, Error>, int) {
    match spec_check(s, max_packet_size) {
        Err(e) => (Err(e), 0),
        Ok(h) => {
            let n = spec_frame_length(h);
            let frame = s.take(n);
            (
                match spec_packet_type(h.byte1 / 16) {
                    Err(e) => Err(e),
                    Ok(t) => if h.remaining_len == 0 {
                        match t {
                            PacketType::PingReq => Ok(PacketV::PingReq),
                            PacketType::PingResp => Ok(PacketV::PingResp),
                            PacketType::Disconnect => Ok(PacketV::Disconnect),
                            _ => Err(Error::PayloadRequired),
                        }
                    } else {
                        spec_assemble(t, h, frame)
                    },
                },
                n,
            )
        },
    }
}

/// The mathematical value of a parse result.
pub open spec fn packet_result_view(r: Result<Packet, Error>) -> Result<PacketV, Error> {
    match r {
        Ok(p) => Ok(p@),
        Err(e) => Err(e),
    }
}

/// Reads a stream of bytes and extracts one MQTT packet, using up its bytes.
pub fn mqtt_read(stream: &mut BytesMut, max_packet_size: usize) -> (r: Result<Packet, Error>)
    ensures
        packet_result_view(r) == spec_mqtt_read(buffer_contents(*old(stream)), max_packet_size).0,
        buffer_contents(*final(stream)) == buffer_contents(*old(stream)).skip(
            spec_mqtt_read(buffer_contents(*old(stream)), max_packet_size).1,
        ),
{
    let ghost start = buffer_contents(*stream);
    let fixed_header = match check(buffer_bytes(stream), max_packet_size) {
        Ok(h) => h,
        Err(e) => {
            assert(start.skip(0) =~= start);
            return Err(e);
        },
    };
    let packet = buffer_split_to(stream, fixed_header.frame_length());
    let packet_type = match fixed_header.packet_type() {
        Ok(t) => t,
        Err(e) => return Err(e),
    };
    if fixed_header.remaining_len == 0 {
        return match packet_type {
            PacketType::PingReq => Ok(Packet::PingReq),
            PacketType::PingResp => Ok(Packet::PingResp),
            PacketType::Disconnect => Ok(Packet::Disconnect),
            _ => Err(Error::PayloadRequired),
        };
    }
    let frame = buffer_bytes(&packet);
    let packet = match packet_type {
        PacketType::Connect => match Connect::assemble(fixed_header, frame) {
            Ok(p) => Packet::Connect(p),
            Err(e) => return Err(e),
        },
        PacketType::ConnAck => match ConnAck::assemble(fixed_header, frame) {
            Ok(p) => Packet::ConnAck(p),
            Err(e) => return Err(e),
        },
        PacketType::Publish => match Publish::assemble(fixed_header, frame) {
            Ok(p) => Packet::Publish(p),
            Err(e) => return Err(e),
        },
        PacketType::PubAck => match PubAck::assemble(fixed_header, frame) {
            Ok(p) => Packet::PubAck(p),
            Err(e) => return Err(e),
        },
        PacketType::PubRec => match PubRec::assemble(fixed_header, frame) {
            Ok(p) => Packet::PubRec(p),
            Err(e) => return Err(e),
        },
        PacketType::PubRel => match PubRel::assemble(fixed_header, frame) {
            Ok(p) => Packet::PubRel(p),
            Err(e) => return Err(e),
        },
        PacketType::PubComp => match PubComp::assemble(fixed_header, frame) {
            Ok(p) => Packet::PubComp(p),
            Err(e) => return Err(e),
        },
        PacketType::Subscribe => match Subscribe::assemble(fixed_header, frame) {
            Ok(p) => Packet::Subscribe(p),
            Err(e) => return Err(e),
        },
        PacketType::SubAck => match SubAck::assemble(fixed_header, frame) {
            Ok(p) => Packet::SubAck(p),
            Err(e) => return Err(e),
        },
        PacketType::Unsubscribe => match Unsubscribe::assemble(fixed_header, frame) {
            Ok(p) => Packet::Unsubscribe(p),
            Err(e) => return Err(e),
        },
        PacketType::UnsubAck => match UnsubAck::assemble(fixed_header, frame) {
            Ok(p) => Packet::UnsubAck(p),
            Err(e) => return Err(e),
        },
        PacketType::PingReq => Packet::PingReq,
        PacketType::PingResp => Packet::PingResp,
        PacketType::Disconnect => Packet::Disconnect,
    };
    Ok(packet)
}

/// The bytes that writing `p` appends, when it succeeds.
pub open spec fn spec_publish_frame(p: PublishV) -> Seq<u8> {
    seq![spec_publish_byte1(p)] + encode_length(spec_publish_len(p) as nat) + spec_publish_body(p)
}

/// The bytes of a written Publish packet after its fixed header.
pub open spec fn spec_publish_body(p: PublishV) -> Seq<u8> {
    u16_bytes(encode_utf8(p.topic).len() as u16) + encode_utf8(p.topic) + (if p.qos
        != QoS::AtMostOnce {
        u16_bytes(p.pkid)
    } else {
        Seq::<u8>::empty()
    }) + p.payload
}

/// The fixed header of a written Publish packet.
pub open spec fn spec_publish_header(p: PublishV) -> FixedHeader {
    FixedHeader {
        byte1: spec_publish_byte1(p),
        fixed_header_len: (encode_length(spec_publish_len(p) as nat).len() + 1) as usize,
        remaining_len: spec_publish_len(p) as usize,
    }
}

/// What writing `p` appends is its frame, when the write succeeds.
proof fn lemma_publish_write_frame(p: PublishV)
    requires
        encode_utf8(p.topic).len() <= 65535,
        p.qos == QoS::AtMostOnce <==> p.pkid == 0,
        spec_publish_len(p) <= 268435455,
    ensures
        spec_publish_write(p).0 == spec_publish_frame(p),
        spec_publish_write(p).1 == Ok::<usize, Error>(spec_publish_frame(p).len() as usize),
        spec_publish_body(p).len() == spec_publish_len(p),
        encode_length(spec_publish_len(p) as nat).len() <= 4,
{
    lemma_encode_length_len(spec_publish_len(p) as nat);
    assert(spec_publish_write(p).0 =~= spec_publish_frame(p));
}

/// The stream that starts with a written Publish packet checks out with
/// the packet's fixed header.
proof fn lemma_publish_frame_checks(p: PublishV, rest: Seq<u8>, max_packet_size: usize)
    requires
        spec_publish_body(p).len() == spec_publish_len(p),
        encode_length(spec_publish_len(p) as nat).len() <= 4,
        spec_publish_len(p) <= max_packet_size,
    ensures
        spec_check(spec_publish_frame(p) + rest, max_packet_size) == Ok::<FixedHeader, Error>(
            spec_publish_header(p),
        ),
        (spec_publish_frame(p) + rest).take(spec_frame_length(spec_publish_header(p)))
            == spec_publish_frame(p),
{
    let len = spec_publish_len(p);
    let enc = encode_length(len as nat);
    let s = spec_publish_frame(p) + rest;
    let after = s.skip(1);
    assert(after.subrange(0, enc.len() as int) =~= enc);
    lemma_length_decodes_encoding(after, 0, 0, len as nat);
    assert(spec_parse_fixed_header(s) == Ok::<FixedHeader, Error>(spec_publish_header(p)));
    assert(s.take(spec_frame_length(spec_publish_header(p))) =~= spec_publish_frame(p));
}

/// The first byte of a written Publish packet carries its type and flags.
proof fn lemma_publish_byte1(p: PublishV)
    ensures
        spec_publish_byte1(p) / 16 == 3,
        spec_qos((spec_publish_byte1(p) / 2) % 4) == Ok::<QoS, Error>(p.qos),
        ((spec_publish_byte1(p) / 8) % 2 == 1) == p.dup,
        (spec_publish_byte1(p) % 2 == 1) == p.retain,
{
    let d: int = if p.dup {
        8
    } else {
        0
    };
    let r: int = if p.retain {
        1
    } else {
        0
    };
    let q: int = qos_value(p.qos) as int;
    assert(0 <= q <= 2);
    assert(spec_publish_byte1(p) == 48 + r + 2 * q + d);
}

/// The frame of a written Publish packet parses back to the packet.
proof fn lemma_publish_frame_parses(p: PublishV)
    requires
        encode_utf8(p.topic).len() <= 65535,
        p.qos == QoS::AtMostOnce <==> p.pkid == 0,
        encode_length(spec_publish_len(p) as nat).len() <= 4,
    ensures
        spec_publish(spec_publish_header(p), spec_publish_frame(p)) == Ok::<PublishV, Error>(p),
{
    let b1 = spec_publish_byte1(p);
    let h = spec_publish_header(p);
    let topic = encode_utf8(p.topic);
    let pre = seq![b1] + encode_length(spec_publish_len(p) as nat);
    let ids = if p.qos != QoS::AtMostOnce {
        u16_bytes(p.pkid)
    } else {
        Seq::<u8>::empty()
    };
    let b = spec_publish_frame(p);
    assert(b =~= pre + u16_bytes(topic.len() as u16) + topic + (ids + p.payload));
    assert(h.fixed_header_len == pre.len());
    lemma_publish_byte1(p);
    lemma_read_mqtt_string_written(pre, p.topic, ids + p.payload);
    let mid = pre + u16_bytes(topic.len() as u16) + topic;
    assert(spec_read_mqtt_string(b, h.fixed_header_len as int) == Ok::<(Seq<char>, int), Error>(
        (p.topic, mid.len() as int),
    ));
    if p.qos != QoS::AtMostOnce {
        assert(b =~= mid + u16_bytes(p.pkid) + p.payload);
        lemma_read_u16_written(mid, p.pkid, p.payload);
        assert(b.subrange(mid.len() as int + 2, b.len() as int) =~= p.payload);
    } else {
        assert(b.subrange(mid.len() as int, b.len() as int) =~= p.payload);
    }
}

/// Writing a Publish packet and then reading the stream gives back the same
/// packet and uses up exactly the bytes written, whatever follows them. This
/// holds when the packet can be written (a topic of at most 65535 bytes, a
/// remaining length of at most 268435455, a packet identifier above "at most
/// once"), when the reader accepts its size, and when a packet at "at most
/// once" carries packet identifier 0, the one that reading gives it.
pub proof fn publish_write_read_roundtrip(p: PublishV, rest: Seq<u8>, max_packet_size: usize)
    requires
        encode_utf8(p.topic).len() <= 65535,
        p.qos == QoS::AtMostOnce <==> p.pkid == 0,
        spec_publish_len(p) <= 268435455,
        spec_publish_len(p) <= max_packet_size,
    ensures
        spec_publish_write(p).1 == Ok::<usize, Error>(spec_publish_write(p).0.len() as usize),
        spec_mqtt_read(spec_publish_write(p).0 + rest, max_packet_size) == (
            Ok::<PacketV, Error>(PacketV::Publish(p)),
            spec_publish_write(p).0.len() as int,
        ),
{
    lemma_publish_write_frame(p);
    lemma_publish_frame_checks(p, rest, max_packet_size);
    lemma_publish_frame_parses(p);
    lemma_publish_byte1(p);
}

/// Reading a packet off a stream that holds a whole packet gives the same
/// packet, and uses up the same bytes, whatever follows it in the stream.
pub proof fn mqtt_read_ignores_what_follows(s: Seq<u8>, rest: Seq<u8>, max_packet_size: usize)
    requires
        spec_check(s, max_packet_size) is Ok,
    ensures
        spec_mqtt_read(s + rest, max_packet_size) == spec_mqtt_read(s, max_packet_size),
{
    lemma_check_prefix(s, rest, max_packet_size);
    let h = spec_check(s, max_packet_size)->Ok_0;
    assert((s + rest).take(spec_frame_length(h)) =~= s.take(spec_frame_length(h)));
}

/// The Publish packets that write and read back unchanged with a reader
/// that accepts `max_packet_size` bytes after the fixed header.
pub open spec fn publish_roundtrips(p: PublishV, max_packet_size: usize) -> bool {
    &&& encode_utf8(p.topic).len() <= 65535
    &&& (p.qos == QoS::AtMostOnce <==> p.pkid == 0)
    &&& spec_publish_len(p) <= 268435455
    &&& spec_publish_len(p) <= max_packet_size
}

/// The bytes of the Publish packets `ps` written one after another.
pub open spec fn spec_write_all(ps: Seq<PublishV>) -> Seq<u8>
    decreases ps.len(),
{
    if ps.len() == 0 {
        Seq::empty()
    } else {
        spec_publish_write(ps[0]).0 + spec_write_all(ps.drop_first())
    }
}

/// Reading `n` packets one after another off the stream `s`: the results,
/// and what is left of the stream.
pub open spec fn spec_read_n(s: Seq<u8>, max_packet_size: usize, n: nat) -> (
    Seq<Result<PacketV, Error>>,
    Seq<u8>,
)
    decreases n,
{
    if n == 0 {
        (Seq::empty(), s)
    } else {
        let (r, used) = spec_mqtt_read(s, max_packet_size);
        let (more, left) = spec_read_n(s.skip(used), max_packet_size, (n - 1) as nat);
        (seq![r] + more, left)
    }
}

/// Writing Publish packets one after another into a stream and then reading
/// as many packets off it gives them back in the order written, and leaves
/// the stream empty.
pub proof fn publish_stream_roundtrip(ps: Seq<PublishV>, max_packet_size: usize)
    requires
        forall|i: int| 0 <= i < ps.len() ==> publish_roundtrips(#[trigger] ps[i], max_packet_size),
    ensures
        spec_read_n(spec_write_all(ps), max_packet_size, ps.len()).0 == ps.map_values(
            |p: PublishV| Ok::<PacketV, Error>(PacketV::Publish(p)),
        ),
        spec_read_n(spec_write_all(ps), max_packet_size, ps.len()).1 == Seq::<u8>::empty(),
    decreases ps.len(),
{
    if ps.len() == 0 {
        assert(ps.map_values(|p: PublishV| Ok::<PacketV, Error>(PacketV::Publish(p))) =~= Seq::<
            Result<PacketV, Error>,
        >::empty());
    } else {
        let p = ps[0];
        let tail = ps.drop_first();
        assert(publish_roundtrips(p, max_packet_size));
        assert forall|i: int| 0 <= i < tail.len() implies publish_roundtrips(
            #[trigger] tail[i],
            max_packet_size,
        ) by {
            assert(tail[i] == ps[i + 1]);
        }
        let first = spec_publish_write(p).0;
        let s = spec_write_all(ps);
        assert(s == first + spec_write_all(tail));
        publish_write_read_roundtrip(p, spec_write_all(tail), max_packet_size);
        assert(s.skip(first.len() as int) =~= spec_write_all(tail));
        publish_stream_roundtrip(tail, max_packet_size);
        assert(ps.map_values(|p: PublishV| Ok::<PacketV, Error>(PacketV::Publish(p))) =~= seq![
            Ok::<PacketV, Error>(PacketV::Publish(p)),
        ] + tail.map_values(|p: PublishV| Ok::<PacketV, Error>(PacketV::Publish(p))));
    }
}

/// Reading a packet off a stream either leaves the stream as it is, and then
/// fails, or uses up at least the two bytes of a fixed header and no more
/// than the stream holds.
pub proof fn mqtt_read_progress(s: Seq<u8>, max_packet_size: usize)
    ensures
        spec_mqtt_read(s, max_packet_size).1 == 0 ==> spec_mqtt_read(s, max_packet_size).0 is Err,
        spec_mqtt_read(s, max_packet_size).1 != 0 ==> 2 <= spec_mqtt_read(s, max_packet_size).1
            <= s.len(),
{
    if s.len() >= 2 {
        lemma_length_bounds(s.skip(1), 0, 0);
    }
}

} // verus!
