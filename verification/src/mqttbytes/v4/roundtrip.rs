//! What reading a packet off a stream gives for the frames that clients and
//! brokers write: ConnAck, SubAck, Subscribe and Connect packets, each laid
//! out byte by byte as MQTT 3.1.1 writes it, read back by `mqtt_read`.

use crate::mqttbytes::v4::ack::{PubAck, PubComp, PubRec, PubRel, UnsubAck};
use crate::mqttbytes::v4::connack::{ConnAck, ConnectReturnCode};
use crate::mqttbytes::v4::connect::{mqtt_name, ConnectV, LastWillV, LoginV};
use crate::mqttbytes::v4::publish::lemma_encode_length_len;
use crate::mqttbytes::v4::suback::{spec_suback, SubAckV, SubscribeReasonCode};
use crate::mqttbytes::v4::subscribe::{SubscribeFilterV, SubscribeV};
use crate::mqttbytes::v4::unsubscribe::UnsubscribeV;
use crate::mqttbytes::v4::{spec_assemble, spec_mqtt_read, PacketV};
use crate::mqttbytes::{
    encode_length, lemma_length_decodes_encoding, lemma_read_mqtt_bytes_written,
    lemma_read_mqtt_string_written, lemma_read_u16_written, spec_check, spec_frame_length,
    spec_packet_type, spec_parse_fixed_header, u16_bytes, Error, FixedHeader, PacketType,
    Protocol, QoS,
};
use vstd::prelude::*;
use vstd::utf8::*;

verus! {

/// A whole packet: the first byte, the remaining length, then the body.
pub open spec fn spec_frame(byte1: u8, body: Seq<u8>) -> Seq<u8> {
    seq![byte1] + encode_length(body.len()) + body
}

/// The fixed header of `spec_frame(byte1, body)`.
pub open spec fn spec_frame_header(byte1: u8, body: Seq<u8>) -> FixedHeader {
    FixedHeader {
        byte1,
        fixed_header_len: (encode_length(body.len()).len() + 1) as usize,
        remaining_len: body.len() as usize,
    }
}

/// A whole packet with a non-empty body of an accepted size is read off the
/// front of any stream as its packet type's parse of the frame.
pub proof fn frame_reads(byte1: u8, body: Seq<u8>, rest: Seq<u8>, max_packet_size: usize, t: PacketType)
    requires
        0 < body.len() <= 268435455,
        body.len() <= max_packet_size,
        spec_packet_type(byte1 / 16) == Ok::<PacketType, Error>(t),
    ensures
        spec_mqtt_read(spec_frame(byte1, body) + rest, max_packet_size) == (
            spec_assemble(t, spec_frame_header(byte1, body), spec_frame(byte1, body)),
            spec_frame(byte1, body).len() as int,
        ),
        spec_frame_header(byte1, body).fixed_header_len == 1 + encode_length(body.len()).len(),
        encode_length(body.len()).len() <= 4,
{
    let enc = encode_length(body.len());
    lemma_encode_length_len(body.len());
    let f = spec_frame(byte1, body);
    let s = f + rest;
    let after = s.skip(1);
    assert(after.subrange(0, enc.len() as int) =~= enc);
    lemma_length_decodes_encoding(after, 0, 0, body.len());
    let h = spec_frame_header(byte1, body);
    assert(spec_parse_fixed_header(s) == Ok::<FixedHeader, Error>(h));
    assert(spec_check(s, max_packet_size) == Ok::<FixedHeader, Error>(h));
    assert(s.take(spec_frame_length(h)) =~= f);
}

// ---------------------------------------------------------------- ConnAck

/// A ConnAck frame (remaining length 2: a flags byte and a return code) is
/// read as follows: the low bit of the flags tells whether a session is
/// present, and return codes 0 to 5 are, in order, accepted, unacceptable
/// protocol version, identifier rejected, server unavailable, bad user name
/// or password, not authorized; any other code is refused. The four bytes
/// are used up either way.
pub proof fn connack_reads(flags: u8, code: u8, rest: Seq<u8>, max_packet_size: usize)
    requires
        2 <= max_packet_size,
    ensures
        spec_mqtt_read(seq![0x20u8, 0x02u8, flags, code] + rest, max_packet_size) == (
            if code == 0 {
                Ok::<PacketV, Error>(PacketV::ConnAck(ConnAck { session_present: flags % 2 == 1, code: ConnectReturnCode::Success }))
            } else if code == 1 {
                Ok(PacketV::ConnAck(ConnAck { session_present: flags % 2 == 1, code: ConnectReturnCode::RefusedProtocolVersion }))
            } else if code == 2 {
                Ok(PacketV::ConnAck(ConnAck { session_present: flags % 2 == 1, code: ConnectReturnCode::BadClientId }))
            } else if code == 3 {
                Ok(PacketV::ConnAck(ConnAck { session_present: flags % 2 == 1, code: ConnectReturnCode::ServiceUnavailable }))
            } else if code == 4 {
                Ok(PacketV::ConnAck(ConnAck { session_present: flags % 2 == 1, code: ConnectReturnCode::BadUserNamePassword }))
            } else if code == 5 {
                Ok(PacketV::ConnAck(ConnAck { session_present: flags % 2 == 1, code: ConnectReturnCode::NotAuthorized }))
            } else {
                Err(Error::InvalidConnectReturnCode(code))
            },
            4int,
        ),
{
    let body = seq![flags, code];
    reveal_with_fuel(encode_length, 2);
    assert(seq![0x20u8, 0x02u8, flags, code] =~= spec_frame(0x20, body));
    frame_reads(0x20, body, rest, max_packet_size, PacketType::ConnAck);
}

// ----------------------------------------------------------------- SubAck

/// The wire value of a SubAck return code: the granted quality of service
/// 0, 1 or 2, or 128 for a failure.
pub open spec fn return_code_byte(c: SubscribeReasonCode) -> u8 {
    match c {
        SubscribeReasonCode::Success(QoS::AtMostOnce) => 0,
        SubscribeReasonCode::Success(QoS::AtLeastOnce) => 1,
        SubscribeReasonCode::Success(QoS::ExactlyOnce) => 2,
        SubscribeReasonCode::Failure => 128,
    }
}

/// The bytes of a list of return codes, one byte each.
pub open spec fn return_codes_bytes(codes: Seq<SubscribeReasonCode>) -> Seq<u8> {
    Seq::new(codes.len(), |i: int| return_code_byte(codes[i]))
}

/// The body of a SubAck: the packet identifier, then one byte per code.
pub open spec fn suback_body(a: SubAckV) -> Seq<u8> {
    u16_bytes(a.pkid) + return_codes_bytes(a.return_codes)
}

/// Reading the return codes written from position `pre.len()` on gives
/// them back.
proof fn lemma_return_codes_written(pre: Seq<u8>, codes: Seq<SubscribeReasonCode>)
    ensures
        crate::mqttbytes::v4::suback::spec_return_codes(
            pre + return_codes_bytes(codes),
            pre.len() as int,
        ) == Ok::<Seq<SubscribeReasonCode>, Error>(codes),
    decreases codes.len(),
{
    let s = pre + return_codes_bytes(codes);
    if codes.len() == 0 {
        assert(codes =~= Seq::<SubscribeReasonCode>::empty());
    } else {
        let c = codes[0];
        let tail = codes.drop_first();
        let pre2 = pre + seq![return_code_byte(c)];
        assert(s =~= pre2 + return_codes_bytes(tail));
        assert(s[pre.len() as int] == return_code_byte(c));
        lemma_return_codes_written(pre2, tail);
        assert(codes =~= seq![c] + tail);
    }
}

/// Writing a SubAck with at least one return code and reading it back
/// gives the same packet identifier and the same return codes, every one
/// of them in order, and uses up exactly the bytes written.
pub proof fn suback_write_read(a: SubAckV, rest: Seq<u8>, max_packet_size: usize)
    requires
        a.return_codes.len() > 0,
        2 + a.return_codes.len() <= max_packet_size,
        2 + a.return_codes.len() <= 268435455,
    ensures
        spec_mqtt_read(spec_frame(0x90, suback_body(a)) + rest, max_packet_size) == (
            Ok::<PacketV, Error>(PacketV::SubAck(a)),
            spec_frame(0x90, suback_body(a)).len() as int,
        ),
{
    assert(suback_body(a).len() == 2 + a.return_codes.len());
    assert(spec_packet_type(0x90u8 / 16) == Ok::<PacketType, Error>(PacketType::SubAck));
    frame_reads(0x90, suback_body(a), rest, max_packet_size, PacketType::SubAck);
    lemma_suback_frame_parses(a);
    let h = spec_frame_header(0x90, suback_body(a));
    let f = spec_frame(0x90, suback_body(a));
    assert(spec_assemble(PacketType::SubAck, h, f) == Ok::<PacketV, Error>(PacketV::SubAck(a)));
}

/// The frame of a written SubAck parses back to it.
proof fn lemma_suback_frame_parses(a: SubAckV)
    requires
        a.return_codes.len() > 0,
        suback_body(a).len() <= 268435455,
    ensures
        spec_suback(spec_frame_header(0x90, suback_body(a)), spec_frame(0x90, suback_body(a)))
            == Ok::<SubAckV, Error>(a),
{
    let body = suback_body(a);
    let h = spec_frame_header(0x90, body);
    let pre = seq![0x90u8] + encode_length(body.len());
    let f = spec_frame(0x90, body);
    assert(h.fixed_header_len == pre.len()) by {
        lemma_encode_length_len(body.len());
    }
    assert(f =~= pre + u16_bytes(a.pkid) + return_codes_bytes(a.return_codes));
    lemma_read_u16_written(pre, a.pkid, return_codes_bytes(a.return_codes));
    let mid = pre + u16_bytes(a.pkid);
    assert(f =~= mid + return_codes_bytes(a.return_codes));
    lemma_return_codes_written(mid, a.return_codes);
}

/// A parsed SubAck has one return code per byte after its packet
/// identifier, each the decoding of its byte: 0, 1, 2 grant that quality of
/// service, 128 is a failure.
pub proof fn suback_codes_count(h: FixedHeader, s: Seq<u8>)
    requires
        s.len() == spec_frame_length(h),
        spec_suback(h, s) is Ok,
    ensures
        spec_suback(h, s)->Ok_0.return_codes.len() == h.remaining_len - 2,
        forall|i: int|
            0 <= i < h.remaining_len - 2 ==> return_code_byte(
                #[trigger] spec_suback(h, s)->Ok_0.return_codes[i],
            ) == s[h.fixed_header_len + 2 + i],
{
    let p1 = h.fixed_header_len + 2;
    lemma_return_codes_count(s, p1);
}

/// The return codes read from position `p` to the end of `s`: one per
/// byte, each written back as that byte.
proof fn lemma_return_codes_count(s: Seq<u8>, p: int)
    requires
        0 <= p <= s.len(),
        crate::mqttbytes::v4::suback::spec_return_codes(s, p) is Ok,
    ensures
        crate::mqttbytes::v4::suback::spec_return_codes(s, p)->Ok_0.len() == s.len() - p,
        forall|i: int|
            0 <= i < s.len() - p ==> return_code_byte(
                #[trigger] crate::mqttbytes::v4::suback::spec_return_codes(s, p)->Ok_0[i],
            ) == s[p + i],
    decreases s.len() - p,
{
    if p < s.len() {
        lemma_return_codes_count(s, p + 1);
        let codes = crate::mqttbytes::v4::suback::spec_return_codes(s, p)->Ok_0;
        let more = crate::mqttbytes::v4::suback::spec_return_codes(s, p + 1)->Ok_0;
        assert forall|i: int| 0 <= i < s.len() - p implies return_code_byte(#[trigger] codes[i])
            == s[p + i] by {
            if i > 0 {
                assert(codes[i] == more[i - 1]);
            }
        }
    }
}

// -------------------------------------------------------------- Subscribe

/// The bytes of one filter: its path as a length-prefixed UTF-8 string,
/// then an options byte holding the requested quality of service.
pub open spec fn filter_bytes(f: SubscribeFilterV) -> Seq<u8> {
    u16_bytes(encode_utf8(f.path).len() as u16) + encode_utf8(f.path) + seq![
        match f.qos {
            QoS::AtMostOnce => 0u8,
            QoS::AtLeastOnce => 1u8,
            QoS::ExactlyOnce => 2u8,
        },
    ]
}

/// The bytes of a list of filters, one after another.
pub open spec fn filters_bytes(fs: Seq<SubscribeFilterV>) -> Seq<u8>
    decreases fs.len(),
{
    if fs.len() == 0 {
        Seq::empty()
    } else {
        filter_bytes(fs[0]) + filters_bytes(fs.drop_first())
    }
}

/// The body of a Subscribe: the packet identifier, then the filters.
pub open spec fn subscribe_body(s: SubscribeV) -> Seq<u8> {
    u16_bytes(s.pkid) + filters_bytes(s.filters)
}

/// Filters whose paths fit a length-prefixed string.
pub open spec fn filters_fit(fs: Seq<SubscribeFilterV>) -> bool {
    forall|i: int| 0 <= i < fs.len() ==> encode_utf8(#[trigger] fs[i].path).len() <= 65535
}

/// Reading the filters written from position `pre.len()` on gives them back.
#[verifier::spinoff_prover]
#[verifier::rlimit(40)]
proof fn lemma_filters_written(pre: Seq<u8>, fs: Seq<SubscribeFilterV>)
    requires
        filters_fit(fs),
    ensures
        crate::mqttbytes::v4::subscribe::spec_filters(pre + filters_bytes(fs), pre.len() as int)
            == Ok::<Seq<SubscribeFilterV>, Error>(fs),
    decreases fs.len(),
{
    let s = pre + filters_bytes(fs);
    if fs.len() == 0 {
        assert(fs =~= Seq::<SubscribeFilterV>::empty());
        assert(s =~= pre);
    } else {
        let f = fs[0];
        let tail = fs.drop_first();
        assert(encode_utf8(f.path).len() <= 65535);
        assert(filters_fit(tail)) by {
            assert forall|i: int| 0 <= i < tail.len() implies encode_utf8(
                #[trigger] tail[i].path,
            ).len() <= 65535 by {
                assert(tail[i] == fs[i + 1]);
            }
        }
        let opt = filter_bytes(f).last();
        let after = seq![opt] + filters_bytes(tail);
        assert(s =~= pre + u16_bytes(encode_utf8(f.path).len() as u16) + encode_utf8(f.path)
            + after);
        lemma_read_mqtt_string_written(pre, f.path, after);
        let mid = pre + u16_bytes(encode_utf8(f.path).len() as u16) + encode_utf8(f.path);
        let pre2 = pre + filter_bytes(f);
        assert(pre2 =~= mid + seq![opt]);
        assert(s =~= pre2 + filters_bytes(tail));
        assert(s[mid.len() as int] == opt);
        lemma_filters_written(pre2, tail);
        assert(fs =~= seq![SubscribeFilterV { path: f.path, qos: f.qos }] + tail);
    }
}

/// Writing a Subscribe with at least one filter, each at any quality of
/// service, and reading it back gives the same packet identifier and the
/// same filters in order, and uses up exactly the bytes written.
pub proof fn subscribe_write_read(sub: SubscribeV, rest: Seq<u8>, max_packet_size: usize)
    requires
        sub.filters.len() > 0,
        filters_fit(sub.filters),
        subscribe_body(sub).len() <= max_packet_size,
        subscribe_body(sub).len() <= 268435455,
    ensures
        spec_mqtt_read(spec_frame(0x82, subscribe_body(sub)) + rest, max_packet_size) == (
            Ok::<PacketV, Error>(PacketV::Subscribe(sub)),
            spec_frame(0x82, subscribe_body(sub)).len() as int,
        ),
{
    frame_reads(0x82, subscribe_body(sub), rest, max_packet_size, PacketType::Subscribe);
    lemma_subscribe_frame_parses(sub);
}

/// The frame of a written Subscribe parses back to it.
proof fn lemma_subscribe_frame_parses(sub: SubscribeV)
    requires
        sub.filters.len() > 0,
        filters_fit(sub.filters),
        subscribe_body(sub).len() <= 268435455,
    ensures
        crate::mqttbytes::v4::subscribe::spec_subscribe(
            spec_frame_header(0x82, subscribe_body(sub)),
            spec_frame(0x82, subscribe_body(sub)),
        ) == Ok::<SubscribeV, Error>(sub),
{
    let body = subscribe_body(sub);
    let h = spec_frame_header(0x82, body);
    let pre = seq![0x82u8] + encode_length(body.len());
    let f = spec_frame(0x82, body);
    assert(h.fixed_header_len == pre.len()) by {
        lemma_encode_length_len(body.len());
    }
    assert(f =~= pre + u16_bytes(sub.pkid) + filters_bytes(sub.filters));
    lemma_read_u16_written(pre, sub.pkid, filters_bytes(sub.filters));
    let mid = pre + u16_bytes(sub.pkid);
    assert(f =~= mid + filters_bytes(sub.filters));
    lemma_filters_written(mid, sub.filters);
}

// ---------------------------------------------------------------- Connect

/// A length-prefixed UTF-8 string.
pub open spec fn string_bytes(t: Seq<char>) -> Seq<u8> {
    u16_bytes(encode_utf8(t).len() as u16) + encode_utf8(t)
}

/// The connect flags that a Connect is written with: bit 1 clean session;
/// bit 2 a last will, with its quality of service in bits 3-4 and its
/// retain flag in bit 5; bit 7 a non-empty user name; bit 6 a non-empty
/// password.
#[verifier::opaque]
pub open spec fn connect_flags(c: ConnectV) -> int {
    (if c.clean_session {
        2int
    } else {
        0int
    }) + match c.last_will {
        None => 0int,
        Some(w) => 4 + 8 * (match w.qos {
            QoS::AtMostOnce => 0int,
            QoS::AtLeastOnce => 1int,
            QoS::ExactlyOnce => 2int,
        }) + (if w.retain {
            32int
        } else {
            0int
        }),
    } + match c.login {
        None => 0int,
        Some(l) => (if l.username.len() > 0 {
            128int
        } else {
            0int
        }) + (if l.password.len() > 0 {
            64int
        } else {
            0int
        }),
    }
}

/// The bytes of a last will, if any: its topic and its message.
pub open spec fn will_bytes(w: Option<LastWillV>) -> Seq<u8> {
    match w {
        None => Seq::empty(),
        Some(w) => string_bytes(w.topic) + u16_bytes(w.message.len() as u16) + w.message,
    }
}

/// The bytes of a login, if any: the user name when not empty, then the
/// password when not empty.
pub open spec fn login_bytes(l: Option<LoginV>) -> Seq<u8> {
    match l {
        None => Seq::empty(),
        Some(l) => (if l.username.len() > 0 {
            string_bytes(l.username)
        } else {
            Seq::empty()
        }) + (if l.password.len() > 0 {
            string_bytes(l.password)
        } else {
            Seq::empty()
        }),
    }
}

/// The body of a Connect: the protocol name "MQTT", the protocol level (4
/// or 5), the connect flags, the keep alive, the client identifier, the
/// last will and the login.
pub open spec fn connect_body(c: ConnectV) -> Seq<u8> {
    string_bytes(mqtt_name()) + seq![protocol_level(c.protocol), connect_flags(c) as u8] + u16_bytes(c.keep_alive) + string_bytes(c.client_id) + will_bytes(c.last_will) + login_bytes(
        c.login,
    )
}

/// The Connect packets that write and read back unchanged: every string
/// and the will message fit a 16 bit length, and a login, when there is
/// one, has a user name or a password (a login with both empty is written
/// as no login).
pub open spec fn connect_fits(c: ConnectV) -> bool {
    &&& encode_utf8(c.client_id).len() <= 65535
    &&& (c.last_will matches Some(w) ==> encode_utf8(w.topic).len() <= 65535 && w.message.len()
        <= 65535)
    &&& (c.login matches Some(l) ==> encode_utf8(l.username).len() <= 65535 && encode_utf8(
        l.password,
    ).len() <= 65535 && (l.username.len() > 0 || l.password.len() > 0))
}

/// An empty sequence of characters encodes to no bytes, and only it.
proof fn lemma_encode_empty(t: Seq<char>)
    ensures
        (encode_utf8(t).len() == 0) == (t.len() == 0),
{
    if t.len() > 0 {
        assert(encode_scalar(t[0] as u32).len() > 0);
    }
}

/// The bits of the connect flags.
#[verifier::spinoff_prover]
#[verifier::rlimit(40)]
proof fn lemma_connect_flags_bits(c: ConnectV)
    requires
        connect_fits(c),
    ensures
        0 <= connect_flags(c) < 256,
        ((connect_flags(c) as u8 / 2) % 2 == 1) == c.clean_session,
        ((connect_flags(c) as u8 / 4) % 2 == 1) == c.last_will is Some,
        c.last_will is None ==> (connect_flags(c) as u8 / 8) % 8 == 0,
        c.last_will matches Some(w) ==> (connect_flags(c) as u8 / 8) % 4 == (match w.qos {
            QoS::AtMostOnce => 0u8,
            QoS::AtLeastOnce => 1u8,
            QoS::ExactlyOnce => 2u8,
        }) && ((connect_flags(c) as u8 / 32) % 2 == 1) == w.retain,
        ((connect_flags(c) as u8 / 128) % 2 == 1) == (c.login matches Some(l) && l.username.len()
            > 0),
        ((connect_flags(c) as u8 / 64) % 2 == 1) == (c.login matches Some(l) && l.password.len()
            > 0),
{
    reveal(connect_flags);
    let a: int = if c.clean_session {
        1
    } else {
        0
    };
    let (w, q, r): (int, int, int) = match c.last_will {
        None => (0, 0, 0),
        Some(lw) => (
            1,
            match lw.qos {
                QoS::AtMostOnce => 0int,
                QoS::AtLeastOnce => 1int,
                QoS::ExactlyOnce => 2int,
            },
            if lw.retain {
                1
            } else {
                0
            },
        ),
    };
    let (u, p): (int, int) = match c.login {
        None => (0, 0),
        Some(l) => (if l.username.len() > 0 {
            1
        } else {
            0
        }, if l.password.len() > 0 {
            1
        } else {
            0
        }),
    };
    assert(connect_flags(c) == 2 * a + 4 * w + 8 * q + 32 * r + 64 * p + 128 * u);
    assert(0 <= a <= 1 && 0 <= w <= 1 && 0 <= q <= 2 && 0 <= r <= 1 && 0 <= p <= 1 && 0 <= u
        <= 1);
    assert(w == 0 ==> q == 0 && r == 0);
}

/// Writing a Connect and reading it back gives the same packet, last will
/// and login included (a user name without a password, or a password
/// without a user name, reads back as written), and uses up exactly the
/// bytes written.
pub proof fn connect_write_read(c: ConnectV, rest: Seq<u8>, max_packet_size: usize)
    requires
        connect_fits(c),
        connect_body(c).len() <= max_packet_size,
        connect_body(c).len() <= 268435455,
    ensures
        spec_mqtt_read(spec_frame(0x10, connect_body(c)) + rest, max_packet_size) == (
            Ok::<PacketV, Error>(PacketV::Connect(c)),
            spec_frame(0x10, connect_body(c)).len() as int,
        ),
{
    let body = connect_body(c);
    assert(body.len() > 0);
    frame_reads(0x10, body, rest, max_packet_size, PacketType::Connect);
    lemma_connect_flags_bits(c);
    lemma_connect_body_parses(c);
}

/// The frame of a written Connect parses back to it.
proof fn lemma_connect_body_parses(c: ConnectV)
    requires
        connect_fits(c),
        connect_body(c).len() <= 268435455,
        0 <= connect_flags(c) < 256,
        ((connect_flags(c) as u8 / 2) % 2 == 1) == c.clean_session,
        ((connect_flags(c) as u8 / 4) % 2 == 1) == c.last_will is Some,
        c.last_will is None ==> (connect_flags(c) as u8 / 8) % 8 == 0,
        c.last_will matches Some(w) ==> (connect_flags(c) as u8 / 8) % 4 == (match w.qos {
            QoS::AtMostOnce => 0u8,
            QoS::AtLeastOnce => 1u8,
            QoS::ExactlyOnce => 2u8,
        }) && ((connect_flags(c) as u8 / 32) % 2 == 1) == w.retain,
        ((connect_flags(c) as u8 / 128) % 2 == 1) == (c.login matches Some(l) && l.username.len()
            > 0),
        ((connect_flags(c) as u8 / 64) % 2 == 1) == (c.login matches Some(l) && l.password.len()
            > 0),
    ensures
        crate::mqttbytes::v4::connect::spec_connect(
            spec_frame_header(0x10, connect_body(c)),
            spec_frame(0x10, connect_body(c)),
        ) == Ok::<ConnectV, Error>(c),
{
    let body = connect_body(c);
    let level = protocol_level(c.protocol);
    let h = spec_frame_header(0x10, body);
    let p0 = seq![0x10u8] + encode_length(body.len());
    lemma_connect_body_frame(c);
    lemma_connect_frame_parses(
        p0,
        level,
        connect_flags(c) as u8,
        c.keep_alive,
        c.client_id,
        c.last_will,
        c.login,
        h,
    );
    assert(c == ConnectV {
        protocol: if level == 4 {
            Protocol::V4
        } else {
            Protocol::V5
        },
        keep_alive: c.keep_alive,
        client_id: c.client_id,
        clean_session: (connect_flags(c) as u8 / 2) % 2 == 1,
        last_will: c.last_will,
        login: c.login,
    });
}

/// The wire value of a protocol level.
pub open spec fn protocol_level(p: Protocol) -> u8 {
    match p {
        Protocol::V4 => 4u8,
        Protocol::V5 => 5u8,
    }
}

/// A written Connect frame is its parts one after another.
proof fn lemma_connect_body_frame(c: ConnectV)
    requires
        connect_body(c).len() <= 268435455,
    ensures
        spec_frame_header(0x10, connect_body(c)).fixed_header_len == (seq![0x10u8]
            + encode_length(connect_body(c).len())).len(),
        spec_frame(0x10, connect_body(c)) == connect_frame_of(
            seq![0x10u8] + encode_length(connect_body(c).len()),
            protocol_level(c.protocol),
            connect_flags(c) as u8,
            c.keep_alive,
            c.client_id,
            c.last_will,
            c.login,
        ),
{
    let body = connect_body(c);
    lemma_encode_length_len(body.len());
    assert(spec_frame(0x10, body) =~= connect_frame_of(
        seq![0x10u8] + encode_length(body.len()),
        protocol_level(c.protocol),
        connect_flags(c) as u8,
        c.keep_alive,
        c.client_id,
        c.last_will,
        c.login,
    ));
}

/// The protocol name takes four bytes, six with its length.
proof fn lemma_mqtt_name_bytes()
    ensures
        encode_utf8(mqtt_name()).len() == 4,
        string_bytes(mqtt_name()).len() == 6,
{
    reveal_with_fuel(encode_utf8, 5);
}

/// A Connect frame put together from its parts.
pub open spec fn connect_frame_of(
    p0: Seq<u8>,
    level: u8,
    flags: u8,
    keep_alive: u16,
    client_id: Seq<char>,
    w: Option<LastWillV>,
    l: Option<LoginV>,
) -> Seq<u8> {
    p0 + string_bytes(mqtt_name()) + seq![level, flags] + u16_bytes(keep_alive) + string_bytes(
        client_id,
    ) + will_bytes(w) + login_bytes(l)
}

/// The protocol name, level and flags of a Connect frame read back.
proof fn lemma_connect_frame_head(
    p0: Seq<u8>,
    level: u8,
    flags: u8,
    keep_alive: u16,
    client_id: Seq<char>,
    w: Option<LastWillV>,
    l: Option<LoginV>,
)
    ensures
        crate::mqttbytes::spec_read_mqtt_string(
            connect_frame_of(p0, level, flags, keep_alive, client_id, w, l),
            p0.len() as int,
        ) == Ok::<(Seq<char>, int), Error>((mqtt_name(), p0.len() as int + 6)),
        crate::mqttbytes::spec_read_u8(
            connect_frame_of(p0, level, flags, keep_alive, client_id, w, l),
            p0.len() as int + 6,
        ) == Ok::<(u8, int), Error>((level, p0.len() as int + 7)),
        crate::mqttbytes::spec_read_u8(
            connect_frame_of(p0, level, flags, keep_alive, client_id, w, l),
            p0.len() as int + 7,
        ) == Ok::<(u8, int), Error>((flags, p0.len() as int + 8)),
{
    let s = connect_frame_of(p0, level, flags, keep_alive, client_id, w, l);
    lemma_mqtt_name_bytes();
    let after_name = seq![level, flags] + u16_bytes(keep_alive) + string_bytes(client_id)
        + will_bytes(w) + login_bytes(l);
    assert(s =~= p0 + u16_bytes(encode_utf8(mqtt_name()).len() as u16) + encode_utf8(mqtt_name())
        + after_name);
    lemma_read_mqtt_string_written(p0, mqtt_name(), after_name);
    assert(s[p0.len() as int + 6] == level);
    assert(s[p0.len() as int + 7] == flags);
}

/// The keep alive and client identifier of a Connect frame read back.
proof fn lemma_connect_frame_id(
    p0: Seq<u8>,
    level: u8,
    flags: u8,
    keep_alive: u16,
    client_id: Seq<char>,
    w: Option<LastWillV>,
    l: Option<LoginV>,
)
    requires
        encode_utf8(client_id).len() <= 65535,
    ensures
        crate::mqttbytes::spec_read_u16(
            connect_frame_of(p0, level, flags, keep_alive, client_id, w, l),
            p0.len() as int + 8,
        ) == Ok::<(u16, int), Error>((keep_alive, p0.len() as int + 10)),
        crate::mqttbytes::spec_read_mqtt_string(
            connect_frame_of(p0, level, flags, keep_alive, client_id, w, l),
            p0.len() as int + 10,
        ) == Ok::<(Seq<char>, int), Error>(
            (client_id, p0.len() as int + 10 + string_bytes(client_id).len() as int),
        ),
{
    let s = connect_frame_of(p0, level, flags, keep_alive, client_id, w, l);
    lemma_mqtt_name_bytes();
    let p3 = p0 + string_bytes(mqtt_name()) + seq![level, flags];
    let after_ka = string_bytes(client_id) + will_bytes(w) + login_bytes(l);
    assert(s =~= p3 + u16_bytes(keep_alive) + after_ka);
    lemma_read_u16_written(p3, keep_alive, after_ka);
    let p4 = p3 + u16_bytes(keep_alive);
    let wl = will_bytes(w) + login_bytes(l);
    assert(s =~= p4 + u16_bytes(encode_utf8(client_id).len() as u16) + encode_utf8(client_id)
        + wl);
    lemma_read_mqtt_string_written(p4, client_id, wl);
}

/// Every part of a Connect frame reads back.
proof fn lemma_connect_frame_parses(
    p0: Seq<u8>,
    level: u8,
    flags: u8,
    keep_alive: u16,
    client_id: Seq<char>,
    w: Option<LastWillV>,
    l: Option<LoginV>,
    h: FixedHeader,
)
    requires
        h.fixed_header_len == p0.len(),
        level == 4 || level == 5,
        encode_utf8(client_id).len() <= 65535,
        ((flags / 4) % 2 == 1) == w is Some,
        w is None ==> (flags / 8) % 8 == 0,
        w matches Some(w) ==> (flags / 8) % 4 == (match w.qos {
            QoS::AtMostOnce => 0u8,
            QoS::AtLeastOnce => 1u8,
            QoS::ExactlyOnce => 2u8,
        }) && ((flags / 32) % 2 == 1) == w.retain && encode_utf8(w.topic).len() <= 65535
            && w.message.len() <= 65535,
        ((flags / 128) % 2 == 1) == (l matches Some(l) && l.username.len() > 0),
        ((flags / 64) % 2 == 1) == (l matches Some(l) && l.password.len() > 0),
        l matches Some(l) ==> encode_utf8(l.username).len() <= 65535 && encode_utf8(
            l.password,
        ).len() <= 65535 && (l.username.len() > 0 || l.password.len() > 0),
    ensures
        crate::mqttbytes::v4::connect::spec_connect(
            h,
            connect_frame_of(p0, level, flags, keep_alive, client_id, w, l),
        ) == Ok::<ConnectV, Error>(
            ConnectV {
                protocol: if level == 4 {
                    Protocol::V4
                } else {
                    Protocol::V5
                },
                keep_alive,
                client_id,
                clean_session: (flags / 2) % 2 == 1,
                last_will: w,
                login: l,
            },
        ),
{
    let s = connect_frame_of(p0, level, flags, keep_alive, client_id, w, l);
    lemma_connect_frame_head(p0, level, flags, keep_alive, client_id, w, l);
    lemma_connect_frame_id(p0, level, flags, keep_alive, client_id, w, l);
    let p5 = p0 + string_bytes(mqtt_name()) + seq![level, flags] + u16_bytes(keep_alive)
        + string_bytes(client_id);
    lemma_mqtt_name_bytes();
    assert(p5.len() == p0.len() as int + 10 + string_bytes(client_id).len() as int);
    assert(s =~= p5 + will_bytes(w) + login_bytes(l));
    lemma_will_parses(w, flags, p5, login_bytes(l));
    let p6 = p5 + will_bytes(w);
    assert(s =~= p6 + login_bytes(l));
    lemma_login_parses(l, flags, p6);
}

/// The last will written at position `pre.len()` reads back.
proof fn lemma_will_parses(w: Option<LastWillV>, flags: u8, pre: Seq<u8>, post: Seq<u8>)
    requires
        ((flags / 4) % 2 == 1) == w is Some,
        w is None ==> (flags / 8) % 8 == 0,
        w matches Some(w) ==> (flags / 8) % 4 == (match w.qos {
            QoS::AtMostOnce => 0u8,
            QoS::AtLeastOnce => 1u8,
            QoS::ExactlyOnce => 2u8,
        }) && ((flags / 32) % 2 == 1) == w.retain && encode_utf8(w.topic).len() <= 65535
            && w.message.len() <= 65535,
    ensures
        crate::mqttbytes::v4::connect::spec_last_will(
            flags,
            pre + will_bytes(w) + post,
            pre.len() as int,
        ) == Ok::<(Option<LastWillV>, int), Error>((w, pre.len() as int + will_bytes(w).len() as int)),
{
    let s = pre + will_bytes(w) + post;
    match w {
        None => {
            assert(will_bytes(w).len() == 0);
        },
        Some(lw) => {
            let msg = u16_bytes(lw.message.len() as u16) + lw.message + post;
            assert(s =~= pre + u16_bytes(encode_utf8(lw.topic).len() as u16) + encode_utf8(lw.topic)
                + msg);
            lemma_read_mqtt_string_written(pre, lw.topic, msg);
            let mid = pre + string_bytes(lw.topic);
            assert(s =~= mid + u16_bytes(lw.message.len() as u16) + lw.message + post);
            lemma_read_mqtt_bytes_written(mid, lw.message, post);
            assert(LastWillV { topic: lw.topic, message: lw.message, qos: lw.qos, retain: lw.retain }
                == lw);
        },
    }
}

/// The login written at position `pre.len()` reads back.
#[verifier::spinoff_prover]
#[verifier::rlimit(40)]
proof fn lemma_login_parses(l: Option<LoginV>, flags: u8, pre: Seq<u8>)
    requires
        ((flags / 128) % 2 == 1) == (l matches Some(l) && l.username.len() > 0),
        ((flags / 64) % 2 == 1) == (l matches Some(l) && l.password.len() > 0),
        l matches Some(l) ==> encode_utf8(l.username).len() <= 65535 && encode_utf8(
            l.password,
        ).len() <= 65535 && (l.username.len() > 0 || l.password.len() > 0),
    ensures
        crate::mqttbytes::v4::connect::spec_login(flags, pre + login_bytes(l), pre.len() as int)
            == Ok::<Option<LoginV>, Error>(l),
{
    let s = pre + login_bytes(l);
    match l {
        None => {},
        Some(lg) => {
            let ub = if lg.username.len() > 0 {
                string_bytes(lg.username)
            } else {
                Seq::empty()
            };
            let pb = if lg.password.len() > 0 {
                string_bytes(lg.password)
            } else {
                Seq::empty()
            };
            assert(s =~= pre + ub + pb);
            if lg.username.len() > 0 {
                assert(s =~= pre + u16_bytes(encode_utf8(lg.username).len() as u16) + encode_utf8(
                    lg.username,
                ) + pb);
                lemma_read_mqtt_string_written(pre, lg.username, pb);
            } else {
                assert(lg.username =~= Seq::<char>::empty());
            }
            let mid = pre + ub;
            if lg.password.len() > 0 {
                assert(s =~= mid + u16_bytes(encode_utf8(lg.password).len() as u16) + encode_utf8(
                    lg.password,
                ) + Seq::<u8>::empty());
                lemma_read_mqtt_string_written(mid, lg.password, Seq::empty());
            } else {
                assert(lg.password =~= Seq::<char>::empty());
            }
            assert(LoginV { username: lg.username, password: lg.password } == lg);
        },
    }
}

// ---------------------------------------------------- Acknowledgements

/// A PubAck, PubRec, PubRel, PubComp or UnsubAck frame of remaining length
/// 2 reads as that acknowledgement of the packet identifier whose
/// big-endian bytes follow the fixed header; the four bytes are used up.
pub proof fn acks_read(hi: u8, lo: u8, rest: Seq<u8>, max_packet_size: usize)
    requires
        2 <= max_packet_size,
    ensures
        spec_mqtt_read(seq![0x40u8, 0x02u8, hi, lo] + rest, max_packet_size) == (
            Ok::<PacketV, Error>(PacketV::PubAck(PubAck { pkid: (hi as int * 256 + lo as int) as u16 })),
            4int,
        ),
        spec_mqtt_read(seq![0x50u8, 0x02u8, hi, lo] + rest, max_packet_size) == (
            Ok::<PacketV, Error>(PacketV::PubRec(PubRec { pkid: (hi as int * 256 + lo as int) as u16 })),
            4int,
        ),
        spec_mqtt_read(seq![0x62u8, 0x02u8, hi, lo] + rest, max_packet_size) == (
            Ok::<PacketV, Error>(PacketV::PubRel(PubRel { pkid: (hi as int * 256 + lo as int) as u16 })),
            4int,
        ),
        spec_mqtt_read(seq![0x70u8, 0x02u8, hi, lo] + rest, max_packet_size) == (
            Ok::<PacketV, Error>(PacketV::PubComp(PubComp { pkid: (hi as int * 256 + lo as int) as u16 })),
            4int,
        ),
        spec_mqtt_read(seq![0xb0u8, 0x02u8, hi, lo] + rest, max_packet_size) == (
            Ok::<PacketV, Error>(PacketV::UnsubAck(UnsubAck { pkid: (hi as int * 256 + lo as int) as u16 })),
            4int,
        ),
{
    lemma_ack_frame(0x40, PacketType::PubAck, hi, lo, rest, max_packet_size);
    lemma_ack_frame(0x50, PacketType::PubRec, hi, lo, rest, max_packet_size);
    lemma_ack_frame(0x62, PacketType::PubRel, hi, lo, rest, max_packet_size);
    lemma_ack_frame(0x70, PacketType::PubComp, hi, lo, rest, max_packet_size);
    lemma_ack_frame(0xb0, PacketType::UnsubAck, hi, lo, rest, max_packet_size);
}

/// A four-byte acknowledgement frame reads as its type's parse of the
/// frame, and the packet identifier in it reads back.
#[verifier::spinoff_prover]
proof fn lemma_ack_frame(
    byte1: u8,
    t: PacketType,
    hi: u8,
    lo: u8,
    rest: Seq<u8>,
    max_packet_size: usize,
)
    requires
        2 <= max_packet_size,
        spec_packet_type(byte1 / 16) == Ok::<PacketType, Error>(t),
        t == PacketType::PubAck || t == PacketType::PubRec || t == PacketType::PubRel || t
            == PacketType::PubComp || t == PacketType::UnsubAck,
    ensures
        spec_mqtt_read(seq![byte1, 0x02u8, hi, lo] + rest, max_packet_size) == (
            spec_assemble(t, spec_frame_header(byte1, seq![hi, lo]), seq![byte1, 0x02u8, hi, lo]),
            4int,
        ),
        crate::mqttbytes::v4::ack::spec_unsuback_pkid(
            spec_frame_header(byte1, seq![hi, lo]),
            seq![byte1, 0x02u8, hi, lo],
        ) == Ok::<u16, Error>((hi as int * 256 + lo as int) as u16),
        crate::mqttbytes::v4::ack::spec_pkid(
            spec_frame_header(byte1, seq![hi, lo]),
            seq![byte1, 0x02u8, hi, lo],
        ) == Ok::<u16, Error>((hi as int * 256 + lo as int) as u16),
{
    let body = seq![hi, lo];
    reveal_with_fuel(encode_length, 2);
    assert(seq![byte1, 0x02u8, hi, lo] =~= spec_frame(byte1, body));
    frame_reads(byte1, body, rest, max_packet_size, t);
}

/// Ping requests, ping responses and disconnects are two bytes long and
/// read as themselves.
pub proof fn pings_read(rest: Seq<u8>, max_packet_size: usize)
    ensures
        spec_mqtt_read(seq![0xc0u8, 0x00u8] + rest, max_packet_size) == (
            Ok::<PacketV, Error>(PacketV::PingReq),
            2int,
        ),
        spec_mqtt_read(seq![0xd0u8, 0x00u8] + rest, max_packet_size) == (
            Ok::<PacketV, Error>(PacketV::PingResp),
            2int,
        ),
        spec_mqtt_read(seq![0xe0u8, 0x00u8] + rest, max_packet_size) == (
            Ok::<PacketV, Error>(PacketV::Disconnect),
            2int,
        ),
{
    reveal_with_fuel(encode_length, 2);
    let s1 = seq![0xc0u8, 0x00u8] + rest;
    let s2 = seq![0xd0u8, 0x00u8] + rest;
    let s3 = seq![0xe0u8, 0x00u8] + rest;
    assert(s1.skip(1)[0] == 0 && s2.skip(1)[0] == 0 && s3.skip(1)[0] == 0);
}

// ------------------------------------------------------------ Unsubscribe

/// The topic filters of an Unsubscribe, one after another, each a
/// length-prefixed UTF-8 string.
pub open spec fn topics_bytes(ts: Seq<Seq<char>>) -> Seq<u8>
    decreases ts.len(),
{
    if ts.len() == 0 {
        Seq::empty()
    } else {
        string_bytes(ts[0]) + topics_bytes(ts.drop_first())
    }
}

/// The body of an Unsubscribe: the packet identifier, then the filters.
pub open spec fn unsubscribe_body(u: UnsubscribeV) -> Seq<u8> {
    u16_bytes(u.pkid) + topics_bytes(u.topics)
}

/// Topic filters that fit a length-prefixed string.
pub open spec fn topics_fit(ts: Seq<Seq<char>>) -> bool {
    forall|i: int| 0 <= i < ts.len() ==> encode_utf8(#[trigger] ts[i]).len() <= 65535
}

/// Reading the topics written from position `pre.len()` on gives them back.
#[verifier::spinoff_prover]
#[verifier::rlimit(40)]
proof fn lemma_topics_written(pre: Seq<u8>, ts: Seq<Seq<char>>)
    requires
        topics_fit(ts),
    ensures
        crate::mqttbytes::v4::unsubscribe::spec_topics(pre + topics_bytes(ts), pre.len() as int)
            == Ok::<Seq<Seq<char>>, Error>(ts),
    decreases ts.len(),
{
    let s = pre + topics_bytes(ts);
    if ts.len() == 0 {
        assert(ts =~= Seq::<Seq<char>>::empty());
    } else {
        let t = ts[0];
        let tail = ts.drop_first();
        assert(encode_utf8(t).len() <= 65535);
        assert(topics_fit(tail)) by {
            assert forall|i: int| 0 <= i < tail.len() implies encode_utf8(#[trigger] tail[i]).len()
                <= 65535 by {
                assert(tail[i] == ts[i + 1]);
            }
        }
        assert(s =~= pre + u16_bytes(encode_utf8(t).len() as u16) + encode_utf8(t) + topics_bytes(
            tail,
        ));
        lemma_read_mqtt_string_written(pre, t, topics_bytes(tail));
        let pre2 = pre + string_bytes(t);
        assert(s =~= pre2 + topics_bytes(tail));
        lemma_topics_written(pre2, tail);
        assert(ts =~= seq![t] + tail);
    }
}

/// The frame of a written Unsubscribe parses back to it.
proof fn lemma_unsubscribe_frame_parses(u: UnsubscribeV)
    requires
        topics_fit(u.topics),
        unsubscribe_body(u).len() <= 268435455,
    ensures
        crate::mqttbytes::v4::unsubscribe::spec_unsubscribe(
            spec_frame_header(0xa2, unsubscribe_body(u)),
            spec_frame(0xa2, unsubscribe_body(u)),
        ) == Ok::<UnsubscribeV, Error>(u),
{
    let body = unsubscribe_body(u);
    let h = spec_frame_header(0xa2, body);
    let pre = seq![0xa2u8] + encode_length(body.len());
    let f = spec_frame(0xa2, body);
    assert(h.fixed_header_len == pre.len()) by {
        lemma_encode_length_len(body.len());
    }
    assert(f =~= pre + u16_bytes(u.pkid) + topics_bytes(u.topics));
    lemma_read_u16_written(pre, u.pkid, topics_bytes(u.topics));
    let mid = pre + u16_bytes(u.pkid);
    assert(f =~= mid + topics_bytes(u.topics));
    lemma_topics_written(mid, u.topics);
}

/// Writing an Unsubscribe and reading it back gives the same packet
/// identifier and the same topic filters in order, and uses up exactly the
/// bytes written.
pub proof fn unsubscribe_write_read(u: UnsubscribeV, rest: Seq<u8>, max_packet_size: usize)
    requires
        topics_fit(u.topics),
        unsubscribe_body(u).len() <= max_packet_size,
        unsubscribe_body(u).len() <= 268435455,
    ensures
        spec_mqtt_read(spec_frame(0xa2, unsubscribe_body(u)) + rest, max_packet_size) == (
            Ok::<PacketV, Error>(PacketV::Unsubscribe(u)),
            spec_frame(0xa2, unsubscribe_body(u)).len() as int,
        ),
{
    frame_reads(0xa2, unsubscribe_body(u), rest, max_packet_size, PacketType::Unsubscribe);
    lemma_unsubscribe_frame_parses(u);
}

} // verus!
