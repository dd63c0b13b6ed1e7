//! The Publish packet: a message on a topic.

use crate::mqttbytes::buffer::{buffer_contents, buffer_extend};
use crate::mqttbytes::{
    encode_length, qos, qos_value, read_mqtt_string, read_u16, spec_qos, spec_read_mqtt_string,
    spec_read_u16, u16_bytes, Error, FixedHeader, QoS,
};
use bytes::BytesMut;
use vstd::prelude::*;
use vstd::utf8::*;

verus! {

/// A publication of `payload` on `topic`. `pkid` identifies the packet when
/// the quality of service is above "at most once".
#[derive(Debug, Clone, PartialEq, Eq)]
pub struct Publish {
    pub dup: bool,
    pub qos: QoS,
    pub retain: bool,
    pub topic: String,
    pub pkid: u16,
    pub payload: Vec<u8>,
}

/// What a `Publish` holds, as mathematical values.
pub struct PublishV {
    pub dup: bool,
    pub qos: QoS,
    pub retain: bool,
    pub topic: Seq<char>,
    pub pkid: u16,
    pub payload: Seq<u8>,
}

impl View for Publish {
    type V = PublishV;

    open spec fn view(&self) -> PublishV {
        PublishV {
            dup: self.dup,
            qos: self.qos,
            retain: self.retain,
            topic: self.topic@,
            pkid: self.pkid,
            payload: self.payload@,
        }
    }
}

/// The Publish packet in the frame `s`, whose fixed header is `h`. The flags
/// of the first byte give the quality of service, `dup` and `retain`; then
/// come the topic and, above "at most once", a non-zero packet identifier;
/// the rest of the frame is the payload.
pub open spec fn spec_publish(h: FixedHeader, s: Seq<u8>) -> Result<PublishV, Error> {
    match spec_qos((h.byte1 / 2) % 4) {
        Err(e) => Err(e),
        Ok(qos) => {
            let dup = (h.byte1 / 8) % 2 == 1;
            let retain = h.byte1 % 2 == 1;
            match spec_read_mqtt_string(s, h.fixed_header_len as int) {
                Err(e) => Err(e),
                Ok((topic, p1)) => if qos == QoS::AtMostOnce {
                    Ok(
                        PublishV {
                            dup,
                            qos,
                            retain,
                            topic,
                            pkid: 0,
                            payload: s.subrange(p1, s.len() as int),
                        },
                    )
                } else {
                    match spec_read_u16(s, p1) {
                        Err(e) => Err(e),
                        Ok((pkid, p2)) => if pkid == 0 {
                            Err(Error::PacketIdZero)
                        } else {
                            Ok(
                                PublishV {
                                    dup,
                                    qos,
                                    retain,
                                    topic,
                                    pkid,
                                    payload: s.subrange(p2, s.len() as int),
                                },
                            )
                        },
                    }
                },
            }
        },
    }
}

/// The remaining length that writing `p` announces: the topic with its
/// length prefix, the packet identifier when the quality of service is above
/// "at most once" and the identifier is not zero, and the payload.
pub open spec fn spec_publish_len(p: PublishV) -> int {
    2 + encode_utf8(p.topic).len() + (if p.qos != QoS::AtMostOnce && p.pkid != 0 {
        2int
    } else {
        0int
    }) + p.payload.len()
}

/// The first byte of a written Publish packet: type 3 and the flags.
pub open spec fn spec_publish_byte1(p: PublishV) -> u8 {
    (48 + (if p.retain {
        1int
    } else {
        0int
    }) + qos_value(p.qos) * 2 + (if p.dup {
        8int
    } else {
        0int
    })) as u8
}

/// What writing `p` appends to a buffer, and what it returns. Too long a
/// packet stops after the first byte; a zero packet identifier above "at
/// most once" stops after the topic. The topic's length prefix keeps the
/// low 16 bits of its length.
pub open spec fn spec_publish_write(p: PublishV) -> (Seq<u8>, Result<usize, Error>) {
    let len = spec_publish_len(p);
    let topic = encode_utf8(p.topic);
    if len > 268435455 {
        (seq![spec_publish_byte1(p)], Err(Error::PayloadTooLong))
    } else {
        let count = encode_length(len as nat).len();
        let head = seq![spec_publish_byte1(p)] + encode_length(len as nat) + u16_bytes(
            (topic.len() % 65536) as u16,
        ) + topic;
        if p.qos != QoS::AtMostOnce {
            if p.pkid == 0 {
                (head, Err(Error::PacketIdZero))
            } else {
                (head + u16_bytes(p.pkid) + p.payload, Ok((1 + count + len) as usize))
            }
        } else {
            (head + p.payload, Ok((1 + count + len) as usize))
        }
    }
}

/// At most how many bytes writing `p` appends.
pub open spec fn spec_publish_write_bound(p: PublishV) -> int {
    9 + encode_utf8(p.topic).len() as int + p.payload.len() as int
}

/// How many bytes the encoding of a remaining length takes.
pub proof fn lemma_encode_length_len(x: nat)
    ensures
        encode_length(x).len() == (if x < 128 {
            1int
        } else if x < 16384 {
            2int
        } else if x < 2097152 {
            3int
        } else if x < 268435456 {
            4int
        } else {
            encode_length(x).len() as int
        }),
        encode_length(x).len() >= 1,
{
    reveal_with_fuel(encode_length, 5);
}

/// Appends the remaining length `len` to `buffer`; a length above
/// 268435455 cannot be encoded and leaves the buffer as it was.
pub fn write_remaining_length(buffer: &mut BytesMut, len: usize) -> (r: Result<usize, Error>)
    requires
        buffer_contents(*old(buffer)).len() + 4 <= isize::MAX,
    ensures
        len > 268435455 ==> r == Err::<usize, Error>(Error::PayloadTooLong) && buffer_contents(
            *final(buffer),
        ) == buffer_contents(*old(buffer)),
        len <= 268435455 ==> r == Ok::<usize, Error>(encode_length(len as nat).len() as usize)
            && buffer_contents(*final(buffer)) == buffer_contents(*old(buffer)) + encode_length(
            len as nat,
        ),
{
    if len > 268435455 {
        return Err(Error::PayloadTooLong);
    }
    let mut bytes: Vec<u8> = Vec::new();
    let mut x: usize = len;
    loop
        invariant_except_break
            x <= len,
            bytes@ + encode_length(x as nat) == encode_length(len as nat),
        ensures
            bytes@ == encode_length(len as nat),
        decreases x,
    {
        let ghost old_bytes = bytes@;
        if x < 128 {
            bytes.push(x as u8);
            break;
        }
        bytes.push((x % 128 + 128) as u8);
        assert(bytes@ + encode_length((x / 128) as nat) =~= old_bytes + encode_length(x as nat));
        x = x / 128;
    }
    proof {
        lemma_encode_length_len(len as nat);
    }
    buffer_extend(buffer, bytes.as_slice());
    Ok(bytes.len())
}

impl Publish {
    /// A publication of `payload` on `topic`, with no flags and packet
    /// identifier 0.
    pub fn new(topic: String, qos: QoS, payload: Vec<u8>) -> (r: Publish)
        ensures
            r@ == (PublishV {
                dup: false,
                qos,
                retain: false,
                topic: topic@,
                pkid: 0,
                payload: payload@,
            }),
    {
        Publish { dup: false, qos, retain: false, topic, pkid: 0, payload }
    }

    /// Parses a Publish packet from its whole frame.
    pub fn assemble(fixed_header: FixedHeader, frame: &[u8]) -> (r: Result<Publish, Error>)
        requires
            fixed_header.fixed_header_len <= frame@.len(),
        ensures
            match r {
                Ok(p) => spec_publish(fixed_header, frame@) == Ok::<PublishV, Error>(p@),
                Err(e) => spec_publish(fixed_header, frame@) == Err::<PublishV, Error>(e),
            },
    {
        let qos = match qos((fixed_header.byte1 / 2) % 4) {
            Ok(q) => q,
            Err(e) => return Err(e),
        };
        let dup = (fixed_header.byte1 / 8) % 2 == 1;
        let retain = fixed_header.byte1 % 2 == 1;
        let (topic, p1) = match read_mqtt_string(frame, fixed_header.fixed_header_len) {
            Ok(v) => v,
            Err(e) => return Err(e),
        };
        let (pkid, p2) = match qos {
            QoS::AtMostOnce => (0u16, p1),
            QoS::AtLeastOnce | QoS::ExactlyOnce => match read_u16(frame, p1) {
                Ok(v) => v,
                Err(e) => return Err(e),
            },
        };
        if qos != QoS::AtMostOnce && pkid == 0 {
            return Err(Error::PacketIdZero);
        }
        let payload = vstd::slice::slice_to_vec(
            vstd::slice::slice_subrange(frame, p2, frame.len()),
        );
        Ok(Publish { dup, qos, retain, topic, pkid, payload })
    }

    /// The remaining length that writing this packet announces.
    pub fn len(&self) -> (r: usize)
        requires
            spec_publish_len(self@) <= usize::MAX,
        ensures
            r == spec_publish_len(self@),
    {
        let mut len: usize = 2 + self.topic.as_str().len();
        if self.qos != QoS::AtMostOnce && self.pkid != 0 {
            len = len + 2;
        }
        len + self.payload.len()
    }

    /// Appends this packet to `buffer` and gives the number of bytes of the
    /// packet.
    pub fn write(&self, buffer: &mut BytesMut) -> (r: Result<usize, Error>)
        requires
            buffer_contents(*old(buffer)).len() + spec_publish_write_bound(self@) <= isize::MAX,
        ensures
            buffer_contents(*final(buffer)) == buffer_contents(*old(buffer)) + spec_publish_write(
                self@,
            ).0,
            r == spec_publish_write(self@).1,
    {
        let topic = self.topic.as_str().as_bytes();
        let len = self.len();
        let dup: u8 = if self.dup {
            8
        } else {
            0
        };
        let retain: u8 = if self.retain {
            1
        } else {
            0
        };
        let mut first: Vec<u8> = Vec::new();
        first.push(48 + retain + self.qos.value() * 2 + dup);
        buffer_extend(buffer, first.as_slice());
        let count = match write_remaining_length(buffer, len) {
            Ok(c) => c,
            Err(e) => return Err(e),
        };
        proof {
            lemma_encode_length_len(len as nat);
        }
        let mut topic_len: Vec<u8> = Vec::new();
        let prefix: usize = topic.len() % 65536;
        topic_len.push((prefix / 256) as u8);
        topic_len.push((prefix % 256) as u8);
        buffer_extend(buffer, topic_len.as_slice());
        buffer_extend(buffer, topic);
        if self.qos != QoS::AtMostOnce {
            let pkid = self.pkid;
            if pkid == 0 {
                return Err(Error::PacketIdZero);
            }
            let mut id: Vec<u8> = Vec::new();
            id.push((pkid / 256) as u8);
            id.push((pkid % 256) as u8);
            buffer_extend(buffer, id.as_slice());
        }
        buffer_extend(buffer, self.payload.as_slice());
        Ok(1 + count + len)
    }
}

} // verus!
