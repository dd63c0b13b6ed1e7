//! The data of the parser benchmark: many Publish packets to write and read
//! back.

use crate::mqttbytes::v4::publish::{spec_publish_len, Publish, PublishV};
use crate::mqttbytes::v4::publish_roundtrips;
use crate::mqttbytes::QoS;
use vstd::prelude::*;
use vstd::utf8::*;

verus! {

/// The topic that every benchmark packet is published on.
pub open spec fn bench_topic() -> Seq<char> {
    seq!['h', 'e', 'l', 'l', 'o', '/', 'w', 'o', 'r', 'l', 'd']
}

/// The `i`-th benchmark packet: `payload_size` bytes of value 1 on
/// "hello/world" at "at least once", with packet identifier `i % 100 + 1`.
pub open spec fn bench_publish(i: int, payload_size: usize) -> PublishV {
    PublishV {
        dup: false,
        qos: QoS::AtLeastOnce,
        retain: false,
        topic: bench_topic(),
        pkid: (i % 100 + 1) as u16,
        payload: Seq::new(payload_size as nat, |j: int| 1u8),
    }
}

/// `count` Publish packets of `payload_size` bytes each.
pub fn generate_data(count: usize, payload_size: usize) -> (r: Vec<Publish>)
    ensures
        r@.len() == count,
        forall|i: int| 0 <= i < count ==> #[trigger] r@[i]@ == bench_publish(i, payload_size),
{
    let mut data: Vec<Publish> = Vec::with_capacity(count);
    for i in 0..count
        invariant
            data@.len() == i,
            forall|j: int| 0 <= j < i ==> #[trigger] data@[j]@ == bench_publish(j, payload_size),
    {
        let mut payload: Vec<u8> = Vec::with_capacity(payload_size);
        for k in 0..payload_size
            invariant
                payload@ == Seq::new(k as nat, |j: int| 1u8),
        {
            payload.push(1);
            assert(payload@ =~= Seq::new((k + 1) as nat, |j: int| 1u8));
        }
        let topic = "hello/world".to_owned();
        proof {
            reveal_strlit("hello/world");
            assert(topic@ =~= bench_topic());
        }
        let mut publish = Publish::new(topic, QoS::AtLeastOnce, payload);
        publish.pkid = (i % 100 + 1) as u16;
        data.push(publish);
    }
    data
}

/// Every benchmark packet writes and reads back unchanged when the reader
/// accepts its 15 + `payload_size` bytes after the fixed header.
pub proof fn bench_packets_roundtrip(i: int, payload_size: usize, max_packet_size: usize)
    requires
        0 <= i,
        15 + payload_size <= max_packet_size,
        15 + payload_size <= 268435455,
    ensures
        publish_roundtrips(bench_publish(i, payload_size), max_packet_size),
        spec_publish_len(bench_publish(i, payload_size)) == 15 + payload_size,
{
    assert(is_ascii_chars(bench_topic()));
    is_ascii_chars_encode_utf8(bench_topic());
}

} // verus!
