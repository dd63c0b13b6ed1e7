use bytes::BytesMut;
use rumqttc::mqttbytes::v4::mqtt_read;
use rumqttc::mqttbytes::v4::publish::{write_remaining_length, Publish};
use rumqttc::mqttbytes::v4::Packet;
use rumqttc::mqttbytes::{Error, QoS};

#[test]
fn remaining_length_encoding() {
    let mut b = BytesMut::new();
    assert_eq!(write_remaining_length(&mut b, 0), Ok(1));
    assert_eq!(write_remaining_length(&mut b, 321), Ok(2));
    assert_eq!(write_remaining_length(&mut b, 268_435_455), Ok(4));
    assert_eq!(&b[..], &[0x00, 0xc1, 0x02, 0xff, 0xff, 0xff, 0x7f]);
    assert_eq!(write_remaining_length(&mut b, 268_435_456), Err(Error::PayloadTooLong));
    assert_eq!(b.len(), 7);
}

#[test]
fn publish_write_bytes() {
    let mut p = Publish::new("hello/world".to_string(), QoS::AtLeastOnce, vec![1, 2, 3]);
    p.pkid = 7;
    let mut b = BytesMut::new();
    assert_eq!(p.len(), 18);
    assert_eq!(p.write(&mut b), Ok(20));
    let mut expected = vec![0x32, 18, 0x00, 11];
    expected.extend_from_slice(b"hello/world");
    expected.extend_from_slice(&[0x00, 0x07, 1, 2, 3]);
    assert_eq!(&b[..], &expected[..]);
}

#[test]
fn publish_write_flags() {
    let mut p = Publish::new("t".to_string(), QoS::AtMostOnce, vec![]);
    p.dup = true;
    p.retain = true;
    let mut b = BytesMut::new();
    assert_eq!(p.write(&mut b), Ok(5));
    assert_eq!(&b[..], &[0x39, 0x03, 0x00, 0x01, b't']);
}

#[test]
fn publish_write_zero_packet_id() {
    let p = Publish::new("t".to_string(), QoS::ExactlyOnce, vec![5]);
    let mut b = BytesMut::new();
    assert_eq!(p.write(&mut b), Err(Error::PacketIdZero));
    assert_eq!(&b[..], &[0x34, 0x04, 0x00, 0x01, b't']);
}

#[test]
fn publish_write_too_long() {
    let p = Publish::new("t".to_string(), QoS::AtMostOnce, vec![0; 268_435_455]);
    let mut b = BytesMut::new();
    assert_eq!(p.write(&mut b), Err(Error::PayloadTooLong));
    assert_eq!(&b[..], &[0x30]);
}

#[test]
fn publish_write_read_roundtrip() {
    let mut p = Publish::new("a/b/c".to_string(), QoS::ExactlyOnce, vec![9; 300]);
    p.pkid = 4242;
    p.retain = true;
    let mut b = BytesMut::new();
    let n = p.write(&mut b).unwrap();
    assert_eq!(n, b.len());
    b.extend_from_slice(&[0xc0, 0x00]);
    assert_eq!(mqtt_read(&mut b, 1000), Ok(Packet::Publish(p)));
    assert_eq!(&b[..], &[0xc0, 0x00]);
}

#[test]
fn publish_stream_roundtrip() {
    let mut written = Vec::new();
    let mut b = BytesMut::new();
    for i in 0..5u16 {
        let qos = if i % 2 == 0 { QoS::AtMostOnce } else { QoS::AtLeastOnce };
        let mut p = Publish::new(format!("topic/{}", i), qos, vec![i as u8; i as usize]);
        if qos != QoS::AtMostOnce {
            p.pkid = i;
        }
        p.write(&mut b).unwrap();
        written.push(p);
    }
    for p in written {
        assert_eq!(mqtt_read(&mut b, 100), Ok(Packet::Publish(p)));
    }
    assert!(b.is_empty());
}

#[test]
fn roundtrip_fails_for_packet_id_at_most_once() {
    let mut p = Publish::new("t".to_string(), QoS::AtMostOnce, vec![1]);
    p.pkid = 3;
    let mut b = BytesMut::new();
    p.write(&mut b).unwrap();
    let read = mqtt_read(&mut b, 100).unwrap();
    p.pkid = 0;
    assert_eq!(read, Packet::Publish(p));
}
