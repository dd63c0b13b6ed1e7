use bytes::BytesMut;
use rumqttc::mqttbytes::v4::ack::{PubAck, PubComp, PubRec, PubRel, UnsubAck};
use rumqttc::mqttbytes::v4::connack::{ConnAck, ConnectReturnCode};
use rumqttc::mqttbytes::v4::connect::{Connect, LastWill, Login};
use rumqttc::mqttbytes::v4::mqtt_read;
use rumqttc::mqttbytes::v4::publish::Publish;
use rumqttc::mqttbytes::v4::suback::{SubAck, SubscribeReasonCode};
use rumqttc::mqttbytes::v4::subscribe::{Subscribe, SubscribeFilter};
use rumqttc::mqttbytes::v4::unsubscribe::Unsubscribe;
use rumqttc::mqttbytes::v4::Packet;
use rumqttc::mqttbytes::{Error, Protocol, QoS};

fn stream(bytes: &[u8]) -> BytesMut {
    let mut s = BytesMut::new();
    s.extend_from_slice(bytes);
    s
}

#[test]
fn ping_and_disconnect_have_no_payload() {
    let mut s = stream(&[0xc0, 0x00, 0xd0, 0x00, 0xe0, 0x00]);
    assert_eq!(mqtt_read(&mut s, 100), Ok(Packet::PingReq));
    assert_eq!(mqtt_read(&mut s, 100), Ok(Packet::PingResp));
    assert_eq!(mqtt_read(&mut s, 100), Ok(Packet::Disconnect));
    assert!(s.is_empty());
}

#[test]
fn ping_with_payload_ignores_it() {
    let mut s = stream(&[0xc0, 0x01, 0x07]);
    assert_eq!(mqtt_read(&mut s, 100), Ok(Packet::PingReq));
    assert!(s.is_empty());
}

#[test]
fn empty_packet_of_other_type_is_refused() {
    let mut s = stream(&[0x40, 0x00, 0xc0, 0x00]);
    assert_eq!(mqtt_read(&mut s, 100), Err(Error::PayloadRequired));
    assert_eq!(&s[..], &[0xc0, 0x00]);
}

#[test]
fn invalid_packet_type_uses_up_the_frame() {
    let mut s = stream(&[0xf0, 0x01, 0x00, 0xc0, 0x00]);
    assert_eq!(mqtt_read(&mut s, 100), Err(Error::InvalidPacketType(15)));
    assert_eq!(&s[..], &[0xc0, 0x00]);
}

#[test]
fn incomplete_packet_leaves_the_stream() {
    let mut s = stream(&[0x30, 0x05, 0x00]);
    assert_eq!(mqtt_read(&mut s, 100), Err(Error::InsufficientBytes(4)));
    assert_eq!(&s[..], &[0x30, 0x05, 0x00]);
    let mut s = stream(&[0x30, 0x05, 0x00, 0x01, b'a', 1, 2]);
    assert_eq!(mqtt_read(&mut s, 2), Err(Error::PayloadSizeLimitExceeded(5)));
    assert_eq!(s.len(), 7);
}

#[test]
fn publish_acknowledgements() {
    let mut s = stream(&[
        0x40, 0x02, 0x00, 0x0a, 0x50, 0x02, 0x01, 0x00, 0x62, 0x02, 0x00, 0x03, 0x70, 0x03, 0x00,
        0x04, 0x00,
    ]);
    assert_eq!(mqtt_read(&mut s, 100), Ok(Packet::PubAck(PubAck::new(10))));
    assert_eq!(mqtt_read(&mut s, 100), Ok(Packet::PubRec(PubRec::new(256))));
    assert_eq!(mqtt_read(&mut s, 100), Ok(Packet::PubRel(PubRel::new(3))));
    assert_eq!(mqtt_read(&mut s, 100), Ok(Packet::PubComp(PubComp::new(4))));
    assert!(s.is_empty());
}

#[test]
fn acknowledgement_too_short() {
    let mut s = stream(&[0x40, 0x01, 0x00]);
    assert_eq!(mqtt_read(&mut s, 100), Err(Error::MalformedPacket));
    assert!(s.is_empty());
}

#[test]
fn unsuback_needs_exactly_a_packet_id() {
    let mut s = stream(&[0xb0, 0x02, 0x00, 0x05, 0xb0, 0x03, 0x00, 0x05, 0x00]);
    assert_eq!(mqtt_read(&mut s, 100), Ok(Packet::UnsubAck(UnsubAck::new(5))));
    assert_eq!(mqtt_read(&mut s, 100), Err(Error::PayloadSizeIncorrect));
}

#[test]
fn connack_fields() {
    let mut s = stream(&[0x20, 0x02, 0x01, 0x00, 0x20, 0x02, 0x00, 0x05, 0x20, 0x02, 0x00, 0x06]);
    assert_eq!(
        mqtt_read(&mut s, 100),
        Ok(Packet::ConnAck(ConnAck::new(ConnectReturnCode::Success, true)))
    );
    assert_eq!(
        mqtt_read(&mut s, 100),
        Ok(Packet::ConnAck(ConnAck::new(ConnectReturnCode::NotAuthorized, false)))
    );
    assert_eq!(mqtt_read(&mut s, 100), Err(Error::InvalidConnectReturnCode(6)));
}

#[test]
fn publish_at_least_once() {
    let mut s = stream(&[0x3b, 0x0a, 0x00, 0x03, b'a', b'/', b'b', 0x00, 0x0a, 1, 2, 3]);
    let packet = mqtt_read(&mut s, 100).unwrap();
    let mut expected = Publish::new("a/b".to_string(), QoS::AtLeastOnce, vec![1, 2, 3]);
    expected.pkid = 10;
    expected.dup = true;
    expected.retain = true;
    assert_eq!(packet, Packet::Publish(expected));
}

#[test]
fn publish_at_most_once_has_no_packet_id() {
    let mut s = stream(&[0x30, 0x07, 0x00, 0x03, b'a', b'/', b'b', 0x00, 0x0a]);
    let packet = mqtt_read(&mut s, 100).unwrap();
    let expected = Publish::new("a/b".to_string(), QoS::AtMostOnce, vec![0x00, 0x0a]);
    assert_eq!(packet, Packet::Publish(expected));
}

#[test]
fn publish_errors() {
    let mut s = stream(&[0x36, 0x05, 0x00, 0x01, b'a', 0x00, 0x01]);
    assert_eq!(mqtt_read(&mut s, 100), Err(Error::InvalidQoS(3)));
    let mut s = stream(&[0x32, 0x05, 0x00, 0x01, b'a', 0x00, 0x00]);
    assert_eq!(mqtt_read(&mut s, 100), Err(Error::PacketIdZero));
    let mut s = stream(&[0x30, 0x03, 0x00, 0x01, 0xff]);
    assert_eq!(mqtt_read(&mut s, 100), Err(Error::TopicNotUtf8));
    let mut s = stream(&[0x30, 0x03, 0x00, 0x05, b'a']);
    assert_eq!(mqtt_read(&mut s, 100), Err(Error::BoundaryCrossed(5)));
    let mut s = stream(&[0x32, 0x04, 0x00, 0x01, b'a', 0x00]);
    assert_eq!(mqtt_read(&mut s, 100), Err(Error::MalformedPacket));
}

#[test]
fn publish_utf8_topic() {
    let mut s = stream(&[0x30, 0x05, 0x00, 0x03, 0xc3, 0xa9, b'x']);
    let packet = mqtt_read(&mut s, 100).unwrap();
    let expected = Publish::new("éx".to_string(), QoS::AtMostOnce, vec![]);
    assert_eq!(packet, Packet::Publish(expected));
}

#[test]
fn subscribe_filters() {
    let mut s = stream(&[
        0x82, 0x0c, 0x00, 0x01, 0x00, 0x03, b'a', b'/', b'b', 0x01, 0x00, 0x01, b'c', 0x06,
    ]);
    let expected = Subscribe {
        pkid: 1,
        filters: vec![
            SubscribeFilter::new("a/b".to_string(), QoS::AtLeastOnce),
            SubscribeFilter::new("c".to_string(), QoS::ExactlyOnce),
        ],
    };
    assert_eq!(mqtt_read(&mut s, 100), Ok(Packet::Subscribe(expected)));
}

#[test]
fn subscribe_errors() {
    let mut s = stream(&[0x82, 0x02, 0x00, 0x01]);
    assert_eq!(mqtt_read(&mut s, 100), Err(Error::EmptySubscription));
    let mut s = stream(&[0x82, 0x06, 0x00, 0x01, 0x00, 0x01, b'a', 0x03]);
    assert_eq!(mqtt_read(&mut s, 100), Err(Error::InvalidQoS(3)));
    let mut s = stream(&[0x82, 0x05, 0x00, 0x01, 0x00, 0x01, b'a']);
    assert_eq!(mqtt_read(&mut s, 100), Err(Error::MalformedPacket));
}

#[test]
fn suback_codes() {
    let mut s = stream(&[0x90, 0x06, 0x00, 0x01, 0x00, 0x01, 0x02, 0x80]);
    let expected = SubAck::new(
        1,
        vec![
            SubscribeReasonCode::Success(QoS::AtMostOnce),
            SubscribeReasonCode::Success(QoS::AtLeastOnce),
            SubscribeReasonCode::Success(QoS::ExactlyOnce),
            SubscribeReasonCode::Failure,
        ],
    );
    assert_eq!(mqtt_read(&mut s, 100), Ok(Packet::SubAck(expected)));
}

#[test]
fn suback_errors() {
    let mut s = stream(&[0x90, 0x02, 0x00, 0x01]);
    assert_eq!(mqtt_read(&mut s, 100), Err(Error::MalformedPacket));
    let mut s = stream(&[0x90, 0x03, 0x00, 0x01, 0x03]);
    assert_eq!(mqtt_read(&mut s, 100), Err(Error::InvalidSubscribeReasonCode(3)));
}

#[test]
fn unsubscribe_topics() {
    let mut s = stream(&[0xa2, 0x09, 0x00, 0x07, 0x00, 0x01, b'a', 0x00, 0x02, b'b', b'c']);
    let expected = Unsubscribe { pkid: 7, topics: vec!["a".to_string(), "bc".to_string()] };
    assert_eq!(mqtt_read(&mut s, 100), Ok(Packet::Unsubscribe(expected)));
    let mut s = stream(&[0xa2, 0x02, 0x00, 0x07]);
    let expected = Unsubscribe { pkid: 7, topics: vec![] };
    assert_eq!(mqtt_read(&mut s, 100), Ok(Packet::Unsubscribe(expected)));
}

fn connect_frame(name: &[u8], level: u8, flags: u8, rest: &[u8]) -> Vec<u8> {
    let mut body = vec![0x00, name.len() as u8];
    body.extend_from_slice(name);
    body.push(level);
    body.push(flags);
    body.extend_from_slice(&[0x00, 0x3c]);
    body.extend_from_slice(rest);
    let mut frame = vec![0x10, body.len() as u8];
    frame.extend_from_slice(&body);
    frame
}

#[test]
fn connect_plain() {
    let frame = connect_frame(b"MQTT", 4, 0x02, &[0x00, 0x02, b'i', b'd']);
    let mut s = stream(&frame);
    let mut expected = Connect::new("id".to_string());
    expected.keep_alive = 60;
    assert_eq!(mqtt_read(&mut s, 100), Ok(Packet::Connect(expected)));
}

#[test]
fn connect_with_will_and_login() {
    let rest = [
        0x00, 0x02, b'i', b'd', 0x00, 0x01, b'w', 0x00, 0x02, 9, 8, 0x00, 0x01, b'u', 0x00, 0x01,
        b'p',
    ];
    let frame = connect_frame(b"MQTT", 5, 0b1111_0100, &rest);
    let mut s = stream(&frame);
    let expected = Connect {
        protocol: Protocol::V5,
        keep_alive: 60,
        client_id: "id".to_string(),
        clean_session: false,
        last_will: Some(LastWill {
            topic: "w".to_string(),
            message: vec![9, 8],
            qos: QoS::ExactlyOnce,
            retain: true,
        }),
        login: Some(Login { username: "u".to_string(), password: "p".to_string() }),
    };
    assert_eq!(mqtt_read(&mut s, 100), Ok(Packet::Connect(expected)));
}

#[test]
fn connect_empty_login_is_none() {
    let frame = connect_frame(b"MQTT", 4, 0b1100_0000, &[0x00, 0x00, 0x00, 0x00, 0x00, 0x00]);
    let mut s = stream(&frame);
    let mut expected = Connect::new(String::new());
    expected.keep_alive = 60;
    expected.clean_session = false;
    assert_eq!(mqtt_read(&mut s, 100), Ok(Packet::Connect(expected)));
}

#[test]
fn connect_errors() {
    let frame = connect_frame(b"MQTX", 4, 0x02, &[0x00, 0x00]);
    assert_eq!(mqtt_read(&mut stream(&frame), 100), Err(Error::InvalidProtocol));
    let frame = connect_frame(b"MQTT", 3, 0x02, &[0x00, 0x00]);
    assert_eq!(mqtt_read(&mut stream(&frame), 100), Err(Error::InvalidProtocolLevel(3)));
    let frame = connect_frame(b"MQTT", 4, 0x08, &[0x00, 0x00]);
    assert_eq!(mqtt_read(&mut stream(&frame), 100), Err(Error::IncorrectPacketFormat));
    let frame = connect_frame(b"MQTT", 4, 0x1c, &[0x00, 0x00, 0x00, 0x00, 0x00, 0x00]);
    assert_eq!(mqtt_read(&mut stream(&frame), 100), Err(Error::InvalidQoS(3)));
}
