use rumqttc::benchmark::generate_data;
use rumqttc::connection::{next_item, Polled};
use rumqttc::mqttbytes::v4::ack::{PubAck, PubRec};
use rumqttc::mqttbytes::v4::publish::Publish;
use rumqttc::mqttbytes::v4::subscribe::{Subscribe, SubscribeFilter};
use rumqttc::mqttbytes::v4::unsubscribe::Unsubscribe;
use rumqttc::mqttbytes::{Error, QoS};
use rumqttc::quic::first_non_empty;
use rumqttc::v4::{get_ack_req, Request};
use rumqttc::v5;

#[test]
fn ack_requests_follow_qos() {
    let mut p = Publish::new("t".to_string(), QoS::AtMostOnce, vec![]);
    p.pkid = 9;
    assert_eq!(get_ack_req(&p), None);
    p.qos = QoS::AtLeastOnce;
    assert_eq!(get_ack_req(&p), Some(Request::PubAck(PubAck::new(9))));
    p.qos = QoS::ExactlyOnce;
    assert_eq!(get_ack_req(&p), Some(Request::PubRec(PubRec::new(9))));
}

#[test]
fn v5_ack_requests_follow_qos() {
    assert_eq!(v5::get_ack_req(QoS::AtMostOnce, 3), None);
    assert_eq!(
        v5::get_ack_req(QoS::AtLeastOnce, 3),
        Some(v5::Request::PubAck(v5::PubAck { pkid: 3, reason: v5::PubAckReason::Success }))
    );
    assert_eq!(
        v5::get_ack_req(QoS::ExactlyOnce, 4),
        Some(v5::Request::PubRec(v5::PubRec { pkid: 4, reason: v5::PubRecReason::Success }))
    );
}

#[test]
fn publish_request_sets_retain() {
    let r = Request::publish("a/b".to_string(), QoS::AtLeastOnce, true, vec![1, 2]);
    let mut expected = Publish::new("a/b".to_string(), QoS::AtLeastOnce, vec![1, 2]);
    expected.retain = true;
    assert_eq!(r, Request::Publish(expected));
}

#[test]
fn subscribe_requests() {
    assert_eq!(
        Request::subscribe("a".to_string(), QoS::ExactlyOnce),
        Request::Subscribe(Subscribe {
            pkid: 0,
            filters: vec![SubscribeFilter::new("a".to_string(), QoS::ExactlyOnce)],
        })
    );
    let filters = vec![
        SubscribeFilter::new("a".to_string(), QoS::AtMostOnce),
        SubscribeFilter::new("b".to_string(), QoS::AtLeastOnce),
    ];
    assert_eq!(
        Request::subscribe_many(filters.clone()),
        Ok(Request::Subscribe(Subscribe { pkid: 0, filters }))
    );
    assert_eq!(Request::subscribe_many(vec![]), Err(Error::EmptySubscription));
}

#[test]
fn unsubscribe_request() {
    assert_eq!(
        Request::unsubscribe("x".to_string()),
        Request::Unsubscribe(Unsubscribe { pkid: 0, topics: vec!["x".to_string()] })
    );
}

#[test]
fn connection_iteration_stops_on_end_and_cancel() {
    assert_eq!(next_item::<u8, String>(Polled::Event(3)), Some(Ok(3)));
    assert_eq!(next_item::<u8, String>(Polled::RequestsDone), None);
    assert_eq!(next_item::<u8, String>(Polled::Cancel), None);
    assert_eq!(next_item::<u8, String>(Polled::Failed("io".to_string())), Some(Err("io".to_string())));
}

#[test]
fn vectored_write_takes_first_non_empty() {
    let a: &[u8] = &[];
    let b: &[u8] = &[1, 2];
    let c: &[u8] = &[3];
    assert_eq!(first_non_empty(&[a, b, c]), Some(1));
    assert_eq!(first_non_empty(&[a, a]), None);
    assert_eq!(first_non_empty(&[]), None);
}

#[test]
fn benchmark_data() {
    let data = generate_data(3, 4);
    assert_eq!(data.len(), 3);
    for (i, p) in data.iter().enumerate() {
        let mut expected = Publish::new("hello/world".to_string(), QoS::AtLeastOnce, vec![1; 4]);
        expected.pkid = (i + 1) as u16;
        assert_eq!(*p, expected);
    }
    let data = generate_data(201, 0);
    assert_eq!(data[99].pkid, 100);
    assert_eq!(data[100].pkid, 1);
    assert_eq!(data[200].pkid, 1);
}

#[test]
fn benchmark_data_roundtrips() {
    let data = generate_data(10, 1024);
    let mut b = bytes::BytesMut::new();
    for p in data.iter() {
        p.write(&mut b).unwrap();
    }
    for p in data {
        assert_eq!(rumqttc::mqttbytes::v4::mqtt_read(&mut b, 10 * 1024), Ok(rumqttc::mqttbytes::v4::Packet::Publish(p)));
    }
    assert!(b.is_empty());
}
