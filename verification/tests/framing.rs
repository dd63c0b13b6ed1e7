use rumqttc::mqttbytes::{check, length, parse_fixed_header, qos, Error, FixedHeader, PacketType, QoS};

#[test]
fn remaining_length_one_byte() {
    assert_eq!(length(&[0x00]), Ok((1, 0)));
    assert_eq!(length(&[0x7f, 0x55]), Ok((1, 127)));
}

#[test]
fn remaining_length_several_bytes() {
    assert_eq!(length(&[0x80, 0x01]), Ok((2, 128)));
    assert_eq!(length(&[0xc1, 0x02]), Ok((2, 321)));
    assert_eq!(length(&[0xff, 0xff, 0x7f]), Ok((3, 2_097_151)));
    assert_eq!(length(&[0xff, 0xff, 0xff, 0x7f]), Ok((4, 268_435_455)));
}

#[test]
fn remaining_length_malformed() {
    assert_eq!(length(&[0x80, 0x80, 0x80, 0x80, 0x01]), Err(Error::MalformedRemainingLength));
}

#[test]
fn remaining_length_incomplete() {
    assert_eq!(length(&[]), Err(Error::InsufficientBytes(1)));
    assert_eq!(length(&[0x80, 0x80]), Err(Error::InsufficientBytes(1)));
}

#[test]
fn fixed_header_fields() {
    let h = parse_fixed_header(&[0x32, 0x80, 0x01]).unwrap();
    assert_eq!(h, FixedHeader { byte1: 0x32, fixed_header_len: 3, remaining_len: 128 });
    assert_eq!(h.packet_type(), Ok(PacketType::Publish));
    assert_eq!(h.frame_length(), 131);
}

#[test]
fn fixed_header_needs_two_bytes() {
    assert_eq!(parse_fixed_header(&[]), Err(Error::InsufficientBytes(2)));
    assert_eq!(parse_fixed_header(&[0x30]), Err(Error::InsufficientBytes(1)));
}

#[test]
fn packet_types_by_number() {
    let types = [
        PacketType::Connect,
        PacketType::ConnAck,
        PacketType::Publish,
        PacketType::PubAck,
        PacketType::PubRec,
        PacketType::PubRel,
        PacketType::PubComp,
        PacketType::Subscribe,
        PacketType::SubAck,
        PacketType::Unsubscribe,
        PacketType::UnsubAck,
        PacketType::PingReq,
        PacketType::PingResp,
        PacketType::Disconnect,
    ];
    for (i, t) in types.iter().enumerate() {
        let h = FixedHeader { byte1: ((i as u8) + 1) << 4, fixed_header_len: 2, remaining_len: 0 };
        assert_eq!(h.packet_type(), Ok(*t));
    }
    let h = FixedHeader { byte1: 0xf0, fixed_header_len: 2, remaining_len: 0 };
    assert_eq!(h.packet_type(), Err(Error::InvalidPacketType(15)));
    let h = FixedHeader { byte1: 0x0f, fixed_header_len: 2, remaining_len: 0 };
    assert_eq!(h.packet_type(), Err(Error::InvalidPacketType(0)));
}

#[test]
fn check_whole_packet() {
    let h = check(&[0x40, 0x02, 0x00, 0x01, 0xff], 10).unwrap();
    assert_eq!(h, FixedHeader { byte1: 0x40, fixed_header_len: 2, remaining_len: 2 });
}

#[test]
fn check_counts_missing_bytes() {
    assert_eq!(check(&[0x30, 0x05, 0x00, 0x01], 10), Err(Error::InsufficientBytes(3)));
}

#[test]
fn check_limits_packet_size() {
    assert_eq!(check(&[0x30, 0x0a], 5), Err(Error::PayloadSizeLimitExceeded(10)));
    assert!(check(&[0x30, 0x05, 1, 2, 3, 4, 5], 5).is_ok());
}

#[test]
fn qos_values() {
    assert_eq!(qos(0), Ok(QoS::AtMostOnce));
    assert_eq!(qos(1), Ok(QoS::AtLeastOnce));
    assert_eq!(qos(2), Ok(QoS::ExactlyOnce));
    assert_eq!(qos(3), Err(Error::InvalidQoS(3)));
    assert_eq!(QoS::ExactlyOnce.value(), 2);
}
