use bytes::BytesMut;
use rumqtt_bytes::packet::{connack, publish};
use rumqtt_bytes::{
    ConnAck, ConnectReasonCode, Error, FixedHeader, Packet, Properties, Protocol, Publish, QoS, V4, V5,
};

fn read_v4(bytes: &[u8]) -> Result<Packet, Error> {
    let mut buf = BytesMut::from(bytes);
    V4::read(&mut buf, 1024)
}

fn read_v5(bytes: &[u8]) -> Result<Packet, Error> {
    let mut buf = BytesMut::from(bytes);
    V5::read(&mut buf, 1024)
}

#[test]
fn empty_stream_asks_for_two_bytes() {
    assert!(matches!(read_v4(&[]), Err(Error::InsufficientBytes(2))));
}

#[test]
fn partial_frame_asks_for_the_rest_and_keeps_the_stream() {
    let mut buf = BytesMut::from(&[0x40, 0x02, 0x00][..]);
    assert!(matches!(V4::read(&mut buf, 1024), Err(Error::InsufficientBytes(1))));
    assert_eq!(&buf[..], &[0x40, 0x02, 0x00]);
}

#[test]
fn remaining_length_of_five_bytes_is_malformed() {
    assert!(matches!(read_v4(&[0x30, 0x80, 0x80, 0x80, 0x80, 0x01]), Err(Error::MalformedRemainingLength)));
}

#[test]
fn frame_over_the_limit_is_refused_before_it_is_complete() {
    let mut buf = BytesMut::from(&[0x30, 0x80, 0x01][..]);
    assert!(matches!(
        V4::read(&mut buf, 100),
        Err(Error::PayloadSizeLimitExceeded { pkt_size: 128, max: 100 })
    ));
    assert_eq!(buf.len(), 3);
}

#[test]
fn unknown_packet_type_is_refused() {
    assert!(matches!(read_v4(&[0x00, 0x00]), Err(Error::InvalidPacketType(0))));
    assert!(matches!(read_v4(&[0xF0, 0x01, 0x00]), Err(Error::InvalidPacketType(15))));
}

#[test]
fn packet_without_payload_where_one_is_needed() {
    assert!(matches!(read_v4(&[0x20, 0x00]), Err(Error::PayloadRequired)));
    assert!(matches!(read_v5(&[0xF0, 0x00]), Err(Error::PayloadRequired)));
}

#[test]
fn invalid_connect_return_code() {
    assert!(matches!(read_v4(&[0x20, 0x02, 0x00, 0x06]), Err(Error::InvalidConnectReturnCode(6))));
}

#[test]
fn connack_v4_refuses_a_reason_without_return_code() {
    let packet = ConnAck { session_present: true, code: ConnectReasonCode::Banned, properties: Properties::new() };
    let mut buf = BytesMut::new();
    assert!(matches!(connack::v4::write(&packet, &mut buf), Err(Error::InvalidConnectReturnCode(_))));
    assert_eq!(&buf[..], &[0x20, 0x02, 0x01]);
}

#[test]
fn connect_with_wrong_protocol_name_or_level() {
    let bad_name = [0x10, 0x0C, 0x00, 0x04, b'M', b'Q', b'T', b'X', 0x04, 0x02, 0x00, 0x0A, 0x00, 0x00];
    assert!(matches!(read_v4(&bad_name), Err(Error::InvalidProtocol)));
    assert!(matches!(read_v5(&bad_name), Err(Error::InvalidProtocol)));
    let bad_level = [0x10, 0x0C, 0x00, 0x04, b'M', b'Q', b'T', b'T', 0x03, 0x02, 0x00, 0x0A, 0x00, 0x00];
    assert!(matches!(read_v4(&bad_level), Err(Error::InvalidProtocolLevel(3))));
    assert!(matches!(read_v5(&bad_level), Err(Error::InvalidProtocolLevel(3))));
}

#[test]
fn connect_with_will_bits_but_no_will_flag() {
    let bytes = [0x10, 0x0C, 0x00, 0x04, b'M', b'Q', b'T', b'T', 0x04, 0b0000_1010, 0x00, 0x0A, 0x00, 0x00];
    assert!(matches!(read_v4(&bytes), Err(Error::IncorrectPacketFormat)));
}

#[test]
fn will_with_qos_three_is_refused() {
    let bytes = [
        0x10, 0x12, 0x00, 0x04, b'M', b'Q', b'T', b'T', 0x04, 0b0001_1110, 0x00, 0x0A, 0x00, 0x00, 0x00, 0x01,
        b'w', 0x00, 0x01, 0x07,
    ];
    assert!(matches!(read_v4(&bytes), Err(Error::InvalidQoS(3))));
}

#[test]
fn publish_with_qos_three_is_refused() {
    assert!(matches!(read_v4(&[0x36, 0x03, 0x00, 0x01, b'a']), Err(Error::InvalidQoS(3))));
}

#[test]
fn publish_without_packet_identifier() {
    assert!(matches!(read_v4(&[0x32, 0x05, 0x00, 0x01, b'a', 0x00, 0x00]), Err(Error::PacketIdZero)));
    let p = Publish::new("a", QoS::AtLeastOnce, vec![1]);
    let mut buf = BytesMut::new();
    assert!(matches!(publish::v4::write(&p, &mut buf), Err(Error::PacketIdZero)));
    assert_eq!(&buf[..], &[0x32, 0x04, 0x00, 0x01, b'a']);
}

#[test]
fn topic_that_is_not_utf8() {
    assert!(matches!(read_v4(&[0x30, 0x03, 0x00, 0x01, 0xFF]), Err(Error::Utf8Encoding(_))));
}

#[test]
fn string_longer_than_its_packet() {
    assert!(matches!(read_v4(&[0x30, 0x03, 0x00, 0x05, b'a']), Err(Error::BoundaryCrossed(5))));
}

#[test]
fn subscribe_without_filters() {
    assert!(matches!(read_v4(&[0x82, 0x02, 0x00, 0x01]), Err(Error::EmptySubscription)));
}

#[test]
fn subscribe_with_retain_forward_rule_three() {
    let bytes = [0x82, 0x07, 0x00, 0x01, 0x00, 0x00, 0x01, b'a', 0x30];
    assert!(matches!(read_v5(&bytes), Err(Error::InvalidRetainForwardRule(3))));
}

#[test]
fn suback_with_unknown_code() {
    assert!(matches!(read_v4(&[0x90, 0x03, 0x00, 0x01, 0x03]), Err(Error::InvalidSubscribeReasonCode(3))));
    assert!(matches!(read_v4(&[0x90, 0x02, 0x00, 0x01]), Err(Error::MalformedPacket)));
}

#[test]
fn unsuback_v4_of_wrong_size() {
    assert!(matches!(read_v4(&[0xB0, 0x03, 0x00, 0x01, 0x00]), Err(Error::PayloadSizeIncorrect)));
}

#[test]
fn disconnect_v4_with_flags_is_malformed() {
    assert!(matches!(read_v4(&[0xE1, 0x00]), Err(Error::MalformedPacket)));
}

#[test]
fn property_not_allowed_in_the_packet() {
    // a PubAck with a reason code and a Session Expiry Interval property
    let bytes = [0x40, 0x09, 0x00, 0x01, 0x00, 0x05, 0x11, 0x00, 0x00, 0x00, 0x01];
    assert!(matches!(read_v5(&bytes), Err(Error::InvalidPropertyType(0x11))));
    let unknown = [0x40, 0x06, 0x00, 0x01, 0x00, 0x02, 0x55, 0x00];
    assert!(matches!(read_v5(&unknown), Err(Error::InvalidPropertyType(0x55))));
}

#[test]
fn auth_is_no_packet_of_mqtt_3() {
    let mut buf = BytesMut::new();
    let packet = Packet::Auth(rumqtt_bytes::Auth::new(rumqtt_bytes::AuthReasonCode::Success));
    assert!(matches!(V4::write(packet, &mut buf, 1024), Err(Error::InvalidPacketType(15))));
    assert!(buf.is_empty());
}

#[test]
fn fixed_header_of_a_frame() {
    let stream = [0x32, 0x81, 0x01, 0x00];
    match FixedHeader::check(&stream, 1024) {
        Err(Error::InsufficientBytes(n)) => assert_eq!(n, 1 + 2 + 129 - 4),
        other => panic!("{other:?}"),
    }
    let mut long = vec![0x32, 0x81, 0x01];
    long.extend(std::iter::repeat(0).take(129));
    let h = FixedHeader::check(&long, 1024).unwrap();
    assert_eq!(h.flags(), 2);
    assert_eq!(h.size(), 3);
    assert_eq!(h.packet_size(), 132);
    assert_eq!(h.packet_type().unwrap(), rumqtt_bytes::PacketType::Publish);
}
