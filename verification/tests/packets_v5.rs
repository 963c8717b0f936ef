use bytes::BytesMut;
use rumqtt_bytes::packet::{
    connack, connect, disconnect, puback, pubcomp, publish, suback, subscribe, unsuback, unsubscribe,
};
use rumqtt_bytes::{
    size_from_len, ConnAck, ConnectReasonCode, Connect, Disconnect, DisconnectReasonCode, Error, Filter,
    Packet, Properties, Property, Protocol, PubAck, PubAckReasonCode, PubComp, PubCompReasonCode, Publish,
    QoS, SubAck, Subscribe, SubscribeReasonCode, UnsubAck, Unsubscribe, UnsubscribeReasonCode, VarInt, V5,
};

const USER_PROP_KEY: &str = "property";
const USER_PROP_VAL: &str = "a value thats really long............................................................................................................";

fn user_property() -> Property {
    Property::UserProperty { name: USER_PROP_KEY.into(), value: USER_PROP_VAL.into() }
}

#[test]
fn outgoing_max_packet_size_check() {
    let mut buf = BytesMut::new();

    let mut small_publish = Publish::new("hello/world", QoS::AtLeastOnce, vec![1; 100]);
    small_publish.pkid = 1;
    V5::write(Packet::Publish(small_publish), &mut buf, 200).unwrap();

    let large_publish = Publish::new("hello/world", QoS::AtLeastOnce, vec![1; 265]);
    match V5::write(Packet::Publish(large_publish), &mut buf, 200) {
        Err(Error::OutgoingPacketTooLarge { pkt_size: 282, max: 200 }) => {}
        _ => unreachable!(),
    }
}

#[test]
fn length_calculation() {
    let mut dummy_bytes = BytesMut::new();
    // Use user_properties to pad the size to exceed ~128 bytes to make the
    // remaining_length field in the packet be 2 bytes long.
    let connack_pkt = ConnAck {
        session_present: false,
        code: ConnectReasonCode::Success,
        properties: Properties::from_vec(vec![user_property()]),
    };

    let size_from_size = size_from_len(connack::v5::len(&connack_pkt).unwrap());
    let size_from_write = connack::v5::write(&connack_pkt, &mut dummy_bytes).unwrap();
    let size_from_bytes = dummy_bytes.len();

    assert_eq!(size_from_write, size_from_bytes);
    assert_eq!(size_from_size, size_from_bytes);
}

#[test]
fn v5_length_calculation() {
    let mut dummy_bytes = BytesMut::new();
    let connect_pkt = Connect {
        keep_alive: 5,
        client_id: "client".into(),
        clean_start: true,
        properties: Properties::from_vec(vec![user_property()]),
        last_will: None,
        login: None,
    };

    let size_from_size = size_from_len(connect::v5::len(&connect_pkt).unwrap());
    let size_from_write = connect::v5::write(&connect_pkt, &mut dummy_bytes).unwrap();
    let size_from_bytes = dummy_bytes.len();

    assert_eq!(size_from_write, size_from_bytes);
    assert_eq!(size_from_size, size_from_bytes);
}

#[test]
fn disconnect1_parsing_works() {
    let mut buffer = bytes::BytesMut::new();
    let packet_bytes = [
        0xE0, // Packet type
        0x00, // Remaining length
    ];
    let expected = Packet::Disconnect(Disconnect::new());

    buffer.extend_from_slice(&packet_bytes[..]);
    let packet = V5::read(&mut buffer, 128).unwrap();

    assert_eq!(packet, expected);
}

#[test]
fn disconnect1_encoding_works() {
    let mut buffer = BytesMut::new();
    let disconnect = Disconnect::new();
    let expected = [
        0xE0, // Packet type
        0x00, // Remaining length
    ];

    disconnect::v5::write(&disconnect, &mut buffer).unwrap();

    assert_eq!(&buffer[..], &expected);
}

fn sample2() -> Disconnect {
    let properties = Properties::from_vec(vec![
        Property::SessionExpiryInterval(1234),
        Property::ReasonString("test".to_owned()),
        Property::UserProperty { name: "test".to_owned(), value: "test".to_owned() },
        Property::ServerReference("test".to_owned()),
    ]);

    Disconnect { reason_code: DisconnectReasonCode::UnspecifiedError, properties }
}

fn sample_bytes2() -> Vec<u8> {
    vec![
        0xE0, // Packet type
        0x22, // Remaining length
        0x80, // Disconnect Reason Code
        0x20, // Properties length
        0x11, 0x00, 0x00, 0x04, 0xd2, // Session expiry interval
        0x1F, 0x00, 0x04, 0x74, 0x65, 0x73, 0x74, // Reason string
        0x26, 0x00, 0x04, 0x74, 0x65, 0x73, 0x74, 0x00, 0x04, 0x74, 0x65, 0x73,
        0x74, // User properties
        0x1C, 0x00, 0x04, 0x74, 0x65, 0x73, 0x74, // server reference
    ]
}

#[test]
fn disconnect2_parsing_works() {
    let mut buffer = bytes::BytesMut::new();
    let packet_bytes = sample_bytes2();
    let expected = Packet::Disconnect(sample2());

    buffer.extend_from_slice(&packet_bytes[..]);
    let disconnect = V5::read(&mut buffer, 128).unwrap();

    assert_eq!(disconnect, expected);
}

#[test]
fn disconnect2_encoding_works() {
    let mut buffer = BytesMut::new();

    let disconnect = sample2();
    let expected = sample_bytes2();

    disconnect::v5::write(&disconnect, &mut buffer).unwrap();

    assert_eq!(&buffer[..], &expected);
}

#[test]
fn disconnect_v5_length_calculation() {
    let mut dummy_bytes = BytesMut::new();
    let mut disconn_pkt = Disconnect::new();
    disconn_pkt.properties = Properties::from_vec(vec![user_property()]);

    let size_from_size = size_from_len(disconnect::v5::len(&disconn_pkt).unwrap());
    let size_from_write = disconnect::v5::write(&disconn_pkt, &mut dummy_bytes).unwrap();
    let size_from_bytes = dummy_bytes.len();

    assert_eq!(size_from_write, size_from_bytes);
    assert_eq!(size_from_size, size_from_bytes);
}

#[test]
fn puback_v5_length_calculation() {
    let mut dummy_bytes = BytesMut::new();
    let puback_pkt = PubAck {
        pkid: 1,
        reason: PubAckReasonCode::Success,
        properties: Properties::from_vec(vec![user_property()]),
    };

    let size_from_size = size_from_len(puback::v5::len(&puback_pkt).unwrap());
    let size_from_write = puback::v5::write(&puback_pkt, &mut dummy_bytes).unwrap();
    let size_from_bytes = dummy_bytes.len();

    assert_eq!(size_from_write, size_from_bytes);
    assert_eq!(size_from_size, size_from_bytes);
}

#[test]
fn pubcomp_v5_length_calculation() {
    let mut dummy_bytes = BytesMut::new();
    let pubcomp_pkt = PubComp {
        pkid: 1,
        reason: PubCompReasonCode::Success,
        properties: Properties::from_vec(vec![user_property()]),
    };

    let size_from_size = size_from_len(pubcomp::v5::len(&pubcomp_pkt).unwrap());
    let size_from_write = pubcomp::v5::write(&pubcomp_pkt, &mut dummy_bytes).unwrap();
    let size_from_bytes = dummy_bytes.len();

    assert_eq!(size_from_write, size_from_bytes);
    assert_eq!(size_from_size, size_from_bytes);
}

#[test]
fn publish_v5_length_calculation() {
    let mut dummy_bytes = BytesMut::new();
    let publish_props = Properties::from_vec(vec![
        user_property(),
        Property::SubscriptionIdentifier(VarInt::new(1).unwrap()),
    ]);

    let mut publish_pkt = Publish::new("hello/world", QoS::AtMostOnce, vec![1; 10]);
    publish_pkt.properties = publish_props;

    let size_from_size = size_from_len(publish::v5::len(&publish_pkt).unwrap());
    let size_from_write = publish::v5::write(&publish_pkt, &mut dummy_bytes).unwrap();
    let size_from_bytes = dummy_bytes.len();

    assert_eq!(size_from_write, size_from_bytes);
    assert_eq!(size_from_size, size_from_bytes);
}

#[test]
fn suback_v5_length_calculation() {
    let mut dummy_bytes = BytesMut::new();
    let suback_pkt = SubAck {
        pkid: 1,
        reason_codes: vec![SubscribeReasonCode::Success(QoS::ExactlyOnce)],
        properties: Properties::from_vec(vec![user_property()]),
    };

    let size_from_size = size_from_len(suback::v5::len(&suback_pkt).unwrap());
    let size_from_write = suback::v5::write(&suback_pkt, &mut dummy_bytes).unwrap();
    let size_from_bytes = dummy_bytes.len();

    assert_eq!(size_from_write, size_from_bytes);
    assert_eq!(size_from_size, size_from_bytes);
}

#[test]
fn subscribe_v5_length_calculation() {
    let mut dummy_bytes = BytesMut::new();
    let subscribe_pkt = Subscribe::new(
        Filter::new("hello/world".to_owned(), QoS::AtMostOnce),
        Some(Properties::from_vec(vec![user_property()])),
    );

    let size_from_size = size_from_len(subscribe::v5::len(&subscribe_pkt).unwrap());
    let size_from_write = subscribe::v5::write(&subscribe_pkt, &mut dummy_bytes).unwrap();
    let size_from_bytes = dummy_bytes.len();

    assert_eq!(size_from_write, size_from_bytes);
    assert_eq!(size_from_size, size_from_bytes);
}

#[test]
fn unsuback_v5_length_calculation() {
    let mut dummy_bytes = BytesMut::new();
    let unsuback_pkt = UnsubAck {
        pkid: 1,
        reason_codes: vec![UnsubscribeReasonCode::Success],
        properties: Properties::from_vec(vec![user_property()]),
    };

    let size_from_size = size_from_len(unsuback::v5::len(&unsuback_pkt).unwrap());
    let size_from_write = unsuback::v5::write(&unsuback_pkt, &mut dummy_bytes).unwrap();
    let size_from_bytes = dummy_bytes.len();

    assert_eq!(size_from_write, size_from_bytes);
    assert_eq!(size_from_size, size_from_bytes);
}

#[test]
fn unsubscribe_v5_length_calculation() {
    let mut dummy_bytes = BytesMut::new();
    let unsubscribe_pkt = Unsubscribe {
        pkid: 1,
        filters: vec!["hello/world".into()],
        properties: Properties::from_vec(vec![user_property()]),
    };

    let size_from_size = size_from_len(unsubscribe::v5::len(&unsubscribe_pkt).unwrap());
    let size_from_write = unsubscribe::v5::write(&unsubscribe_pkt, &mut dummy_bytes).unwrap();
    let size_from_bytes = dummy_bytes.len();

    assert_eq!(size_from_write, size_from_bytes);
    assert_eq!(size_from_size, size_from_bytes);
}
