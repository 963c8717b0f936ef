use bytes::{Bytes, BytesMut};
use rumqtt_bytes::{
    Auth, AuthReasonCode, ConnAck, ConnectReasonCode, Connect, Disconnect, DisconnectReasonCode, Filter,
    LastWill, Login, Packet, PingReq, PingResp, Properties, Property, PropertyType, Protocol, PubAck, PubAckReasonCode,
    PubComp, PubRec, PubRecReasonCode, PubRel, Publish, QoS, RetainForwardRule, SubAck, Subscribe,
    SubscribeReasonCode, UnsubAck, Unsubscribe, UnsubscribeReasonCode, VarInt, V4, V5,
};

const TRAILER: [u8; 3] = [0xDE, 0xAD, 0xBE];

fn roundtrip_v4(packet: Packet) {
    let mut buf = BytesMut::new();
    let n = V4::write(packet.clone(), &mut buf, 1 << 20).unwrap();
    assert_eq!(n, buf.len());
    buf.extend_from_slice(&TRAILER);
    let back = V4::read(&mut buf, 1 << 20).unwrap();
    assert_eq!(back, packet);
    assert_eq!(&buf[..], &TRAILER);
}

fn roundtrip_v5(packet: Packet) {
    let mut buf = BytesMut::new();
    let n = V5::write(packet.clone(), &mut buf, 1 << 20).unwrap();
    assert_eq!(n, buf.len());
    buf.extend_from_slice(&TRAILER);
    let back = V5::read(&mut buf, 1 << 20).unwrap();
    assert_eq!(back, packet);
    assert_eq!(&buf[..], &TRAILER);
}

fn full_connect(will: LastWill) -> Connect {
    let mut c = Connect::new(30, true, "client-1");
    c.last_will = Some(Box::new(will));
    c.set_login("user", "secret");
    c
}

#[test]
fn v4_connect_with_will_and_login_reads_back() {
    let will = LastWill::new("will/topic", vec![1, 2, 3], QoS::ExactlyOnce, true);
    roundtrip_v4(Packet::Connect(full_connect(will)));
    roundtrip_v4(Packet::Connect(Connect::new(0, false, "")));
}

#[test]
fn v4_connect_bytes_have_their_flags() {
    let will = LastWill::new("w", vec![9], QoS::AtLeastOnce, false);
    let mut buf = BytesMut::new();
    V4::write(Packet::Connect(full_connect(will)), &mut buf, 1024).unwrap();
    // control field, remaining length, protocol name, level, flags
    assert_eq!(&buf[..10], &[0x10, 40, 0x00, 0x04, b'M', b'Q', b'T', b'T', 0x04, 0b1100_1110]);
}

#[test]
fn connect_written_after_other_bytes_only_appends() {
    let mut c = Connect::new(10, true, "id");
    c.set_login("u", "");
    let mut alone = BytesMut::new();
    V4::write(Packet::Connect(c.clone()), &mut alone, 1024).unwrap();
    assert_eq!(alone[9], 0b1000_0010);
    // after two other bytes, those bytes stay and the packet follows them,
    // its connect flags whole
    let mut buf = BytesMut::from(&[0xAA, 0xBB][..]);
    let n = V4::write(Packet::Connect(c.clone()), &mut buf, 1024).unwrap();
    assert_eq!(n, alone.len());
    assert_eq!(&buf[..2], &[0xAA, 0xBB]);
    assert_eq!(&buf[2..], &alone[..]);
    assert_eq!(buf[11], 0b1000_0010);
    // the same in MQTT 5.0
    let mut alone5 = BytesMut::new();
    V5::write(Packet::Connect(c.clone()), &mut alone5, 1024).unwrap();
    let mut buf5 = BytesMut::from(&[0xAA, 0xBB, 0xCC][..]);
    V5::write(Packet::Connect(c.clone()), &mut buf5, 1024).unwrap();
    assert_eq!(&buf5[..3], &[0xAA, 0xBB, 0xCC]);
    assert_eq!(&buf5[3..], &alone5[..]);
    // and it reads back from behind them
    let _ = buf.split_to(2);
    assert_eq!(V4::read(&mut buf, 1024).unwrap(), Packet::Connect(c));
}

#[test]
fn v5_connect_with_properties_will_and_login_reads_back() {
    let mut will = LastWill::new_v5("will/topic", vec![7; 20], QoS::AtLeastOnce, false);
    will.properties.add(Property::WillDelayInterval(60));
    will.properties.add(Property::ContentType("text/plain".to_owned()));
    let mut c = full_connect(will);
    c.properties.add(Property::SessionExpiryInterval(3600));
    c.properties.add(Property::ReceiveMaximum(10));
    roundtrip_v5(Packet::Connect(c));
}

#[test]
fn connack_reads_back() {
    roundtrip_v4(Packet::ConnAck(ConnAck::new(true)));
    roundtrip_v4(Packet::ConnAck(ConnAck {
        session_present: false,
        code: ConnectReasonCode::NotAuthorized,
        properties: Properties::new(),
    }));
    let mut c = ConnAck::new(false);
    c.properties.add(Property::AssignedClientIdentifier("abc".to_owned()));
    c.properties.add(Property::MaximumQos(1));
    roundtrip_v5(Packet::ConnAck(c));
}

#[test]
fn publish_reads_back() {
    for qos in [QoS::AtMostOnce, QoS::AtLeastOnce, QoS::ExactlyOnce] {
        let mut p = Publish::new("a/b/c", qos, vec![0, 1, 2, 255]);
        if qos != QoS::AtMostOnce {
            p.pkid = 42;
        }
        p.retain = true;
        p.dup = qos == QoS::ExactlyOnce;
        roundtrip_v4(Packet::Publish(p.clone()));
        p.properties.add(Property::MessageExpiryInterval(5));
        p.properties.add(Property::SubscriptionIdentifier(VarInt::new(300).unwrap()));
        p.properties.add(Property::CorrelationData(Bytes::from_static(b"corr")));
        roundtrip_v5(Packet::Publish(p));
    }
}

#[test]
fn acknowledgements_read_back() {
    roundtrip_v4(Packet::PubAck(PubAck::new(1)));
    roundtrip_v4(Packet::PubRec(PubRec::new(2)));
    roundtrip_v4(Packet::PubRel(PubRel::new(3)));
    roundtrip_v4(Packet::PubComp(PubComp::new(4)));
    roundtrip_v5(Packet::PubAck(PubAck::new(1)));
    roundtrip_v5(Packet::PubAck(PubAck {
        pkid: 5,
        reason: PubAckReasonCode::QuotaExceeded,
        properties: Properties::new(),
    }));
    roundtrip_v5(Packet::PubRec(PubRec {
        pkid: 6,
        reason: PubRecReasonCode::NoMatchingSubscribers,
        properties: Properties::from_vec(vec![Property::ReasonString("none".to_owned())]),
    }));
    roundtrip_v5(Packet::PubRel(PubRel::new(7)));
    roundtrip_v5(Packet::PubComp(PubComp::new(8)));
}

#[test]
fn subscriptions_read_back() {
    let mut s = Subscribe::new_many(
        vec![Filter::new("a/+".to_owned(), QoS::AtLeastOnce), Filter::new("#".to_owned(), QoS::ExactlyOnce)],
        None,
    );
    s.pkid = 9;
    roundtrip_v4(Packet::Subscribe(s.clone()));
    s.filters[0].nolocal = true;
    s.filters[0].preserve_retain = true;
    s.filters[1].retain_forward_rule = RetainForwardRule::Never;
    s.properties.add(Property::SubscriptionIdentifier(VarInt::new(17).unwrap()));
    roundtrip_v5(Packet::Subscribe(s));

    let codes = vec![SubscribeReasonCode::Success(QoS::AtMostOnce), SubscribeReasonCode::NotAuthorized];
    roundtrip_v4(Packet::SubAck(SubAck::new(9, codes.clone())));
    roundtrip_v5(Packet::SubAck(SubAck::new(9, codes)));

    let mut u = Unsubscribe::new_many(vec!["a/b".to_owned(), "c".to_owned()], None);
    u.pkid = 11;
    roundtrip_v4(Packet::Unsubscribe(u.clone()));
    roundtrip_v5(Packet::Unsubscribe(u));

    roundtrip_v4(Packet::UnsubAck(UnsubAck::new(12)));
    let mut ua = UnsubAck::new(12);
    ua.reason_codes = vec![UnsubscribeReasonCode::Success, UnsubscribeReasonCode::NoSubscriptionExisted];
    roundtrip_v5(Packet::UnsubAck(ua));
}

#[test]
fn pings_disconnects_and_auth_read_back() {
    roundtrip_v4(Packet::PingReq(PingReq));
    roundtrip_v4(Packet::PingResp(PingResp));
    roundtrip_v4(Packet::Disconnect(Disconnect::new()));
    roundtrip_v5(Packet::PingReq(PingReq));
    roundtrip_v5(Packet::PingResp(PingResp));
    roundtrip_v5(Packet::Disconnect(Disconnect::new()));
    roundtrip_v5(Packet::Disconnect(Disconnect {
        reason_code: DisconnectReasonCode::ServerBusy,
        properties: Properties::new(),
    }));
    roundtrip_v5(Packet::Auth(Auth::new(AuthReasonCode::Continue)));
    let mut a = Auth::new(AuthReasonCode::Success);
    a.properties.add(Property::AuthenticationMethod("SCRAM".to_owned()));
    a.properties.add(Property::AuthenticationData(Bytes::from_static(&[1, 2, 3])));
    roundtrip_v5(Packet::Auth(a));
}

#[test]
fn ping_and_disconnect_have_the_smallest_frames() {
    let mut buf = BytesMut::new();
    assert_eq!(V4::write(Packet::PingReq(PingReq), &mut buf, 2).unwrap(), 2);
    assert_eq!(V4::write(Packet::PingResp(PingResp), &mut buf, 2).unwrap(), 2);
    assert_eq!(V4::write(Packet::Disconnect(Disconnect::new()), &mut buf, 2).unwrap(), 2);
    assert_eq!(&buf[..], &[0xC0, 0x00, 0xD0, 0x00, 0xE0, 0x00]);
}

#[test]
fn login_of_empty_credentials_reads_as_none() {
    let mut c = Connect::new(1, false, "x");
    c.login = Some(Box::new(Login::new("", "")));
    let mut buf = BytesMut::new();
    V4::write(Packet::Connect(c), &mut buf, 1024).unwrap();
    match V4::read(&mut buf, 1024).unwrap() {
        Packet::Connect(back) => assert!(back.login.is_none()),
        other => panic!("{other:?}"),
    }
}

#[test]
fn reading_takes_one_frame_at_a_time() {
    let mut buf = BytesMut::new();
    V5::write(Packet::PubAck(PubAck::new(1)), &mut buf, 100).unwrap();
    V5::write(Packet::PingReq(PingReq), &mut buf, 100).unwrap();
    assert_eq!(V5::read(&mut buf, 100).unwrap(), Packet::PubAck(PubAck::new(1)));
    assert_eq!(V5::read(&mut buf, 100).unwrap(), Packet::PingReq(PingReq));
    assert!(buf.is_empty());
}

#[test]
fn size_counts_a_subscription_identifier_by_its_length() {
    // 0 in two bytes, as a reader may have received it
    let id = VarInt::read(&[0x80, 0x00]).unwrap();
    assert_eq!(id.length(), 2);
    let mut p = Publish::new("t", QoS::AtMostOnce, vec![]);
    p.properties.add(Property::SubscriptionIdentifier(id));
    let mut buf = BytesMut::new();
    let n = V5::write(Packet::Publish(p), &mut buf, 1024).unwrap();
    // the identifier is written in its shortest form, one byte fewer than counted
    assert_eq!(n, buf.len() + 1);
}

#[test]
fn property_value_lengths() {
    let user = Property::UserProperty { name: "test".to_owned(), value: "test".to_owned() };
    assert_eq!(user.len(), 12);
    assert_eq!(Property::PayloadFormatIndicator(1).len(), 1);
    assert_eq!(Property::ReceiveMaximum(10).len(), 2);
    assert_eq!(Property::SessionExpiryInterval(3600).len(), 4);
    assert_eq!(Property::ContentType("abc".to_owned()).len(), 5);
    assert_eq!(Property::CorrelationData(Bytes::from_static(b"xy")).len(), 4);
    assert_eq!(Property::SubscriptionIdentifier(VarInt::new(300).unwrap()).len(), 2);
    // the bytes written for a property are its identifier, then that many
    let mut props = Properties::new();
    props.add(user);
    let mut buf = BytesMut::new();
    props.write(&mut buf).unwrap();
    assert_eq!(buf.len(), 1 + 1 + 12);
}

#[test]
fn properties_read_takes_only_allowed_types_and_some_input() {
    let mut props = Properties::new();
    props.add(Property::ReceiveMaximum(10));
    props.add(Property::ContentType("json".to_owned()));
    let mut buf = BytesMut::new();
    props.write(&mut buf).unwrap();
    buf.extend_from_slice(&TRAILER);
    let allow = [PropertyType::ReceiveMaximum, PropertyType::ContentType];
    let mut stream = buf.clone().freeze();
    let back = Properties::read(&mut stream, &allow).unwrap();
    assert_eq!(back, props);
    assert_eq!(&stream[..], &TRAILER);
    // an empty list still reads its declared length
    let mut empty = Bytes::from_static(&[0x00, 0xAB]);
    assert_eq!(Properties::read(&mut empty, &allow).unwrap(), Properties::new());
    assert_eq!(&empty[..], &[0xAB]);
    // a type the list does not allow is refused
    let mut stream = buf.freeze();
    assert!(Properties::read(&mut stream, &[PropertyType::ReceiveMaximum]).is_err());
}

#[test]
fn filters_written_one_after_another_read_back() {
    let mut a = Filter::new("a/+/c".to_owned(), QoS::AtLeastOnce);
    a.nolocal = true;
    a.retain_forward_rule = RetainForwardRule::Never;
    let mut b = Filter::new("#".to_owned(), QoS::ExactlyOnce);
    b.preserve_retain = true;
    b.retain_forward_rule = RetainForwardRule::OnNewSubscribe;
    let c = Filter::new(String::new(), QoS::AtMostOnce);
    assert_eq!(a.len(), 2 + 5 + 1);
    assert_eq!(c.len(), 3);
    let filters = vec![a, b, c];
    let mut buf = BytesMut::new();
    for f in &filters {
        f.write(&mut buf);
    }
    let mut bytes = buf.freeze();
    assert_eq!(Filter::read(&mut bytes).unwrap(), filters);
    assert!(bytes.is_empty());
}

#[test]
fn writes_append_the_same_bytes_whatever_the_buffer_held() {
    let mut p = Publish::new("t/1", QoS::AtLeastOnce, vec![5, 6, 7]);
    p.pkid = 7;
    let packets = vec![
        Packet::Publish(p),
        Packet::PingReq(PingReq),
        Packet::Disconnect(Disconnect::new()),
        Packet::Subscribe(Subscribe::new(Filter::new("a/#".to_owned(), QoS::AtMostOnce), None)),
    ];
    for packet in packets {
        for v5 in [false, true] {
            let write = |buf: &mut BytesMut| {
                if v5 {
                    V5::write(packet.clone(), buf, 1024)
                } else {
                    V4::write(packet.clone(), buf, 1024)
                }
            };
            let mut alone = BytesMut::new();
            let n = write(&mut alone).unwrap();
            assert_eq!(n, alone.len());
            let mut buf = BytesMut::from(&b"xyz"[..]);
            assert_eq!(write(&mut buf).unwrap(), n);
            assert_eq!(&buf[..3], b"xyz");
            assert_eq!(&buf[3..], &alone[..]);
        }
    }
    let mut ping = BytesMut::new();
    assert_eq!(V4::write(Packet::PingReq(PingReq), &mut ping, 2).unwrap(), 2);
    assert_eq!(&ping[..], &[0xC0, 0x00]);
}
