use rumqtt_bytes::{
    Properties, Property, AuthReasonCode, ConnectReasonCode, ConnectReturnCode, DisconnectReasonCode, Error, PacketType,
    PropertyType, PubAckReasonCode, PubCompReasonCode, PubRecReasonCode, PubRelReasonCode, QoS,
    SubscribeReasonCode, UnsubscribeReasonCode,
};

#[test]
fn qos_codes() {
    assert_eq!(QoS::try_from(0u8).unwrap(), QoS::AtMostOnce);
    assert_eq!(QoS::try_from(2u8).unwrap(), QoS::ExactlyOnce);
    assert!(matches!(QoS::try_from(3u8), Err(Error::InvalidQoS(3))));
    assert_eq!(QoS::default(), QoS::AtMostOnce);
    assert!(QoS::AtMostOnce < QoS::ExactlyOnce);
}

#[test]
fn packet_type_codes() {
    assert_eq!(PacketType::try_from(1u8).unwrap(), PacketType::Connect);
    assert_eq!(PacketType::try_from(15u8).unwrap(), PacketType::Auth);
    assert!(matches!(PacketType::try_from(0u8), Err(Error::InvalidPacketType(0))));
    assert!(matches!(PacketType::try_from(16u8), Err(Error::InvalidPacketType(16))));
}

#[test]
fn every_code_reads_back() {
    for v in 0u8..=255 {
        if let Ok(c) = ConnectReasonCode::try_from(v) {
            assert_eq!(c.code(), v);
        }
        if let Ok(c) = ConnectReturnCode::try_from(v) {
            assert_eq!(c.code(), v);
        }
        if let Ok(c) = DisconnectReasonCode::try_from(v) {
            assert_eq!(c.code(), v);
        }
        if let Ok(c) = PubAckReasonCode::try_from(v) {
            assert_eq!(c.code(), v);
        }
        if let Ok(c) = PubRecReasonCode::try_from(v) {
            assert_eq!(c.code(), v);
        }
        if let Ok(c) = PubRelReasonCode::try_from(v) {
            assert_eq!(c.code(), v);
        }
        if let Ok(c) = PubCompReasonCode::try_from(v) {
            assert_eq!(c.code(), v);
        }
        if let Ok(c) = AuthReasonCode::try_from(v) {
            assert_eq!(c.code(), v);
        }
        if let Ok(c) = SubscribeReasonCode::try_from(v) {
            assert_eq!(u8::from(c), v);
        }
        if let Ok(c) = UnsubscribeReasonCode::try_from(v) {
            assert_eq!(c.code(), v);
        }
        if let Ok(t) = PropertyType::try_from(v) {
            assert_eq!(t.code(), v);
        }
    }
}

#[test]
fn reason_codes_of_particular_values() {
    assert_eq!(ConnectReasonCode::try_from(0x87).unwrap(), ConnectReasonCode::NotAuthorized);
    assert!(matches!(ConnectReasonCode::try_from(0x01), Err(Error::InvalidConnectReturnCode(1))));
    assert_eq!(SubscribeReasonCode::try_from(0x02).unwrap(), SubscribeReasonCode::Success(QoS::ExactlyOnce));
    assert_eq!(u8::from(SubscribeReasonCode::WildcardSubscriptionsNotSupported), 0xA2);
    assert!(matches!(SubscribeReasonCode::try_from(0x03), Err(Error::InvalidSubscribeReasonCode(3))));
    assert!(matches!(UnsubscribeReasonCode::try_from(0x01), Err(Error::InvalidSubscribeReasonCode(1))));
    assert!(matches!(PropertyType::try_from(0x04), Err(Error::InvalidPropertyType(4))));
}

#[test]
fn return_codes_are_reason_codes() {
    for c in [
        ConnectReturnCode::Success,
        ConnectReturnCode::RefusedProtocolVersion,
        ConnectReturnCode::BadClientId,
        ConnectReturnCode::ServiceUnavailable,
        ConnectReturnCode::BadUserNamePassword,
        ConnectReturnCode::NotAuthorized,
    ] {
        let reason = ConnectReasonCode::from(c);
        assert_eq!(ConnectReturnCode::try_from(reason).unwrap(), c);
    }
    assert_eq!(ConnectReasonCode::from(ConnectReturnCode::BadClientId), ConnectReasonCode::ClientIdentifierNotValid);
    assert!(matches!(ConnectReturnCode::try_from(ConnectReasonCode::Banned), Err(Error::InvalidConnectReturnCode(0x8A))));
}

#[test]
fn properties_iterate_in_order() {
    let mut props = Properties::new();
    assert!(props.is_empty());
    props.add(Property::ReceiveMaximum(3));
    props.add(Property::ReasonString("r".to_owned()));
    let by_ref: Vec<&Property> = (&props).into_iter().collect();
    assert_eq!(by_ref, vec![&Property::ReceiveMaximum(3), &Property::ReasonString("r".to_owned())]);
    assert_eq!(props.len().unwrap().value(), 3 + 4);
    assert_eq!(props[1], Property::ReasonString("r".to_owned()));
    let owned: Vec<Property> = props.into_iter().collect();
    assert_eq!(owned, vec![Property::ReceiveMaximum(3), Property::ReasonString("r".to_owned())]);
}
