use bytes::{Bytes, BytesMut};
use rumqtt_bytes::packet::{publish, subscribe};
use rumqtt_bytes::{
    Filter, Packet, Properties, Protocol, PubAck, PubAckReasonCode, Publish, QoS, SubAck, Subscribe,
    SubscribeReasonCode, V4,
};

#[test]
fn puback_encoding_works() {
    let stream = &[
        0b0100_0000,
        0x02, // packet type, flags and remaining len
        0x00,
        0x0A, // fixed header. packet identifier = 10
        0xDE,
        0xAD,
        0xBE,
        0xEF, // extra packets in the stream
    ];
    let mut stream = BytesMut::from(&stream[..]);
    let packet = V4::read(&mut stream, 128).unwrap();
    assert_eq!(
        packet,
        Packet::PubAck(PubAck { pkid: 10, reason: PubAckReasonCode::Success, properties: Properties::new() })
    );
}

#[test]
fn qos1_publish_parsing_works() {
    let stream = &[
        0b0011_0010,
        11, // packet type, flags and remaining len
        0x00,
        0x03,
        b'a',
        b'/',
        b'b', // variable header. topic name = 'a/b'
        0x00,
        0x0a, // variable header. pkid = 10
        0xF1,
        0xF2,
        0xF3,
        0xF4, // publish payload
        0xDE,
        0xAD,
        0xBE,
        0xEF, // extra packets in the stream
    ];

    let mut stream = BytesMut::from(&stream[..]);
    let packet = V4::read(&mut stream, 128).unwrap();

    let payload = &[0xF1, 0xF2, 0xF3, 0xF4];
    assert_eq!(
        packet,
        Packet::Publish(Publish {
            dup: false,
            qos: QoS::AtLeastOnce,
            retain: false,
            topic: "a/b".to_owned(),
            pkid: 10,
            payload: Bytes::from(&payload[..]),
            properties: Properties::new(),
        })
    );
}

#[test]
fn qos0_publish_parsing_works() {
    let stream = &[
        0b0011_0000,
        7, // packet type, flags and remaining len
        0x00,
        0x03,
        b'a',
        b'/',
        b'b', // variable header. topic name = 'a/b'
        0x01,
        0x02, // payload
        0xDE,
        0xAD,
        0xBE,
        0xEF, // extra packets in the stream
    ];

    let mut stream = BytesMut::from(&stream[..]);
    let packet = V4::read(&mut stream, 128).unwrap();

    assert_eq!(
        packet,
        Packet::Publish(Publish {
            dup: false,
            qos: QoS::AtMostOnce,
            retain: false,
            topic: "a/b".to_owned(),
            pkid: 0,
            payload: Bytes::from(&[0x01, 0x02][..]),
            properties: Properties::new(),
        })
    );
}

#[test]
fn qos1_publish_encoding_works() {
    let publish = Publish {
        dup: false,
        qos: QoS::AtLeastOnce,
        retain: false,
        topic: "a/b".to_owned(),
        pkid: 10,
        payload: Bytes::from(vec![0xF1, 0xF2, 0xF3, 0xF4]),
        properties: Properties::new(),
    };

    let mut buf = BytesMut::new();
    publish::v4::write(&publish, &mut buf).unwrap();

    assert_eq!(buf, vec![0b0011_0010, 11, 0x00, 0x03, b'a', b'/', b'b', 0x00, 0x0a, 0xF1, 0xF2, 0xF3, 0xF4]);
}

#[test]
fn qos0_publish_encoding_works() {
    let publish = Publish {
        dup: false,
        qos: QoS::AtMostOnce,
        retain: false,
        topic: "a/b".to_owned(),
        pkid: 0,
        payload: Bytes::from(vec![0xE1, 0xE2, 0xE3, 0xE4]),
        properties: Properties::new(),
    };

    let mut buf = BytesMut::new();
    publish::v4::write(&publish, &mut buf).unwrap();

    assert_eq!(buf, vec![0b0011_0000, 9, 0x00, 0x03, b'a', b'/', b'b', 0xE1, 0xE2, 0xE3, 0xE4]);
}

#[test]
fn suback_parsing_works() {
    let stream = vec![
        0x90, 4, // packet type, flags and remaining len
        0x00, 0x0F, // variable header. pkid = 15
        0x01, 0x80, // payload. return codes [success qos1, failure]
        0xDE, 0xAD, 0xBE, 0xEF, // extra packets in the stream
    ];

    let mut stream = BytesMut::from(&stream[..]);
    let packet = V4::read(&mut stream, 128).unwrap();

    assert_eq!(
        packet,
        Packet::SubAck(SubAck {
            pkid: 15,
            properties: Properties::new(),
            reason_codes: vec![SubscribeReasonCode::Success(QoS::AtLeastOnce), SubscribeReasonCode::Unspecified],
        })
    );
}

#[test]
fn subscribe_parsing_works() {
    let stream = &[
        0b1000_0010,
        20, // packet type, flags and remaining len
        0x01,
        0x04, // variable header. pkid = 260
        0x00,
        0x03,
        b'a',
        b'/',
        b'+', // payload. topic filter = 'a/+'
        0x00, // payload. qos = 0
        0x00,
        0x01,
        b'#', // payload. topic filter = '#'
        0x01, // payload. qos = 1
        0x00,
        0x05,
        b'a',
        b'/',
        b'b',
        b'/',
        b'c', // payload. topic filter = 'a/b/c'
        0x02, // payload. qos = 2
        0xDE,
        0xAD,
        0xBE,
        0xEF, // extra packets in the stream
    ];
    let mut stream = BytesMut::from(&stream[..]);
    let packet = V4::read(&mut stream, 128).unwrap();

    assert_eq!(
        packet,
        Packet::Subscribe(Subscribe {
            pkid: 260,
            filters: vec![
                Filter::new("a/+".to_owned(), QoS::AtMostOnce),
                Filter::new("#".to_owned(), QoS::AtLeastOnce),
                Filter::new("a/b/c".to_owned(), QoS::ExactlyOnce)
            ],
            properties: Properties::new(),
        })
    );
}

#[test]
fn subscribe_encoding_works() {
    let subscribe = Subscribe {
        pkid: 260,
        filters: vec![
            Filter::new("a/+".to_owned(), QoS::AtMostOnce),
            Filter::new("#".to_owned(), QoS::AtLeastOnce),
            Filter::new("a/b/c".to_owned(), QoS::ExactlyOnce),
        ],
        properties: Properties::new(),
    };

    let mut buf = BytesMut::new();
    subscribe::v4::write(&subscribe, &mut buf).unwrap();

    assert_eq!(
        buf,
        vec![
            0b1000_0010,
            20,
            0x01,
            0x04, // pkid = 260
            0x00,
            0x03,
            b'a',
            b'/',
            b'+', // topic filter = 'a/+'
            0x00, // qos = 0
            0x00,
            0x01,
            b'#', // topic filter = '#'
            0x01, // qos = 1
            0x00,
            0x05,
            b'a',
            b'/',
            b'b',
            b'/',
            b'c', // topic filter = 'a/b/c'
            0x02  // qos = 2
        ]
    );
}
