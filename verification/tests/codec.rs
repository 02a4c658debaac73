use corsairmi_mqtt::mqtt::{connect, decode_connect_ack, encode_publish, ConnectReasonCode,
    DecodeError};

#[test]
fn connect_smoke_test() {
    connect("client_id");
}

#[test]
fn connect_exact_layout() {
    let pkt = connect("ab");
    let expected: Vec<u8> = vec![
        0x10, 15, 0x00, 0x04, b'M', b'Q', b'T', b'T', 0x05, 0x02, 0x00, 60, 0x00, 0x00, 2, b'a',
        b'b',
    ];
    assert_eq!(pkt, expected);
}

#[test]
fn connect_length_and_remaining_length() {
    for id in ["ab", "client_id", "exactly22bytes45678901"] {
        let pkt = connect(id);
        assert_eq!(pkt.len(), 15 + id.len());
        assert_eq!(pkt[1] as usize, pkt.len() - 2);
    }
}

#[test]
fn connack_success() {
    assert_eq!(
        decode_connect_ack(&[0x20, 0x04, 0x00, 0x00]),
        Ok(ConnectReasonCode::Success)
    );
}

#[test]
fn connack_not_authorized() {
    assert_eq!(
        decode_connect_ack(&[0x20, 0x04, 0x00, 0x87]),
        Ok(ConnectReasonCode::NotAuthorized)
    );
}

#[test]
fn connack_wrong_packet_type() {
    for first in [0x00u8, 0x10, 0x30, 0x90, 0xF0] {
        assert_eq!(
            decode_connect_ack(&[first, 0x04, 0x00, 0x00]),
            Err(DecodeError::NotAcknowledgement)
        );
    }
}

#[test]
fn connack_three_bytes_too_short() {
    assert_eq!(
        decode_connect_ack(&[0x20, 0x04, 0x00]),
        Err(DecodeError::TooShort)
    );
}

#[test]
fn connack_remaining_length_too_short() {
    assert_eq!(
        decode_connect_ack(&[0x20, 0x03, 0x00, 0x00]),
        Err(DecodeError::TooShort)
    );
}

#[test]
fn connack_unknown_reason_code() {
    assert_eq!(
        decode_connect_ack(&[0x20, 0x04, 0x00, 0x55]),
        Ok(ConnectReasonCode::UnknownReasonCode(0x55))
    );
}

#[test]
fn reason_code_try_from() {
    assert_eq!(ConnectReasonCode::try_from(0x00), Ok(ConnectReasonCode::Success));
    assert_eq!(ConnectReasonCode::try_from(0x87), Ok(ConnectReasonCode::NotAuthorized));
    assert_eq!(ConnectReasonCode::try_from(0x9F), Ok(ConnectReasonCode::ConnectionRateExceeded));
    assert_eq!(ConnectReasonCode::try_from(0x55), Err(0x55));
    assert_eq!(ConnectReasonCode::try_from(0x8B), Err(0x8B));
}

#[test]
fn publish_exact_layout() {
    let pkt = encode_publish("t", "123").unwrap();
    let expected: Vec<u8> = vec![
        0x30, 9, 0x00, 1, b't', 0x02, 0x01, 0x01, b'1', b'2', b'3',
    ];
    assert_eq!(pkt, expected);
}

#[test]
fn publish_round_trip() {
    let topic = "power/reading";
    let payload = "418";
    let pkt = encode_publish(topic, payload).unwrap();
    // reparse the packet by hand and recover both fields
    assert_eq!(pkt[0], 0x30);
    assert_eq!(pkt[1] as usize, pkt.len() - 2);
    let topic_len = ((pkt[2] as usize) << 8) | pkt[3] as usize;
    assert_eq!(topic_len, topic.len());
    assert_eq!(&pkt[4..4 + topic_len], topic.as_bytes());
    assert_eq!(pkt[4 + topic_len], 0x02);
    assert_eq!(pkt[5 + topic_len], 0x01);
    assert_eq!(pkt[6 + topic_len], 0x01);
    assert_eq!(&pkt[7 + topic_len..], payload.as_bytes());
}

#[test]
fn publish_size_boundary() {
    // 249 bytes of topic and payload together still fit
    let topic = "t".repeat(100);
    let payload = "p".repeat(149);
    assert!(encode_publish(&topic, &payload).is_ok());
    // one byte more must be refused, never truncated
    let payload = "p".repeat(150);
    assert_eq!(
        encode_publish(&topic, &payload),
        Err(DecodeError::PacketTooLarge)
    );
}

#[test]
fn publish_too_large_topic_alone() {
    let topic = "t".repeat(300);
    assert_eq!(
        encode_publish(&topic, ""),
        Err(DecodeError::PacketTooLarge)
    );
}
