//! Wire codec for the three MQTT 5 control packets the relay speaks:
//! an outbound connection request, the inbound connection
//! acknowledgement, and an outbound QoS-0 publish.
//!
//! The encoders use a single-byte remaining-length field on purpose:
//! the relay's payloads are short numeric strings on one fixed topic,
//! so the extended length encoding is deliberately not implemented and
//! oversized packets are rejected rather than truncated.

use vstd::prelude::*;
use vstd::string::StringSliceAdditionalSpecFns;

verus! {

/// MQTT control packet types used by the relay.
#[derive(Clone, Copy, PartialEq, Eq, Structural, Debug)]
#[allow(clippy::upper_case_acronyms)]
pub enum ControlPacket {
    /// Connection request.
    CONNECT,
    /// Connect acknowledgment.
    CONNACK,
    /// Publish message.
    PUBLISH,
}

impl ControlPacket {
    /// The packet-type code carried in the high nibble of a packet's
    /// first byte.
    pub open spec fn spec_value(self) -> u8 {
        match self {
            ControlPacket::CONNECT => 1,
            ControlPacket::CONNACK => 2,
            ControlPacket::PUBLISH => 3,
        }
    }

    /// Executable form of the packet-type code.
    pub fn value(self) -> (v: u8)
        ensures
            v == self.spec_value(),
    {
        match self {
            ControlPacket::CONNECT => 1,
            ControlPacket::CONNACK => 2,
            ControlPacket::PUBLISH => 3,
        }
    }
}

/// Why an inbound or outbound packet was rejected by the codec.
#[derive(Clone, Copy, PartialEq, Eq, Structural, Debug)]
pub enum DecodeError {
    /// The first byte of the response does not carry the CONNACK
    /// packet type.
    NotAcknowledgement,
    /// The acknowledgement is shorter than the four bytes the protocol
    /// requires.
    TooShort,
    /// The encoded packet would not fit the single-byte
    /// remaining-length field.
    PacketTooLarge,
}

/// The reason code of a connection acknowledgement. A byte outside the
/// closed set decodes to `UnknownReasonCode` carrying the raw value,
/// so future or vendor codes never crash the client.
#[derive(Clone, Copy, PartialEq, Eq, Structural, Debug)]
pub enum ConnectReasonCode {
    Success,
    UnspecifiedError,
    MalformedPacket,
    ProtocolError,
    ImplementationSpecificError,
    UnsupportedProtocolVersion,
    ClientIdentifierNotValid,
    BadUsernameOrPassword,
    NotAuthorized,
    ServerUnavailable,
    ServerBusy,
    Banned,
    BadAuthenticationMethod,
    TopicNameInvalid,
    PacketTooLarge,
    QuotaExceeded,
    PayloadFormatInvalid,
    RetainNotSupported,
    QosNotSupported,
    UseAnotherServer,
    ServerMoved,
    ConnectionRateExceeded,
    UnknownReasonCode(u8),
}

/// The reason code named by a CONNACK byte; bytes outside the closed
/// set map to `UnknownReasonCode`.
pub open spec fn spec_reason_code(b: u8) -> ConnectReasonCode {
    if b == 0x00 {
        ConnectReasonCode::Success
    } else if b == 0x80 {
        ConnectReasonCode::UnspecifiedError
    } else if b == 0x81 {
        ConnectReasonCode::MalformedPacket
    } else if b == 0x82 {
        ConnectReasonCode::ProtocolError
    } else if b == 0x83 {
        ConnectReasonCode::ImplementationSpecificError
    } else if b == 0x84 {
        ConnectReasonCode::UnsupportedProtocolVersion
    } else if b == 0x85 {
        ConnectReasonCode::ClientIdentifierNotValid
    } else if b == 0x86 {
        ConnectReasonCode::BadUsernameOrPassword
    } else if b == 0x87 {
        ConnectReasonCode::NotAuthorized
    } else if b == 0x88 {
        ConnectReasonCode::ServerUnavailable
    } else if b == 0x89 {
        ConnectReasonCode::ServerBusy
    } else if b == 0x8A {
        ConnectReasonCode::Banned
    } else if b == 0x8C {
        ConnectReasonCode::BadAuthenticationMethod
    } else if b == 0x90 {
        ConnectReasonCode::TopicNameInvalid
    } else if b == 0x95 {
        ConnectReasonCode::PacketTooLarge
    } else if b == 0x97 {
        ConnectReasonCode::QuotaExceeded
    } else if b == 0x99 {
        ConnectReasonCode::PayloadFormatInvalid
    } else if b == 0x9A {
        ConnectReasonCode::RetainNotSupported
    } else if b == 0x9B {
        ConnectReasonCode::QosNotSupported
    } else if b == 0x9C {
        ConnectReasonCode::UseAnotherServer
    } else if b == 0x9D {
        ConnectReasonCode::ServerMoved
    } else if b == 0x9F {
        ConnectReasonCode::ConnectionRateExceeded
    } else {
        ConnectReasonCode::UnknownReasonCode(b)
    }
}

impl ConnectReasonCode {
    /// Maps a byte to its named reason code, or hands the byte back
    /// when it names none of the closed set.
    pub fn try_from(value: u8) -> (r: Result<ConnectReasonCode, u8>)
        ensures
            spec_reason_code(value) is UnknownReasonCode ==> r == Err::<ConnectReasonCode, u8>(
                value,
            ),
            !(spec_reason_code(value) is UnknownReasonCode) ==> r == Ok::<ConnectReasonCode, u8>(
                spec_reason_code(value),
            ),
    {
        if value == 0x00 {
            Ok(ConnectReasonCode::Success)
        } else if value == 0x80 {
            Ok(ConnectReasonCode::UnspecifiedError)
        } else if value == 0x81 {
            Ok(ConnectReasonCode::MalformedPacket)
        } else if value == 0x82 {
            Ok(ConnectReasonCode::ProtocolError)
        } else if value == 0x83 {
            Ok(ConnectReasonCode::ImplementationSpecificError)
        } else if value == 0x84 {
            Ok(ConnectReasonCode::UnsupportedProtocolVersion)
        } else if value == 0x85 {
            Ok(ConnectReasonCode::ClientIdentifierNotValid)
        } else if value == 0x86 {
            Ok(ConnectReasonCode::BadUsernameOrPassword)
        } else if value == 0x87 {
            Ok(ConnectReasonCode::NotAuthorized)
        } else if value == 0x88 {
            Ok(ConnectReasonCode::ServerUnavailable)
        } else if value == 0x89 {
            Ok(ConnectReasonCode::ServerBusy)
        } else if value == 0x8A {
            Ok(ConnectReasonCode::Banned)
        } else if value == 0x8C {
            Ok(ConnectReasonCode::BadAuthenticationMethod)
        } else if value == 0x90 {
            Ok(ConnectReasonCode::TopicNameInvalid)
        } else if value == 0x95 {
            Ok(ConnectReasonCode::PacketTooLarge)
        } else if value == 0x97 {
            Ok(ConnectReasonCode::QuotaExceeded)
        } else if value == 0x99 {
            Ok(ConnectReasonCode::PayloadFormatInvalid)
        } else if value == 0x9A {
            Ok(ConnectReasonCode::RetainNotSupported)
        } else if value == 0x9B {
            Ok(ConnectReasonCode::QosNotSupported)
        } else if value == 0x9C {
            Ok(ConnectReasonCode::UseAnotherServer)
        } else if value == 0x9D {
            Ok(ConnectReasonCode::ServerMoved)
        } else if value == 0x9F {
            Ok(ConnectReasonCode::ConnectionRateExceeded)
        } else {
            Err(value)
        }
    }
}

/// The exact byte layout of a connection request for a client
/// identifier of 2 to 22 bytes: packet type and flags, remaining
/// length, protocol name `MQTT` with its length prefix, protocol level
/// 5, clean-start flag, keepalive of 60 seconds, empty properties, and
/// the length-prefixed identifier.
pub open spec fn spec_connect_packet(id: Seq<u8>) -> Seq<u8> {
    seq![
        0x10u8,
        (13 + id.len()) as u8,
        0x00u8,
        0x04u8,
        0x4Du8,
        0x51u8,
        0x54u8,
        0x54u8,
        0x05u8,
        0x02u8,
        0x00u8,
        0x3Cu8,
        0x00u8,
        0x00u8,
        id.len() as u8,
    ] + id
}

/// Encodes the connection request for the given client identifier.
///
/// The identifier must hold 2 to 22 bytes; the packet is then 15 bytes
/// of fixed header and fields plus the identifier, and its
/// remaining-length byte is that total minus the two fixed-header
/// bytes.
pub fn connect(client_id: &str) -> (pkt: Vec<u8>)
    requires
        2 <= client_id.spec_bytes().len() <= 22,
    ensures
        pkt@ == spec_connect_packet(client_id.spec_bytes()),
        pkt@.len() == 15 + client_id.spec_bytes().len(),
        pkt@[1] == pkt@.len() - 2,
{
    let id_bytes: &[u8] = client_id.as_bytes();
    let n: usize = id_bytes.len();
    let mut pkt: Vec<u8> = Vec::new();
    proof {
        assert(1u8 << 4 == 0x10) by (bit_vector);
    }
    pkt.push(ControlPacket::CONNECT.value() << 4);
    pkt.push((13 + n) as u8);  // remaining length
    pkt.push(0x00);  // protocol name length, big endian
    pkt.push(0x04);
    pkt.push(0x4D);  // "MQTT"
    pkt.push(0x51);
    pkt.push(0x54);
    pkt.push(0x54);
    pkt.push(0x05);  // protocol level
    pkt.push(0x02);  // connect flags: clean start only
    pkt.push(0x00);  // keepalive seconds, big endian
    pkt.push(0x3C);
    pkt.push(0x00);  // properties length
    pkt.push(0x00);  // client identifier length, big endian
    pkt.push(n as u8);
    pkt.extend_from_slice(id_bytes);
    assert(pkt@ =~= spec_connect_packet(client_id.spec_bytes()));
    pkt
}

/// What decoding a connection acknowledgement yields: the packet-type
/// nibble is checked first, as the stream is read byte by byte, then
/// the presence and value of the remaining-length byte, and byte 3 is
/// the reason code while byte 2 is ignored.
pub open spec fn spec_decode_connect_ack(bytes: Seq<u8>) -> Result<
    ConnectReasonCode,
    DecodeError,
> {
    if bytes.len() < 1 {
        Err(DecodeError::TooShort)
    } else if bytes[0] >> 4 != 2 {
        Err(DecodeError::NotAcknowledgement)
    } else if bytes.len() < 4 {
        Err(DecodeError::TooShort)
    } else if bytes[1] < 4 {
        Err(DecodeError::TooShort)
    } else {
        Ok(spec_reason_code(bytes[3]))
    }
}

/// Decodes a connection acknowledgement.
///
/// Succeeds exactly when the input holds at least four bytes, its
/// first byte carries the CONNACK packet type, and its remaining
/// length is at least four; the result is then the reason code named
/// by byte 3.
pub fn decode_connect_ack(bytes: &[u8]) -> (r: Result<ConnectReasonCode, DecodeError>)
    ensures
        r == spec_decode_connect_ack(bytes@),
{
    if bytes.len() < 1 {
        Err(DecodeError::TooShort)
    } else if bytes[0] >> 4 != ControlPacket::CONNACK.value() {
        Err(DecodeError::NotAcknowledgement)
    } else if bytes.len() < 4 {
        Err(DecodeError::TooShort)
    } else if bytes[1] < 4 {
        Err(DecodeError::TooShort)
    } else {
        Ok(match ConnectReasonCode::try_from(bytes[3]) {
            Ok(code) => code,
            Err(raw) => ConnectReasonCode::UnknownReasonCode(raw),
        })
    }
}

/// Whether a topic and payload of these byte lengths fit the
/// single-byte remaining-length field of a publish packet. The
/// remaining length is the topic-length field (2), the topic, the
/// property block (3), and the payload.
pub open spec fn spec_publish_fits(topic_len: nat, payload_len: nat) -> bool {
    topic_len + payload_len + 5 <= 254
}

/// The exact byte layout of a publish packet: packet type, remaining
/// length, length-prefixed topic, a property block holding only the
/// payload-format indicator set to UTF-8 text, and the payload.
pub open spec fn spec_publish_packet(topic: Seq<u8>, payload: Seq<u8>) -> Seq<u8> {
    seq![
        0x30u8,
        (topic.len() + payload.len() + 5) as u8,
        0x00u8,
        topic.len() as u8,
    ] + topic + seq![0x02u8, 0x01u8, 0x01u8] + payload
}

/// Encodes a publish message for the given topic and payload.
///
/// Succeeds exactly when the encoded remaining length fits one byte,
/// and fails with `PacketTooLarge` otherwise: an oversized packet is
/// rejected, never truncated.
pub fn encode_publish(topic: &str, payload: &str) -> (r: Result<Vec<u8>, DecodeError>)
    ensures
        spec_publish_fits(topic.spec_bytes().len(), payload.spec_bytes().len()) ==> (r matches Ok(
            pkt,
        ) && pkt@ == spec_publish_packet(topic.spec_bytes(), payload.spec_bytes())),
        !spec_publish_fits(topic.spec_bytes().len(), payload.spec_bytes().len()) ==> r == Err::<
            Vec<u8>,
            DecodeError,
        >(DecodeError::PacketTooLarge),
{
    let topic_bytes: &[u8] = topic.as_bytes();
    let payload_bytes: &[u8] = payload.as_bytes();
    if topic_bytes.len() > 249 || payload_bytes.len() > 249 - topic_bytes.len() {
        return Err(DecodeError::PacketTooLarge);
    }
    let remaining: usize = topic_bytes.len() + payload_bytes.len() + 5;
    let mut pkt: Vec<u8> = Vec::new();
    proof {
        assert(3u8 << 4 == 0x30) by (bit_vector);
    }
    pkt.push(ControlPacket::PUBLISH.value() << 4);  // QoS 0, not retained
    pkt.push(remaining as u8);  // remaining length
    pkt.push(0x00);  // topic length, big endian
    pkt.push(topic_bytes.len() as u8);
    pkt.extend_from_slice(topic_bytes);
    pkt.push(0x02);  // properties length
    pkt.push(0x01);  // property: payload format indicator
    pkt.push(0x01);  // payload is UTF-8 text
    pkt.extend_from_slice(payload_bytes);
    assert(pkt@ =~= spec_publish_packet(topic.spec_bytes(), payload.spec_bytes()));
    Ok(pkt)
}

/// Reparses an encoded publish packet into its topic and payload, or
/// nothing where the bytes are not a publish packet of this layout.
pub open spec fn spec_parse_publish(pkt: Seq<u8>) -> Option<(Seq<u8>, Seq<u8>)> {
    if pkt.len() < 7 {
        None
    } else if pkt[0] != 0x30 {
        None
    } else if pkt[2] != 0x00 {
        None
    } else {
        let topic_len = pkt[3] as int;
        if pkt.len() < 7 + topic_len {
            None
        } else if pkt[1] != pkt.len() - 2 {
            None
        } else if pkt[4 + topic_len] != 0x02 || pkt[5 + topic_len] != 0x01 || pkt[6 + topic_len]
            != 0x01 {
            None
        } else {
            Some((pkt.subrange(4, 4 + topic_len), pkt.subrange(7 + topic_len, pkt.len() as int)))
        }
    }
}

/// An encoded publish packet reparses to exactly the topic and payload
/// it was built from: the encoder loses nothing and truncates nothing.
pub proof fn lemma_publish_round_trip(topic: Seq<u8>, payload: Seq<u8>)
    requires
        spec_publish_fits(topic.len(), payload.len()),
    ensures
        spec_parse_publish(spec_publish_packet(topic, payload)) == Some((topic, payload)),
{
    let pkt = spec_publish_packet(topic, payload);
    assert(pkt.len() == 7 + topic.len() + payload.len());
    assert(pkt.subrange(4, 4 + topic.len() as int) =~= topic);
    assert(pkt.subrange(7 + topic.len() as int, pkt.len() as int) =~= payload);
}

} // verus!
