use bytes::Bytes;
use oracle_rs::constants::{PacketType, PACKET_HEADER_SIZE};
use oracle_rs::error::ReadError;
use oracle_rs::messages::{refuse_error, RefuseMessage};
use oracle_rs::packet::{Packet, PacketHeader};
use oracle_rs::Error;

fn make_refuse_packet(payload: &[u8]) -> Packet {
    let header = PacketHeader::new(
        PacketType::Refuse,
        (PACKET_HEADER_SIZE + payload.len()) as u32,
    );
    Packet::new(header, Bytes::copy_from_slice(payload))
}

fn refuse_payload(error_data: &[u8]) -> Vec<u8> {
    let data_len = error_data.len() as u16;
    let mut payload = Vec::new();
    payload.extend_from_slice(&[0x00, 0x00]); // reason
    payload.extend_from_slice(&data_len.to_be_bytes()); // data length
    payload.extend_from_slice(error_data); // data
    payload
}

#[test]
fn test_parse_refuse_basic() {
    let payload = refuse_payload(b"(DESCRIPTION=(ERR=12514)(VSNNUM=0))");

    let packet = make_refuse_packet(&payload);
    let refuse = RefuseMessage::parse(&packet).unwrap();

    assert!(refuse.data.is_some());
    assert_eq!(refuse.error_code, Some(12514));
    assert!(refuse.is_invalid_service_name());
    assert!(!refuse.is_invalid_sid());
}

#[test]
fn test_parse_refuse_invalid_sid() {
    let payload = refuse_payload(b"(DESCRIPTION=(ERR=12505)(VSNNUM=0))");

    let packet = make_refuse_packet(&payload);
    let refuse = RefuseMessage::parse(&packet).unwrap();

    assert_eq!(refuse.error_code, Some(12505));
    assert!(!refuse.is_invalid_service_name());
    assert!(refuse.is_invalid_sid());
}

#[test]
fn test_parse_refuse_no_data() {
    let payload = [
        0x00, 0x00, // reason
        0x00, 0x00, // data length: 0
    ];

    let packet = make_refuse_packet(&payload);
    let refuse = RefuseMessage::parse(&packet).unwrap();

    assert!(refuse.data.is_none());
    assert_eq!(refuse.error_code, None);
}

#[test]
fn test_parse_refuse_no_error_code() {
    let payload = refuse_payload(b"Some error message without code");

    let packet = make_refuse_packet(&payload);
    let refuse = RefuseMessage::parse(&packet).unwrap();

    assert!(refuse.data.is_some());
    assert_eq!(refuse.error_code, None);
}

#[test]
fn test_extract_error_code() {
    assert_eq!(
        RefuseMessage::extract_error_code("(ERR=12514)"),
        Some(12514)
    );
    assert_eq!(
        RefuseMessage::extract_error_code("(DESCRIPTION=(ERR=12505)(VSNNUM=0))"),
        Some(12505)
    );
    assert_eq!(RefuseMessage::extract_error_code("no error code"), None);
    assert_eq!(RefuseMessage::extract_error_code("(ERR=)"), None);
    assert_eq!(RefuseMessage::extract_error_code("(ERR=abc)"), None);
}

#[test]
fn test_into_error_invalid_service() {
    let refuse = RefuseMessage {
        data: Some("(ERR=12514)".to_string()),
        error_code: Some(refuse_error::INVALID_SERVICE_NAME),
    };

    let error = refuse.into_error(Some("FREEPDB1"));
    assert!(matches!(error, Error::InvalidServiceName { .. }));
}

#[test]
fn test_into_error_invalid_sid() {
    let refuse = RefuseMessage {
        data: Some("(ERR=12505)".to_string()),
        error_code: Some(refuse_error::INVALID_SID),
    };

    let error = refuse.into_error(Some("ORCL"));
    assert!(matches!(error, Error::InvalidSid { .. }));
}

#[test]
fn test_into_error_unknown() {
    let refuse = RefuseMessage {
        data: Some("Unknown error".to_string()),
        error_code: Some(99999),
    };

    let error = refuse.into_error(None);
    assert!(matches!(error, Error::ConnectionRefused { .. }));
}

#[test]
fn error_code_needs_a_closed_number() {
    assert_eq!(RefuseMessage::extract_error_code("(ERR=12514"), None);
    assert_eq!(RefuseMessage::extract_error_code("(ERR=+7)"), Some(7));
    assert_eq!(RefuseMessage::extract_error_code("(ERR=+)"), None);
    assert_eq!(RefuseMessage::extract_error_code("(ERR= 7)"), None);
    assert_eq!(RefuseMessage::extract_error_code("(ERR=-7)"), None);
    assert_eq!(RefuseMessage::extract_error_code("(ERR=007)"), Some(7));
    assert_eq!(RefuseMessage::extract_error_code("(ERR=4294967295)"), Some(u32::MAX));
    assert_eq!(RefuseMessage::extract_error_code("(ERR=4294967296)"), None);
    assert_eq!(RefuseMessage::extract_error_code("(err=1)"), None);
    assert_eq!(RefuseMessage::extract_error_code(""), None);
}

#[test]
fn first_error_code_counts() {
    assert_eq!(RefuseMessage::extract_error_code("(ERR=1)(ERR=2)"), Some(1));
    assert_eq!(RefuseMessage::extract_error_code("(ERR=x)(ERR=2)"), None);
    assert_eq!(RefuseMessage::extract_error_code("é)(ERR=3)ü"), Some(3));
}

#[test]
fn refusal_text_is_decoded() {
    let refuse = RefuseMessage::parse(&make_refuse_packet(&refuse_payload(b"a\xff(ERR=5)"))).unwrap();
    assert_eq!(refuse.data, Some("a\u{fffd}(ERR=5)".to_string()));
    assert_eq!(refuse.error_code, Some(5));
}

#[test]
fn refusal_with_missing_bytes_has_no_text() {
    // Four bytes are announced, three are there
    let payload = [0, 0, 0, 4, b'a', b'b', b'c'];
    let refuse = RefuseMessage::parse(&make_refuse_packet(&payload)).unwrap();
    assert!(refuse.data.is_none());
    // What stands behind the announced bytes is not read
    let payload = [9, 9, 0, 2, b'a', b'b', b'c'];
    let refuse = RefuseMessage::parse(&make_refuse_packet(&payload)).unwrap();
    assert_eq!(refuse.data, Some("ab".to_string()));
}

#[test]
fn other_packets_are_no_refusal() {
    let packet = Packet::new(PacketHeader::new(PacketType::Accept, 8), Bytes::new());
    match RefuseMessage::parse(&packet) {
        Err(Error::UnexpectedPacketType { expected, actual }) => {
            assert_eq!(expected, PacketType::Refuse);
            assert_eq!(actual, PacketType::Accept);
        }
        other => panic!("{:?}", other),
    }
}

#[test]
fn short_refusal_is_truncated() {
    for size in 0..4 {
        let payload = vec![0u8; size];
        match RefuseMessage::parse(&make_refuse_packet(&payload)) {
            Err(Error::Buffer(ReadError::Truncated)) => {}
            other => panic!("{:?}", other),
        }
    }
}

#[test]
fn errors_carry_name_and_text() {
    let refuse = RefuseMessage { data: Some("d".to_string()), error_code: Some(12514) };
    match refuse.into_error(Some("SVC")) {
        Error::InvalidServiceName { service_name, message } => {
            assert_eq!(service_name, Some("SVC".to_string()));
            assert_eq!(message, Some("d".to_string()));
        }
        other => panic!("{:?}", other),
    }
    let refuse = RefuseMessage { data: None, error_code: Some(12505) };
    match refuse.into_error(None) {
        Error::InvalidSid { sid, message } => {
            assert_eq!(sid, None);
            assert_eq!(message, None);
        }
        other => panic!("{:?}", other),
    }
    let refuse = RefuseMessage { data: Some("x".to_string()), error_code: None };
    match refuse.into_error(Some("SVC")) {
        Error::ConnectionRefused { error_code, message } => {
            assert_eq!(error_code, None);
            assert_eq!(message, Some("x".to_string()));
        }
        other => panic!("{:?}", other),
    }
}
