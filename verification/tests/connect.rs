use oracle_rs::constants::{version, PacketType, PACKET_HEADER_SIZE};
use oracle_rs::messages::ConnectMessage;
use oracle_rs::Config;

#[test]
fn test_connect_message_from_config() {
    let config = Config::new("localhost", 1521, "FREEPDB1", "user", "pass");
    let msg = ConnectMessage::from_config(&config);

    assert_eq!(msg.version_desired, version::DESIRED);
    assert_eq!(msg.version_minimum, version::MINIMUM);
    assert_eq!(msg.sdu, config.sdu);
    assert!(msg.connect_data.contains("FREEPDB1"));
    assert!(msg.connect_data.contains("localhost"));
}

#[test]
fn test_connect_message_build() {
    let config = Config::new("localhost", 1521, "FREEPDB1", "user", "pass");
    let msg = ConnectMessage::from_config(&config);
    let packet = msg.build().unwrap();

    // Check packet header
    assert!(packet.len() > PACKET_HEADER_SIZE);
    assert_eq!(packet[4], PacketType::Connect.code());

    // Check version in packet
    assert_eq!(packet[8], (version::DESIRED >> 8) as u8);
    assert_eq!(packet[9], (version::DESIRED & 0xff) as u8);
}

#[test]
fn test_connect_message_small_data() {
    let config = Config::new("localhost", 1521, "SVC", "u", "p");
    let msg = ConnectMessage::from_config(&config);
    let (connect, data) = msg.build_with_continuation().unwrap();

    // Should fit in single packet
    assert!(data.is_none());
    assert!(connect.len() > PACKET_HEADER_SIZE + 66);
}

#[test]
fn test_connect_message_large_data() {
    // Create a config with a very long service name
    let long_service = "A".repeat(300);
    let config = Config::new("localhost", 1521, &long_service, "u", "p");
    let msg = ConnectMessage::from_config(&config);
    let (_connect, data) = msg.build_with_continuation().unwrap();

    // Should need separate DATA packet
    assert!(data.is_some());

    let data_packet = data.unwrap();
    // DATA packet should have header + data flags + connect string
    assert!(data_packet.len() > PACKET_HEADER_SIZE + 2);
    assert_eq!(data_packet[4], PacketType::Data.code());
}

fn sample(connect_data: String) -> ConnectMessage {
    ConnectMessage {
        version_desired: 0x0102,
        version_minimum: 0x0304,
        service_options: 0x0506,
        sdu: 0x0007_0809,
        tdu: 0x0a0b,
        protocol_characteristics: 0x0c0d,
        nsi_flags: 0x0e,
        connect_flags_1: 0x1011_1213,
        connect_flags_2: 0x1415_1617,
        connect_data,
        supports_oob: false,
    }
}

#[test]
fn connect_packet_has_its_layout() {
    let packet = sample("abc".to_string()).build().unwrap();
    let mut expected = vec![0, 85, 0, 0, 1, 0, 0, 0];
    expected.extend_from_slice(&[1, 2, 3, 4, 5, 6, 0xff, 0xff, 0x0a, 0x0b, 0x0c, 0x0d]);
    expected.extend_from_slice(&[0, 0, 0, 1, 0, 3, 0, 82, 0, 0, 0, 0, 0x0e, 0x0e]);
    expected.extend_from_slice(&[0; 24]);
    expected.extend_from_slice(&[0, 7, 8, 9, 0, 0, 0x0a, 0x0b]);
    expected.extend_from_slice(&[0x10, 0x11, 0x12, 0x13, 0x14, 0x15, 0x16, 0x17]);
    expected.extend_from_slice(&[0; 8]);
    expected.extend_from_slice(b"abc");
    assert_eq!(&packet[..], &expected[..]);
    assert_eq!(&packet[PACKET_HEADER_SIZE + 74..], b"abc");
}

#[test]
fn connect_data_is_split_behind_its_limit() {
    let (connect, data) = sample("x".repeat(230)).build_with_continuation().unwrap();
    assert!(data.is_none());
    assert_eq!(connect.len(), 82 + 230);

    let message = sample("x".repeat(231));
    let (connect, data) = message.build_with_continuation().unwrap();
    assert_eq!(connect.len(), 82);
    assert_eq!(&connect[24..28], &[0, 231, 0, 82]);
    let data = data.unwrap();
    assert_eq!(&data[..10], &[0, 241, 0, 0, 6, 0, 0, 0, 0, 0]);
    assert_eq!(&data[10..], &[b'x'; 231][..]);
    assert_eq!(&message.build().unwrap()[..], &connect[..]);
}

#[test]
fn connect_data_counts_in_bytes() {
    // Each of these takes two bytes
    let (_, data) = sample("é".repeat(115)).build_with_continuation().unwrap();
    assert!(data.is_none());
    let (_, data) = sample("é".repeat(116)).build_with_continuation().unwrap();
    assert_eq!(&data.unwrap()[10..], "é".repeat(116).as_bytes());
}

#[test]
fn configuration_decides_the_message() {
    let config = Config::new("db.example", 65535, "SVC", "u", "p");
    assert_eq!(config.username, "u");
    assert_eq!(config.password, "p");
    let msg = ConnectMessage::from_config(&config);
    assert_eq!(
        msg.connect_data,
        "(DESCRIPTION=(ADDRESS=(PROTOCOL=tcp)(HOST=db.example)(PORT=65535))(CONNECT_DATA=(SERVICE_NAME=SVC)))"
    );
    assert_eq!(msg.service_options, 0x0401);
    assert_eq!(msg.sdu, 8192);
    assert_eq!(msg.tdu, 65535);
    assert_eq!(msg.protocol_characteristics, 0x4f98);
    assert_eq!(msg.nsi_flags, 0x84);
    assert_eq!(msg.connect_flags_1, 0);
    assert_eq!(msg.connect_flags_2, 1);
    assert!(msg.supports_oob);
    assert!(Config::new("h", 0, "s", "u", "p").build_connect_string().contains("(PORT=0)"));
}
