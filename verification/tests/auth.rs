use oracle_rs::buffer::{ReadBuffer, WriteBuffer};
use oracle_rs::constants::{
    auth_mode, verifier_type, FunctionCode, MessageType, PacketType, PACKET_HEADER_SIZE,
};
use oracle_rs::crypto::{
    decrypt_cbc_192, decrypt_cbc_256, encrypt_cbc_192, encrypt_cbc_256_pkcs7,
    generate_11g_combo_key, generate_11g_password_hash, generate_12c_combo_key,
    generate_12c_password_hash,
};
use oracle_rs::error::{CryptoError, ReadError};
use oracle_rs::messages::auth::StringHashMap;
use oracle_rs::messages::{AuthMessage, AuthPhase, ClientEnvironment, SessionData};
use oracle_rs::{Capabilities, Error};

fn bare_environment() -> ClientEnvironment {
    ClientEnvironment {
        terminal: None,
        executable: None,
        user: None,
        username: None,
        process_id: 4711,
        session_time_zone: None,
    }
}

fn full_environment() -> ClientEnvironment {
    ClientEnvironment {
        terminal: Some("xterm".to_string()),
        executable: Some("app".to_string()),
        user: Some("scott".to_string()),
        username: Some("other".to_string()),
        process_id: 0,
        session_time_zone: Some("Europe/Oslo".to_string()),
    }
}

fn message(username: &str, password: &[u8]) -> AuthMessage {
    AuthMessage::new_on_host(
        username,
        password,
        "DB",
        bare_environment(),
        Some("box".to_string()),
    )
}

#[test]
fn test_auth_message_creation() {
    let msg = AuthMessage::new("SCOTT", b"tiger", "FREEPDB1", bare_environment());
    assert_eq!(msg.username(), "SCOTT");
    assert_eq!(msg.phase(), AuthPhase::One);
    assert!(!msg.is_complete());
}

#[test]
fn test_auth_mode_sysdba() {
    let msg = AuthMessage::new("SYS", b"password", "ORCL", bare_environment()).with_sysdba();
    assert!(msg.auth_mode() & auth_mode::SYSDBA != 0);
    assert!(msg.auth_mode() & auth_mode::LOGON != 0);
}

#[test]
fn test_session_data_parsing() {
    let mut pairs = StringHashMap::new();
    pairs.insert("AUTH_SESSKEY".to_string(), "AABBCCDD".to_string());
    pairs.insert("AUTH_VFR_DATA".to_string(), "11223344".to_string());
    pairs.insert("AUTH_PBKDF2_VGEN_COUNT".to_string(), "4096".to_string());

    let data = SessionData::from_pairs(&pairs);
    assert_eq!(data.auth_sesskey, Some("AABBCCDD".to_string()));
    assert_eq!(data.auth_vfr_data, Some("11223344".to_string()));
    assert_eq!(data.auth_pbkdf2_vgen_count, Some(4096));
}

#[test]
fn test_phase_one_build() {
    let msg = AuthMessage::new("TESTUSER", b"password", "TESTDB", bare_environment());
    let caps = Capabilities::new();

    let packet = msg.build_request(&caps, false).unwrap();

    // Verify packet structure
    assert!(packet.len() > PACKET_HEADER_SIZE);
    assert_eq!(packet[4], PacketType::Data.code());

    // Verify function code
    assert_eq!(packet[PACKET_HEADER_SIZE + 3], FunctionCode::AuthPhaseOne.code());
}

#[test]
fn test_clear_password() {
    let mut msg = AuthMessage::new("USER", b"secret", "DB", bare_environment());
    assert!(msg.has_password());

    msg.clear_password();
    assert!(!msg.has_password());
}

#[test]
fn test_read_auth_string_zero_length() {
    // ub4(0) = [0x00] → empty string
    let data = [0x00];
    let mut buf = ReadBuffer::from_slice(&data);
    let result = AuthMessage::read_auth_string(&mut buf).unwrap();
    assert_eq!(result, "");
}

#[test]
fn test_read_auth_string_with_data() {
    // ub4(5) = [0x01, 0x05], then bytes_with_length: [0x05, "HELLO"]
    let data = [0x01, 0x05, 0x05, b'H', b'E', b'L', b'L', b'O'];
    let mut buf = ReadBuffer::from_slice(&data);
    let result = AuthMessage::read_auth_string(&mut buf).unwrap();
    assert_eq!(result, "HELLO");
}

#[test]
fn test_read_auth_string_null_bytes() {
    // ub4(5) = [0x01, 0x05], then bytes_with_length returns NULL: [0xFF]
    let data = [0x01, 0x05, 0xFF];
    let mut buf = ReadBuffer::from_slice(&data);
    let result = AuthMessage::read_auth_string(&mut buf).unwrap();
    assert_eq!(result, "");
}

#[test]
fn read_auth_string_fails_on_missing_bytes() {
    for data in [&[][..], &[1], &[1, 5], &[1, 5, 5, b'H']] {
        let mut buf = ReadBuffer::from_slice(data);
        assert!(matches!(
            AuthMessage::read_auth_string(&mut buf),
            Err(Error::Buffer(ReadError::Truncated))
        ));
    }
    // The declared length is read before the string fails
    let mut buf = ReadBuffer::from_slice(&[1, 5, 5, b'H']);
    assert!(AuthMessage::read_auth_string(&mut buf).is_err());
    assert_eq!(buf.read_bytes_vec(2).unwrap(), vec![5, b'H']);
    assert!(!buf.has_remaining(1));
    let mut buf = ReadBuffer::from_slice(&[5, 0, 0, 0, 0, 0]);
    assert!(matches!(
        AuthMessage::read_auth_string(&mut buf),
        Err(Error::Buffer(ReadError::IntegerTooLong))
    ));
}

#[test]
fn read_auth_string_replaces_what_is_no_text() {
    let mut buf = ReadBuffer::from_slice(&[1, 2, 2, b'a', 0xc3]);
    assert_eq!(AuthMessage::read_auth_string(&mut buf).unwrap(), "a\u{fffd}");
}

#[test]
fn key_value_reads_back() {
    let msg = message("u", b"");
    for (key, value) in [("K", ""), ("AUTH_PID", "12"), ("é", "ü…")] {
        let mut buf = WriteBuffer::with_capacity(16);
        msg.write_key_value(&mut buf, key, value, 7);
        let bytes = buf.into_inner();
        let mut reader = ReadBuffer::from_slice(&bytes);
        assert_eq!(AuthMessage::read_auth_string(&mut reader).unwrap(), key);
        assert_eq!(AuthMessage::read_auth_string(&mut reader).unwrap(), value);
        assert_eq!(reader.read_ub4().unwrap(), 7);
        assert!(!reader.has_remaining(1));
    }
    let mut buf = WriteBuffer::with_capacity(16);
    msg.write_key_value(&mut buf, "AB", "C", 1);
    assert_eq!(buf.as_slice(), &[1, 2, 2, b'A', b'B', 1, 1, 1, b'C', 1, 1]);
}

#[test]
fn session_numbers_must_be_numbers() {
    let mut pairs = StringHashMap::new();
    pairs.insert("AUTH_PBKDF2_VGEN_COUNT".to_string(), "x".to_string());
    pairs.insert("AUTH_PBKDF2_SDER_COUNT".to_string(), "+3".to_string());
    pairs.insert("AUTH_VERSION_NO".to_string(), "4294967296".to_string());
    pairs.insert("AUTH_PBKDF2_CSK_SALT".to_string(), "AA".to_string());
    pairs.insert("AUTH_GLOBALLY_UNIQUE_DBID".to_string(), "id".to_string());
    pairs.insert("AUTH_SVR_RESPONSE".to_string(), "".to_string());
    pairs.insert("AUTH_UNKNOWN".to_string(), "y".to_string());
    let data = SessionData::from_pairs(&pairs);
    assert_eq!(data.auth_pbkdf2_vgen_count, None);
    assert_eq!(data.auth_pbkdf2_sder_count, Some(3));
    assert_eq!(data.auth_version_no, None);
    assert_eq!(data.auth_pbkdf2_csk_salt, Some("AA".to_string()));
    assert_eq!(data.auth_globally_unique_dbid, Some("id".to_string()));
    assert_eq!(data.auth_svr_response, Some("".to_string()));
    assert_eq!(data.auth_sesskey, None);
    let nothing = SessionData::default();
    assert!(nothing.auth_vfr_data.is_none() && nothing.auth_version_no.is_none());
}

#[test]
fn modes_are_combined() {
    assert_eq!(message("u", b"").auth_mode(), 1);
    assert_eq!(message("u", b"").with_sysoper().auth_mode(), 0x41);
    assert_eq!(message("u", b"").with_sysdba().with_sysoper().with_sysdba().auth_mode(), 0x61);
}

#[test]
fn usernames_are_written_in_upper_case() {
    assert_eq!(message("scott", b"").username(), "SCOTT");
    assert_eq!(message("SCOTT", b"").username(), "SCOTT");
    assert_eq!(message("az_AZ{`09", b"").username(), "AZ_AZ{`09");
    assert_eq!(message("straße", b"").username(), "STRASSE");
}

/// What a request says: function, sequence number, user, mode, and the pairs with their flags.
type Request = (u8, u8, String, u32, Vec<(String, String, u32)>);

fn read_request(packet: &[u8], token: bool) -> Request {
    assert_eq!(packet[4], PacketType::Data.code());
    let mut buf = ReadBuffer::from_slice(&packet[PACKET_HEADER_SIZE..]);
    assert_eq!(buf.read_u16_be().unwrap(), 0);
    assert_eq!(buf.read_u8().unwrap(), MessageType::Function.code());
    let function = buf.read_u8().unwrap();
    let sequence = buf.read_u8().unwrap();
    if token {
        assert_eq!(buf.read_u8().unwrap(), 0);
    }
    let has_user = buf.read_u8().unwrap();
    let user_len = buf.read_ub4().unwrap();
    let mode = buf.read_ub4().unwrap();
    assert_eq!(buf.read_u8().unwrap(), 1);
    let count = buf.read_ub4().unwrap();
    assert_eq!(buf.read_u8().unwrap(), 1);
    assert_eq!(buf.read_u8().unwrap(), 1);
    let user = if has_user == 1 {
        let bytes = buf.read_bytes_with_length().unwrap().unwrap();
        assert_eq!(bytes.len() as u32, user_len);
        String::from_utf8(bytes).unwrap()
    } else {
        assert_eq!(user_len, 0);
        String::new()
    };
    let mut pairs = Vec::new();
    for _ in 0..count {
        let key = AuthMessage::read_auth_string(&mut buf).unwrap();
        let value = AuthMessage::read_auth_string(&mut buf).unwrap();
        let flags = buf.read_ub4().unwrap();
        pairs.push((key, value, flags));
    }
    assert!(!buf.has_remaining(1));
    (function, sequence, user, mode, pairs)
}

fn pair(key: &str, value: &str, flags: u32) -> (String, String, u32) {
    (key.to_string(), value.to_string(), flags)
}

#[test]
fn phase_one_says_where_the_client_runs() {
    let mut msg = AuthMessage::new_on_host("scott", b"tiger", "DB", full_environment(), None);
    msg.set_sequence_number(9);
    let packet = msg.build_request(&Capabilities::new(), false).unwrap();
    assert_eq!(packet.len(), packet[0] as usize * 256 + packet[1] as usize);
    let (function, sequence, user, mode, pairs) = read_request(&packet, true);
    assert_eq!((function, sequence), (0x76, 9));
    assert_eq!(user, "SCOTT");
    assert_eq!(mode, 1);
    assert_eq!(
        pairs,
        vec![
            pair("AUTH_TERMINAL", "xterm", 0),
            pair("AUTH_PROGRAM_NM", "app", 0),
            pair("AUTH_MACHINE", "localhost", 0),
            pair("AUTH_PID", "0", 0),
            pair("AUTH_SID", "scott", 0),
        ]
    );
}

#[test]
fn phase_one_has_names_for_what_is_unknown() {
    let caps = Capabilities { ttc_field_version: 17 };
    let msg = message("", b"");
    let packet = msg.build_request(&caps, true).unwrap();
    assert_eq!(packet.len() as u32, u32::from_be_bytes([packet[0], packet[1], packet[2], packet[3]]));
    let (_, sequence, user, _, pairs) = read_request(&packet, false);
    assert_eq!(sequence, 1);
    assert_eq!(user, "");
    assert_eq!(
        pairs,
        vec![
            pair("AUTH_TERMINAL", "unknown", 0),
            pair("AUTH_PROGRAM_NM", "oracle-rs", 0),
            pair("AUTH_MACHINE", "box", 0),
            pair("AUTH_PID", "4711", 0),
            pair("AUTH_SID", "unknown", 0),
        ]
    );
    let environment = ClientEnvironment { username: Some("w".to_string()), ..bare_environment() };
    let msg = AuthMessage::new_on_host("u", b"", "DB", environment, None);
    let packet = msg.build_request(&caps, false).unwrap();
    assert_eq!(read_request(&packet, false).4[4], pair("AUTH_SID", "w", 0));
}

#[test]
fn machine_is_the_host() {
    let msg = AuthMessage::new("u", b"", "DB", bare_environment());
    let packet = msg.build_request(&Capabilities::new(), false).unwrap();
    let expected = match hostname::get() {
        Ok(name) => name.to_string_lossy().to_string(),
        Err(_) => "localhost".to_string(),
    };
    assert_eq!(read_request(&packet, true).4[2], pair("AUTH_MACHINE", &expected, 0));
}

fn answer(params: &[(&str, &str, u32)]) -> Vec<u8> {
    let writer = message("u", b"");
    let mut buf = WriteBuffer::with_capacity(64);
    buf.write_u16_be(0);
    buf.write_u8(8);
    buf.write_ub4(params.len() as u32);
    for (key, value, number) in params {
        writer.write_key_value(&mut buf, key, value, *number);
    }
    buf.into_inner()
}

const VFR: &str = "00112233445566778899AABBCCDDEEFF";
const CSK: &str = "0102030405060708";

fn unhex(text: &str) -> Vec<u8> {
    hex::decode(text).unwrap()
}

/// The server's half of a session key, and how it is sent to a client with the given password
fn server_half_12c(password: &[u8]) -> (Vec<u8>, String) {
    let half: Vec<u8> = (100..132).collect();
    let hash = generate_12c_password_hash(password, &unhex(VFR), 5);
    let sealed = encrypt_cbc_256_pkcs7(&hash, &half).unwrap();
    (half, hex::encode_upper(&sealed[..32]))
}

fn server_half_11g(password: &[u8]) -> (Vec<u8>, String) {
    let half: Vec<u8> = (50..98).collect();
    let hash = generate_11g_password_hash(password, &unhex(VFR));
    let sealed = encrypt_cbc_192(&hash, &half).unwrap();
    (half, hex::encode_upper(&sealed[..48]))
}

fn answer_12c(key: &str) -> Vec<u8> {
    answer(&[
        ("AUTH_SESSKEY", key, 0),
        ("AUTH_VFR_DATA", VFR, verifier_type::V12C),
        ("AUTH_PBKDF2_CSK_SALT", CSK, 0),
        ("AUTH_PBKDF2_VGEN_COUNT", "5", 0),
        ("AUTH_PBKDF2_SDER_COUNT", "3", 0),
    ])
}

#[test]
fn logon_with_a_12c_verifier() {
    let mut msg = message("scott", b"tiger").with_sysdba();
    let (part_a, key) = server_half_12c(b"tiger");
    assert!(msg.combo_key().is_none());
    msg.parse_response(&answer_12c(&key)).unwrap();
    assert_eq!(msg.phase(), AuthPhase::Two);
    assert!(!msg.is_complete());

    msg.set_session_time_zone(Some("UTC".to_string()));
    msg.set_sequence_number(77);
    let packet = msg.build_request(&Capabilities::new(), true).unwrap();
    let (function, sequence, user, mode, pairs) = read_request(&packet, true);
    assert_eq!((function, sequence), (0x73, 2));
    assert_eq!(user, "SCOTT");
    assert_eq!(mode, 0x121);
    let keys: Vec<&str> = pairs.iter().map(|p| p.0.as_str()).collect();
    assert_eq!(
        keys,
        vec![
            "AUTH_SESSKEY",
            "AUTH_PBKDF2_SPEEDY_KEY",
            "AUTH_PASSWORD",
            "SESSION_CLIENT_CHARSET",
            "SESSION_CLIENT_DRIVER_NAME",
            "SESSION_CLIENT_VERSION",
            "AUTH_ALTER_SESSION",
        ]
    );
    let flags: Vec<u32> = pairs.iter().map(|p| p.2).collect();
    assert_eq!(flags, vec![1, 0, 0, 0, 0, 0, 1]);
    assert_eq!(pairs[3].1, "873");
    assert_eq!(pairs[4].1, "oracle-rs : 0.1.0");
    assert_eq!(pairs[5].1, "54530048");
    assert_eq!(pairs[6].1, "ALTER SESSION SET TIME_ZONE='UTC'\0");

    // The server finds the client's half, and from it the same combo key
    assert_eq!(pairs[0].1.len(), 64);
    let hash = generate_12c_password_hash(b"tiger", &unhex(VFR), 5);
    let part_b = decrypt_cbc_256(&hash, &unhex(&pairs[0].1)).unwrap();
    let combo = generate_12c_combo_key(&part_a, &part_b, &unhex(CSK), 3);
    assert_eq!(msg.combo_key(), Some(&combo[..]));

    // It then finds the password behind a salt
    let opened = decrypt_cbc_256(&combo, &unhex(&pairs[2].1)).unwrap();
    assert_eq!(&opened[16..21], b"tiger");
    assert_eq!(&opened[21..], &[11; 11]);
    // The speedy key holds the key derived from the password behind a salt
    assert_eq!(pairs[1].1.len(), 160);
    let opened = decrypt_cbc_256(&combo, &unhex(&pairs[1].1)).unwrap();
    assert_eq!(opened.len(), 80);

    // Another request has other salts
    let again = msg.build_request(&Capabilities::new(), true).unwrap();
    assert_ne!(packet, again);
    assert_eq!(packet.len(), again.len());

    // The server shows that it knows the combo key
    let mut proof = vec![9u8; 16];
    proof.extend_from_slice(b"SERVER_TO_CLIENT");
    let response = hex::encode_upper(encrypt_cbc_256_pkcs7(&combo, &proof).unwrap());
    msg.parse_response(&answer(&[("AUTH_SVR_RESPONSE", &response, 0)])).unwrap();
    assert!(msg.is_complete());
    match msg.build_request(&Capabilities::new(), true) {
        Err(Error::Protocol(text)) => assert_eq!(text, "Authentication already complete"),
        other => panic!("{:?}", other),
    }
    // Nothing comes after that
    msg.parse_response(&answer(&[("AUTH_SVR_RESPONSE", "zz", 0)])).unwrap();
    assert_eq!(msg.phase(), AuthPhase::Complete);
}

#[test]
fn logon_with_an_11g_verifier() {
    for verifier in [verifier_type::V11G_1, verifier_type::V11G_2] {
        let mut msg = message("scott", b"tiger");
        let (part_a, key) = server_half_11g(b"tiger");
        msg.parse_response(&answer(&[
            ("AUTH_VFR_DATA", VFR, verifier),
            ("AUTH_SESSKEY", &key, 0),
        ]))
        .unwrap();
        let packet = msg.build_request(&Capabilities::new(), false).unwrap();
        let (_, _, _, mode, pairs) = read_request(&packet, true);
        assert_eq!(mode, 0x101);
        assert_eq!(pairs.len(), 6);
        assert_eq!(pairs[0].1.len(), 96);
        let hash = generate_11g_password_hash(b"tiger", &unhex(VFR));
        let part_b = decrypt_cbc_192(&hash, &unhex(&pairs[0].1)).unwrap();
        let combo = generate_11g_combo_key(&part_a, &part_b);
        assert_eq!(msg.combo_key(), Some(&combo[..]));
        assert_eq!(pairs[1].0, "AUTH_PASSWORD");
        let opened = decrypt_cbc_192(&combo, &unhex(&pairs[1].1)).unwrap();
        assert_eq!(&opened[16..21], b"tiger");

        // A server that gives no proof is accepted, and its answer completes the logon
        msg.parse_response(&answer(&[])).unwrap();
        assert!(msg.is_complete());
    }
}

#[test]
fn local_time_zone_is_sent_without_another() {
    let mut msg = message("u", b"p");
    let (_, key) = server_half_12c(b"p");
    msg.parse_response(&answer_12c(&key)).unwrap();
    let packet = msg.build_request(&Capabilities::new(), false).unwrap();
    let zone = read_request(&packet, true).4[6].1.clone();
    let offset = chrono::Local::now().offset().local_minus_utc();
    assert_eq!(zone, msg.get_alter_timezone_statement(offset));
}

#[test]
fn offsets_are_written_in_hours_and_minutes() {
    let msg = message("u", b"");
    for (offset, shown) in [
        (0, "+00:00"),
        (3600, "+01:00"),
        (19800, "+05:30"),
        (-3600, "-01:00"),
        (-12600, "-03:30"),
        (-34200, "-09:30"),
        (50400, "+14:00"),
        (-1800, "-00:30"),
        (-59, "-00:00"),
        (-3599, "-00:59"),
        (59, "+00:00"),
        (86399, "+23:59"),
    ] {
        assert_eq!(
            msg.get_alter_timezone_statement(offset),
            format!("ALTER SESSION SET TIME_ZONE='{}'\0", shown)
        );
    }
    let msg = AuthMessage::new_on_host("u", b"", "DB", full_environment(), None);
    assert_eq!(
        msg.get_alter_timezone_statement(3600),
        "ALTER SESSION SET TIME_ZONE='Europe/Oslo'\0"
    );
}

#[test]
fn phase_two_needs_the_keys() {
    let msg = message("u", b"p");
    match msg.build_phase_two(&Capabilities::new(), false) {
        Err(Error::Protocol(text)) => assert_eq!(text, "Combo key not generated"),
        other => panic!("{:?}", other),
    }
    match msg.encode_password(&[0; 16]) {
        Err(Error::Protocol(text)) => assert_eq!(text, "Combo key not generated"),
        other => panic!("{:?}", other),
    }
    assert_eq!(msg.generate_speedy_key(&[0; 16]).unwrap(), None);
}

#[test]
fn phase_two_is_fixed_by_its_salts() {
    let mut msg = message("u", b"p");
    let (_, key) = server_half_12c(b"p");
    msg.parse_response(&answer_12c(&key)).unwrap();
    let caps = Capabilities::new();
    let one = msg.build_phase_two_with(&caps, false, &[1; 16], &[2; 16], 7200).unwrap();
    let two = msg.build_phase_two_with(&caps, false, &[1; 16], &[2; 16], 7200).unwrap();
    assert_eq!(one, two);
    let pairs = read_request(&one, true).4;
    let combo = msg.combo_key().unwrap();
    let mut salted = vec![1u8; 16];
    salted.push(b'p');
    let password = hex::encode_upper(encrypt_cbc_256_pkcs7(combo, &salted).unwrap());
    assert_eq!(pairs[2], pair("AUTH_PASSWORD", &password, 0));
    assert_eq!(pairs[2].1, msg.encode_password(&[1; 16]).unwrap());
    assert_eq!(pairs[1].1, msg.generate_speedy_key(&[2; 16]).unwrap().unwrap());
    assert_eq!(pairs[6].1, "ALTER SESSION SET TIME_ZONE='+02:00'\0");
}

fn failed(result: oracle_rs::Result<()>) -> String {
    match result {
        Err(Error::AuthenticationFailed(text)) => format!("failed: {}", text),
        Err(Error::Protocol(text)) => format!("protocol: {}", text),
        Err(Error::UnsupportedVerifierType(code)) => format!("verifier: {}", code),
        Err(Error::Crypto(CryptoError::KeyLength)) => "key length".to_string(),
        Err(Error::Crypto(CryptoError::DataLength)) => "data length".to_string(),
        Err(Error::Buffer(ReadError::Truncated)) => "truncated".to_string(),
        Err(Error::Buffer(ReadError::IntegerTooLong)) => "integer too long".to_string(),
        other => format!("{:?}", other),
    }
}

#[test]
fn phase_one_answers_must_be_complete() {
    let (_, key) = server_half_12c(b"p");
    let vfr = ("AUTH_VFR_DATA", VFR, verifier_type::V12C);
    let sesskey = ("AUTH_SESSKEY", key.as_str(), 0);
    let vgen = ("AUTH_PBKDF2_VGEN_COUNT", "5", 0);
    let csk = ("AUTH_PBKDF2_CSK_SALT", CSK, 0);
    for (params, expected) in [
        (vec![], "failed: Missing AUTH_VFR_DATA"),
        (vec![("AUTH_VFR_DATA", "ABC", 1)], "protocol: Invalid AUTH_VFR_DATA hex: Odd number of digits"),
        (
            vec![("AUTH_VFR_DATA", "AG", 1)],
            "protocol: Invalid AUTH_VFR_DATA hex: Invalid character 'G' at position 1",
        ),
        (vec![vfr], "failed: Missing AUTH_SESSKEY"),
        (vec![vfr, ("AUTH_SESSKEY", "1", 0)], "protocol: Invalid AUTH_SESSKEY hex: Odd number of digits"),
        (vec![("AUTH_VFR_DATA", VFR, 1234), sesskey], "verifier: 1234"),
        (vec![("AUTH_VFR_DATA", VFR, 0), sesskey], "verifier: 0"),
        (vec![vfr, sesskey], "failed: Missing AUTH_PBKDF2_VGEN_COUNT"),
        (vec![vfr, ("AUTH_SESSKEY", "AA", 0), vgen], "data length"),
        (vec![vfr, sesskey, vgen], "failed: Missing AUTH_PBKDF2_CSK_SALT"),
        (
            vec![vfr, sesskey, vgen, ("AUTH_PBKDF2_CSK_SALT", "1", 0)],
            "protocol: Invalid CSK_SALT hex: Odd number of digits",
        ),
        (vec![vfr, sesskey, vgen, csk], "failed: Missing AUTH_PBKDF2_SDER_COUNT"),
        (
            vec![("AUTH_VFR_DATA", VFR, verifier_type::V11G_1), ("AUTH_SESSKEY", "AA", 0)],
            "data length",
        ),
    ] {
        let mut msg = message("u", b"p");
        assert_eq!(failed(msg.parse_response(&answer(&params))), expected);
        assert_eq!(msg.phase(), AuthPhase::Two);
        assert!(msg.combo_key().is_none());
    }
}

#[test]
fn unreadable_answers_change_nothing() {
    for (payload, expected) in [
        (&[][..], "truncated"),
        (&[0, 0], "truncated"),
        (&[0, 0, 4], "failed: Server returned error"),
        (&[0, 0, 8], "truncated"),
        (&[0, 0, 8, 3, 0, 0, 0], "integer too long"),
        (&[0, 0, 8, 1, 1], "truncated"),
        (&[0, 0, 8, 1, 1, 0, 0], "truncated"),
        (&[0, 0, 8, 1, 1, 0, 0, 9], "integer too long"),
    ] {
        let mut msg = message("u", b"p");
        assert_eq!(failed(msg.parse_response(payload)), expected);
        assert_eq!(msg.phase(), AuthPhase::One);
        assert!(msg.has_password());
    }
    let mut msg = message("u", b"p");
    let (_, key) = server_half_12c(b"p");
    msg.parse_response(&answer_12c(&key)).unwrap();
    let combo = msg.combo_key().unwrap().to_vec();
    assert_eq!(failed(msg.parse_response(&[0, 0, 4, 1, 2, 3])), "failed: Server returned error");
    assert_eq!(msg.phase(), AuthPhase::Two);
    assert_eq!(msg.combo_key(), Some(&combo[..]));
}

#[test]
fn false_servers_are_found_out() {
    let started = |password: &[u8]| {
        let mut msg = message("u", password);
        let (_, key) = server_half_12c(password);
        msg.parse_response(&answer_12c(&key)).unwrap();
        msg
    };
    for (response, expected) in [
        ("0", "protocol: Invalid server response hex: Odd number of digits"),
        ("AABB", "data length"),
        ("", "failed: Invalid server response"),
        (
            "000102030405060708090A0B0C0D0E0F101112131415161718191A1B1C1D1E1F",
            "failed: Invalid server response",
        ),
    ] {
        let mut msg = started(b"p");
        assert_eq!(failed(msg.parse_response(&answer(&[("AUTH_SVR_RESPONSE", response, 0)]))), expected);
        // The authentication is not complete
        assert_eq!(msg.phase(), AuthPhase::Two);
        assert!(!msg.is_complete());
    }
    // The marker must stand behind 16 bytes
    let mut msg = started(b"p");
    let mut early = b"SERVER_TO_CLIENT".to_vec();
    early.extend_from_slice(&[0; 16]);
    let sealed = encrypt_cbc_256_pkcs7(msg.combo_key().unwrap(), &early).unwrap();
    let response = hex::encode_upper(sealed);
    assert_eq!(
        failed(msg.parse_response(&answer(&[("AUTH_SVR_RESPONSE", &response, 0)]))),
        "failed: Invalid server response"
    );
    assert!(!msg.is_complete());
    // A response that passes the check completes it after all
    let mut genuine = vec![3u8; 16];
    genuine.extend_from_slice(b"SERVER_TO_CLIENT");
    let sealed = encrypt_cbc_256_pkcs7(msg.combo_key().unwrap(), &genuine).unwrap();
    let response = hex::encode_upper(sealed);
    msg.parse_response(&answer(&[("AUTH_SVR_RESPONSE", &response, 0)])).unwrap();
    assert!(msg.is_complete());
    // A response cannot be checked without a key: the first answer failed here
    let mut msg = message("u", b"p");
    assert!(msg.parse_response(&answer(&[])).is_err());
    assert_eq!(
        failed(msg.parse_response(&answer(&[("AUTH_SVR_RESPONSE", "AA", 0)]))),
        "protocol: Combo key not available"
    );
    assert!(!msg.is_complete());
}

#[test]
fn keys_come_from_both_halves() {
    let mut msg = message("u", b"p");
    let part_a: Vec<u8> = (0..48).collect();
    let part_b: Vec<u8> = (60..108).collect();
    msg.make_11g_keys(&[7; 24], &part_a, &part_b).unwrap();
    assert_eq!(msg.combo_key(), Some(&generate_11g_combo_key(&part_a, &part_b)[..]));
    assert_eq!(failed(msg.make_11g_keys(&[7; 23], &part_a, &part_b)), "key length");
    assert_eq!(failed(msg.make_12c_keys(&[7; 24], &part_a, &part_b)), "key length");
    assert_eq!(
        failed(msg.make_12c_keys(&[7; 32], &part_a, &part_b)),
        "failed: Missing AUTH_PBKDF2_CSK_SALT"
    );
    assert_eq!(failed(msg.generate_verifier()), "failed: Missing AUTH_VFR_DATA");
    assert_eq!(failed(msg.generate_12c_verifier(&[], &[])), "failed: Missing AUTH_PBKDF2_VGEN_COUNT");
    assert_eq!(failed(msg.generate_11g_verifier(&[], &[1])), "data length");
    assert!(msg.verify_server_response().is_ok());
}

#[test]
fn second_phase_keeps_the_verifier_type() {
    let mut msg = message("u", b"p");
    let (part_a, key) = server_half_12c(b"p");
    assert_eq!(part_a.len(), 32);
    msg.parse_response(&answer_12c(&key)).unwrap();
    let combo = msg.combo_key().unwrap().to_vec();
    let mut proof = vec![0u8; 16];
    proof.extend_from_slice(b"SERVER_TO_CLIENT");
    let response = hex::encode_upper(encrypt_cbc_256_pkcs7(&combo, &proof).unwrap());
    // No verifier data comes with the second answer
    msg.parse_response(&answer(&[
        ("AUTH_VERSION_NO", "318767104", 0),
        ("AUTH_SVR_RESPONSE", &response, 0),
        ("AUTH_SC_SERVER_HOST", "db", 0),
    ]))
    .unwrap();
    assert!(msg.is_complete());
    assert_eq!(msg.combo_key(), Some(&combo[..]));
}
