//! Authentication messages
//!
//! This module implements the O5LOGON authentication protocol used by Oracle.
//! Authentication happens in two phases:
//!
//! 1. **Phase One**: Client sends username and session info (terminal, program, etc.)
//!    Server responds with AUTH_SESSKEY, AUTH_VFR_DATA, and other session data.
//!
//! 2. **Phase Two**: Client generates verifier, encrypts password, and sends
//!    AUTH_PASSWORD, AUTH_SESSKEY (client portion), and session parameters.
//!    Server validates and establishes the session.

use crate::buffer::laws::{ub4_reads_back, with_length_reads_back};
use crate::buffer::read::{reading_ub, reading_with_length};
use crate::buffer::write::{ub4, ub8, with_length, zero_bytes};
use crate::buffer::{ReadBuffer, WriteBuffer};
use crate::capabilities::Capabilities;
use crate::constants::{
    auth_mode, verifier_type, FunctionCode, MessageType, PacketType, PACKET_HEADER_SIZE,
};
use crate::crypto::{
    concat_bytes, decrypt_cbc_192, decrypt_cbc_256, decrypted_192, decrypted_256, encrypt_cbc_192,
    encrypt_cbc_256_pkcs7, generate_11g_combo_key, generate_11g_password_hash,
    generate_12c_combo_key, generate_12c_password_hash, generate_salt, generate_session_key_part,
    pbkdf2_derive, pbkdf2_key, pkcs7_padding, KEY_SIZE_192, KEY_SIZE_256, SALT_SIZE,
};
use crate::error::{opt_text, outcome, CryptoError, Error, ErrorView, ReadError, Result};
use crate::hex_codec;
use crate::hex_codec::{hex_bytes, hex_reads_back, is_hex};
use crate::messages::auth_model::{
    advanced, answer_of, answered, auth_string, created, half_size, has_keys, is_phase_two_packet,
    key_value, keys_11g_made, keys_12c_made, no_session, number_of, opened, opt_text_outcome,
    or_text, packet_outcome, password_encoded, phase_one_packet, phase_two_packet, phase_two_pairs,
    reading_auth_string, reading_params, received, request_front, server_response_checked,
    session_key_sent, session_of, speedy_key_made, text_outcome, time_zone_statement, value_of,
    verifier_11g_made, verifier_12c_made, verifier_made, AuthView, Pairs, SessionView,
};
use crate::packet::{content, seal_packet};
use crate::text::{
    append_decimal, append_padded_decimal, chars_of, decimal, parse_u32, same_bytes, same_text,
    text_from_utf8_lossy, text_to_uppercase, upper_letters,
};
use bytes::Bytes;
use vstd::prelude::*;
use vstd::utf8::{
    decode_utf8, encode_utf8, encode_utf8_decode_utf8, encode_utf8_valid_utf8, is_ascii_chars,
    valid_utf8,
};

pub use vstd::hash_map::StringHashMap;

verus! {

/// Session data received from server during authentication
#[derive(Debug)]
pub struct SessionData {
    /// Server's session key (hex-encoded)
    pub auth_sesskey: Option<String>,
    /// Verifier data (hex-encoded)
    pub auth_vfr_data: Option<String>,
    /// PBKDF2 CSK salt (hex-encoded, for 12c)
    pub auth_pbkdf2_csk_salt: Option<String>,
    /// PBKDF2 VGEN count (iterations for password key derivation)
    pub auth_pbkdf2_vgen_count: Option<u32>,
    /// PBKDF2 SDER count (iterations for combo key derivation)
    pub auth_pbkdf2_sder_count: Option<u32>,
    /// Database version number
    pub auth_version_no: Option<u32>,
    /// Globally unique database ID
    pub auth_globally_unique_dbid: Option<String>,
    /// Server response (for verification)
    pub auth_svr_response: Option<String>,
}

impl View for SessionData {
    type V = SessionView;

    open spec fn view(&self) -> SessionView {
        SessionView {
            auth_sesskey: opt_text(self.auth_sesskey),
            auth_vfr_data: opt_text(self.auth_vfr_data),
            auth_pbkdf2_csk_salt: opt_text(self.auth_pbkdf2_csk_salt),
            auth_pbkdf2_vgen_count: self.auth_pbkdf2_vgen_count,
            auth_pbkdf2_sder_count: self.auth_pbkdf2_sder_count,
            auth_version_no: self.auth_version_no,
            auth_globally_unique_dbid: opt_text(self.auth_globally_unique_dbid),
            auth_svr_response: opt_text(self.auth_svr_response),
        }
    }
}

impl Default for SessionData {
    fn default() -> (data: Self)
        ensures
            data@ == no_session(),
    {
        SessionData {
            auth_sesskey: None,
            auth_vfr_data: None,
            auth_pbkdf2_csk_salt: None,
            auth_pbkdf2_vgen_count: None,
            auth_pbkdf2_sder_count: None,
            auth_version_no: None,
            auth_globally_unique_dbid: None,
            auth_svr_response: None,
        }
    }
}

/// The pairs of a map, with their values as sequences of characters.
pub open spec fn pairs_of(map: Map<Seq<char>, String>) -> Pairs {
    map.map_values(|value: String| value@)
}

/// The value of a key, if there is one
fn text_value(pairs: &StringHashMap<String>, key: &str) -> (value: Option<String>)
    ensures
        opt_text(value) == value_of(pairs_of(pairs@), key@),
{
    match pairs.get(key) {
        Some(value) => Some(value.clone()),
        None => None,
    }
}

/// The value of a key as a number, if there is one and it is a number
fn number_value(pairs: &StringHashMap<String>, key: &str) -> (value: Option<u32>)
    ensures
        value == number_of(pairs_of(pairs@), key@),
{
    match pairs.get(key) {
        Some(value) => {
            let chars = chars_of(value.as_str());
            parse_u32(chars.as_slice())
        },
        None => None,
    }
}

impl SessionData {
    /// Parse session data from key-value pairs
    pub fn from_pairs(pairs: &StringHashMap<String>) -> (data: Self)
        ensures
            data@ == session_of(pairs_of(pairs@)),
    {
        SessionData {
            auth_sesskey: text_value(pairs, "AUTH_SESSKEY"),
            auth_vfr_data: text_value(pairs, "AUTH_VFR_DATA"),
            auth_pbkdf2_csk_salt: text_value(pairs, "AUTH_PBKDF2_CSK_SALT"),
            auth_pbkdf2_vgen_count: number_value(pairs, "AUTH_PBKDF2_VGEN_COUNT"),
            auth_pbkdf2_sder_count: number_value(pairs, "AUTH_PBKDF2_SDER_COUNT"),
            auth_version_no: number_value(pairs, "AUTH_VERSION_NO"),
            auth_globally_unique_dbid: text_value(pairs, "AUTH_GLOBALLY_UNIQUE_DBID"),
            auth_svr_response: text_value(pairs, "AUTH_SVR_RESPONSE"),
        }
    }
}

/// What the process knows of where it runs
#[derive(Debug)]
pub struct ClientEnvironment {
    /// Value of `TERM`
    pub terminal: Option<String>,
    /// File name of the executable
    pub executable: Option<String>,
    /// Value of `USER`
    pub user: Option<String>,
    /// Value of `USERNAME`
    pub username: Option<String>,
    /// Process ID
    pub process_id: u32,
    /// Value of `ORA_SDTZ`
    pub session_time_zone: Option<String>,
}

/// Authentication phase
#[derive(Debug, Clone, Copy, PartialEq, Eq, Structural)]
pub enum AuthPhase {
    /// Initial phase - send username and session info
    One,
    /// Second phase - send encrypted password and session parameters
    Two,
    /// Authentication complete
    Complete,
}

/// Authentication message for O5LOGON protocol
#[derive(Debug)]
pub struct AuthMessage {
    /// Username
    username: String,
    /// Password (cleared after use)
    password: Vec<u8>,
    /// Current authentication phase
    phase: AuthPhase,
    /// Authentication mode flags
    auth_mode: u32,
    /// Session data received from server
    session_data: SessionData,
    /// Verifier type (11g or 12c)
    verifier_type: u32,
    /// Combo key for encryption (derived from session keys)
    combo_key: Option<Vec<u8>>,
    /// Client session key (generated)
    client_session_key: Option<Vec<u8>>,
    /// Terminal name
    terminal: String,
    /// Program name
    program: String,
    /// Machine name
    machine: String,
    /// OS username
    osuser: String,
    /// Process ID
    pid: String,
    /// Driver name
    driver_name: String,
    /// Service name (stored for potential future use)
    service_name: String,
    /// Time zone that the session is to have
    session_time_zone: Option<String>,
    /// Sequence number for protocol messages
    sequence_number: u8,
}

/// The bytes of a key that may be absent.
pub open spec fn opt_key(key: Option<Vec<u8>>) -> Option<Seq<u8>> {
    match key {
        Some(bytes) => Some(bytes@),
        None => None,
    }
}

impl View for AuthMessage {
    type V = AuthView;

    closed spec fn view(&self) -> AuthView {
        AuthView {
            username: self.username@,
            password: self.password@,
            phase: self.phase,
            auth_mode: self.auth_mode,
            session: self.session_data@,
            verifier_type: self.verifier_type,
            combo_key: opt_key(self.combo_key),
            client_session_key: opt_key(self.client_session_key),
            terminal: self.terminal@,
            program: self.program@,
            machine: self.machine@,
            osuser: self.osuser@,
            pid: self.pid@,
            driver_name: self.driver_name@,
            service_name: self.service_name@,
            session_time_zone: opt_text(self.session_time_zone),
            sequence_number: self.sequence_number,
        }
    }
}

/// Calls `hostname::get` and makes the name a text. Nothing is claimed: the name is the machine's,
/// and the system may fail to give it.
#[verifier::external_body]
fn host_name() -> (name: Option<String>) {
    match hostname::get() {
        Ok(name) => Some(name.to_string_lossy().to_string()),
        Err(_) => None,
    }
}

/// Calls `chrono::Local::now` and takes the offset of the local time zone from UTC, in seconds.
/// Claims that the offset is less than a day in either direction; which one it is depends on the
/// machine and on the time.
#[verifier::external_body]
fn local_utc_offset() -> (seconds: i32)
    ensures
        -86_400 < seconds < 86_400,
{
    chrono::Local::now().offset().local_minus_utc()
}

/// Calls `<[u8]>::fill`. Claims that there are as many bytes as before, each of them the given one,
/// and that the call does not unwind.
#[verifier::external_body]
fn fill(bytes: &mut Vec<u8>, value: u8)
    ensures
        final(bytes)@ == Seq::new(old(bytes)@.len(), |i: int| value),
    opens_invariants none
    no_unwind
{
    bytes.fill(value)
}

/// A text that may be absent, or the text that stands for it
fn text_or(text: Option<String>, fallback: &str) -> (chosen: String)
    ensures
        chosen@ == or_text(opt_text(text), fallback@),
{
    match text {
        Some(text) => text,
        None => fallback.to_string(),
    }
}

/// Appending to the second of two parts appends to the whole.
proof fn lemma_append(a: Seq<u8>, b: Seq<u8>, c: Seq<u8>)
    ensures
        a + b + c == a + (b + c),
{
    assert(a + b + c =~= a + (b + c));
}

/// Behind the first of two parts stands the second.
proof fn lemma_behind(a: Seq<u8>, b: Seq<u8>)
    ensures
        (a + b).skip(a.len() as int) == b,
{
    assert((a + b).skip(a.len() as int) =~= b);
}

/// Pushing a byte is appending it.
proof fn lemma_append_one(a: Seq<u8>, b: Seq<u8>, byte: u8)
    ensures
        (a + b).push(byte) == a + (b + seq![byte]),
{
    assert((a + b).push(byte) =~= a + (b + seq![byte]));
}

/// What reading the parts of a written string gives.
pub(crate) proof fn lemma_auth_string_reads_back(text: Seq<char>, rest: Seq<u8>)
    requires
        encode_utf8(text).len() <= u32::MAX,
    ensures
        ({
            let bytes = encode_utf8(text);
            let behind = if bytes.len() == 0 {
                rest
            } else {
                with_length(bytes) + rest
            };
            &&& reading_ub(auth_string(text) + rest, 4) == Ok::<(nat, Seq<u8>), ReadError>(
                (bytes.len(), behind),
            )
            &&& bytes.len() != 0 ==> reading_with_length(behind) == Ok::<
                (Option<Seq<u8>>, Seq<u8>),
                ReadError,
            >((Some(bytes), rest))
            &&& bytes.len() == 0 ==> text == Seq::<char>::empty()
            &&& valid_utf8(bytes)
            &&& decode_utf8(bytes) == text
        }),
{
    let bytes = encode_utf8(text);
    encode_utf8_valid_utf8(text);
    encode_utf8_decode_utf8(text);
    encode_utf8_decode_utf8(Seq::empty());
    if bytes.len() == 0 {
        assert(auth_string(text) + rest =~= ub4(0) + rest);
        assert(bytes =~= encode_utf8(Seq::empty()));
        ub4_reads_back(0, rest);
    } else {
        assert(auth_string(text) + rest =~= ub4(bytes.len() as u32) + (with_length(bytes) + rest));
        ub4_reads_back(bytes.len() as u32, with_length(bytes) + rest);
        with_length_reads_back(bytes, rest);
    }
}

impl AuthMessage {
    /// Create a new authentication message
    pub fn new(
        username: &str,
        password: &[u8],
        service_name: &str,
        environment: ClientEnvironment,
    ) -> (message: Self)
        ensures
            exists|host: Option<Seq<char>>|
                message@ == #[trigger] created(
                    username@,
                    password@,
                    service_name@,
                    environment,
                    host,
                ),
            is_ascii_chars(username@) ==> message@.username == upper_letters(username@),
    {
        let host = host_name();
        Self::new_on_host(username, password, service_name, environment, host)
    }

    /// Create a new authentication message on a machine of the given name
    pub fn new_on_host(
        username: &str,
        password: &[u8],
        service_name: &str,
        environment: ClientEnvironment,
        host: Option<String>,
    ) -> (message: Self)
        ensures
            message@ == created(
                username@,
                password@,
                service_name@,
                environment,
                opt_text(host),
            ),
            is_ascii_chars(username@) ==> message@.username == upper_letters(username@),
    {
        let mut pid = String::new();
        append_decimal(&mut pid, environment.process_id as u64);
        assert(pid@ =~= decimal(environment.process_id as nat));
        let user = match environment.user {
            Some(user) => Some(user),
            None => environment.username,
        };
        AuthMessage {
            username: text_to_uppercase(username),
            password: vstd::slice::slice_to_vec(password),
            phase: AuthPhase::One,
            auth_mode: auth_mode::LOGON,
            session_data: SessionData::default(),
            verifier_type: 0,
            combo_key: None,
            client_session_key: None,
            terminal: text_or(environment.terminal, "unknown"),
            program: text_or(environment.executable, "oracle-rs"),
            machine: text_or(host, "localhost"),
            osuser: text_or(user, "unknown"),
            pid,
            driver_name: "oracle-rs : 0.1.0".to_string(),
            service_name: service_name.to_string(),
            session_time_zone: environment.session_time_zone,
            sequence_number: 1,
        }
    }

    /// Set the sequence number for protocol messages
    pub fn set_sequence_number(&mut self, seq: u8)
        ensures
            final(self)@ == (AuthView { sequence_number: seq, ..old(self)@ }),
    {
        self.sequence_number = seq;
    }

    /// Set the time zone that the session is to have, or leave it to the local time zone
    pub fn set_session_time_zone(&mut self, zone: Option<String>)
        ensures
            final(self)@ == (AuthView { session_time_zone: opt_text(zone), ..old(self)@ }),
    {
        self.session_time_zone = zone;
    }

    /// Set SYSDBA mode
    pub fn with_sysdba(self) -> (message: Self)
        ensures
            message@ == (AuthView { auth_mode: self@.auth_mode | 0x20, ..self@ }),
    {
        let mut message = self;
        message.auth_mode = message.auth_mode | auth_mode::SYSDBA;
        message
    }

    /// Set SYSOPER mode
    pub fn with_sysoper(self) -> (message: Self)
        ensures
            message@ == (AuthView { auth_mode: self@.auth_mode | 0x40, ..self@ }),
    {
        let mut message = self;
        message.auth_mode = message.auth_mode | auth_mode::SYSOPER;
        message
    }

    /// Get the username
    pub fn username(&self) -> (username: &str)
        ensures
            username@ == self@.username,
    {
        self.username.as_str()
    }

    /// Get the authentication mode flags
    pub fn auth_mode(&self) -> (mode: u32)
        ensures
            mode == self@.auth_mode,
    {
        self.auth_mode
    }

    /// Check if the message still holds a password
    pub fn has_password(&self) -> (held: bool)
        ensures
            held == (self@.password.len() != 0),
    {
        self.password.len() != 0
    }

    /// Get the current phase
    pub fn phase(&self) -> (phase: AuthPhase)
        ensures
            phase == self@.phase,
    {
        self.phase
    }

    /// Check if authentication is complete
    pub fn is_complete(&self) -> (complete: bool)
        ensures
            complete == (self@.phase == AuthPhase::Complete),
    {
        self.phase == AuthPhase::Complete
    }

    /// Get the combo key (for subsequent encryption)
    pub fn combo_key(&self) -> (key: Option<&[u8]>)
        ensures
            match key {
                Some(bytes) => self@.combo_key == Some(bytes@),
                None => self@.combo_key is None,
            },
    {
        match &self.combo_key {
            Some(key) => Some(key.as_slice()),
            None => None,
        }
    }

    /// Write a key-value pair to the buffer
    pub fn write_key_value(&self, buf: &mut WriteBuffer, key: &str, value: &str, flags: u32)
        ensures
            final(buf)@ == old(buf)@ + key_value(key@, value@, flags),
    {
        let key_bytes = key.as_bytes();
        let value_bytes = value.as_bytes();
        // Key length and data
        buf.write_ub4(key_bytes.len() as u32);
        buf.write_bytes_with_length(key_bytes);
        // Value length and data
        buf.write_ub4(value_bytes.len() as u32);
        if value_bytes.len() != 0 {
            buf.write_bytes_with_length(value_bytes);
        }
        // Flags
        buf.write_ub4(flags);
        assert(buf@ =~= old(buf)@ + key_value(key@, value@, flags));
    }

    /// Start a request: space for the packet header, and all that stands before the pairs
    fn begin_request(
        &self,
        caps: &Capabilities,
        function: FunctionCode,
        sequence_number: u8,
        mode: u32,
        pair_count: u32,
    ) -> (buf: WriteBuffer)
        ensures
            buf@ == zero_bytes(PACKET_HEADER_SIZE as nat) + request_front(
                function,
                sequence_number,
                caps.ttc_field_version,
                self@.username,
                mode,
                pair_count,
            ),
    {
        let ghost space = zero_bytes(PACKET_HEADER_SIZE as nat);
        let mut buf = WriteBuffer::with_capacity(1024);
        // Reserve space for packet header
        buf.write_zeros(PACKET_HEADER_SIZE);
        // Data flags (2 bytes)
        buf.write_u16_be(0);
        // Message type
        buf.write_u8(MessageType::Function.code());
        // Function code
        buf.write_u8(function.code());
        // Sequence number
        buf.write_u8(sequence_number);
        let ghost mut front = seq![
            0u8,
            0u8,
            MessageType::Function.spec_code(),
            function.spec_code(),
            sequence_number,
        ];
        assert(buf@ =~= space + front);
        // Token number (required for TTC field version >= 18, which is true for Oracle 23ai)
        if caps.ttc_field_version >= 18 {
            buf.write_ub8(0);
            proof {
                lemma_append(space, front, ub8(0));
                front = front + ub8(0);
            }
        } else {
            assert(front + Seq::<u8>::empty() =~= front);
        }
        // User pointer (1 if username present, 0 otherwise)
        let user_bytes = self.username.as_str().as_bytes();
        let has_user = user_bytes.len() != 0;
        let user_pointer: u8 = if has_user {
            1
        } else {
            0
        };
        buf.write_u8(user_pointer);
        // User length
        buf.write_ub4(user_bytes.len() as u32);
        // Auth mode
        buf.write_ub4(mode);
        // Auth value list pointer (always 1)
        buf.write_u8(1);
        // Number of key/value pairs
        buf.write_ub4(pair_count);
        // Output value list pointer (always 1)
        buf.write_u8(1);
        // Output value list count pointer (always 1)
        buf.write_u8(1);
        proof {
            lemma_append_one(space, front, user_pointer);
            front = front + seq![user_pointer];
            lemma_append(space, front, ub4(user_bytes@.len() as u32));
            front = front + ub4(user_bytes@.len() as u32);
            lemma_append(space, front, ub4(mode));
            front = front + ub4(mode);
            lemma_append_one(space, front, 1);
            front = front + seq![1u8];
            lemma_append(space, front, ub4(pair_count));
            front = front + ub4(pair_count);
            lemma_append_one(space, front, 1);
            lemma_append_one(space, front + seq![1u8], 1);
            assert(front + seq![1u8] + seq![1u8] =~= front + seq![1u8, 1u8]);
            front = front + seq![1u8, 1u8];
        }
        // Write username if present
        if has_user {
            buf.write_bytes_with_length(user_bytes);
            proof {
                lemma_append(space, front, with_length(user_bytes@));
            }
        } else {
            assert(front + Seq::<u8>::empty() =~= front);
        }
        buf
    }

    /// Build the authentication request packet for the current phase
    pub fn build_request(&self, caps: &Capabilities, large_sdu: bool) -> (result: Result<Bytes>)
        ensures
            match self@.phase {
                AuthPhase::One => packet_outcome(result) == Ok::<Seq<u8>, ErrorView>(
                    phase_one_packet(self@, caps.ttc_field_version, large_sdu),
                ),
                AuthPhase::Two => is_phase_two_packet(
                    self@,
                    caps.ttc_field_version,
                    large_sdu,
                    packet_outcome(result),
                ),
                AuthPhase::Complete => packet_outcome(result) == Err::<Seq<u8>, ErrorView>(
                    ErrorView::Protocol("Authentication already complete"@),
                ),
            },
    {
        match self.phase {
            AuthPhase::One => Ok(self.build_phase_one(caps, large_sdu)),
            AuthPhase::Two => self.build_phase_two(caps, large_sdu),
            AuthPhase::Complete => Err(
                Error::Protocol("Authentication already complete".to_string()),
            ),
        }
    }

    /// Build phase one request (username and session info)
    pub fn build_phase_one(&self, caps: &Capabilities, large_sdu: bool) -> (packet: Bytes)
        ensures
            content(packet) == phase_one_packet(self@, caps.ttc_field_version, large_sdu),
    {
        let ghost space = zero_bytes(PACKET_HEADER_SIZE as nat);
        let mut buf = self.begin_request(
            caps,
            FunctionCode::AuthPhaseOne,
            self.sequence_number,
            self.auth_mode,
            5,
        );
        // Write key/value pairs
        self.write_key_value(&mut buf, "AUTH_TERMINAL", self.terminal.as_str(), 0);
        self.write_key_value(&mut buf, "AUTH_PROGRAM_NM", self.program.as_str(), 0);
        self.write_key_value(&mut buf, "AUTH_MACHINE", self.machine.as_str(), 0);
        self.write_key_value(&mut buf, "AUTH_PID", self.pid.as_str(), 0);
        self.write_key_value(&mut buf, "AUTH_SID", self.osuser.as_str(), 0);
        proof {
            let p0 = request_front(
                FunctionCode::AuthPhaseOne,
                self@.sequence_number,
                caps.ttc_field_version,
                self@.username,
                self@.auth_mode,
                5,
            );
            let terminal = key_value("AUTH_TERMINAL"@, self@.terminal, 0);
            let program = key_value("AUTH_PROGRAM_NM"@, self@.program, 0);
            let machine = key_value("AUTH_MACHINE"@, self@.machine, 0);
            let pid = key_value("AUTH_PID"@, self@.pid, 0);
            let sid = key_value("AUTH_SID"@, self@.osuser, 0);
            lemma_append(space, p0, terminal);
            lemma_append(space, p0 + terminal, program);
            lemma_append(space, p0 + terminal + program, machine);
            lemma_append(space, p0 + terminal + program + machine, pid);
            lemma_append(space, p0 + terminal + program + machine + pid, sid);
            lemma_behind(space, p0 + terminal + program + machine + pid + sid);
        }
        seal_packet(buf, PacketType::Data, large_sdu)
    }

    /// Build phase two request (encrypted password and session parameters)
    pub fn build_phase_two(&self, caps: &Capabilities, large_sdu: bool) -> (result: Result<Bytes>)
        ensures
            is_phase_two_packet(
                self@,
                caps.ttc_field_version,
                large_sdu,
                packet_outcome(result),
            ),
    {
        let password_salt = generate_salt();
        let key_salt = generate_salt();
        let utc_offset: i32 = local_utc_offset();
        self.build_phase_two_with(
            caps,
            large_sdu,
            password_salt.as_slice(),
            key_salt.as_slice(),
            utc_offset,
        )
    }

    /// Build phase two request with the given salts and local offset from UTC in seconds
    pub fn build_phase_two_with(
        &self,
        caps: &Capabilities,
        large_sdu: bool,
        password_salt: &[u8],
        key_salt: &[u8],
        utc_offset: i32,
    ) -> (result: Result<Bytes>)
        requires
            i32::MIN < utc_offset,
        ensures
            packet_outcome(result) == phase_two_packet(
                self@,
                caps.ttc_field_version,
                large_sdu,
                password_salt@,
                key_salt@,
                utc_offset as int,
            ),
    {
        // This requires session data from phase one response
        let encoded_password = match self.encode_password(password_salt) {
            Ok(encoded) => encoded,
            Err(error) => {
                return Err(error);
            },
        };
        let session_key = match &self.client_session_key {
            Some(key) => key,
            None => {
                return Err(Error::Protocol("Client session key not generated".to_string()));
            },
        };
        let speedy_key = match self.generate_speedy_key(key_salt) {
            Ok(key) => key,
            Err(error) => {
                return Err(error);
            },
        };
        // Calculate number of pairs based on verifier type
        let num_pairs: u32 = if self.verifier_type == verifier_type::V12C {
            7  // 6 base + AUTH_PBKDF2_SPEEDY_KEY
        } else {
            6  // base pairs only
        };
        let ghost space = zero_bytes(PACKET_HEADER_SIZE as nat);
        let mut buf = self.begin_request(
            caps,
            FunctionCode::AuthPhaseTwo,
            2,
            self.auth_mode | auth_mode::WITH_PASSWORD,
            num_pairs,
        );
        let ghost front = buf@;
        // Session key (client portion)
        let session_key_hex = hex_codec::encode_upper(session_key.as_slice());
        proof {
            hex_codec::lemma_hex_upper_is_ascii(session_key@);
        }
        // For 12c, use first 64 chars; for 11g, use first 96 chars
        let key_len: usize = if self.verifier_type == verifier_type::V12C {
            64
        } else {
            96
        };
        let hex_len: usize = session_key_hex.as_str().unicode_len();
        let key_str = session_key_hex.as_str().substring_ascii(
            0,
            if key_len < hex_len {
                key_len
            } else {
                hex_len
            },
        );
        assert(key_str@ =~= session_key_sent(self@.verifier_type, session_key@));
        self.write_key_value(&mut buf, "AUTH_SESSKEY", key_str, 1);
        let ghost mut pairs = key_value("AUTH_SESSKEY"@, key_str@, 1);
        // For 12c, include speedy key
        match &speedy_key {
            Some(key) => {
                self.write_key_value(&mut buf, "AUTH_PBKDF2_SPEEDY_KEY", key.as_str(), 0);
                proof {
                    let piece = key_value("AUTH_PBKDF2_SPEEDY_KEY"@, key@, 0);
                    lemma_append(front, pairs, piece);
                    pairs = pairs + piece;
                }
            },
            None => {
                assert(pairs + Seq::<u8>::empty() =~= pairs);
            },
        }
        assert(buf@ == front + pairs);
        // Encrypted password
        self.write_key_value(&mut buf, "AUTH_PASSWORD", encoded_password.as_str(), 0);
        // Session parameters
        self.write_key_value(&mut buf, "SESSION_CLIENT_CHARSET", "873", 0);
        self.write_key_value(&mut buf, "SESSION_CLIENT_DRIVER_NAME", self.driver_name.as_str(), 0);
        // Client version (packed version number)
        self.write_key_value(&mut buf, "SESSION_CLIENT_VERSION", "54530048", 0);
        // Timezone alter session
        let tz_stmt = self.get_alter_timezone_statement(utc_offset);
        self.write_key_value(&mut buf, "AUTH_ALTER_SESSION", tz_stmt.as_str(), 1);
        proof {
            let password = key_value("AUTH_PASSWORD"@, encoded_password@, 0);
            let charset = key_value("SESSION_CLIENT_CHARSET"@, "873"@, 0);
            let driver = key_value("SESSION_CLIENT_DRIVER_NAME"@, self@.driver_name, 0);
            let version = key_value("SESSION_CLIENT_VERSION"@, "54530048"@, 0);
            let zone = key_value("AUTH_ALTER_SESSION"@, tz_stmt@, 1);
            lemma_append(front, pairs, password);
            lemma_append(front, pairs + password, charset);
            lemma_append(front, pairs + password + charset, driver);
            lemma_append(front, pairs + password + charset + driver, version);
            lemma_append(front, pairs + password + charset + driver + version, zone);
            pairs = pairs + password + charset + driver + version + zone;
            assert(pairs == phase_two_pairs(
                self@,
                encoded_password@,
                session_key@,
                opt_text(speedy_key),
                utc_offset as int,
            ));
            let message = request_front(
                FunctionCode::AuthPhaseTwo,
                2,
                caps.ttc_field_version,
                self@.username,
                self@.auth_mode | auth_mode::WITH_PASSWORD,
                num_pairs,
            );
            lemma_append(space, message, pairs);
            lemma_behind(space, message + pairs);
        }
        Ok(seal_packet(buf, PacketType::Data, large_sdu))
    }

    /// Encrypt the password using the combo key, with the given salt in front of it
    pub fn encode_password(&self, salt: &[u8]) -> (result: Result<String>)
        ensures
            text_outcome(result) == password_encoded(self@, salt@),
            result matches Ok(text) ==> is_hex(text@) && opened(
                self@.verifier_type,
                self@.combo_key->0,
                hex_bytes(text@),
            ) == Ok::<Seq<u8>, CryptoError>(
                salt@ + self@.password + pkcs7_padding((salt@ + self@.password).len()),
            ),
    {
        let combo_key = match &self.combo_key {
            Some(key) => key,
            None => {
                return Err(Error::Protocol("Combo key not generated".to_string()));
            },
        };
        // Add random salt to password
        let password_with_salt = concat_bytes(salt, self.password.as_slice());
        // Encrypt based on verifier type (uses PKCS7 padding)
        let encrypted = if self.verifier_type == verifier_type::V12C {
            encrypt_cbc_256_pkcs7(combo_key.as_slice(), password_with_salt.as_slice())
        } else {
            encrypt_cbc_192(combo_key.as_slice(), password_with_salt.as_slice())
        };
        match encrypted {
            Ok(bytes) => {
                proof {
                    hex_reads_back(bytes@);
                }
                Ok(hex_codec::encode_upper(bytes.as_slice()))
            },
            Err(error) => Err(error),
        }
    }

    /// Generate speedy key for 12c authentication, with the given salt in front of it
    pub fn generate_speedy_key(&self, random_salt: &[u8]) -> (result: Result<Option<String>>)
        ensures
            opt_text_outcome(result) == speedy_key_made(self@, random_salt@),
            result matches Ok(Some(text)) ==> is_hex(text@) && (random_salt@.len() == SALT_SIZE
                ==> decrypted_256(self@.combo_key->0, hex_bytes(text@)) == Ok::<
                Seq<u8>,
                CryptoError,
            >(
                random_salt@ + pbkdf2_key(
                    self@.password,
                    hex_bytes(self@.session.auth_vfr_data->0) + encode_utf8(
                        "AUTH_PBKDF2_SPEEDY_KEY"@,
                    ),
                    self@.session.auth_pbkdf2_vgen_count->0,
                    64,
                ),
            )),
    {
        if self.verifier_type != verifier_type::V12C {
            return Ok(None);
        }
        let combo_key = match &self.combo_key {
            Some(key) => key,
            None => {
                return Err(Error::Protocol("Combo key not generated".to_string()));
            },
        };
        // Generate speedy key data
        let vfr_data = match &self.session_data.auth_vfr_data {
            Some(text) => text,
            None => {
                return Err(Error::AuthenticationFailed("Missing AUTH_VFR_DATA".to_string()));
            },
        };
        let vfr_bytes = match hex_codec::decode(vfr_data.as_str()) {
            Ok(bytes) => bytes,
            Err(said) => {
                return Err(
                    Error::Protocol(
                        "Invalid AUTH_VFR_DATA hex: ".to_string().concat(said.as_str()),
                    ),
                );
            },
        };
        let iterations: u32 = match self.session_data.auth_pbkdf2_vgen_count {
            Some(count) => count,
            None => {
                return Err(Error::AuthenticationFailed("Missing iterations".to_string()));
            },
        };
        // Create salt for password key derivation
        let salt = concat_bytes(vfr_bytes.as_slice(), "AUTH_PBKDF2_SPEEDY_KEY".as_bytes());
        let password_key = pbkdf2_derive(self.password.as_slice(), salt.as_slice(), iterations, 64);
        // Encrypt salt + password_key with combo key (uses PKCS7 padding)
        let speedy_data = concat_bytes(random_salt, password_key.as_slice());
        match encrypt_cbc_256_pkcs7(combo_key.as_slice(), speedy_data.as_slice()) {
            Ok(encrypted) => {
                let shown = vstd::slice::slice_subrange(encrypted.as_slice(), 0, 80);
                assert(shown@ =~= encrypted@.take(80));
                proof {
                    hex_reads_back(shown@);
                    if random_salt@.len() == SALT_SIZE {
                        let padded = speedy_data@ + pkcs7_padding(speedy_data@.len());
                        assert(padded.take(80) =~= speedy_data@);
                    }
                }
                Ok(Some(hex_codec::encode_upper(shown)))
            },
            Err(error) => Err(error),
        }
    }

    /// Get timezone alter session statement, for the given local offset from UTC in seconds
    pub fn get_alter_timezone_statement(&self, utc_offset: i32) -> (statement: String)
        requires
            i32::MIN < utc_offset,
        ensures
            statement@ == time_zone_statement(self@.session_time_zone, utc_offset as int),
    {
        let mut statement = "ALTER SESSION SET TIME_ZONE='".to_string();
        match &self.session_time_zone {
            Some(zone) => {
                statement.append(zone.as_str());
                statement.append("'\x00");
            },
            None => {
                // Use local timezone offset
                let magnitude: i32 = if utc_offset < 0 {
                    -utc_offset
                } else {
                    utc_offset
                };
                statement.append(
                    if utc_offset < 0 {
                        "-"
                    } else {
                        "+"
                    },
                );
                append_padded_decimal(&mut statement, (magnitude / 3600) as u64, 2);
                statement.append(":");
                append_padded_decimal(&mut statement, (magnitude % 3600 / 60) as u64, 2);
                statement.append("'\x00");
            },
        }
        assert(statement@ =~= time_zone_statement(self@.session_time_zone, utc_offset as int));
        statement
    }

    /// Parse the authentication response and advance to next phase
    ///
    /// A response that fails the check of the server does not complete the authentication.
    pub fn parse_response(&mut self, payload: &[u8]) -> (result: Result<()>)
        ensures
            exists|part_b: Seq<u8>|
                #![trigger answered(old(self)@, payload@, part_b)]
                part_b.len() == half_size(final(self)@.session) && (final(self)@, outcome(result))
                    == answered(old(self)@, payload@, part_b),
            old(self)@.phase == AuthPhase::One && result is Ok ==> has_keys(final(self)@),
            old(self)@.phase == AuthPhase::Two ==> final(self)@.phase == (if result is Ok {
                AuthPhase::Complete
            } else {
                AuthPhase::Two
            }),
    {
        let answer = match Self::read_answer(payload) {
            Ok(answer) => answer,
            Err(error) => {
                proof {
                    let part_b = Seq::new(half_size(self@.session), |i: int| 0u8);
                    assert((self@, Err::<(), ErrorView>(error@)) == answered(
                        old(self)@,
                        payload@,
                        part_b,
                    ));
                }
                return Err(error);
            },
        };
        let (pairs, vtype) = answer;
        self.session_data = SessionData::from_pairs(&pairs);
        // Only update verifier_type if we found AUTH_VFR_DATA (phase one only)
        if vtype != 0 {
            self.verifier_type = vtype;
        }
        // Advance phase
        match self.phase {
            AuthPhase::One => {
                self.phase = AuthPhase::Two;
                let ghost between = self@;
                assert(between == advanced(received(old(self)@, (pairs_of(pairs@), vtype))));
                let result = self.generate_verifier();
                proof {
                    let part_b = choose|part_b: Seq<u8>|
                        #![trigger verifier_made(between, part_b)]
                        part_b.len() == half_size(between.session) && (self@, outcome(result))
                            == verifier_made(between, part_b);
                    assert((self@, outcome(result)) == answered(old(self)@, payload@, part_b));
                }
                result
            },
            AuthPhase::Two => {
                let result = self.verify_server_response();
                if result.is_ok() {
                    self.phase = AuthPhase::Complete;
                }
                proof {
                    let part_b = Seq::new(half_size(self@.session), |i: int| 0u8);
                    assert((self@, outcome(result)) == answered(old(self)@, payload@, part_b));
                }
                result
            },
            AuthPhase::Complete => {
                proof {
                    let part_b = Seq::new(half_size(self@.session), |i: int| 0u8);
                    assert((self@, Ok::<(), ErrorView>(())) == answered(
                        old(self)@,
                        payload@,
                        part_b,
                    ));
                }
                Ok(())
            },
        }
    }

    /// Read the parameters and the verifier type of a response
    fn read_answer(payload: &[u8]) -> (result: Result<(StringHashMap<String>, u32)>)
        ensures
            match result {
                Ok((pairs, vtype)) => answer_of(payload@) == Ok::<(Pairs, u32), ErrorView>(
                    (pairs_of(pairs@), vtype),
                ),
                Err(error) => answer_of(payload@) == Err::<(Pairs, u32), ErrorView>(error@),
            },
    {
        let mut buf = ReadBuffer::from_slice(payload);
        // Skip data flags
        match buf.skip(2) {
            Ok(_) => {},
            Err(error) => {
                return Err(error);
            },
        }
        // Read message type
        let msg_type: u8 = match buf.read_u8() {
            Ok(msg_type) => msg_type,
            Err(error) => {
                return Err(error);
            },
        };
        if msg_type == MessageType::Error.code() {
            return Err(Error::AuthenticationFailed("Server returned error".to_string()));
        }
        // Parse return parameters
        // AUTH response uses UB2 format: indicator byte + value byte(s)

        let num_params: u16 = match buf.read_ub2() {
            Ok(count) => count,
            Err(error) => {
                return Err(error);
            },
        };
        Self::read_params(&mut buf, num_params)
    }

    /// Read the given number of parameters
    fn read_params(buf: &mut ReadBuffer, num_params: u16) -> (result: Result<
        (StringHashMap<String>, u32),
    >)
        ensures
            match reading_params(old(buf)@, num_params as nat, Map::empty(), 0) {
                Ok((pairs, vtype)) => result matches Ok(answer) && pairs_of(answer.0@) == pairs
                    && answer.1 == vtype,
                Err(error) => result == Err::<(StringHashMap<String>, u32), Error>(
                    Error::Buffer(error),
                ),
            },
    {
        let mut pairs: StringHashMap<String> = StringHashMap::new();
        let mut vtype: u32 = 0;
        let mut left: u16 = num_params;
        assert(pairs_of(pairs@) =~= Map::<Seq<char>, Seq<char>>::empty());
        while left > 0
            invariant
                reading_params(buf@, left as nat, pairs_of(pairs@), vtype) == reading_params(
                    old(buf)@,
                    num_params as nat,
                    Map::empty(),
                    0,
                ),
            decreases left,
        {
            // AUTH response strings use: indicator (1) + length (1) + length_confirm (1) + data
            let key = match Self::read_auth_string(buf) {
                Ok(key) => key,
                Err(error) => {
                    return Err(error);
                },
            };
            let value = match Self::read_auth_string(buf) {
                Ok(value) => value,
                Err(error) => {
                    return Err(error);
                },
            };
            // For AUTH_VFR_DATA, also read the verifier type
            if same_text(key.as_str(), "AUTH_VFR_DATA") {
                vtype = match buf.read_ub4() {
                    Ok(number) => number,
                    Err(error) => {
                        return Err(error);
                    },
                };
            } else {
                // Skip flags
                match buf.skip_ub4() {
                    Ok(_) => {},
                    Err(error) => {
                        return Err(error);
                    },
                }
            }
            assert(pairs_of(pairs@.insert(key@, value)) =~= pairs_of(pairs@).insert(
                key@,
                value@,
            ));
            pairs.insert(key, value);
            left = left - 1;
        }
        Ok((pairs, vtype))
    }

    /// Read a string from the AUTH response in ub4 + bytes_with_length format.
    ///
    /// A ub4 (variable-length u32) gives the declared length. If that is non-zero, length-prefixed
    /// bytes with the actual string data follow. Where these cannot be read, the declared length
    /// has been read all the same.
    pub fn read_auth_string(buf: &mut ReadBuffer) -> (result: Result<String>)
        ensures
            match reading_auth_string(old(buf)@) {
                Ok((text, rest)) => result matches Ok(value) && value@ == text && final(buf)@
                    == rest,
                Err(error) => result == Err::<String, Error>(Error::Buffer(error)) && final(buf)@
                    == (match reading_ub(old(buf)@, 4) {
                    Ok((_, behind_length)) => behind_length,
                    Err(_) => old(buf)@,
                }),
            },
            forall|text: Seq<char>, rest: Seq<u8>|
                #![trigger auth_string(text) + rest]
                encode_utf8(text).len() <= u32::MAX && old(buf)@ == auth_string(text) + rest
                    ==> (result matches Ok(value) && value@ == text && final(buf)@ == rest),
    {
        let declared_len: u32 = match buf.read_ub4() {
            Ok(len) => len,
            Err(error) => {
                return Err(error);
            },
        };
        let mut text = String::new();
        if declared_len != 0 {
            match buf.read_bytes_with_length() {
                Ok(Some(bytes)) => {
                    text = text_from_utf8_lossy(bytes.as_slice());
                },
                Ok(None) => {},
                Err(error) => {
                    proof {
                        assert forall|written: Seq<char>, rest: Seq<u8>|
                            encode_utf8(written).len() <= u32::MAX && old(buf)@
                                == #[trigger] (auth_string(written) + rest) implies false by {
                            lemma_auth_string_reads_back(written, rest);
                        }
                    }
                    return Err(error);
                },
            }
        }
        proof {
            assert forall|written: Seq<char>, rest: Seq<u8>|
                encode_utf8(written).len() <= u32::MAX && old(buf)@ == #[trigger] (auth_string(
                    written,
                ) + rest) implies text@ == written && buf@ == rest by {
                lemma_auth_string_reads_back(written, rest);
            }
            assert(declared_len == 0 ==> text@ =~= Seq::<char>::empty());
        }
        Ok(text)
    }

    /// Generate the verifier (session keys and combo key)
    pub fn generate_verifier(&mut self) -> (result: Result<()>)
        ensures
            exists|part_b: Seq<u8>|
                #![trigger verifier_made(old(self)@, part_b)]
                part_b.len() == half_size(old(self)@.session) && (final(self)@, outcome(result))
                    == verifier_made(old(self)@, part_b),
            result is Ok ==> has_keys(final(self)@),
    {
        let ghost zeros = Seq::new(half_size(self@.session), |i: int| 0u8);
        let vfr_data = match &self.session_data.auth_vfr_data {
            Some(text) => text,
            None => {
                assert(verifier_made(old(self)@, zeros).0 == self@);
                return Err(Error::AuthenticationFailed("Missing AUTH_VFR_DATA".to_string()));
            },
        };
        let vfr_bytes = match hex_codec::decode(vfr_data.as_str()) {
            Ok(bytes) => bytes,
            Err(said) => {
                assert(verifier_made(old(self)@, zeros).0 == self@);
                return Err(
                    Error::Protocol(
                        "Invalid AUTH_VFR_DATA hex: ".to_string().concat(said.as_str()),
                    ),
                );
            },
        };
        let server_key = match &self.session_data.auth_sesskey {
            Some(text) => text,
            None => {
                assert(verifier_made(old(self)@, zeros).0 == self@);
                return Err(Error::AuthenticationFailed("Missing AUTH_SESSKEY".to_string()));
            },
        };
        let server_key_bytes = match hex_codec::decode(server_key.as_str()) {
            Ok(bytes) => bytes,
            Err(said) => {
                assert(verifier_made(old(self)@, zeros).0 == self@);
                return Err(
                    Error::Protocol("Invalid AUTH_SESSKEY hex: ".to_string().concat(said.as_str())),
                );
            },
        };
        if self.verifier_type == verifier_type::V12C {
            let result = self.generate_12c_verifier(
                vfr_bytes.as_slice(),
                server_key_bytes.as_slice(),
            );
            proof {
                let part_b = choose|part_b: Seq<u8>|
                    #![trigger verifier_12c_made(old(self)@, vfr_bytes@, server_key_bytes@, part_b)]
                    part_b.len() == server_key_bytes@.len() && (self@, outcome(result))
                        == verifier_12c_made(old(self)@, vfr_bytes@, server_key_bytes@, part_b);
                assert(verifier_made(old(self)@, part_b) == (self@, outcome(result)));
            }
            result
        } else if self.verifier_type == verifier_type::V11G_1 || self.verifier_type
            == verifier_type::V11G_2 {
            let result = self.generate_11g_verifier(
                vfr_bytes.as_slice(),
                server_key_bytes.as_slice(),
            );
            proof {
                let part_b = choose|part_b: Seq<u8>|
                    #![trigger verifier_11g_made(old(self)@, vfr_bytes@, server_key_bytes@, part_b)]
                    part_b.len() == server_key_bytes@.len() && (self@, outcome(result))
                        == verifier_11g_made(old(self)@, vfr_bytes@, server_key_bytes@, part_b);
                assert(verifier_made(old(self)@, part_b) == (self@, outcome(result)));
            }
            result
        } else {
            assert(verifier_made(old(self)@, zeros).0 == self@);
            Err(Error::UnsupportedVerifierType(self.verifier_type))
        }
    }

    /// Generate 12c verifier
    pub fn generate_12c_verifier(&mut self, vfr_data: &[u8], server_key: &[u8]) -> (result: Result<
        (),
    >)
        ensures
            exists|part_b: Seq<u8>|
                #![trigger verifier_12c_made(old(self)@, vfr_data@, server_key@, part_b)]
                part_b.len() == server_key@.len() && (final(self)@, outcome(result))
                    == verifier_12c_made(old(self)@, vfr_data@, server_key@, part_b),
            result is Ok ==> (final(self)@.combo_key matches Some(key) && key.len()
                == KEY_SIZE_256),
    {
        let ghost zeros = Seq::new(server_key@.len(), |i: int| 0u8);
        let iterations: u32 = match self.session_data.auth_pbkdf2_vgen_count {
            Some(count) => count,
            None => {
                assert(verifier_12c_made(old(self)@, vfr_data@, server_key@, zeros).0 == self@);
                return Err(
                    Error::AuthenticationFailed("Missing AUTH_PBKDF2_VGEN_COUNT".to_string()),
                );
            },
        };
        // Generate password hash
        let password_hash = generate_12c_password_hash(
            self.password.as_slice(),
            vfr_data,
            iterations,
        );
        // Decrypt server's session key part
        let session_key_part_a = match decrypt_cbc_256(password_hash.as_slice(), server_key) {
            Ok(part) => part,
            Err(error) => {
                assert(verifier_12c_made(old(self)@, vfr_data@, server_key@, zeros).0 == self@);
                return Err(error);
            },
        };
        // Generate client's session key part (same length as server's)
        let session_key_part_b = generate_session_key_part(session_key_part_a.len());
        assert(verifier_12c_made(old(self)@, vfr_data@, server_key@, session_key_part_b@)
            == keys_12c_made(
            old(self)@,
            password_hash@,
            session_key_part_a@,
            session_key_part_b@,
        ));
        self.make_12c_keys(
            password_hash.as_slice(),
            session_key_part_a.as_slice(),
            session_key_part_b.as_slice(),
        )
    }

    /// Generate the client session key and the combo key of a 12c verifier from the two halves of
    /// the session key
    pub fn make_12c_keys(
        &mut self,
        password_hash: &[u8],
        session_key_part_a: &[u8],
        session_key_part_b: &[u8],
    ) -> (result: Result<()>)
        ensures
            (final(self)@, outcome(result)) == keys_12c_made(
                old(self)@,
                password_hash@,
                session_key_part_a@,
                session_key_part_b@,
            ),
            result is Ok ==> (final(self)@.combo_key matches Some(key) && key.len()
                == KEY_SIZE_256),
            result is Ok ==> (final(self)@.client_session_key matches Some(key) && decrypted_256(
                password_hash@,
                key,
            ) == Ok::<Seq<u8>, CryptoError>(
                session_key_part_b@ + pkcs7_padding(session_key_part_b@.len()),
            )),
            result is Ok && session_key_part_b@.len() == 32 ==> decrypted_256(
                password_hash@,
                final(self)@.client_session_key->0.take(32),
            ) == Ok::<Seq<u8>, CryptoError>(session_key_part_b@),
    {
        // Encrypt client's part (uses PKCS7 padding)
        match encrypt_cbc_256_pkcs7(password_hash, session_key_part_b) {
            Ok(encrypted_client_key) => {
                proof {
                    let padding = pkcs7_padding(session_key_part_b@.len());
                    if session_key_part_b@.len() == 32 {
                        assert((session_key_part_b@ + padding).take(32) =~= session_key_part_b@);
                        assert(encrypted_client_key@.take(32).len() == 32);
                    }
                }
                self.client_session_key = Some(encrypted_client_key);
            },
            Err(error) => {
                return Err(error);
            },
        }
        // Generate combo key
        let csk_salt = match &self.session_data.auth_pbkdf2_csk_salt {
            Some(text) => text,
            None => {
                return Err(Error::AuthenticationFailed("Missing AUTH_PBKDF2_CSK_SALT".to_string()));
            },
        };
        let csk_salt_bytes = match hex_codec::decode(csk_salt.as_str()) {
            Ok(bytes) => bytes,
            Err(said) => {
                return Err(
                    Error::Protocol("Invalid CSK_SALT hex: ".to_string().concat(said.as_str())),
                );
            },
        };
        let sder_count: u32 = match self.session_data.auth_pbkdf2_sder_count {
            Some(count) => count,
            None => {
                return Err(
                    Error::AuthenticationFailed("Missing AUTH_PBKDF2_SDER_COUNT".to_string()),
                );
            },
        };
        self.combo_key = Some(
            generate_12c_combo_key(
                session_key_part_a,
                session_key_part_b,
                csk_salt_bytes.as_slice(),
                sder_count,
            ),
        );
        Ok(())
    }

    /// Generate 11g verifier
    pub fn generate_11g_verifier(&mut self, vfr_data: &[u8], server_key: &[u8]) -> (result: Result<
        (),
    >)
        ensures
            exists|part_b: Seq<u8>|
                #![trigger verifier_11g_made(old(self)@, vfr_data@, server_key@, part_b)]
                part_b.len() == server_key@.len() && (final(self)@, outcome(result))
                    == verifier_11g_made(old(self)@, vfr_data@, server_key@, part_b),
            result is Ok ==> (final(self)@.combo_key matches Some(key) && key.len()
                == KEY_SIZE_192),
    {
        // Generate password hash
        let password_hash = generate_11g_password_hash(self.password.as_slice(), vfr_data);
        // Decrypt server's session key part
        let session_key_part_a = match decrypt_cbc_192(password_hash.as_slice(), server_key) {
            Ok(part) => part,
            Err(error) => {
                proof {
                    let zeros = Seq::new(server_key@.len(), |i: int| 0u8);
                    assert(verifier_11g_made(old(self)@, vfr_data@, server_key@, zeros).0 == self@);
                }
                return Err(error);
            },
        };
        // Generate client's session key part
        let session_key_part_b = generate_session_key_part(session_key_part_a.len());
        assert(verifier_11g_made(old(self)@, vfr_data@, server_key@, session_key_part_b@)
            == keys_11g_made(
            old(self)@,
            password_hash@,
            session_key_part_a@,
            session_key_part_b@,
        ));
        self.make_11g_keys(
            password_hash.as_slice(),
            session_key_part_a.as_slice(),
            session_key_part_b.as_slice(),
        )
    }

    /// Generate the client session key and the combo key of an 11g verifier from the two halves of
    /// the session key
    pub fn make_11g_keys(
        &mut self,
        password_hash: &[u8],
        session_key_part_a: &[u8],
        session_key_part_b: &[u8],
    ) -> (result: Result<()>)
        ensures
            (final(self)@, outcome(result)) == keys_11g_made(
                old(self)@,
                password_hash@,
                session_key_part_a@,
                session_key_part_b@,
            ),
            result is Ok ==> (final(self)@.combo_key matches Some(key) && key.len()
                == KEY_SIZE_192),
            result is Ok ==> (final(self)@.client_session_key matches Some(key) && decrypted_192(
                password_hash@,
                key,
            ) == Ok::<Seq<u8>, CryptoError>(
                session_key_part_b@ + pkcs7_padding(session_key_part_b@.len()),
            )),
            result is Ok && session_key_part_b@.len() == 48 ==> decrypted_192(
                password_hash@,
                final(self)@.client_session_key->0.take(48),
            ) == Ok::<Seq<u8>, CryptoError>(session_key_part_b@),
    {
        // Encrypt client's part
        match encrypt_cbc_192(password_hash, session_key_part_b) {
            Ok(encrypted_client_key) => {
                proof {
                    let padding = pkcs7_padding(session_key_part_b@.len());
                    if session_key_part_b@.len() == 48 {
                        assert((session_key_part_b@ + padding).take(48) =~= session_key_part_b@);
                        assert(encrypted_client_key@.take(48).len() == 48);
                    }
                }
                self.client_session_key = Some(encrypted_client_key);
            },
            Err(error) => {
                return Err(error);
            },
        }
        // Generate combo key
        self.combo_key = Some(generate_11g_combo_key(session_key_part_a, session_key_part_b));
        Ok(())
    }

    /// Verify server response after phase two
    pub fn verify_server_response(&self) -> (result: Result<()>)
        ensures
            outcome(result) == server_response_checked(self@),
    {
        let response = match &self.session_data.auth_svr_response {
            Some(text) => text,
            // No response to verify (older servers may not send this)
            None => {
                return Ok(());
            },
        };
        let combo_key = match &self.combo_key {
            Some(key) => key,
            None => {
                return Err(Error::Protocol("Combo key not available".to_string()));
            },
        };
        let encrypted = match hex_codec::decode(response.as_str()) {
            Ok(bytes) => bytes,
            Err(said) => {
                return Err(
                    Error::Protocol(
                        "Invalid server response hex: ".to_string().concat(said.as_str()),
                    ),
                );
            },
        };
        let opened = if self.verifier_type == verifier_type::V12C {
            decrypt_cbc_256(combo_key.as_slice(), encrypted.as_slice())
        } else {
            decrypt_cbc_192(combo_key.as_slice(), encrypted.as_slice())
        };
        let decrypted = match opened {
            Ok(bytes) => bytes,
            Err(error) => {
                return Err(error);
            },
        };
        // Check for "SERVER_TO_CLIENT" marker
        if decrypted.len() >= 32 && same_bytes(
            vstd::slice::slice_subrange(decrypted.as_slice(), 16, 32),
            "SERVER_TO_CLIENT".as_bytes(),
        ) {
            Ok(())
        } else {
            Err(Error::AuthenticationFailed("Invalid server response".to_string()))
        }
    }

    /// Clear sensitive data
    pub fn clear_password(&mut self)
        ensures
            final(self)@ == (AuthView { password: Seq::empty(), ..old(self)@ }),
    {
        fill(&mut self.password, 0);
        self.password.clear();
    }
}

impl Drop for AuthMessage {
    /// Overwrite the password with zeros
    fn drop(&mut self)
        ensures
            final(self)@ == (AuthView {
                password: zero_bytes(old(self)@.password.len()),
                ..old(self)@
            }),
        opens_invariants none
        no_unwind
    {
        fill(&mut self.password, 0);
    }
}

} // verus!
