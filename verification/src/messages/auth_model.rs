//! What the messages of the O5LOGON protocol mean.
//!
//! The functions here say, over plain values, which bytes the client sends in each phase and what
//! it makes of the server's answers.

use crate::buffer::read::{reading_bytes, reading_ub, reading_with_length, Reading};
use crate::buffer::write::{ub4, ub8, with_length};
use crate::constants::{auth_mode, verifier_type, FunctionCode, MessageType, PacketType};
use crate::crypto::{
    combo_key_11g, combo_key_12c, decrypted_192, decrypted_256, encrypted_192, encrypted_256,
    password_hash_11g, password_hash_12c, pbkdf2_key, speedy_salt, KEY_SIZE_192, KEY_SIZE_256,
    SALT_SIZE,
};
use crate::error::{opt_text, CryptoError, ErrorView, ReadError, Result};
use crate::hex_codec::{hex_bytes, hex_failure, hex_upper, is_hex};
use crate::messages::auth::{AuthPhase, ClientEnvironment};
use crate::packet::{content, packet_bytes};
use crate::text::{decimal, number_u32, padded_decimal, uppercase, utf8_lossy};
use bytes::Bytes;
use vstd::prelude::*;
use vstd::utf8::encode_utf8;

verus! {

/// What the server said of the session, with its texts as sequences of characters.
pub struct SessionView {
    /// Server's session key (hex-encoded)
    pub auth_sesskey: Option<Seq<char>>,
    /// Verifier data (hex-encoded)
    pub auth_vfr_data: Option<Seq<char>>,
    /// PBKDF2 CSK salt (hex-encoded, for 12c)
    pub auth_pbkdf2_csk_salt: Option<Seq<char>>,
    /// PBKDF2 VGEN count
    pub auth_pbkdf2_vgen_count: Option<u32>,
    /// PBKDF2 SDER count
    pub auth_pbkdf2_sder_count: Option<u32>,
    /// Database version number
    pub auth_version_no: Option<u32>,
    /// Globally unique database ID
    pub auth_globally_unique_dbid: Option<Seq<char>>,
    /// Server response (for verification)
    pub auth_svr_response: Option<Seq<char>>,
}

/// State of an authentication.
pub struct AuthView {
    /// Username
    pub username: Seq<char>,
    /// Password
    pub password: Seq<u8>,
    /// Current authentication phase
    pub phase: AuthPhase,
    /// Authentication mode flags
    pub auth_mode: u32,
    /// Session data received from server
    pub session: SessionView,
    /// Verifier type (11g or 12c)
    pub verifier_type: u32,
    /// Combo key for encryption
    pub combo_key: Option<Seq<u8>>,
    /// Client session key
    pub client_session_key: Option<Seq<u8>>,
    /// Terminal name
    pub terminal: Seq<char>,
    /// Program name
    pub program: Seq<char>,
    /// Machine name
    pub machine: Seq<char>,
    /// OS username
    pub osuser: Seq<char>,
    /// Process ID
    pub pid: Seq<char>,
    /// Driver name
    pub driver_name: Seq<char>,
    /// Service name
    pub service_name: Seq<char>,
    /// Time zone that the session is to have, if one was asked for
    pub session_time_zone: Option<Seq<char>>,
    /// Sequence number for protocol messages
    pub sequence_number: u8,
}

/// Key-value pairs of the server.
pub type Pairs = Map<Seq<char>, Seq<char>>;

/// The state after a step, and how the step ended.
pub type Step = (AuthView, core::result::Result<(), ErrorView>);

/// The value of a key, if the server gave one.
pub open spec fn value_of(pairs: Pairs, key: Seq<char>) -> Option<Seq<char>> {
    if pairs.contains_key(key) {
        Some(pairs[key])
    } else {
        None
    }
}

/// The value of a key as a number, if the server gave one and it is a number.
pub open spec fn number_of(pairs: Pairs, key: Seq<char>) -> Option<u32> {
    match value_of(pairs, key) {
        Some(value) => number_u32(value),
        None => None,
    }
}

/// What key-value pairs say of the session.
pub open spec fn session_of(pairs: Pairs) -> SessionView {
    SessionView {
        auth_sesskey: value_of(pairs, "AUTH_SESSKEY"@),
        auth_vfr_data: value_of(pairs, "AUTH_VFR_DATA"@),
        auth_pbkdf2_csk_salt: value_of(pairs, "AUTH_PBKDF2_CSK_SALT"@),
        auth_pbkdf2_vgen_count: number_of(pairs, "AUTH_PBKDF2_VGEN_COUNT"@),
        auth_pbkdf2_sder_count: number_of(pairs, "AUTH_PBKDF2_SDER_COUNT"@),
        auth_version_no: number_of(pairs, "AUTH_VERSION_NO"@),
        auth_globally_unique_dbid: value_of(pairs, "AUTH_GLOBALLY_UNIQUE_DBID"@),
        auth_svr_response: value_of(pairs, "AUTH_SVR_RESPONSE"@),
    }
}

/// The session of which nothing is known.
pub open spec fn no_session() -> SessionView {
    SessionView {
        auth_sesskey: None,
        auth_vfr_data: None,
        auth_pbkdf2_csk_salt: None,
        auth_pbkdf2_vgen_count: None,
        auth_pbkdf2_sder_count: None,
        auth_version_no: None,
        auth_globally_unique_dbid: None,
        auth_svr_response: None,
    }
}

/// A string from the front: its declared length, then, unless that is zero, the string itself.
pub open spec fn reading_auth_string(bytes: Seq<u8>) -> Reading<Seq<char>> {
    match reading_ub(bytes, 4) {
        Err(error) => Err(error),
        Ok((declared, rest)) => if declared == 0 {
            Ok((Seq::empty(), rest))
        } else {
            match reading_with_length(rest) {
                Err(error) => Err(error),
                Ok((None, behind)) => Ok((Seq::empty(), behind)),
                Ok((Some(text), behind)) => Ok((utf8_lossy(text), behind)),
            }
        },
    }
}

/// `count` parameters from the front, each a key, a value and a number, put into `pairs`; with the
/// number that came last with the verifier data, or `vtype` where none did.
pub open spec fn reading_params(
    bytes: Seq<u8>,
    count: nat,
    pairs: Pairs,
    vtype: u32,
) -> core::result::Result<(Pairs, u32), ReadError>
    decreases count,
{
    if count == 0 {
        Ok((pairs, vtype))
    } else {
        match reading_auth_string(bytes) {
            Err(error) => Err(error),
            Ok((key, after_key)) => match reading_auth_string(after_key) {
                Err(error) => Err(error),
                Ok((value, after_value)) => match reading_ub(after_value, 4) {
                    Err(error) => Err(error),
                    Ok((number, rest)) => reading_params(
                        rest,
                        (count - 1) as nat,
                        pairs.insert(key, value),
                        if key == "AUTH_VFR_DATA"@ {
                            number as u32
                        } else {
                            vtype
                        },
                    ),
                },
            },
        }
    }
}

/// What an answer of the server says: the parameters and the verifier type (zero where none came).
pub open spec fn answer_of(payload: Seq<u8>) -> core::result::Result<(Pairs, u32), ErrorView> {
    match reading_bytes(payload, 2) {
        Err(error) => Err(ErrorView::Buffer(error)),
        Ok((_, after_flags)) => match reading_bytes(after_flags, 1) {
            Err(error) => Err(ErrorView::Buffer(error)),
            Ok((message_type, after_type)) => if message_type[0] == MessageType::Error.spec_code() {
                Err(ErrorView::AuthenticationFailed("Server returned error"@))
            } else {
                match reading_ub(after_type, 2) {
                    Err(error) => Err(ErrorView::Buffer(error)),
                    Ok((count, params)) => match reading_params(params, count, Map::empty(), 0) {
                        Err(error) => Err(ErrorView::Buffer(error)),
                        Ok(answer) => Ok(answer),
                    },
                }
            },
        },
    }
}

/// The phase that follows a phase.
pub open spec fn next_phase(phase: AuthPhase) -> AuthPhase {
    match phase {
        AuthPhase::One => AuthPhase::Two,
        AuthPhase::Two => AuthPhase::Complete,
        AuthPhase::Complete => AuthPhase::Complete,
    }
}

/// The state once an answer was read, before anything is made of it.
pub open spec fn received(state: AuthView, answer: (Pairs, u32)) -> AuthView {
    AuthView {
        session: session_of(answer.0),
        verifier_type: if answer.1 != 0 {
            answer.1
        } else {
            state.verifier_type
        },
        ..state
    }
}

/// The state moved on to the next phase.
pub open spec fn advanced(state: AuthView) -> AuthView {
    AuthView { phase: next_phase(state.phase), ..state }
}

/// What comes of an answer of the server, where `part_b` is the client's half of the session key.
/// The second phase is over only once the server's response was found to be right.
pub open spec fn answered(state: AuthView, payload: Seq<u8>, part_b: Seq<u8>) -> Step {
    match answer_of(payload) {
        Err(error) => (state, Err(error)),
        Ok(answer) => match state.phase {
            AuthPhase::One => verifier_made(advanced(received(state, answer)), part_b),
            AuthPhase::Two => match server_response_checked(received(state, answer)) {
                Ok(_) => (advanced(received(state, answer)), Ok(())),
                Err(error) => (received(state, answer), Err(error)),
            },
            AuthPhase::Complete => (received(state, answer), Ok(())),
        },
    }
}

/// How many bytes each half of the session key has: those of the half that the server sent.
pub open spec fn half_size(session: SessionView) -> nat {
    match session.auth_sesskey {
        Some(key) => key.len() / 2,
        None => 0,
    }
}

/// What comes of making the session keys, where `part_b` is the client's half.
pub open spec fn verifier_made(state: AuthView, part_b: Seq<u8>) -> Step {
    match state.session.auth_vfr_data {
        None => (state, Err(ErrorView::AuthenticationFailed("Missing AUTH_VFR_DATA"@))),
        Some(vfr) => if !is_hex(vfr) {
            (state, Err(ErrorView::Protocol("Invalid AUTH_VFR_DATA hex: "@ + hex_failure(vfr))))
        } else {
            match state.session.auth_sesskey {
                None => (state, Err(ErrorView::AuthenticationFailed("Missing AUTH_SESSKEY"@))),
                Some(key) => if !is_hex(key) {
                    (
                        state,
                        Err(ErrorView::Protocol("Invalid AUTH_SESSKEY hex: "@ + hex_failure(key))),
                    )
                } else if state.verifier_type == verifier_type::V12C {
                    verifier_12c_made(state, hex_bytes(vfr), hex_bytes(key), part_b)
                } else if state.verifier_type == verifier_type::V11G_1 || state.verifier_type
                    == verifier_type::V11G_2 {
                    verifier_11g_made(state, hex_bytes(vfr), hex_bytes(key), part_b)
                } else {
                    (state, Err(ErrorView::UnsupportedVerifierType(state.verifier_type)))
                },
            }
        },
    }
}

/// What comes of making the session keys of a 12c verifier.
pub open spec fn verifier_12c_made(
    state: AuthView,
    vfr_data: Seq<u8>,
    server_key: Seq<u8>,
    part_b: Seq<u8>,
) -> Step {
    match state.session.auth_pbkdf2_vgen_count {
        None => (state, Err(ErrorView::AuthenticationFailed("Missing AUTH_PBKDF2_VGEN_COUNT"@))),
        Some(iterations) => {
            let hash = password_hash_12c(state.password, vfr_data, iterations);
            match decrypted_256(hash, server_key) {
                Err(error) => (state, Err(ErrorView::Crypto(error))),
                Ok(part_a) => keys_12c_made(state, hash, part_a, part_b),
            }
        },
    }
}

/// What comes of making the session keys of a 12c verifier, once both halves are there.
pub open spec fn keys_12c_made(
    state: AuthView,
    hash: Seq<u8>,
    part_a: Seq<u8>,
    part_b: Seq<u8>,
) -> Step {
    match encrypted_256(hash, part_b) {
        Err(error) => (state, Err(ErrorView::Crypto(error))),
        Ok(client_key) => {
            let with_key = AuthView { client_session_key: Some(client_key), ..state };
            match state.session.auth_pbkdf2_csk_salt {
                None => (
                    with_key,
                    Err(ErrorView::AuthenticationFailed("Missing AUTH_PBKDF2_CSK_SALT"@)),
                ),
                Some(salt) => if !is_hex(salt) {
                    (
                        with_key,
                        Err(ErrorView::Protocol("Invalid CSK_SALT hex: "@ + hex_failure(salt))),
                    )
                } else {
                    match state.session.auth_pbkdf2_sder_count {
                        None => (
                            with_key,
                            Err(
                                ErrorView::AuthenticationFailed(
                                    "Missing AUTH_PBKDF2_SDER_COUNT"@,
                                ),
                            ),
                        ),
                        Some(count) => (
                            AuthView {
                                combo_key: Some(
                                    combo_key_12c(part_a, part_b, hex_bytes(salt), count),
                                ),
                                ..with_key
                            },
                            Ok(()),
                        ),
                    }
                },
            }
        },
    }
}

/// What comes of making the session keys of an 11g verifier.
pub open spec fn verifier_11g_made(
    state: AuthView,
    vfr_data: Seq<u8>,
    server_key: Seq<u8>,
    part_b: Seq<u8>,
) -> Step {
    let hash = password_hash_11g(state.password, vfr_data);
    match decrypted_192(hash, server_key) {
        Err(error) => (state, Err(ErrorView::Crypto(error))),
        Ok(part_a) => keys_11g_made(state, hash, part_a, part_b),
    }
}

/// What comes of making the session keys of an 11g verifier, once both halves are there.
pub open spec fn keys_11g_made(
    state: AuthView,
    hash: Seq<u8>,
    part_a: Seq<u8>,
    part_b: Seq<u8>,
) -> Step {
    match encrypted_192(hash, part_b) {
        Err(error) => (state, Err(ErrorView::Crypto(error))),
        Ok(client_key) => (
            AuthView {
                client_session_key: Some(client_key),
                combo_key: Some(combo_key_11g(part_a, part_b)),
                ..state
            },
            Ok(()),
        ),
    }
}

/// What the cipher of the verifier makes of data, under the combo key.
pub open spec fn sealed(verifier: u32, combo_key: Seq<u8>, data: Seq<u8>) -> core::result::Result<
    Seq<u8>,
    CryptoError,
> {
    if verifier == verifier_type::V12C {
        encrypted_256(combo_key, data)
    } else {
        encrypted_192(combo_key, data)
    }
}

/// What the cipher of the verifier makes of sealed data, under the combo key.
pub open spec fn opened(verifier: u32, combo_key: Seq<u8>, data: Seq<u8>) -> core::result::Result<
    Seq<u8>,
    CryptoError,
> {
    if verifier == verifier_type::V12C {
        decrypted_256(combo_key, data)
    } else {
        decrypted_192(combo_key, data)
    }
}

/// How checking the server's response ends.
pub open spec fn server_response_checked(state: AuthView) -> core::result::Result<(), ErrorView> {
    match state.session.auth_svr_response {
        None => Ok(()),
        Some(response) => match state.combo_key {
            None => Err(ErrorView::Protocol("Combo key not available"@)),
            Some(combo_key) => if !is_hex(response) {
                Err(ErrorView::Protocol("Invalid server response hex: "@ + hex_failure(response)))
            } else {
                match opened(state.verifier_type, combo_key, hex_bytes(response)) {
                    Err(error) => Err(ErrorView::Crypto(error)),
                    Ok(marker) => if marker.len() >= 32 && marker.subrange(16, 32) == encode_utf8(
                        "SERVER_TO_CLIENT"@,
                    ) {
                        Ok(())
                    } else {
                        Err(ErrorView::AuthenticationFailed("Invalid server response"@))
                    },
                }
            },
        },
    }
}

/// The bytes of a string: its length, then, unless that is zero, the string itself.
pub open spec fn auth_string(text: Seq<char>) -> Seq<u8> {
    let bytes = encode_utf8(text);
    ub4(bytes.len() as u32) + (if bytes.len() == 0 {
        Seq::empty()
    } else {
        with_length(bytes)
    })
}

/// True of a state in which the keys are there that phase two needs.
pub open spec fn has_keys(state: AuthView) -> bool {
    let key_size = if state.verifier_type == verifier_type::V12C {
        KEY_SIZE_256
    } else {
        KEY_SIZE_192
    };
    &&& state.combo_key matches Some(key) && key.len() == key_size
    &&& state.client_session_key is Some
    &&& state.verifier_type == verifier_type::V12C ==> {
        &&& state.session.auth_vfr_data matches Some(vfr) && is_hex(vfr)
        &&& state.session.auth_pbkdf2_vgen_count is Some
    }
}

/// The bytes of a key-value pair.
pub open spec fn key_value(key: Seq<char>, value: Seq<char>, flags: u32) -> Seq<u8> {
    let key_bytes = encode_utf8(key);
    let value_bytes = encode_utf8(value);
    ub4(key_bytes.len() as u32) + with_length(key_bytes) + ub4(value_bytes.len() as u32) + (
    if value_bytes.len() == 0 {
        Seq::empty()
    } else {
        with_length(value_bytes)
    }) + ub4(flags)
}

/// The front of the message of either phase, up to the key-value pairs.
pub open spec fn request_front(
    function: FunctionCode,
    sequence_number: u8,
    ttc_field_version: u8,
    username: Seq<char>,
    mode: u32,
    pair_count: u32,
) -> Seq<u8> {
    let user = encode_utf8(username);
    seq![0u8, 0u8, MessageType::Function.spec_code(), function.spec_code(), sequence_number] + (
    if ttc_field_version >= 18 {
        ub8(0)
    } else {
        Seq::empty()
    }) + seq![
        if user.len() == 0 {
            0u8
        } else {
            1u8
        },
    ] + ub4(user.len() as u32) + ub4(mode) + seq![1u8] + ub4(pair_count) + seq![1u8, 1u8] + (
    if user.len() == 0 {
        Seq::empty()
    } else {
        with_length(user)
    })
}

/// The packet of phase one.
pub open spec fn phase_one_packet(state: AuthView, ttc_field_version: u8, large_sdu: bool) -> Seq<
    u8,
> {
    packet_bytes(
        PacketType::Data,
        request_front(
            FunctionCode::AuthPhaseOne,
            state.sequence_number,
            ttc_field_version,
            state.username,
            state.auth_mode,
            5,
        ) + key_value("AUTH_TERMINAL"@, state.terminal, 0) + key_value(
            "AUTH_PROGRAM_NM"@,
            state.program,
            0,
        ) + key_value("AUTH_MACHINE"@, state.machine, 0) + key_value("AUTH_PID"@, state.pid, 0)
            + key_value("AUTH_SID"@, state.osuser, 0),
        large_sdu,
    )
}

/// The password as it is sent: with a salt in front, sealed under the combo key.
pub open spec fn password_encoded(state: AuthView, salt: Seq<u8>) -> core::result::Result<
    Seq<char>,
    ErrorView,
> {
    match state.combo_key {
        None => Err(ErrorView::Protocol("Combo key not generated"@)),
        Some(combo_key) => match sealed(state.verifier_type, combo_key, salt + state.password) {
            Err(error) => Err(ErrorView::Crypto(error)),
            Ok(bytes) => Ok(hex_upper(bytes)),
        },
    }
}

/// The key derived from the password as it is sent for a 12c verifier.
pub open spec fn speedy_key_made(state: AuthView, salt: Seq<u8>) -> core::result::Result<
    Option<Seq<char>>,
    ErrorView,
> {
    if state.verifier_type != verifier_type::V12C {
        Ok(None)
    } else {
        match state.combo_key {
            None => Err(ErrorView::Protocol("Combo key not generated"@)),
            Some(combo_key) => match state.session.auth_vfr_data {
                None => Err(ErrorView::AuthenticationFailed("Missing AUTH_VFR_DATA"@)),
                Some(vfr) => if !is_hex(vfr) {
                    Err(ErrorView::Protocol("Invalid AUTH_VFR_DATA hex: "@ + hex_failure(vfr)))
                } else {
                    match state.session.auth_pbkdf2_vgen_count {
                        None => Err(ErrorView::AuthenticationFailed("Missing iterations"@)),
                        Some(iterations) => {
                            let password_key = pbkdf2_key(
                                state.password,
                                speedy_salt(hex_bytes(vfr)),
                                iterations,
                                64,
                            );
                            match encrypted_256(combo_key, salt + password_key) {
                                Err(error) => Err(ErrorView::Crypto(error)),
                                Ok(bytes) => Ok(Some(hex_upper(bytes.take(80)))),
                            }
                        },
                    }
                },
            },
        }
    }
}

/// The statement that sets the time zone of the session: the zone that was asked for, or the
/// offset in seconds from UTC, in hours and minutes.
pub open spec fn time_zone_statement(zone: Option<Seq<char>>, utc_offset: int) -> Seq<char> {
    let shown = match zone {
        Some(name) => name,
        None => {
            let magnitude = if utc_offset < 0 {
                -utc_offset
            } else {
                utc_offset
            };
            (if utc_offset < 0 {
                "-"@
            } else {
                "+"@
            }) + padded_decimal((magnitude / 3600) as nat, 2) + ":"@ + padded_decimal(
                (magnitude % 3600 / 60) as nat,
                2,
            )
        },
    };
    "ALTER SESSION SET TIME_ZONE='"@ + shown + "'\x00"@
}

/// The part of the client's session key that is sent.
pub open spec fn session_key_sent(verifier: u32, client_key: Seq<u8>) -> Seq<char> {
    let text = hex_upper(client_key);
    let limit: int = if verifier == verifier_type::V12C {
        64
    } else {
        96
    };
    if text.len() <= limit {
        text
    } else {
        text.take(limit)
    }
}

/// The packet of phase two, with the salts and the offset from UTC that it is built with.
pub open spec fn phase_two_packet(
    state: AuthView,
    ttc_field_version: u8,
    large_sdu: bool,
    password_salt: Seq<u8>,
    key_salt: Seq<u8>,
    utc_offset: int,
) -> core::result::Result<Seq<u8>, ErrorView> {
    match password_encoded(state, password_salt) {
        Err(error) => Err(error),
        Ok(password) => match state.client_session_key {
            None => Err(ErrorView::Protocol("Client session key not generated"@)),
            Some(client_key) => match speedy_key_made(state, key_salt) {
                Err(error) => Err(error),
                Ok(speedy) => Ok(
                    packet_bytes(
                        PacketType::Data,
                        request_front(
                            FunctionCode::AuthPhaseTwo,
                            2,
                            ttc_field_version,
                            state.username,
                            state.auth_mode | auth_mode::WITH_PASSWORD,
                            if state.verifier_type == verifier_type::V12C {
                                7
                            } else {
                                6
                            },
                        ) + phase_two_pairs(state, password, client_key, speedy, utc_offset),
                        large_sdu,
                    ),
                ),
            },
        },
    }
}

/// True of what building the packet of phase two may give: the packet with some salts and some
/// offset from UTC of less than a day.
pub open spec fn is_phase_two_packet(
    state: AuthView,
    ttc_field_version: u8,
    large_sdu: bool,
    outcome: core::result::Result<Seq<u8>, ErrorView>,
) -> bool {
    exists|password_salt: Seq<u8>, key_salt: Seq<u8>, utc_offset: int|
        password_salt.len() == SALT_SIZE && key_salt.len() == SALT_SIZE && -86_400 < utc_offset
            < 86_400 && outcome == #[trigger] phase_two_packet(
            state,
            ttc_field_version,
            large_sdu,
            password_salt,
            key_salt,
            utc_offset,
        )
}

/// The key-value pairs of phase two.
pub open spec fn phase_two_pairs(
    state: AuthView,
    password: Seq<char>,
    client_key: Seq<u8>,
    speedy: Option<Seq<char>>,
    utc_offset: int,
) -> Seq<u8> {
    key_value("AUTH_SESSKEY"@, session_key_sent(state.verifier_type, client_key), 1) + (
    match speedy {
        Some(key) => key_value("AUTH_PBKDF2_SPEEDY_KEY"@, key, 0),
        None => Seq::empty(),
    }) + key_value("AUTH_PASSWORD"@, password, 0) + key_value("SESSION_CLIENT_CHARSET"@, "873"@, 0)
        + key_value("SESSION_CLIENT_DRIVER_NAME"@, state.driver_name, 0) + key_value(
        "SESSION_CLIENT_VERSION"@,
        "54530048"@,
        0,
    ) + key_value(
        "AUTH_ALTER_SESSION"@,
        time_zone_statement(state.session_time_zone, utc_offset),
        1,
    )
}

/// A text, or the one that stands for it where there is none.
pub open spec fn or_text(text: Option<Seq<char>>, fallback: Seq<char>) -> Seq<char> {
    match text {
        Some(chars) => chars,
        None => fallback,
    }
}

/// The state of an authentication that has just begun.
pub open spec fn created(
    username: Seq<char>,
    password: Seq<u8>,
    service_name: Seq<char>,
    environment: ClientEnvironment,
    host: Option<Seq<char>>,
) -> AuthView {
    AuthView {
        username: uppercase(username),
        password,
        phase: AuthPhase::One,
        auth_mode: auth_mode::LOGON,
        session: no_session(),
        verifier_type: 0,
        combo_key: None,
        client_session_key: None,
        terminal: or_text(opt_text(environment.terminal), "unknown"@),
        program: or_text(opt_text(environment.executable), "oracle-rs"@),
        machine: or_text(host, "localhost"@),
        osuser: or_text(
            opt_text(environment.user),
            or_text(opt_text(environment.username), "unknown"@),
        ),
        pid: decimal(environment.process_id as nat),
        driver_name: "oracle-rs : 0.1.0"@,
        service_name,
        session_time_zone: opt_text(environment.session_time_zone),
        sequence_number: 1,
    }
}

/// What building a packet gave.
pub open spec fn packet_outcome(result: Result<Bytes>) -> core::result::Result<
    Seq<u8>,
    ErrorView,
> {
    match result {
        Ok(packet) => Ok(content(packet)),
        Err(error) => Err(error@),
    }
}

/// What making a text gave.
pub open spec fn text_outcome(result: Result<String>) -> core::result::Result<
    Seq<char>,
    ErrorView,
> {
    match result {
        Ok(text) => Ok(text@),
        Err(error) => Err(error@),
    }
}

/// What making a text that may be absent gave.
pub open spec fn opt_text_outcome(result: Result<Option<String>>) -> core::result::Result<
    Option<Seq<char>>,
    ErrorView,
> {
    match result {
        Ok(text) => Ok(opt_text(text)),
        Err(error) => Err(error@),
    }
}

} // verus!
