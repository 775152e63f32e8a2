//! What holds of the state of every authentication.

use crate::buffer::laws::{byte_string_is_read, ub4_reads_back, with_length_reads_back};
use crate::buffer::write::{ub4, with_length};
use crate::error::{opt_text, CryptoError, ErrorView, ReadError};
use crate::hex_codec::{hex_bytes, hex_failure, is_hex};
use crate::messages::auth::{AuthPhase, ClientEnvironment};
use crate::messages::auth_laws::{
    lemma_empty_text, params_fit, params_said, written_params, written_texts_reach_the_session,
};
use crate::messages::auth_model::{
    answer_of, answered, created, reading_auth_string, server_response_checked, session_of,
    time_zone_statement, value_of, verifier_made, AuthView, Pairs,
};
use crate::text::{decimal, decimal_reads_back, number_u32, padded_decimal, utf8_replaced};
use vstd::prelude::*;
use vstd::utf8::{
    encode_utf8, encode_utf8_decode_utf8, encode_utf8_valid_utf8, is_ascii_chars, valid_utf8,
};

verus! {

/// An authentication begins in the first phase, as a plain logon, with the sequence number one,
/// with what was given for it, and with nothing of the server.
pub proof fn authentication_begins(
    username: Seq<char>,
    password: Seq<u8>,
    service_name: Seq<char>,
    environment: ClientEnvironment,
    host: Option<Seq<char>>,
)
    ensures
        ({
            let state = created(username, password, service_name, environment, host);
            &&& state.phase == AuthPhase::One
            &&& state.auth_mode == 1
            &&& state.sequence_number == 1
            &&& state.verifier_type == 0
            &&& state.combo_key is None
            &&& state.client_session_key is None
            &&& state.password == password
            &&& state.service_name == service_name
            &&& state.driver_name == "oracle-rs : 0.1.0"@
            &&& state.session_time_zone == opt_text(environment.session_time_zone)
            &&& state.session.auth_sesskey is None
            &&& state.session.auth_vfr_data is None
            &&& state.session.auth_pbkdf2_csk_salt is None
            &&& state.session.auth_pbkdf2_vgen_count is None
            &&& state.session.auth_pbkdf2_sder_count is None
            &&& state.session.auth_version_no is None
            &&& state.session.auth_globally_unique_dbid is None
            &&& state.session.auth_svr_response is None
            &&& number_u32(state.pid) == Some(environment.process_id)
        }),
{
    decimal_reads_back(environment.process_id);
}

/// Where the client runs is told as far as it is known; what is not known has a text of its own.
/// The user of the system is the one of the first variable that is set.
pub proof fn unknown_places_have_names(
    username: Seq<char>,
    password: Seq<u8>,
    service_name: Seq<char>,
    environment: ClientEnvironment,
    host: Option<Seq<char>>,
)
    ensures
        ({
            let state = created(username, password, service_name, environment, host);
            &&& state.terminal == (match environment.terminal {
                Some(text) => text@,
                None => "unknown"@,
            })
            &&& state.program == (match environment.executable {
                Some(text) => text@,
                None => "oracle-rs"@,
            })
            &&& state.machine == (match host {
                Some(text) => text,
                None => "localhost"@,
            })
            &&& state.osuser == (match (environment.user, environment.username) {
                (Some(text), _) => text@,
                (None, Some(text)) => text@,
                (None, None) => "unknown"@,
            })
        }),
{
}

/// The username of ASCII characters is taken in upper case: each letter `a` to `z` becomes the
/// capital one, and every other character stays.
pub proof fn username_is_in_upper_case(
    username: Seq<char>,
    password: Seq<u8>,
    service_name: Seq<char>,
    environment: ClientEnvironment,
    host: Option<Seq<char>>,
    i: int,
)
    requires
        is_ascii_chars(username),
        0 <= i < username.len(),
    ensures
        ({
            let state = created(username, password, service_name, environment, host);
            &&& state.username.len() == username.len()
            &&& 'a' <= username[i] && username[i] <= 'z' ==> state.username[i] as int
                == username[i] as int - 32
            &&& !('a' <= username[i] && username[i] <= 'z') ==> state.username[i] == username[i]
        }),
{
}

/// A time zone that was asked for is set as it was given.
pub proof fn time_zone_is_set_as_given(zone: Seq<char>, utc_offset: int)
    ensures
        time_zone_statement(Some(zone), utc_offset) == "ALTER SESSION SET TIME_ZONE='"@ + zone
            + seq!['\'', '\0'],
{
    reveal_strlit("'\x00");
    assert("'\x00"@ =~= seq!['\'', '\0']);
}

/// Where no time zone was asked for, the offset from UTC is set: a sign, which is that of the
/// offset, the whole hours of it in two digits, and the whole minutes that are left in two digits.
pub proof fn time_zone_is_set_by_offset(utc_offset: int, hours: nat, minutes: nat)
    requires
        hours < 100,
        minutes < 60,
        utc_offset >= 0 ==> 0 <= utc_offset - (hours * 3600 + minutes * 60) < 60,
        utc_offset < 0 ==> 0 <= -utc_offset - (hours * 3600 + minutes * 60) < 60,
    ensures
        time_zone_statement(None, utc_offset) == "ALTER SESSION SET TIME_ZONE='"@ + seq![
            if utc_offset < 0 {
                '-'
            } else {
                '+'
            },
            (48 + hours / 10) as char,
            (48 + hours % 10) as char,
            ':',
            (48 + minutes / 10) as char,
            (48 + minutes % 10) as char,
            '\'',
            '\0',
        ],
{
    let magnitude = if utc_offset < 0 {
        -utc_offset
    } else {
        utc_offset
    };
    assert(magnitude / 3600 == hours && magnitude % 3600 / 60 == minutes) by (nonlinear_arith)
        requires
            0 <= magnitude - (hours * 3600 + minutes * 60) < 60,
            minutes < 60,
            hours < 100,
    ;
    lemma_two_digits(hours);
    lemma_two_digits(minutes);
    reveal_strlit("'\x00");
    reveal_strlit("-");
    reveal_strlit("+");
    reveal_strlit(":");
    let front = "ALTER SESSION SET TIME_ZONE='"@;
    let statement = time_zone_statement(None, utc_offset);
    let sign = if utc_offset < 0 {
        '-'
    } else {
        '+'
    };
    let shown = seq![
        sign,
        (48 + hours / 10) as char,
        (48 + hours % 10) as char,
        ':',
        (48 + minutes / 10) as char,
        (48 + minutes % 10) as char,
    ];
    assert((if utc_offset < 0 {
        "-"@
    } else {
        "+"@
    }) + padded_decimal(hours, 2) + ":"@ + padded_decimal(minutes, 2) =~= shown);
    assert(front + shown + "'\x00"@ =~= front + (shown + seq!['\'', '\0']));
    assert(shown + seq!['\'', '\0'] =~= seq![
        sign,
        (48 + hours / 10) as char,
        (48 + hours % 10) as char,
        ':',
        (48 + minutes / 10) as char,
        (48 + minutes % 10) as char,
        '\'',
        '\0',
    ]);
}

/// A number below a hundred in two digits.
proof fn lemma_two_digits(n: nat)
    requires
        n < 100,
    ensures
        padded_decimal(n, 2) == seq![(48 + n / 10) as char, (48 + n % 10) as char],
{
    reveal_with_fuel(decimal, 2);
    assert(padded_decimal(n, 2) =~= seq![(48 + n / 10) as char, (48 + n % 10) as char]);
}

/// The value that pairs have for a key is that of the last parameter with that key, or the one from
/// before where there is none.
proof fn lemma_last_value(
    params: Seq<(Seq<char>, Seq<char>, u32)>,
    pairs: Pairs,
    vtype: u32,
    i: int,
)
    requires
        0 <= i < params.len(),
        forall|j: int| i < j < params.len() ==> (#[trigger] params[j]).0 != params[i].0,
    ensures
        value_of(params_said(params, pairs, vtype).0, params[i].0) == Some(params[i].1),
        params[i].0 == "AUTH_VFR_DATA"@ ==> params_said(params, pairs, vtype).1 == params[i].2,
    decreases params.len(),
{
    let tail = params.skip(1);
    let pairs_after = pairs.insert(params[0].0, params[0].1);
    let vtype_after = if params[0].0 == "AUTH_VFR_DATA"@ {
        params[0].2
    } else {
        vtype
    };
    if i > 0 {
        assert(tail[i - 1] == params[i]);
        assert forall|j: int| i - 1 < j < tail.len() implies (#[trigger] tail[j]).0 != tail[i
            - 1].0 by {
            assert(tail[j] == params[j + 1]);
        }
        lemma_last_value(tail, pairs_after, vtype_after, i - 1);
    } else {
        assert forall|j: int| 0 <= j < tail.len() implies (#[trigger] tail[j]).0 != params[0].0 by {
            assert(tail[j] == params[j + 1]);
        }
        lemma_absent_key(tail, pairs_after, vtype_after, params[0].0);
    }
}

/// Parameters without a key leave its value as it was.
proof fn lemma_absent_key(
    params: Seq<(Seq<char>, Seq<char>, u32)>,
    pairs: Pairs,
    vtype: u32,
    key: Seq<char>,
)
    requires
        forall|j: int| 0 <= j < params.len() ==> (#[trigger] params[j]).0 != key,
    ensures
        value_of(params_said(params, pairs, vtype).0, key) == value_of(pairs, key),
        key == "AUTH_VFR_DATA"@ ==> params_said(params, pairs, vtype).1 == vtype,
    decreases params.len(),
{
    if params.len() > 0 {
        let tail = params.skip(1);
        assert forall|j: int| 0 <= j < tail.len() implies (#[trigger] tail[j]).0 != key by {
            assert(tail[j] == params[j + 1]);
        }
        assert(params[0].0 != key);
        lemma_absent_key(
            tail,
            pairs.insert(params[0].0, params[0].1),
            if params[0].0 == "AUTH_VFR_DATA"@ {
                params[0].2
            } else {
                vtype
            },
            key,
        );
    }
}

/// The bytes of an answer that is made of data flags, a message type and parameters.
pub open spec fn answer_bytes(
    flags: Seq<u8>,
    message_type: u8,
    params: Seq<(Seq<char>, Seq<char>, u32)>,
) -> Seq<u8> {
    flags + seq![message_type] + ub4(params.len() as u32) + written_params(params)
}

/// What an answer says of the session, it says by the last of the parameters with a key: each known
/// key has a place of its own in the session, and a count is taken as the number that it is. With
/// the verifier data comes the verifier type, unless it is zero.
pub proof fn last_parameter_counts(
    state: AuthView,
    flags: Seq<u8>,
    message_type: u8,
    params: Seq<(Seq<char>, Seq<char>, u32)>,
    part_b: Seq<u8>,
    i: int,
)
    requires
        flags.len() == 2,
        message_type != 4,
        params.len() <= 65535,
        params_fit(params),
        0 <= i < params.len(),
        forall|j: int| i < j < params.len() ==> (#[trigger] params[j]).0 != params[i].0,
    ensures
        ({
            let (key, value, number) = params[i];
            let after = answered(state, answer_bytes(flags, message_type, params), part_b).0;
            let session = after.session;
            &&& key == "AUTH_SESSKEY"@ ==> session.auth_sesskey == Some(value)
            &&& key == "AUTH_VFR_DATA"@ ==> session.auth_vfr_data == Some(value)
            &&& key == "AUTH_VFR_DATA"@ && number != 0 ==> after.verifier_type == number
            &&& key == "AUTH_VFR_DATA"@ && number == 0 ==> after.verifier_type
                == state.verifier_type
            &&& key == "AUTH_PBKDF2_CSK_SALT"@ ==> session.auth_pbkdf2_csk_salt == Some(value)
            &&& key == "AUTH_PBKDF2_VGEN_COUNT"@ ==> session.auth_pbkdf2_vgen_count == number_u32(
                value,
            )
            &&& key == "AUTH_PBKDF2_SDER_COUNT"@ ==> session.auth_pbkdf2_sder_count == number_u32(
                value,
            )
            &&& key == "AUTH_VERSION_NO"@ ==> session.auth_version_no == number_u32(value)
            &&& key == "AUTH_GLOBALLY_UNIQUE_DBID"@ ==> session.auth_globally_unique_dbid == Some(
                value,
            )
            &&& key == "AUTH_SVR_RESPONSE"@ ==> session.auth_svr_response == Some(value)
        }),
{
    written_texts_reach_the_session(state, flags, message_type, params, part_b);
    lemma_last_value(params, Map::empty(), 0, i);
}

/// What no parameter of an answer says, the session does not hold, whatever it held before.
pub proof fn silence_is_kept(
    state: AuthView,
    flags: Seq<u8>,
    message_type: u8,
    params: Seq<(Seq<char>, Seq<char>, u32)>,
    part_b: Seq<u8>,
    key: Seq<char>,
)
    requires
        flags.len() == 2,
        message_type != 4,
        params.len() <= 65535,
        params_fit(params),
        forall|j: int| 0 <= j < params.len() ==> (#[trigger] params[j]).0 != key,
    ensures
        ({
            let after = answered(state, answer_bytes(flags, message_type, params), part_b).0;
            let session = after.session;
            &&& key == "AUTH_SESSKEY"@ ==> session.auth_sesskey is None
            &&& key == "AUTH_VFR_DATA"@ ==> session.auth_vfr_data is None && after.verifier_type
                == state.verifier_type
            &&& key == "AUTH_PBKDF2_CSK_SALT"@ ==> session.auth_pbkdf2_csk_salt is None
            &&& key == "AUTH_PBKDF2_VGEN_COUNT"@ ==> session.auth_pbkdf2_vgen_count is None
            &&& key == "AUTH_PBKDF2_SDER_COUNT"@ ==> session.auth_pbkdf2_sder_count is None
            &&& key == "AUTH_VERSION_NO"@ ==> session.auth_version_no is None
            &&& key == "AUTH_GLOBALLY_UNIQUE_DBID"@ ==> session.auth_globally_unique_dbid is None
            &&& key == "AUTH_SVR_RESPONSE"@ ==> session.auth_svr_response is None
        }),
{
    written_texts_reach_the_session(state, flags, message_type, params, part_b);
    lemma_absent_key(params, Map::empty(), 0, key);
}

/// The phases follow one another. An answer that can be read ends the first phase, whether keys can
/// be made of it or not, and the second phase if and only if the server's response is right; after
/// that nothing changes but what the server said. What cannot be read changes nothing.
pub proof fn phases_follow_one_another(state: AuthView, payload: Seq<u8>, part_b: Seq<u8>)
    ensures
        ({
            let (after, outcome) = answered(state, payload, part_b);
            match answer_of(payload) {
                Err(error) => after == state && outcome == Err::<(), ErrorView>(error),
                Ok((pairs, number)) => {
                    &&& after.session == session_of(pairs)
                    &&& after.verifier_type == (if number != 0 {
                        number
                    } else {
                        state.verifier_type
                    })
                    &&& state.phase == AuthPhase::One ==> {
                        let before_keys = AuthView {
                            phase: AuthPhase::Two,
                            session: after.session,
                            verifier_type: after.verifier_type,
                            ..state
                        };
                        (after, outcome) == verifier_made(before_keys, part_b)
                    }
                    &&& state.phase == AuthPhase::One ==> after.phase == AuthPhase::Two
                    &&& state.phase == AuthPhase::Two ==> {
                        &&& outcome == server_response_checked(after)
                        &&& outcome is Ok ==> after.phase == AuthPhase::Complete
                        &&& outcome is Err ==> after.phase == AuthPhase::Two
                    }
                    &&& state.phase == AuthPhase::Complete ==> after.phase == AuthPhase::Complete
                        && outcome is Ok
                    &&& state.phase != AuthPhase::One ==> after.combo_key == state.combo_key
                        && after.client_session_key == state.client_session_key
                },
            }
        }),
{
}

/// An answer of fewer than three bytes, or one whose third byte is 4, is no answer in any phase.
pub proof fn no_answer_is_told(state: AuthView, payload: Seq<u8>, part_b: Seq<u8>)
    ensures
        payload.len() < 3 ==> answered(state, payload, part_b) == (
            state,
            Err::<(), ErrorView>(ErrorView::Buffer(ReadError::Truncated)),
        ),
        payload.len() >= 3 && payload[2] == 4 ==> answered(state, payload, part_b) == (
            state,
            Err::<(), ErrorView>(ErrorView::AuthenticationFailed("Server returned error"@)),
        ),
{
    if payload.len() >= 3 {
        assert(payload.skip(2).take(1)[0] == payload[2]);
    }
}

/// What is wrong with the server's response is told.
pub proof fn wrong_response_is_told(state: AuthView)
    requires
        state.session.auth_svr_response is Some,
    ensures
        ({
            let response = state.session.auth_svr_response->0;
            let outcome = server_response_checked(state);
            if state.combo_key is None {
                outcome == Err::<(), ErrorView>(ErrorView::Protocol("Combo key not available"@))
            } else if !is_hex(response) {
                outcome == Err::<(), ErrorView>(
                    ErrorView::Protocol("Invalid server response hex: "@ + hex_failure(response)),
                )
            } else if state.combo_key->0.len() != (if state.verifier_type == 0x4815 {
                32int
            } else {
                24
            }) {
                outcome == Err::<(), ErrorView>(ErrorView::Crypto(CryptoError::KeyLength))
            } else if hex_bytes(response).len() % 16 != 0 {
                outcome == Err::<(), ErrorView>(ErrorView::Crypto(CryptoError::DataLength))
            } else {
                outcome is Err ==> outcome == Err::<(), ErrorView>(
                    ErrorView::AuthenticationFailed("Invalid server response"@),
                )
            }
        }),
{
}

/// A string of an answer is what stands behind its declared length, whatever that says but zero;
/// the text of it is the decoded one where it is UTF-8. Where no value stands there, or zero is
/// declared, the string is empty.
pub proof fn string_stands_behind_its_length(
    declared: u32,
    text: Seq<char>,
    other: Seq<u8>,
    rest: Seq<u8>,
)
    requires
        text.len() > 0,
        other.len() > 0,
        !valid_utf8(other),
    ensures
        reading_auth_string(ub4(0) + rest) == Ok::<(Seq<char>, Seq<u8>), ReadError>(
            (Seq::empty(), rest),
        ),
        declared != 0 ==> {
            &&& reading_auth_string(ub4(declared) + (with_length(encode_utf8(text)) + rest))
                == Ok::<(Seq<char>, Seq<u8>), ReadError>((text, rest))
            &&& reading_auth_string(ub4(declared) + (with_length(other) + rest)) == Ok::<
                (Seq<char>, Seq<u8>),
                ReadError,
            >((utf8_replaced(other), rest))
            &&& reading_auth_string(ub4(declared) + (seq![0u8] + rest)) == Ok::<
                (Seq<char>, Seq<u8>),
                ReadError,
            >((Seq::empty(), rest))
            &&& reading_auth_string(ub4(declared) + (seq![255u8] + rest)) == Ok::<
                (Seq<char>, Seq<u8>),
                ReadError,
            >((Seq::empty(), rest))
            &&& reading_auth_string(ub4(declared)) == Err::<(Seq<char>, Seq<u8>), ReadError>(
                ReadError::Truncated,
            )
        },
{
    let bytes = encode_utf8(text);
    encode_utf8_decode_utf8(text);
    encode_utf8_valid_utf8(text);
    lemma_empty_text(text);
    ub4_reads_back(0, rest);
    ub4_reads_back(declared, with_length(bytes) + rest);
    ub4_reads_back(declared, with_length(other) + rest);
    ub4_reads_back(declared, seq![0u8] + rest);
    ub4_reads_back(declared, seq![255u8] + rest);
    ub4_reads_back(declared, Seq::empty());
    assert(ub4(declared) + Seq::<u8>::empty() =~= ub4(declared));
    with_length_reads_back(bytes, rest);
    with_length_reads_back(other, rest);
    byte_string_is_read(Seq::empty(), rest);
}

} // verus!
