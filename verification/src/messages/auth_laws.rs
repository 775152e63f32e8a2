//! What holds of every authentication.

use crate::buffer::laws::ub4_reads_back;
use crate::buffer::read::reading_ub;
use crate::buffer::write::{ub4, ub8, with_length};
use crate::constants::{
    auth_mode, verifier_type, FunctionCode, MessageType, PacketType, PACKET_HEADER_SIZE,
};
use crate::crypto::at_most;
use crate::error::{CryptoError, ErrorView, ReadError};
use crate::hex_codec::{hex_bytes, hex_reads_back, hex_upper, is_hex};
use crate::messages::auth::{lemma_auth_string_reads_back, AuthPhase};
use crate::messages::auth_model::{
    answer_of, answered, auth_string, has_keys, key_value, next_phase, opened,
    password_encoded, phase_one_packet, phase_two_packet, phase_two_pairs,
    reading_auth_string, reading_params, request_front,
    server_response_checked, session_key_sent, session_of, speedy_key_made, value_of,
    AuthView, Pairs,
};
use crate::packet::{header_describes_packet, packet_bytes};
use vstd::prelude::*;
use vstd::utf8::{encode_utf8, encode_utf8_decode_utf8};

verus! {

/// An answer that cannot be read, or that reports an error, leaves everything as it was.
pub proof fn unreadable_answer_changes_nothing(state: AuthView, payload: Seq<u8>, part_b: Seq<u8>)
    requires
        answer_of(payload) is Err,
    ensures
        answered(state, payload, part_b).0 == state,
        answered(state, payload, part_b).1 == Err::<(), ErrorView>(answer_of(payload)->Err_0),
{
}

/// An answer that reports an error is an authentication failure in every phase.
pub proof fn server_error_is_reported(state: AuthView, payload: Seq<u8>, part_b: Seq<u8>)
    requires
        payload.len() >= 3,
        payload[2] == MessageType::Error.spec_code(),
    ensures
        answered(state, payload, part_b) == (
            state,
            Err::<(), ErrorView>(ErrorView::AuthenticationFailed("Server returned error"@)),
        ),
{
    assert(payload.skip(2).take(1)[0] == payload[2]);
}

/// Every answer that can be read moves the authentication one phase on, except one that fails the
/// check of the server in the second phase; a complete authentication stays complete.
pub proof fn answer_moves_one_phase_on(state: AuthView, payload: Seq<u8>, part_b: Seq<u8>)
    ensures
        answered(state, payload, part_b).0.phase == (if answer_of(payload) is Ok && !(state.phase
            == AuthPhase::Two && answered(state, payload, part_b).1 is Err) {
            next_phase(state.phase)
        } else {
            state.phase
        }),
        state.phase == AuthPhase::Complete ==> answered(state, payload, part_b).0.phase
            == AuthPhase::Complete,
{
}

/// An authentication becomes complete only by an answer that succeeds, and then in the second
/// phase only: after a failure it is as incomplete as before.
pub proof fn failure_does_not_complete(state: AuthView, payload: Seq<u8>, part_b: Seq<u8>)
    requires
        state.phase != AuthPhase::Complete,
    ensures
        answered(state, payload, part_b).0.phase == AuthPhase::Complete <==> state.phase
            == AuthPhase::Two && answered(state, payload, part_b).1 is Ok,
{
}

/// An answer changes nothing of who logs on, from where, and how.
pub proof fn answer_keeps_identity(state: AuthView, payload: Seq<u8>, part_b: Seq<u8>)
    ensures
        ({
            let after = answered(state, payload, part_b).0;
            &&& after.username == state.username
            &&& after.password == state.password
            &&& after.auth_mode == state.auth_mode
            &&& after.terminal == state.terminal
            &&& after.program == state.program
            &&& after.machine == state.machine
            &&& after.osuser == state.osuser
            &&& after.pid == state.pid
            &&& after.driver_name == state.driver_name
            &&& after.service_name == state.service_name
            &&& after.session_time_zone == state.session_time_zone
            &&& after.sequence_number == state.sequence_number
        }),
{
}

/// Parameters keep the pairs of the keys that were there, and leave the verifier type alone unless
/// verifier data is among them.
proof fn lemma_params_without_verifier_data(bytes: Seq<u8>, count: nat, pairs: Pairs, vtype: u32)
    ensures
        reading_params(bytes, count, pairs, vtype) matches Ok(said) ==> {
            &&& pairs.contains_key("AUTH_VFR_DATA"@) ==> said.0.contains_key("AUTH_VFR_DATA"@)
            &&& !said.0.contains_key("AUTH_VFR_DATA"@) ==> said.1 == vtype
        },
    decreases count,
{
    if count > 0 {
        if let Ok((key, after_key)) = reading_auth_string(bytes) {
            if let Ok((value, after_value)) = reading_auth_string(after_key) {
                if let Ok((number, rest)) = reading_ub(after_value, 4) {
                    lemma_params_without_verifier_data(
                        rest,
                        (count - 1) as nat,
                        pairs.insert(key, value),
                        if key == "AUTH_VFR_DATA"@ {
                            number as u32
                        } else {
                            vtype
                        },
                    );
                }
            }
        }
    }
}

/// An answer without verifier data keeps the verifier type.
pub proof fn verifier_type_is_kept(
    state: AuthView,
    payload: Seq<u8>,
    part_b: Seq<u8>,
    answer: (Pairs, u32),
)
    requires
        answer_of(payload) == Ok::<(Pairs, u32), ErrorView>(answer),
        !answer.0.contains_key("AUTH_VFR_DATA"@),
    ensures
        answered(state, payload, part_b).0.verifier_type == state.verifier_type,
{
    let after_type = payload.skip(2).skip(1);
    if let Ok((count, params)) = reading_ub(after_type, 2) {
        lemma_params_without_verifier_data(params, count, Map::empty(), 0);
    }
}

/// True of the keys that say something of the session.
pub open spec fn is_known_key(key: Seq<char>) -> bool {
    key == "AUTH_SESSKEY"@ || key == "AUTH_VFR_DATA"@ || key == "AUTH_PBKDF2_CSK_SALT"@ || key
        == "AUTH_PBKDF2_VGEN_COUNT"@ || key == "AUTH_PBKDF2_SDER_COUNT"@ || key
        == "AUTH_VERSION_NO"@ || key == "AUTH_GLOBALLY_UNIQUE_DBID"@ || key
        == "AUTH_SVR_RESPONSE"@
}

/// Keys that are not known do not matter: two sets of pairs with the same values for the known
/// keys say the same of the session.
pub proof fn unknown_keys_are_ignored(one: Pairs, two: Pairs)
    requires
        forall|key: Seq<char>|
            is_known_key(key) ==> #[trigger] value_of(one, key) == value_of(two, key),
    ensures
        session_of(one) == session_of(two),
{
}

/// Where the keys are there, phase two can be built, whatever the salts and the time zone.
pub proof fn phase_two_needs_only_keys(
    state: AuthView,
    ttc_field_version: u8,
    large_sdu: bool,
    password_salt: Seq<u8>,
    key_salt: Seq<u8>,
    utc_offset: int,
)
    requires
        has_keys(state),
    ensures
        phase_two_packet(
            state,
            ttc_field_version,
            large_sdu,
            password_salt,
            key_salt,
            utc_offset,
        ) is Ok,
{
}

/// Whether phase two can be built, and with what error it cannot, does not depend on the salts or
/// on the time zone.
pub proof fn phase_two_fails_alike(
    state: AuthView,
    ttc_field_version: u8,
    large_sdu: bool,
    first: (Seq<u8>, Seq<u8>, int),
    second: (Seq<u8>, Seq<u8>, int),
)
    ensures
        ({
            let one = phase_two_packet(
                state,
                ttc_field_version,
                large_sdu,
                first.0,
                first.1,
                first.2,
            );
            let two = phase_two_packet(
                state,
                ttc_field_version,
                large_sdu,
                second.0,
                second.1,
                second.2,
            );
            match one {
                Ok(_) => two is Ok,
                Err(error) => two == Err::<Seq<u8>, ErrorView>(error),
            }
        }),
{
}

/// A response of the server is accepted if and only if there is none, or it is sealed under the
/// combo key and holds the marker behind its first 16 bytes.
pub proof fn only_genuine_response_is_accepted(state: AuthView)
    ensures
        server_response_checked(state) is Ok <==> match (
            state.session.auth_svr_response,
            state.combo_key,
        ) {
            (None, _) => true,
            (Some(_), None) => false,
            (Some(response), Some(combo_key)) => {
                &&& is_hex(response)
                &&& opened(state.verifier_type, combo_key, hex_bytes(response)) matches Ok(marker)
                    && marker.len() >= 32 && marker.subrange(16, 32) == encode_utf8(
                    "SERVER_TO_CLIENT"@,
                )
            },
        },
{
}

/// The response that the server makes by sealing 16 bytes and the marker is accepted: `sealed` is
/// what the cipher opens to these bytes and the padding behind them.
pub proof fn genuine_response_is_accepted(
    state: AuthView,
    combo_key: Seq<u8>,
    nonce: Seq<u8>,
    padding: Seq<u8>,
    sealed: Seq<u8>,
)
    requires
        state.combo_key == Some(combo_key),
        nonce.len() == 16,
        opened(state.verifier_type, combo_key, sealed) == Ok::<Seq<u8>, CryptoError>(
            nonce + encode_utf8("SERVER_TO_CLIENT"@) + padding,
        ),
        state.session.auth_svr_response == Some(hex_upper(sealed)),
    ensures
        server_response_checked(state) is Ok,
{
    hex_reads_back(sealed);
    reveal_strlit("SERVER_TO_CLIENT");
    vstd::utf8::is_ascii_chars_encode_utf8("SERVER_TO_CLIENT"@);
    let marker = encode_utf8("SERVER_TO_CLIENT"@);
    assert(marker.len() == 16);
    assert((nonce + marker + padding).subrange(16, 32) =~= marker);
}

/// A pair with a key that is not empty is written as two strings and a number.
pub proof fn key_value_is_two_strings(key: Seq<char>, value: Seq<char>, flags: u32)
    requires
        key.len() > 0,
    ensures
        key_value(key, value, flags) == auth_string(key) + auth_string(value) + ub4(flags),
{
    lemma_empty_text(key);
    assert(key_value(key, value, flags) =~= auth_string(key) + auth_string(value) + ub4(flags));
}

/// The bytes of parameters, each a key, a value and a number.
pub open spec fn written_params(params: Seq<(Seq<char>, Seq<char>, u32)>) -> Seq<u8>
    decreases params.len(),
{
    if params.len() == 0 {
        Seq::empty()
    } else {
        key_value(params[0].0, params[0].1, params[0].2) + written_params(params.skip(1))
    }
}

/// What parameters say: the pairs, with later values in place of earlier ones, and the number that
/// came last with the verifier data.
pub open spec fn params_said(
    params: Seq<(Seq<char>, Seq<char>, u32)>,
    pairs: Pairs,
    vtype: u32,
) -> (Pairs, u32)
    decreases params.len(),
{
    if params.len() == 0 {
        (pairs, vtype)
    } else {
        params_said(
            params.skip(1),
            pairs.insert(params[0].0, params[0].1),
            if params[0].0 == "AUTH_VFR_DATA"@ {
                params[0].2
            } else {
                vtype
            },
        )
    }
}

/// True of parameters with keys that are not empty, and with lengths that fit their fields.
pub open spec fn params_fit(params: Seq<(Seq<char>, Seq<char>, u32)>) -> bool {
    forall|i: int|
        0 <= i < params.len() ==> (#[trigger] params[i]).0.len() > 0 && encode_utf8(
            params[i].0,
        ).len() <= u32::MAX && encode_utf8(params[i].1).len() <= u32::MAX
}

/// A written string reads back, and what stands behind it is left.
pub(crate) proof fn lemma_auth_string_is_read(text: Seq<char>, rest: Seq<u8>)
    requires
        encode_utf8(text).len() <= u32::MAX,
    ensures
        reading_auth_string(auth_string(text) + rest) == Ok::<(Seq<char>, Seq<u8>), ReadError>(
            (text, rest),
        ),
{
    lemma_auth_string_reads_back(text, rest);
    lemma_empty_text(text);
}

/// Only the empty text has no bytes.
pub(crate) proof fn lemma_empty_text(text: Seq<char>)
    ensures
        encode_utf8(text).len() == 0 <==> text.len() == 0,
{
    encode_utf8_decode_utf8(text);
    encode_utf8_decode_utf8(Seq::empty());
    if encode_utf8(text).len() == 0 {
        assert(encode_utf8(text) =~= encode_utf8(Seq::empty()));
    }
    if text.len() == 0 {
        assert(text =~= Seq::empty());
    }
}

/// Four parts and what stands behind them, grouped from the back.
proof fn lemma_regroup(a: Seq<u8>, b: Seq<u8>, c: Seq<u8>, d: Seq<u8>, rest: Seq<u8>)
    ensures
        a + b + c + d + rest == a + (b + (c + (d + rest))),
{
    assert(a + b + c + d + rest =~= a + (b + (c + (d + rest))));
}

/// What stands at the front of an answer, and what behind.
proof fn lemma_answer_front(flags: Seq<u8>, message_type: u8, count: Seq<u8>, behind: Seq<u8>)
    requires
        flags.len() == 2,
    ensures
        ({
            let payload = flags + seq![message_type] + count + behind;
            &&& payload.len() >= 3
            &&& payload.skip(2).take(1)[0] == message_type
            &&& payload.skip(2).skip(1) == count + behind
        }),
{
    let payload = flags + seq![message_type] + count + behind;
    assert(payload.skip(2).skip(1) =~= count + behind);
}

/// A number of at most two bytes is read back as such.
proof fn lemma_count_reads_back(count: u32, rest: Seq<u8>)
    requires
        count <= u16::MAX,
    ensures
        reading_ub(ub4(count) + rest, 2) == Ok::<(nat, Seq<u8>), ReadError>((count as nat, rest)),
{
    ub4_reads_back(count, rest);
    assert((ub4(count) + rest)[0] == ub4(count)[0]);
}

/// Parameters that were written are read back one by one.
pub proof fn params_read_back(
    params: Seq<(Seq<char>, Seq<char>, u32)>,
    pairs: Pairs,
    vtype: u32,
    rest: Seq<u8>,
)
    requires
        params_fit(params),
    ensures
        reading_params(written_params(params) + rest, params.len(), pairs, vtype) == Ok::<
            (Pairs, u32),
            ReadError,
        >(params_said(params, pairs, vtype)),
    decreases params.len(),
{
    if params.len() > 0 {
        let (key, value, number) = params[0];
        let tail = params.skip(1);
        let behind = written_params(tail) + rest;
        key_value_is_two_strings(key, value, number);
        let after_value = ub4(number) + behind;
        let after_key = auth_string(value) + after_value;
        lemma_regroup(
            auth_string(key),
            auth_string(value),
            ub4(number),
            written_params(tail),
            rest,
        );
        lemma_auth_string_is_read(key, after_key);
        lemma_auth_string_is_read(value, after_value);
        ub4_reads_back(number, behind);
        assert forall|i: int| 0 <= i < tail.len() implies (#[trigger] tail[i]).0.len() > 0
            && encode_utf8(tail[i].0).len() <= u32::MAX && encode_utf8(tail[i].1).len()
            <= u32::MAX by {
            assert(tail[i] == params[i + 1]);
        }
        params_read_back(
            tail,
            pairs.insert(key, value),
            if key == "AUTH_VFR_DATA"@ {
                number
            } else {
                vtype
            },
            rest,
        );
    }
}

/// An answer made of data flags, a message type other than that of errors, and parameters, is
/// understood as the parameters that it was made of.
pub proof fn answer_reads_back(
    flags: Seq<u8>,
    message_type: u8,
    params: Seq<(Seq<char>, Seq<char>, u32)>,
)
    requires
        flags.len() == 2,
        message_type != MessageType::Error.spec_code(),
        params.len() <= u16::MAX,
        params_fit(params),
    ensures
        answer_of(flags + seq![message_type] + ub4(params.len() as u32) + written_params(params))
            == Ok::<(Pairs, u32), ErrorView>(params_said(params, Map::empty(), 0)),
{
    let count = params.len() as u32;
    let behind = written_params(params);
    lemma_answer_front(flags, message_type, ub4(count), behind);
    lemma_count_reads_back(count, behind);
    params_read_back(params, Map::empty(), 0, Seq::empty());
    assert(behind + Seq::<u8>::empty() =~= behind);
    let payload = flags + seq![message_type] + ub4(count) + behind;
    assert(reading_ub(payload.skip(2).skip(1), 2) == Ok::<(nat, Seq<u8>), ReadError>(
        (params.len(), behind),
    ));
}

/// What such an answer says of the session is what its texts say, in every phase.
pub proof fn written_texts_reach_the_session(
    state: AuthView,
    flags: Seq<u8>,
    message_type: u8,
    params: Seq<(Seq<char>, Seq<char>, u32)>,
    part_b: Seq<u8>,
)
    requires
        flags.len() == 2,
        message_type != MessageType::Error.spec_code(),
        params.len() <= u16::MAX,
        params_fit(params),
    ensures
        ({
            let payload = flags + seq![message_type] + ub4(params.len() as u32) + written_params(
                params,
            );
            let (pairs, vtype) = params_said(params, Map::empty(), 0);
            let after = answered(state, payload, part_b).0;
            &&& after.session == session_of(pairs)
            &&& after.verifier_type == (if vtype != 0 {
                vtype
            } else {
                state.verifier_type
            })
        }),
{
    answer_reads_back(flags, message_type, params);
}

/// What is sent of the client's session key stands for its first bytes: 32 for a 12c verifier, 48
/// for the others.
pub proof fn session_key_is_sent_from_the_front(verifier: u32, client_key: Seq<u8>)
    ensures
        ({
            let sent = session_key_sent(verifier, client_key);
            let size: nat = if verifier == 0x4815 {
                32
            } else {
                48
            };
            is_hex(sent) && hex_bytes(sent) == at_most(client_key, size)
        }),
{
    let size: int = if verifier == verifier_type::V12C {
        32
    } else {
        48
    };
    if client_key.len() > size {
        assert(hex_upper(client_key).take(2 * size) =~= hex_upper(client_key.take(size)));
    }
    hex_reads_back(at_most(client_key, size as nat));
}

/// Setting a mode keeps every flag that was set, and sets its own.
pub proof fn modes_add_up(mode: u32, flag: u32)
    requires
        mode & flag == flag,
    ensures
        (mode | auth_mode::SYSDBA) & flag == flag,
        (mode | auth_mode::SYSOPER) & flag == flag,
        (mode | auth_mode::SYSDBA) & 0x20 == 0x20,
        (mode | auth_mode::SYSOPER) & 0x40 == 0x40,
{
    assert((mode | 0x20) & flag == flag) by (bit_vector)
        requires
            mode & flag == flag,
    ;
    assert((mode | 0x40) & flag == flag) by (bit_vector)
        requires
            mode & flag == flag,
    ;
    assert((mode | 0x20) & 0x20 == 0x20) by (bit_vector);
    assert((mode | 0x40) & 0x40 == 0x40) by (bit_vector);
}

/// The front of a request names the function and its sequence number behind the data flags.
proof fn lemma_request_front(
    function: FunctionCode,
    sequence_number: u8,
    ttc_field_version: u8,
    username: Seq<char>,
    mode: u32,
    pair_count: u32,
)
    ensures
        ({
            let front = request_front(
                function,
                sequence_number,
                ttc_field_version,
                username,
                mode,
                pair_count,
            );
            &&& front.len() > 5
            &&& front[2] == MessageType::Function.spec_code()
            &&& front[3] == function.spec_code()
            &&& front[4] == sequence_number
        }),
{
    let user = encode_utf8(username);
    let a = seq![
        0u8,
        0u8,
        MessageType::Function.spec_code(),
        function.spec_code(),
        sequence_number,
    ];
    let token = if ttc_field_version >= 18 {
        ub8(0)
    } else {
        Seq::empty()
    };
    let pointer = seq![
        if user.len() == 0 {
            0u8
        } else {
            1u8
        },
    ];
    let tail = if user.len() == 0 {
        Seq::empty()
    } else {
        with_length(user)
    };
    let front = a + token + pointer;
    lemma_six_parts(
        front,
        ub4(user.len() as u32),
        ub4(mode),
        seq![1u8],
        ub4(pair_count),
        seq![1u8, 1u8],
    );
    let longer = front + ub4(user.len() as u32) + ub4(mode) + seq![1u8] + ub4(pair_count) + seq![
        1u8,
        1u8,
    ];
    assert(longer + tail == request_front(
        function,
        sequence_number,
        ttc_field_version,
        username,
        mode,
        pair_count,
    ));
    assert(forall|i: int| 0 <= i < 5 ==> (longer + tail)[i] == longer[i]);
    assert(forall|i: int| 0 <= i < 5 ==> front[i] == a[i]);
}

/// What stands in the first of six parts stands there in the whole.
proof fn lemma_six_parts(
    a: Seq<u8>,
    b: Seq<u8>,
    c: Seq<u8>,
    d: Seq<u8>,
    e: Seq<u8>,
    f: Seq<u8>,
)
    ensures
        (a + b + c + d + e + f).len() >= a.len(),
        forall|i: int| 0 <= i < a.len() ==> (a + b + c + d + e + f)[i] == a[i],
{
}

/// A packet shows its kind in the header and its payload behind it.
proof fn lemma_packet_shows_payload(packet_type: PacketType, payload: Seq<u8>, large_sdu: bool)
    ensures
        ({
            let packet = packet_bytes(packet_type, payload, large_sdu);
            &&& packet.len() == PACKET_HEADER_SIZE + payload.len()
            &&& packet[4] == packet_type.spec_code()
            &&& forall|i: int|
                0 <= i < payload.len() ==> packet[PACKET_HEADER_SIZE + i] == #[trigger] payload[i]
        }),
{
    header_describes_packet(packet_type, payload, large_sdu);
    let packet = packet_bytes(packet_type, payload, large_sdu);
    assert forall|i: int| 0 <= i < payload.len() implies packet[PACKET_HEADER_SIZE + i]
        == #[trigger] payload[i] by {
        assert(packet.skip(PACKET_HEADER_SIZE as int)[i] == packet[PACKET_HEADER_SIZE + i]);
    }
}

/// The phase one request is a data packet, and names its function and its sequence number behind
/// the data flags.
pub proof fn phase_one_names_its_function(state: AuthView, ttc_field_version: u8, large_sdu: bool)
    ensures
        ({
            let packet = phase_one_packet(state, ttc_field_version, large_sdu);
            &&& packet.len() > PACKET_HEADER_SIZE + 5
            &&& packet[4] == PacketType::Data.spec_code()
            &&& packet[PACKET_HEADER_SIZE + 2] == MessageType::Function.spec_code()
            &&& packet[PACKET_HEADER_SIZE + 3] == FunctionCode::AuthPhaseOne.spec_code()
            &&& packet[PACKET_HEADER_SIZE + 4] == state.sequence_number
        }),
{
    lemma_request_front(
        FunctionCode::AuthPhaseOne,
        state.sequence_number,
        ttc_field_version,
        state.username,
        state.auth_mode,
        5,
    );
    let front = request_front(
        FunctionCode::AuthPhaseOne,
        state.sequence_number,
        ttc_field_version,
        state.username,
        state.auth_mode,
        5,
    );
    let terminal = key_value("AUTH_TERMINAL"@, state.terminal, 0);
    let program = key_value("AUTH_PROGRAM_NM"@, state.program, 0);
    let machine = key_value("AUTH_MACHINE"@, state.machine, 0);
    let pid = key_value("AUTH_PID"@, state.pid, 0);
    let sid = key_value("AUTH_SID"@, state.osuser, 0);
    lemma_six_parts(front, terminal, program, machine, pid, sid);
    let payload = front + terminal + program + machine + pid + sid;
    lemma_packet_shows_payload(PacketType::Data, payload, large_sdu);
    assert(payload[2] == front[2] && payload[3] == front[3] && payload[4] == front[4]);
}

/// The phase two request is a data packet, and names its function and the sequence number two
/// behind the data flags.
pub proof fn phase_two_names_its_function(
    state: AuthView,
    ttc_field_version: u8,
    large_sdu: bool,
    password_salt: Seq<u8>,
    key_salt: Seq<u8>,
    utc_offset: int,
)
    ensures
        phase_two_packet(
            state,
            ttc_field_version,
            large_sdu,
            password_salt,
            key_salt,
            utc_offset,
        ) matches Ok(packet) ==> {
            &&& packet.len() > PACKET_HEADER_SIZE + 5
            &&& packet[4] == PacketType::Data.spec_code()
            &&& packet[PACKET_HEADER_SIZE + 2] == MessageType::Function.spec_code()
            &&& packet[PACKET_HEADER_SIZE + 3] == FunctionCode::AuthPhaseTwo.spec_code()
            &&& packet[PACKET_HEADER_SIZE + 4] == 2
        },
{
    let packet = phase_two_packet(
        state,
        ttc_field_version,
        large_sdu,
        password_salt,
        key_salt,
        utc_offset,
    );
    if packet is Ok {
        let mode = state.auth_mode | auth_mode::WITH_PASSWORD;
        let count: u32 = if state.verifier_type == verifier_type::V12C {
            7
        } else {
            6
        };
        lemma_request_front(
            FunctionCode::AuthPhaseTwo,
            2,
            ttc_field_version,
            state.username,
            mode,
            count,
        );
        let front = request_front(
            FunctionCode::AuthPhaseTwo,
            2,
            ttc_field_version,
            state.username,
            mode,
            count,
        );
        let pairs = phase_two_pairs(
            state,
            password_encoded(state, password_salt)->Ok_0,
            state.client_session_key->0,
            speedy_key_made(state, key_salt)->Ok_0,
            utc_offset,
        );
        let payload = front + pairs;
        lemma_packet_shows_payload(PacketType::Data, payload, large_sdu);
        assert(payload[2] == front[2] && payload[3] == front[3] && payload[4] == front[4]);
    }
}

} // verus!
