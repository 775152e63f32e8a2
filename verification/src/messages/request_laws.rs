//! What a server reads in the requests of an authentication.
//!
//! A request is taken apart here field by field, from the front, and each law says what every field
//! of it holds.

use crate::buffer::laws::{ub4_reads_back, with_length_reads_back};
use crate::buffer::read::{reading_ub, reading_with_length};
use crate::buffer::write::{ub4, ub8, with_length};
use crate::constants::{FunctionCode, PacketType};
use crate::crypto::{aes192_cipher, aes256_cipher, pbkdf2_key, zero_block};
use crate::hex_codec::{hex_bytes, hex_upper, lemma_hex_upper_is_ascii};
use crate::messages::auth_laws::{
    key_value_is_two_strings, lemma_auth_string_is_read, lemma_empty_text,
    params_fit, written_params,
};
use crate::messages::auth_model::{
    auth_string, key_value, phase_one_packet, phase_two_packet, phase_two_pairs,
    reading_auth_string, request_front, session_key_sent, time_zone_statement, AuthView,
};
use crate::packet::{header_describes_packet, packet_bytes};
use vstd::prelude::*;
use vstd::utf8::{
    decode_utf8, encode_utf8, encode_utf8_decode_utf8, is_ascii_chars, is_ascii_chars_encode_utf8,
};

verus! {

/// What a request holds.
pub struct RequestView {
    /// Data flags
    pub data_flags: Seq<u8>,
    /// Message type
    pub message_type: u8,
    /// Function code
    pub function: u8,
    /// Sequence number
    pub sequence_number: u8,
    /// Whether a user is named
    pub has_user: bool,
    /// Length of the username in bytes
    pub user_length: nat,
    /// Authentication mode
    pub mode: nat,
    /// The username
    pub user: Seq<char>,
    /// The key-value pairs with their flags, in their order
    pub pairs: Seq<(Seq<char>, Seq<char>, u32)>,
    /// What stands behind the pairs
    pub rest: Seq<u8>,
}

/// The byte at the front, and what stands behind it.
#[verifier::opaque]
pub open spec fn byte_at(bytes: Seq<u8>) -> Option<(u8, Seq<u8>)> {
    if bytes.len() == 0 {
        None
    } else {
        Some((bytes[0], bytes.skip(1)))
    }
}

/// The number in the compact form at the front, and what stands behind it.
#[verifier::opaque]
pub open spec fn number_at(bytes: Seq<u8>) -> Option<(nat, Seq<u8>)> {
    match reading_ub(bytes, 4) {
        Ok(read) => Some(read),
        Err(_) => None,
    }
}

/// The string at the front, and what stands behind it.
#[verifier::opaque]
pub open spec fn string_at(bytes: Seq<u8>) -> Option<(Seq<char>, Seq<u8>)> {
    match reading_auth_string(bytes) {
        Ok(read) => Some(read),
        Err(_) => None,
    }
}

/// The name at the front, with its length before it, and what stands behind it.
#[verifier::opaque]
pub open spec fn name_at(bytes: Seq<u8>) -> Option<(Seq<char>, Seq<u8>)> {
    match reading_with_length(bytes) {
        Ok((Some(name), behind)) => Some((decode_utf8(name), behind)),
        _ => None,
    }
}

/// So many key-value pairs with their flags from the front, and what stands behind them.
pub open spec fn reading_pairs(bytes: Seq<u8>, count: nat) -> Option<
    (Seq<(Seq<char>, Seq<char>, u32)>, Seq<u8>),
>
    decreases count,
{
    if count == 0 {
        Some((Seq::empty(), bytes))
    } else {
        match string_at(bytes) {
            None => None,
            Some((key, after_key)) => match string_at(after_key) {
                None => None,
                Some((value, after_value)) => match number_at(after_value) {
                    None => None,
                    Some((flags, behind)) => match reading_pairs(behind, (count - 1) as nat) {
                        None => None,
                        Some((pairs, rest)) => Some(
                            (seq![(key, value, flags as u32)] + pairs, rest),
                        ),
                    },
                },
            },
        }
    }
}

/// What stands behind the authentication mode: three pointers round the number of pairs, the user
/// where there is one, and the pairs.
#[verifier::opaque]
pub open spec fn reading_lists(bytes: Seq<u8>, has_user: bool) -> Option<
    (Seq<char>, Seq<(Seq<char>, Seq<char>, u32)>, Seq<u8>),
> {
    match byte_at(bytes) {
        None => None,
        Some((_, after_pointer)) => match number_at(after_pointer) {
            None => None,
            Some((count, after_count)) => match byte_at(after_count) {
                None => None,
                Some((_, after_second)) => match byte_at(after_second) {
                    None => None,
                    Some((_, lists)) => match if has_user {
                        name_at(lists)
                    } else {
                        Some((Seq::empty(), lists))
                    } {
                        None => None,
                        Some((user, after_user)) => match reading_pairs(after_user, count) {
                            None => None,
                            Some((pairs, rest)) => Some((user, pairs, rest)),
                        },
                    },
                },
            },
        },
    }
}

/// What the payload of a request holds, with or without a token number.
#[verifier::opaque]
pub open spec fn request_read(payload: Seq<u8>, has_token: bool) -> Option<RequestView> {
    if payload.len() < 5 {
        None
    } else {
        match if has_token {
            number_at(payload.skip(5))
        } else {
            Some((0, payload.skip(5)))
        } {
            None => None,
            Some((_, after_token)) => match byte_at(after_token) {
                None => None,
                Some((pointer, after_user_pointer)) => match number_at(after_user_pointer) {
                    None => None,
                    Some((user_length, after_length)) => match number_at(after_length) {
                        None => None,
                        Some((mode, after_mode)) => match reading_lists(after_mode, pointer != 0) {
                            None => None,
                            Some((user, pairs, rest)) => Some(
                                RequestView {
                                    data_flags: payload.take(2),
                                    message_type: payload[2],
                                    function: payload[3],
                                    sequence_number: payload[4],
                                    has_user: pointer != 0,
                                    user_length,
                                    mode,
                                    user,
                                    pairs,
                                    rest,
                                },
                            ),
                        },
                    },
                },
            },
        }
    }
}

/// True of a text whose length in bytes fits its field.
pub open spec fn fits(text: Seq<char>) -> bool {
    encode_utf8(text).len() <= u32::MAX
}

/// Appending to the second of two parts appends to the whole.
proof fn lemma_group(a: Seq<u8>, b: Seq<u8>, c: Seq<u8>)
    ensures
        a + b + c == a + (b + c),
{
    assert(a + b + c =~= a + (b + c));
}

/// A byte at the front is read as it is.
proof fn lemma_byte_is_read(byte: u8)
    ensures
        forall|rest: Seq<u8>| #[trigger] byte_at(seq![byte] + rest) == Some((byte, rest)),
{
    assert forall|rest: Seq<u8>| #[trigger] byte_at(seq![byte] + rest) == Some((byte, rest)) by {
        reveal(byte_at);
        assert((seq![byte] + rest).skip(1) =~= rest);
    }
}

/// A number in the compact form is read back whatever stands behind it.
proof fn lemma_number_is_read(value: u32)
    ensures
        forall|rest: Seq<u8>| #[trigger] number_at(ub4(value) + rest) == Some((value as nat, rest)),
{
    assert forall|rest: Seq<u8>| #[trigger]
        number_at(ub4(value) + rest) == Some((value as nat, rest)) by {
        reveal(number_at);
        ub4_reads_back(value, rest);
    }
}

/// A name that is not empty is read back whatever stands behind it.
proof fn lemma_name_is_read(name: Seq<char>)
    requires
        name.len() > 0,
    ensures
        forall|rest: Seq<u8>|
            #[trigger] name_at(with_length(encode_utf8(name)) + rest) == Some((name, rest)),
{
    assert forall|rest: Seq<u8>| #[trigger]
        name_at(with_length(encode_utf8(name)) + rest) == Some((name, rest)) by {
        reveal(name_at);
        lemma_empty_text(name);
        with_length_reads_back(encode_utf8(name), rest);
        encode_utf8_decode_utf8(name);
    }
}

/// One more pair stands behind those that were written.
pub proof fn lemma_written_push(
    params: Seq<(Seq<char>, Seq<char>, u32)>,
    param: (Seq<char>, Seq<char>, u32),
)
    ensures
        written_params(params.push(param)) == written_params(params) + key_value(
            param.0,
            param.1,
            param.2,
        ),
    decreases params.len(),
{
    let longer = params.push(param);
    let last = key_value(param.0, param.1, param.2);
    if params.len() == 0 {
        assert(longer.skip(1) =~= Seq::empty());
        assert(written_params(longer.skip(1)) =~= Seq::empty());
        assert(last + Seq::<u8>::empty() =~= last);
        assert(Seq::<u8>::empty() + last =~= last);
    } else {
        assert(longer.skip(1) =~= params.skip(1).push(param));
        lemma_written_push(params.skip(1), param);
        lemma_group(
            key_value(params[0].0, params[0].1, params[0].2),
            written_params(params.skip(1)),
            last,
        );
    }
}

/// Pairs that were written are read back in their order, and what stands behind them is left.
pub proof fn pairs_read_back(params: Seq<(Seq<char>, Seq<char>, u32)>, rest: Seq<u8>)
    requires
        params_fit(params),
    ensures
        reading_pairs(written_params(params) + rest, params.len()) == Some((params, rest)),
    decreases params.len(),
{
    if params.len() == 0 {
        assert(written_params(params) + rest =~= rest);
        assert(params =~= Seq::empty());
    } else {
        let tail = params.skip(1);
        assert forall|i: int| 0 <= i < tail.len() implies (#[trigger] tail[i]).0.len() > 0
            && encode_utf8(tail[i].0).len() <= u32::MAX && encode_utf8(tail[i].1).len()
            <= u32::MAX by {
            assert(tail[i] == params[i + 1]);
        }
        pairs_read_back(tail, rest);
        let (key, value, number) = params[0];
        let first = key_value(key, value, number);
        let behind = written_params(tail) + rest;
        lemma_pair_is_read(key, value, number, behind);
        lemma_group(first, written_params(tail), rest);
        lemma_pairs_step(
            first + behind,
            key,
            value,
            number,
            auth_string(value) + (ub4(number) + behind),
            ub4(number) + behind,
            behind,
            tail,
            rest,
        );
        assert(seq![(key, value, number)] + tail =~= params);
    }
}

/// The strings and the number of a pair are read one after another.
proof fn lemma_pair_is_read(key: Seq<char>, value: Seq<char>, number: u32, behind: Seq<u8>)
    requires
        key.len() > 0,
        fits(key),
        fits(value),
    ensures
        string_at(key_value(key, value, number) + behind) == Some(
            (key, auth_string(value) + (ub4(number) + behind)),
        ),
        string_at(auth_string(value) + (ub4(number) + behind)) == Some(
            (value, ub4(number) + behind),
        ),
        number_at(ub4(number) + behind) == Some((number as nat, behind)),
{
    reveal(string_at);
    key_value_is_two_strings(key, value, number);
    lemma_group(auth_string(key) + auth_string(value), ub4(number), behind);
    lemma_group(auth_string(key), auth_string(value), ub4(number) + behind);
    lemma_auth_string_is_read(key, auth_string(value) + (ub4(number) + behind));
    lemma_auth_string_is_read(value, ub4(number) + behind);
    lemma_number_is_read(number);
}

/// One pair and then the others are read as all of them.
proof fn lemma_pairs_step(
    bytes: Seq<u8>,
    key: Seq<char>,
    value: Seq<char>,
    number: u32,
    after_key: Seq<u8>,
    after_value: Seq<u8>,
    behind: Seq<u8>,
    pairs: Seq<(Seq<char>, Seq<char>, u32)>,
    rest: Seq<u8>,
)
    requires
        string_at(bytes) == Some((key, after_key)),
        string_at(after_key) == Some((value, after_value)),
        number_at(after_value) == Some((number as nat, behind)),
        reading_pairs(behind, pairs.len()) == Some((pairs, rest)),
    ensures
        reading_pairs(bytes, pairs.len() + 1) == Some((seq![(key, value, number)] + pairs, rest)),
{
}

/// Nine parts and what stands behind them, grouped from the back.
proof fn lemma_nine_parts(
    a: Seq<u8>,
    b: Seq<u8>,
    c: Seq<u8>,
    d: Seq<u8>,
    e: Seq<u8>,
    f: Seq<u8>,
    g: Seq<u8>,
    h: Seq<u8>,
    i: Seq<u8>,
    rest: Seq<u8>,
)
    ensures
        a + b + c + d + e + f + g + h + i + rest == a + (b + (c + (d + (e + (f + (g + (h + (i
            + rest)))))))),
{
    lemma_group(a + b + c + d + e + f + g + h, i, rest);
    lemma_group(a + b + c + d + e + f + g, h, i + rest);
    lemma_group(a + b + c + d + e + f, g, h + (i + rest));
    lemma_group(a + b + c + d + e, f, g + (h + (i + rest)));
    lemma_group(a + b + c + d, e, f + (g + (h + (i + rest))));
    lemma_group(a + b + c, d, e + (f + (g + (h + (i + rest)))));
    lemma_group(a + b, c, d + (e + (f + (g + (h + (i + rest))))));
    lemma_group(a, b, c + (d + (e + (f + (g + (h + (i + rest)))))));
}

/// The first five bytes of five bytes and others.
proof fn lemma_first_five(first: Seq<u8>, behind: Seq<u8>)
    requires
        first.len() == 5,
    ensures
        (first + behind).len() >= 5,
        (first + behind).skip(5) == behind,
        (first + behind).take(2) == first.take(2),
        (first + behind)[2] == first[2],
        (first + behind)[3] == first[3],
        (first + behind)[4] == first[4],
{
    assert((first + behind).skip(5) =~= behind);
    assert((first + behind).take(2) =~= first.take(2));
}

/// The fields behind the mode, read one after another.
proof fn lemma_lists_are_read(
    count: u32,
    named: Seq<u8>,
    user: Seq<char>,
    tail: Seq<u8>,
    pairs: Seq<(Seq<char>, Seq<char>, u32)>,
)
    requires
        user.len() > 0 ==> name_at(named + tail) == Some((user, tail)),
        user.len() == 0 ==> named == Seq::<u8>::empty(),
        reading_pairs(tail, count as nat) == Some((pairs, Seq::<u8>::empty())),
    ensures
        reading_lists(
            seq![1u8] + (ub4(count) + (seq![1u8, 1u8] + (named + tail))),
            user.len() > 0,
        ) == Some((user, pairs, Seq::<u8>::empty())),
{
    reveal(reading_lists);
    let lists = named + tail;
    lemma_byte_is_read(1);
    lemma_number_is_read(count);
    assert(seq![1u8, 1u8] + lists =~= seq![1u8] + (seq![1u8] + lists));
    if user.len() == 0 {
        assert(lists =~= tail);
        assert(user =~= Seq::empty());
    }
}

/// The fields up to the mode, read one after another.
proof fn lemma_fields_are_read(
    first: Seq<u8>,
    has_token: bool,
    token: Seq<u8>,
    pointer: u8,
    user_length: u32,
    mode: u32,
    after_mode: Seq<u8>,
    user: Seq<char>,
    pairs: Seq<(Seq<char>, Seq<char>, u32)>,
)
    requires
        first.len() == 5,
        token == (if has_token {
            ub4(0)
        } else {
            Seq::empty()
        }),
        reading_lists(after_mode, pointer != 0) == Some((user, pairs, Seq::<u8>::empty())),
    ensures
        request_read(
            first + (token + (seq![pointer] + (ub4(user_length) + (ub4(mode) + after_mode)))),
            has_token,
        ) == Some(
            RequestView {
                data_flags: first.take(2),
                message_type: first[2],
                function: first[3],
                sequence_number: first[4],
                has_user: pointer != 0,
                user_length: user_length as nat,
                mode: mode as nat,
                user,
                pairs,
                rest: Seq::empty(),
            },
        ),
{
    reveal(request_read);
    let after_token = seq![pointer] + (ub4(user_length) + (ub4(mode) + after_mode));
    lemma_first_five(first, token + after_token);
    lemma_byte_is_read(pointer);
    lemma_number_is_read(0);
    lemma_number_is_read(user_length);
    lemma_number_is_read(mode);
    if !has_token {
        assert(token + after_token =~= after_token);
    }
}

/// A request is read back field by field.
proof fn lemma_request_is_read(
    function: FunctionCode,
    sequence_number: u8,
    ttc_field_version: u8,
    username: Seq<char>,
    mode: u32,
    params: Seq<(Seq<char>, Seq<char>, u32)>,
)
    requires
        fits(username),
        params_fit(params),
        params.len() <= u32::MAX,
    ensures
        request_read(
            request_front(
                function,
                sequence_number,
                ttc_field_version,
                username,
                mode,
                params.len() as u32,
            ) + written_params(params),
            ttc_field_version >= 18,
        ) == Some(
            RequestView {
                data_flags: seq![0u8, 0u8],
                message_type: 3,
                function: function.spec_code(),
                sequence_number,
                has_user: username.len() > 0,
                user_length: encode_utf8(username).len(),
                mode: mode as nat,
                user: username,
                pairs: params,
                rest: Seq::empty(),
            },
        ),
{
    let count = params.len() as u32;
    let user = encode_utf8(username);
    let tail = written_params(params);
    let first = seq![0u8, 0u8, 3u8, function.spec_code(), sequence_number];
    let token = if ttc_field_version >= 18 {
        ub8(0)
    } else {
        Seq::empty()
    };
    let pointer = if user.len() == 0 {
        0u8
    } else {
        1u8
    };
    let named = if user.len() == 0 {
        Seq::empty()
    } else {
        with_length(user)
    };
    lemma_empty_text(username);
    pairs_read_back(params, Seq::empty());
    assert(tail + Seq::<u8>::empty() =~= tail);
    if username.len() > 0 {
        lemma_name_is_read(username);
    }
    lemma_lists_are_read(count, named, username, tail, params);
    let after_mode = seq![1u8] + (ub4(count) + (seq![1u8, 1u8] + (named + tail)));
    lemma_fields_are_read(
        first,
        ttc_field_version >= 18,
        token,
        pointer,
        user.len() as u32,
        mode,
        after_mode,
        username,
        params,
    );
    lemma_nine_parts(
        first,
        token,
        seq![pointer],
        ub4(user.len() as u32),
        ub4(mode),
        seq![1u8],
        ub4(count),
        seq![1u8, 1u8],
        named,
        tail,
    );
    assert(first.take(2) =~= seq![0u8, 0u8]);
}

/// A short ASCII text that is not empty fits its field.
proof fn lemma_short_text(text: Seq<char>)
    requires
        is_ascii_chars(text),
        0 < text.len() <= 100,
    ensures
        fits(text),
{
    is_ascii_chars_encode_utf8(text);
}

/// The keys of phase one are not empty, and fit their fields.
proof fn lemma_phase_one_keys_fit()
    ensures
        "AUTH_TERMINAL"@.len() > 0 && fits("AUTH_TERMINAL"@),
        "AUTH_PROGRAM_NM"@.len() > 0 && fits("AUTH_PROGRAM_NM"@),
        "AUTH_MACHINE"@.len() > 0 && fits("AUTH_MACHINE"@),
        "AUTH_PID"@.len() > 0 && fits("AUTH_PID"@),
        "AUTH_SID"@.len() > 0 && fits("AUTH_SID"@),
{
    reveal_strlit("AUTH_TERMINAL");
    reveal_strlit("AUTH_PROGRAM_NM");
    reveal_strlit("AUTH_MACHINE");
    reveal_strlit("AUTH_PID");
    reveal_strlit("AUTH_SID");
    lemma_short_text("AUTH_TERMINAL"@);
    lemma_short_text("AUTH_PROGRAM_NM"@);
    lemma_short_text("AUTH_MACHINE"@);
    lemma_short_text("AUTH_PID"@);
    lemma_short_text("AUTH_SID"@);
}

/// The server reads in the phase one request who logs on, with what authentication mode, and from
/// where: the mode is that of the message, the user that of the message, and the five pairs tell
/// the terminal, the program, the machine, the process and the user of the system.
pub proof fn phase_one_is_understood(state: AuthView, ttc_field_version: u8, large_sdu: bool)
    requires
        fits(state.username),
        fits(state.terminal),
        fits(state.program),
        fits(state.machine),
        fits(state.pid),
        fits(state.osuser),
    ensures
        request_read(
            phase_one_packet(state, ttc_field_version, large_sdu).skip(8),
            ttc_field_version >= 18,
        ) == Some(
            RequestView {
                data_flags: seq![0u8, 0u8],
                message_type: 3,
                function: 0x76,
                sequence_number: state.sequence_number,
                has_user: state.username.len() > 0,
                user_length: encode_utf8(state.username).len(),
                mode: state.auth_mode as nat,
                user: state.username,
                pairs: seq![
                    ("AUTH_TERMINAL"@, state.terminal, 0u32),
                    ("AUTH_PROGRAM_NM"@, state.program, 0u32),
                    ("AUTH_MACHINE"@, state.machine, 0u32),
                    ("AUTH_PID"@, state.pid, 0u32),
                    ("AUTH_SID"@, state.osuser, 0u32),
                ],
                rest: Seq::empty(),
            },
        ),
        phase_one_packet(state, ttc_field_version, large_sdu)[4] == 6,
{
    let params = seq![
        ("AUTH_TERMINAL"@, state.terminal, 0u32),
        ("AUTH_PROGRAM_NM"@, state.program, 0u32),
        ("AUTH_MACHINE"@, state.machine, 0u32),
        ("AUTH_PID"@, state.pid, 0u32),
        ("AUTH_SID"@, state.osuser, 0u32),
    ];
    lemma_phase_one_keys_fit();
    assert(params_fit(params));
    lemma_request_is_read(
        FunctionCode::AuthPhaseOne,
        state.sequence_number,
        ttc_field_version,
        state.username,
        state.auth_mode,
        params,
    );
    lemma_phase_one_payload(state, ttc_field_version, large_sdu);
    lemma_behind_header(
        request_front(
            FunctionCode::AuthPhaseOne,
            state.sequence_number,
            ttc_field_version,
            state.username,
            state.auth_mode,
            5,
        ) + written_params(params),
        large_sdu,
    );
}

/// The packet of phase one, with its pairs as a list.
proof fn lemma_phase_one_payload(state: AuthView, ttc_field_version: u8, large_sdu: bool)
    ensures
        phase_one_packet(state, ttc_field_version, large_sdu) == packet_bytes(
            PacketType::Data,
            request_front(
                FunctionCode::AuthPhaseOne,
                state.sequence_number,
                ttc_field_version,
                state.username,
                state.auth_mode,
                5,
            ) + written_params(
                seq![
                    ("AUTH_TERMINAL"@, state.terminal, 0u32),
                    ("AUTH_PROGRAM_NM"@, state.program, 0u32),
                    ("AUTH_MACHINE"@, state.machine, 0u32),
                    ("AUTH_PID"@, state.pid, 0u32),
                    ("AUTH_SID"@, state.osuser, 0u32),
                ],
            ),
            large_sdu,
        ),
{
    let front = request_front(
        FunctionCode::AuthPhaseOne,
        state.sequence_number,
        ttc_field_version,
        state.username,
        state.auth_mode,
        5,
    );
    lemma_five_pairs(
        front,
        ("AUTH_TERMINAL"@, state.terminal, 0u32),
        ("AUTH_PROGRAM_NM"@, state.program, 0u32),
        ("AUTH_MACHINE"@, state.machine, 0u32),
        ("AUTH_PID"@, state.pid, 0u32),
        ("AUTH_SID"@, state.osuser, 0u32),
    );
    reveal(pair_bytes);
    reveal(with_pairs);
}

/// The bytes of a pair.
#[verifier::opaque]
spec fn pair_bytes(param: (Seq<char>, Seq<char>, u32)) -> Seq<u8> {
    key_value(param.0, param.1, param.2)
}

/// The bytes of pairs behind some others.
#[verifier::opaque]
spec fn with_pairs(front: Seq<u8>, params: Seq<(Seq<char>, Seq<char>, u32)>) -> Seq<u8> {
    front + written_params(params)
}

/// One more pair at the end stands behind those that were written.
proof fn lemma_with_pairs_push(
    front: Seq<u8>,
    params: Seq<(Seq<char>, Seq<char>, u32)>,
    param: (Seq<char>, Seq<char>, u32),
)
    ensures
        with_pairs(front, params.push(param)) == with_pairs(front, params) + pair_bytes(param),
{
    reveal(pair_bytes);
    reveal(with_pairs);
    lemma_written_push(params, param);
    lemma_group(front, written_params(params), key_value(param.0, param.1, param.2));
}

/// No pairs are no bytes.
proof fn lemma_with_no_pairs(front: Seq<u8>)
    ensures
        with_pairs(front, Seq::empty()) == front,
{
    reveal(with_pairs);
    assert(front + written_params(Seq::empty()) =~= front);
}

/// Five pairs one after another are the list of the five.
proof fn lemma_five_pairs(
    front: Seq<u8>,
    a: (Seq<char>, Seq<char>, u32),
    b: (Seq<char>, Seq<char>, u32),
    c: (Seq<char>, Seq<char>, u32),
    d: (Seq<char>, Seq<char>, u32),
    e: (Seq<char>, Seq<char>, u32),
)
    ensures
        with_pairs(front, seq![a, b, c, d, e]) == front + pair_bytes(a) + pair_bytes(b)
            + pair_bytes(c) + pair_bytes(d) + pair_bytes(e),
{
    lemma_with_no_pairs(front);
    let one = Seq::<(Seq<char>, Seq<char>, u32)>::empty().push(a);
    let two = one.push(b);
    let three = two.push(c);
    let four = three.push(d);
    lemma_with_pairs_push(front, Seq::empty(), a);
    lemma_with_pairs_push(front, one, b);
    lemma_with_pairs_push(front, two, c);
    lemma_with_pairs_push(front, three, d);
    lemma_with_pairs_push(front, four, e);
    assert(four.push(e) =~= seq![a, b, c, d, e]);
}

/// The payload of a data packet stands behind its header.
proof fn lemma_behind_header(payload: Seq<u8>, large_sdu: bool)
    ensures
        packet_bytes(PacketType::Data, payload, large_sdu).skip(8) == payload,
        packet_bytes(PacketType::Data, payload, large_sdu)[4] == 6,
{
    header_describes_packet(PacketType::Data, payload, large_sdu);
}

/// Six pairs one after another are the list of the six.
proof fn lemma_six_pairs(
    a: (Seq<char>, Seq<char>, u32),
    b: (Seq<char>, Seq<char>, u32),
    c: (Seq<char>, Seq<char>, u32),
    d: (Seq<char>, Seq<char>, u32),
    e: (Seq<char>, Seq<char>, u32),
    f: (Seq<char>, Seq<char>, u32),
)
    ensures
        with_pairs(Seq::empty(), seq![a, b, c, d, e, f]) == pair_bytes(a) + pair_bytes(b)
            + pair_bytes(c) + pair_bytes(d) + pair_bytes(e) + pair_bytes(f),
{
    let front = Seq::<u8>::empty();
    let five = Seq::<(Seq<char>, Seq<char>, u32)>::empty().push(a).push(b).push(c).push(d).push(e);
    lemma_five_pairs(front, a, b, c, d, e);
    assert(five =~= seq![a, b, c, d, e]);
    lemma_with_pairs_push(front, five, f);
    assert(five.push(f) =~= seq![a, b, c, d, e, f]);
    assert(front + pair_bytes(a) =~= pair_bytes(a));
}

/// Seven pairs one after another are the list of the seven.
proof fn lemma_seven_pairs(
    a: (Seq<char>, Seq<char>, u32),
    b: (Seq<char>, Seq<char>, u32),
    c: (Seq<char>, Seq<char>, u32),
    d: (Seq<char>, Seq<char>, u32),
    e: (Seq<char>, Seq<char>, u32),
    f: (Seq<char>, Seq<char>, u32),
    g: (Seq<char>, Seq<char>, u32),
)
    ensures
        with_pairs(Seq::empty(), seq![a, b, c, d, e, f, g]) == pair_bytes(a) + pair_bytes(b)
            + pair_bytes(c) + pair_bytes(d) + pair_bytes(e) + pair_bytes(f) + pair_bytes(g),
{
    let six = Seq::<(Seq<char>, Seq<char>, u32)>::empty().push(a).push(b).push(c).push(d).push(
        e,
    ).push(f);
    lemma_six_pairs(a, b, c, d, e, f);
    assert(six =~= seq![a, b, c, d, e, f]);
    lemma_with_pairs_push(Seq::empty(), six, g);
    assert(six.push(g) =~= seq![a, b, c, d, e, f, g]);
}

/// The keys and the fixed values of phase two are not empty, and fit their fields.
proof fn lemma_phase_two_keys_fit()
    ensures
        "AUTH_SESSKEY"@.len() > 0 && fits("AUTH_SESSKEY"@),
        "AUTH_PBKDF2_SPEEDY_KEY"@.len() > 0 && fits("AUTH_PBKDF2_SPEEDY_KEY"@),
        "AUTH_PASSWORD"@.len() > 0 && fits("AUTH_PASSWORD"@),
        "SESSION_CLIENT_CHARSET"@.len() > 0 && fits("SESSION_CLIENT_CHARSET"@),
        "SESSION_CLIENT_DRIVER_NAME"@.len() > 0 && fits("SESSION_CLIENT_DRIVER_NAME"@),
        "SESSION_CLIENT_VERSION"@.len() > 0 && fits("SESSION_CLIENT_VERSION"@),
        "AUTH_ALTER_SESSION"@.len() > 0 && fits("AUTH_ALTER_SESSION"@),
        fits("873"@),
        fits("54530048"@),
{
    reveal_strlit("AUTH_SESSKEY");
    reveal_strlit("AUTH_PBKDF2_SPEEDY_KEY");
    reveal_strlit("AUTH_PASSWORD");
    reveal_strlit("SESSION_CLIENT_CHARSET");
    reveal_strlit("SESSION_CLIENT_DRIVER_NAME");
    reveal_strlit("SESSION_CLIENT_VERSION");
    reveal_strlit("AUTH_ALTER_SESSION");
    reveal_strlit("873");
    reveal_strlit("54530048");
    lemma_short_text("AUTH_SESSKEY"@);
    lemma_short_text("AUTH_PBKDF2_SPEEDY_KEY"@);
    lemma_short_text("AUTH_PASSWORD"@);
    lemma_short_text("SESSION_CLIENT_CHARSET"@);
    lemma_short_text("SESSION_CLIENT_DRIVER_NAME"@);
    lemma_short_text("SESSION_CLIENT_VERSION"@);
    lemma_short_text("AUTH_ALTER_SESSION"@);
    lemma_short_text("873"@);
    lemma_short_text("54530048"@);
}

/// Two digits are sent for each byte.
proof fn lemma_hex_fits(bytes: Seq<u8>)
    requires
        2 * bytes.len() <= u32::MAX,
    ensures
        fits(hex_upper(bytes)),
{
    lemma_hex_upper_is_ascii(bytes);
    is_ascii_chars_encode_utf8(hex_upper(bytes));
}

/// What is sent of the session key fits its field.
proof fn lemma_session_key_fits(verifier: u32, client_key: Seq<u8>)
    ensures
        fits(session_key_sent(verifier, client_key)),
{
    lemma_hex_upper_is_ascii(client_key);
    let sent = session_key_sent(verifier, client_key);
    assert forall|i: int| 0 <= i < sent.len() implies '\0' <= #[trigger] sent[i] <= '\u{7f}' by {
        assert(sent[i] == hex_upper(client_key)[i]);
    }
    is_ascii_chars_encode_utf8(sent);
}

/// The bytes of a list of pairs.
proof fn lemma_list_bytes(params: Seq<(Seq<char>, Seq<char>, u32)>)
    ensures
        with_pairs(Seq::empty(), params) == written_params(params),
{
    reveal(with_pairs);
    lemma_no_front(written_params(params));
}

/// The pairs of phase two with a speedy key, as a list.
proof fn lemma_pairs_with_speedy_key(
    sesskey: Seq<char>,
    speedy: Seq<char>,
    password: Seq<char>,
    driver: Seq<char>,
    zone: Seq<char>,
)
    ensures
        key_value("AUTH_SESSKEY"@, sesskey, 1) + key_value("AUTH_PBKDF2_SPEEDY_KEY"@, speedy, 0)
            + key_value("AUTH_PASSWORD"@, password, 0) + key_value(
            "SESSION_CLIENT_CHARSET"@,
            "873"@,
            0,
        ) + key_value("SESSION_CLIENT_DRIVER_NAME"@, driver, 0) + key_value(
            "SESSION_CLIENT_VERSION"@,
            "54530048"@,
            0,
        ) + key_value("AUTH_ALTER_SESSION"@, zone, 1) == written_params(
            phase_two_list(sesskey, Some(speedy), password, driver, zone),
        ),
{
    let list = phase_two_list(sesskey, Some(speedy), password, driver, zone);
    lemma_seven_pairs(list[0], list[1], list[2], list[3], list[4], list[5], list[6]);
    assert(list =~= seq![list[0], list[1], list[2], list[3], list[4], list[5], list[6]]);
    lemma_list_bytes(list);
    lemma_pair_bytes(list[0]);
    lemma_pair_bytes(list[1]);
    lemma_pair_bytes(list[2]);
    lemma_pair_bytes(list[3]);
    lemma_pair_bytes(list[4]);
    lemma_pair_bytes(list[5]);
    lemma_pair_bytes(list[6]);
}

/// The pairs of phase two without a speedy key, as a list.
proof fn lemma_pairs_without_speedy_key(
    sesskey: Seq<char>,
    password: Seq<char>,
    driver: Seq<char>,
    zone: Seq<char>,
)
    ensures
        key_value("AUTH_SESSKEY"@, sesskey, 1) + Seq::<u8>::empty() + key_value(
            "AUTH_PASSWORD"@,
            password,
            0,
        ) + key_value("SESSION_CLIENT_CHARSET"@, "873"@, 0) + key_value(
            "SESSION_CLIENT_DRIVER_NAME"@,
            driver,
            0,
        ) + key_value("SESSION_CLIENT_VERSION"@, "54530048"@, 0) + key_value(
            "AUTH_ALTER_SESSION"@,
            zone,
            1,
        ) == written_params(phase_two_list(sesskey, None, password, driver, zone)),
{
    let list = phase_two_list(sesskey, None, password, driver, zone);
    lemma_six_pairs(list[0], list[1], list[2], list[3], list[4], list[5]);
    assert(list =~= seq![list[0], list[1], list[2], list[3], list[4], list[5]]);
    lemma_list_bytes(list);
    lemma_pair_bytes(list[0]);
    lemma_pair_bytes(list[1]);
    lemma_pair_bytes(list[2]);
    lemma_pair_bytes(list[3]);
    lemma_pair_bytes(list[4]);
    lemma_pair_bytes(list[5]);
    lemma_nothing_added(list[0]);
}

/// The bytes of a pair.
proof fn lemma_pair_bytes(param: (Seq<char>, Seq<char>, u32))
    ensures
        pair_bytes(param) == key_value(param.0, param.1, param.2),
{
    reveal(pair_bytes);
}

/// The pairs of phase two, as a list.
proof fn lemma_phase_two_pairs(
    state: AuthView,
    password: Seq<char>,
    client_key: Seq<u8>,
    speedy: Option<Seq<char>>,
    utc_offset: int,
)
    ensures
        phase_two_pairs(state, password, client_key, speedy, utc_offset) == written_params(
            phase_two_list(
                session_key_sent(state.verifier_type, client_key),
                speedy,
                password,
                state.driver_name,
                time_zone_statement(state.session_time_zone, utc_offset),
            ),
        ),
{
    let sesskey = session_key_sent(state.verifier_type, client_key);
    let zone = time_zone_statement(state.session_time_zone, utc_offset);
    match speedy {
        Some(key) => lemma_pairs_with_speedy_key(sesskey, key, password, state.driver_name, zone),
        None => lemma_pairs_without_speedy_key(sesskey, password, state.driver_name, zone),
    }
}

/// Nothing behind a pair is the pair.
proof fn lemma_nothing_added(param: (Seq<char>, Seq<char>, u32))
    ensures
        pair_bytes(param) + Seq::<u8>::empty() == pair_bytes(param),
{
    assert(pair_bytes(param) + Seq::<u8>::empty() =~= pair_bytes(param));
}

/// Nothing before some bytes is the bytes.
proof fn lemma_no_front(bytes: Seq<u8>)
    ensures
        Seq::<u8>::empty() + bytes == bytes,
{
    assert(Seq::<u8>::empty() + bytes =~= bytes);
}

/// The pairs of phase two, in their order.
pub open spec fn phase_two_list(
    session_key: Seq<char>,
    speedy: Option<Seq<char>>,
    password: Seq<char>,
    driver_name: Seq<char>,
    time_zone: Seq<char>,
) -> Seq<(Seq<char>, Seq<char>, u32)> {
    match speedy {
        Some(key) => seq![
            ("AUTH_SESSKEY"@, session_key, 1u32),
            ("AUTH_PBKDF2_SPEEDY_KEY"@, key, 0u32),
            ("AUTH_PASSWORD"@, password, 0u32),
            ("SESSION_CLIENT_CHARSET"@, "873"@, 0u32),
            ("SESSION_CLIENT_DRIVER_NAME"@, driver_name, 0u32),
            ("SESSION_CLIENT_VERSION"@, "54530048"@, 0u32),
            ("AUTH_ALTER_SESSION"@, time_zone, 1u32),
        ],
        None => seq![
            ("AUTH_SESSKEY"@, session_key, 1u32),
            ("AUTH_PASSWORD"@, password, 0u32),
            ("SESSION_CLIENT_CHARSET"@, "873"@, 0u32),
            ("SESSION_CLIENT_DRIVER_NAME"@, driver_name, 0u32),
            ("SESSION_CLIENT_VERSION"@, "54530048"@, 0u32),
            ("AUTH_ALTER_SESSION"@, time_zone, 1u32),
        ],
    }
}

/// What is sent of the session key stands for its first bytes.
proof fn lemma_session_key_sent(verifier: u32, client_key: Seq<u8>)
    ensures
        session_key_sent(verifier, client_key) == hex_upper(
            if verifier == 0x4815 {
                if client_key.len() <= 32 {
                    client_key
                } else {
                    client_key.take(32)
                }
            } else if client_key.len() <= 48 {
                client_key
            } else {
                client_key.take(48)
            },
        ),
{
    let size: int = if verifier == 0x4815 {
        32
    } else {
        48
    };
    if client_key.len() > size {
        assert(hex_upper(client_key).take(2 * size) =~= hex_upper(client_key.take(size)));
    }
}

/// The packet of phase two, with its pairs as a list.
proof fn lemma_phase_two_payload(
    state: AuthView,
    front: Seq<u8>,
    large_sdu: bool,
    password: Seq<char>,
    client_key: Seq<u8>,
    speedy: Option<Seq<char>>,
    utc_offset: int,
)
    ensures
        packet_bytes(
            PacketType::Data,
            front + phase_two_pairs(state, password, client_key, speedy, utc_offset),
            large_sdu,
        ) == packet_bytes(
            PacketType::Data,
            front + written_params(
                phase_two_list(
                    session_key_sent(state.verifier_type, client_key),
                    speedy,
                    password,
                    state.driver_name,
                    time_zone_statement(state.session_time_zone, utc_offset),
                ),
            ),
            large_sdu,
        ),
{
    lemma_phase_two_pairs(state, password, client_key, speedy, utc_offset);
}

/// A request of phase two whose pairs fit is read back field by field.
proof fn lemma_phase_two_is_read(
    username: Seq<char>,
    mode: u32,
    ttc_field_version: u8,
    large_sdu: bool,
    list: Seq<(Seq<char>, Seq<char>, u32)>,
)
    requires
        params_fit(list),
        list.len() <= 7,
        fits(username),
    ensures
        ({
            let packet = packet_bytes(
                PacketType::Data,
                request_front(
                    FunctionCode::AuthPhaseTwo,
                    2,
                    ttc_field_version,
                    username,
                    mode,
                    list.len() as u32,
                ) + written_params(list),
                large_sdu,
            );
            &&& packet[4] == 6
            &&& request_read(packet.skip(8), ttc_field_version >= 18) == Some(
                RequestView {
                    data_flags: seq![0u8, 0u8],
                    message_type: 3,
                    function: 0x73,
                    sequence_number: 2,
                    has_user: username.len() > 0,
                    user_length: encode_utf8(username).len(),
                    mode: mode as nat,
                    user: username,
                    pairs: list,
                    rest: Seq::empty(),
                },
            )
        }),
{
    lemma_request_is_read(
        FunctionCode::AuthPhaseTwo,
        2,
        ttc_field_version,
        username,
        mode,
        list,
    );
    lemma_behind_header(
        request_front(
            FunctionCode::AuthPhaseTwo,
            2,
            ttc_field_version,
            username,
            mode,
            list.len() as u32,
        ) + written_params(list),
        large_sdu,
    );
}

/// The pairs of phase two fit where their texts do.
proof fn lemma_list_fits(
    sesskey: Seq<char>,
    speedy: Option<Seq<char>>,
    password: Seq<char>,
    driver: Seq<char>,
    zone: Seq<char>,
)
    requires
        fits(sesskey),
        speedy matches Some(key) ==> fits(key),
        fits(password),
        fits(driver),
        fits(zone),
    ensures
        params_fit(phase_two_list(sesskey, speedy, password, driver, zone)),
{
    lemma_phase_two_keys_fit();
}

/// The server reads in the phase two request of a 12c logon who logs on, and with what mode: that
/// of the message, with the flag of a password. Of the seven pairs, the session key stands for the
/// first 32 bytes of the client's key; the speedy key for the first 80 bytes of what the cipher
/// makes, under the combo key, of the salt and behind it the key derived from the password; and the
/// password for what the cipher makes of the salt and behind it the password.
pub proof fn phase_two_12c_is_understood(
    state: AuthView,
    ttc_field_version: u8,
    large_sdu: bool,
    password_salt: Seq<u8>,
    key_salt: Seq<u8>,
    utc_offset: int,
)
    requires
        state.verifier_type == 0x4815,
        fits(state.username),
        fits(state.driver_name),
        fits(time_zone_statement(state.session_time_zone, utc_offset)),
    ensures
        phase_two_packet(
            state,
            ttc_field_version,
            large_sdu,
            password_salt,
            key_salt,
            utc_offset,
        ) matches Ok(packet) ==> {
            let combo_key = state.combo_key->0;
            let client_key = state.client_session_key->0;
            let start = Seq::new(16, |i: int| 0u8);
            let sealed_password = aes256_cipher(
                combo_key,
                start,
                password_salt + state.password,
            );
            let derived_key = pbkdf2_key(
                state.password,
                hex_bytes(state.session.auth_vfr_data->0) + encode_utf8(
                    "AUTH_PBKDF2_SPEEDY_KEY"@,
                ),
                state.session.auth_pbkdf2_vgen_count->0,
                64,
            );
            let sealed_key = aes256_cipher(combo_key, start, key_salt + derived_key);
            2 * sealed_password.len() <= u32::MAX && 80 <= sealed_key.len() ==> packet[4] == 6
                && request_read(packet.skip(8), ttc_field_version >= 18) == Some(
                RequestView {
                    data_flags: seq![0u8, 0u8],
                    message_type: 3,
                    function: 0x73,
                    sequence_number: 2,
                    has_user: state.username.len() > 0,
                    user_length: encode_utf8(state.username).len(),
                    mode: (state.auth_mode | 0x100) as nat,
                    user: state.username,
                    pairs: seq![
                        (
                            "AUTH_SESSKEY"@,
                            hex_upper(
                                if client_key.len() <= 32 {
                                    client_key
                                } else {
                                    client_key.take(32)
                                },
                            ),
                            1u32,
                        ),
                        ("AUTH_PBKDF2_SPEEDY_KEY"@, hex_upper(sealed_key.take(80)), 0u32),
                        ("AUTH_PASSWORD"@, hex_upper(sealed_password), 0u32),
                        ("SESSION_CLIENT_CHARSET"@, "873"@, 0u32),
                        ("SESSION_CLIENT_DRIVER_NAME"@, state.driver_name, 0u32),
                        ("SESSION_CLIENT_VERSION"@, "54530048"@, 0u32),
                        (
                            "AUTH_ALTER_SESSION"@,
                            time_zone_statement(state.session_time_zone, utc_offset),
                            1u32,
                        ),
                    ],
                    rest: Seq::empty(),
                },
            )
        },
{
    let outcome = phase_two_packet(
        state,
        ttc_field_version,
        large_sdu,
        password_salt,
        key_salt,
        utc_offset,
    );
    if outcome is Ok {
        let combo_key = state.combo_key->0;
        let client_key = state.client_session_key->0;
        let start = Seq::new(16, |i: int| 0u8);
        assert(start =~= zero_block());
        let sealed_password = aes256_cipher(combo_key, start, password_salt + state.password);
        let zone = time_zone_statement(state.session_time_zone, utc_offset);
        let derived_key = pbkdf2_key(
            state.password,
            hex_bytes(state.session.auth_vfr_data->0) + encode_utf8("AUTH_PBKDF2_SPEEDY_KEY"@),
            state.session.auth_pbkdf2_vgen_count->0,
            64,
        );
        let sealed_key = aes256_cipher(combo_key, start, key_salt + derived_key);
        if 2 * sealed_password.len() <= u32::MAX && 80 <= sealed_key.len() {
            lemma_hex_fits(sealed_password);
            lemma_hex_fits(sealed_key.take(80));
            lemma_session_key_sent(state.verifier_type, client_key);
            lemma_session_key_fits(state.verifier_type, client_key);
            let sesskey = session_key_sent(state.verifier_type, client_key);
            let speedy = Some(hex_upper(sealed_key.take(80)));
            let password = hex_upper(sealed_password);
            let list = phase_two_list(sesskey, speedy, password, state.driver_name, zone);
            lemma_list_fits(sesskey, speedy, password, state.driver_name, zone);
            lemma_phase_two_payload(
                state,
                request_front(
                    FunctionCode::AuthPhaseTwo,
                    2,
                    ttc_field_version,
                    state.username,
                    state.auth_mode | 0x100,
                    list.len() as u32,
                ),
                large_sdu,
                password,
                client_key,
                speedy,
                utc_offset,
            );
            lemma_phase_two_is_read(
                state.username,
                state.auth_mode | 0x100,
                ttc_field_version,
                large_sdu,
                list,
            );
        }
    }
}

/// The server reads in the phase two request of an 11g logon who logs on, and with what mode: that
/// of the message, with the flag of a password. Of the six pairs, the session key stands for the
/// first 48 bytes of the client's key, and the password for what the cipher makes, under the combo
/// key, of the salt and behind it the password.
pub proof fn phase_two_11g_is_understood(
    state: AuthView,
    ttc_field_version: u8,
    large_sdu: bool,
    password_salt: Seq<u8>,
    key_salt: Seq<u8>,
    utc_offset: int,
)
    requires
        state.verifier_type != 0x4815,
        fits(state.username),
        fits(state.driver_name),
        fits(time_zone_statement(state.session_time_zone, utc_offset)),
    ensures
        phase_two_packet(
            state,
            ttc_field_version,
            large_sdu,
            password_salt,
            key_salt,
            utc_offset,
        ) matches Ok(packet) ==> {
            let combo_key = state.combo_key->0;
            let client_key = state.client_session_key->0;
            let start = Seq::new(16, |i: int| 0u8);
            let sealed_password = aes192_cipher(
                combo_key,
                start,
                password_salt + state.password,
            );
            2 * sealed_password.len() <= u32::MAX ==> packet[4] == 6
                && request_read(packet.skip(8), ttc_field_version >= 18) == Some(
                RequestView {
                    data_flags: seq![0u8, 0u8],
                    message_type: 3,
                    function: 0x73,
                    sequence_number: 2,
                    has_user: state.username.len() > 0,
                    user_length: encode_utf8(state.username).len(),
                    mode: (state.auth_mode | 0x100) as nat,
                    user: state.username,
                    pairs: seq![
                        (
                            "AUTH_SESSKEY"@,
                            hex_upper(
                                if client_key.len() <= 48 {
                                    client_key
                                } else {
                                    client_key.take(48)
                                },
                            ),
                            1u32,
                        ),
                        ("AUTH_PASSWORD"@, hex_upper(sealed_password), 0u32),
                        ("SESSION_CLIENT_CHARSET"@, "873"@, 0u32),
                        ("SESSION_CLIENT_DRIVER_NAME"@, state.driver_name, 0u32),
                        ("SESSION_CLIENT_VERSION"@, "54530048"@, 0u32),
                        (
                            "AUTH_ALTER_SESSION"@,
                            time_zone_statement(state.session_time_zone, utc_offset),
                            1u32,
                        ),
                    ],
                    rest: Seq::empty(),
                },
            )
        },
{
    let outcome = phase_two_packet(
        state,
        ttc_field_version,
        large_sdu,
        password_salt,
        key_salt,
        utc_offset,
    );
    if outcome is Ok {
        let combo_key = state.combo_key->0;
        let client_key = state.client_session_key->0;
        let start = Seq::new(16, |i: int| 0u8);
        assert(start =~= zero_block());
        let sealed_password = aes192_cipher(combo_key, start, password_salt + state.password);
        let zone = time_zone_statement(state.session_time_zone, utc_offset);
        if 2 * sealed_password.len() <= u32::MAX {
            lemma_hex_fits(sealed_password);
            lemma_session_key_sent(state.verifier_type, client_key);
            lemma_session_key_fits(state.verifier_type, client_key);
            let sesskey = session_key_sent(state.verifier_type, client_key);
            let speedy = None;
            let password = hex_upper(sealed_password);
            let list = phase_two_list(sesskey, speedy, password, state.driver_name, zone);
            lemma_list_fits(sesskey, speedy, password, state.driver_name, zone);
            lemma_phase_two_payload(
                state,
                request_front(
                    FunctionCode::AuthPhaseTwo,
                    2,
                    ttc_field_version,
                    state.username,
                    state.auth_mode | 0x100,
                    list.len() as u32,
                ),
                large_sdu,
                password,
                client_key,
                speedy,
                utc_offset,
            );
            lemma_phase_two_is_read(
                state.username,
                state.auth_mode | 0x100,
                ttc_field_version,
                large_sdu,
                list,
            );
        }
    }
}

/// The privilege that was asked for is in the mode that the server reads, in either phase: with
/// SYSDBA the bit 0x20, with SYSOPER the bit 0x40. No bit of the mode is lost, and phase two adds
/// the bit 0x100 and no other.
pub proof fn privilege_is_sent(
    state: AuthView,
    mode: u32,
    ttc_field_version: u8,
    large_sdu: bool,
)
    requires
        state.auth_mode == mode | 0x20 || state.auth_mode == mode | 0x40,
        fits(state.username),
        fits(state.terminal),
        fits(state.program),
        fits(state.machine),
        fits(state.pid),
        fits(state.osuser),
    ensures
        request_read(
            phase_one_packet(state, ttc_field_version, large_sdu).skip(8),
            ttc_field_version >= 18,
        ) matches Some(request) && request.mode <= u32::MAX && {
            let sent = request.mode as u32;
            &&& state.auth_mode == mode | 0x20 ==> sent & 0x20 == 0x20 && sent & !0x20u32 == mode
                & !0x20u32
            &&& state.auth_mode == mode | 0x40 ==> sent & 0x40 == 0x40 && sent & !0x40u32 == mode
                & !0x40u32
            &&& (state.auth_mode | 0x100) & 0x100 == 0x100
            &&& (state.auth_mode | 0x100) & !0x100u32 == sent & !0x100u32
        },
{
    phase_one_is_understood(state, ttc_field_version, large_sdu);
    let sent = state.auth_mode;
    assert((mode | 0x20) & 0x20 == 0x20 && (mode | 0x20) & !0x20u32 == mode & !0x20u32)
        by (bit_vector);
    assert((mode | 0x40) & 0x40 == 0x40 && (mode | 0x40) & !0x40u32 == mode & !0x40u32)
        by (bit_vector);
    assert((sent | 0x100) & 0x100 == 0x100 && (sent | 0x100) & !0x100u32 == sent & !0x100u32)
        by (bit_vector);
}

} // verus!
