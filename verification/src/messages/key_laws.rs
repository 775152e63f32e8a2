//! What holds of the keys of every logon.
//!
//! The laws here are written over what the digests and ciphers make of plain bytes, so that each of
//! them says which bytes go into which of them.

use crate::crypto::{
    aes192_cipher, aes192_plain, aes256_cipher, aes256_plain, combo_key_11g, combo_key_12c,
    decrypted_192, decrypted_256, encrypted_192, encrypted_256, md5_digest, mixed_halves,
    opens_from_the_front_256, password_hash_11g, password_hash_12c, pbkdf2_key, pkcs7_padding,
    sha1_digest, sha512_digest, zero_block,
};
use crate::error::{CryptoError, ErrorView};
use crate::hex_codec::{hex_bytes, hex_failure, hex_reads_back, hex_upper, is_hex};
use crate::messages::auth_model::{
    half_size, password_encoded, phase_two_packet, server_response_checked, speedy_key_made,
    verifier_made, AuthView, SessionView,
};
use vstd::prelude::*;
use vstd::utf8::encode_utf8;

verus! {

/// Sixteen zero bytes.
pub open spec fn sixteen_zeros() -> Seq<u8> {
    seq![0u8, 0, 0, 0, 0, 0, 0, 0, 0, 0, 0, 0, 0, 0, 0, 0]
}

/// Every chain starts from sixteen zero bytes.
proof fn lemma_start()
    ensures
        zero_block() == sixteen_zeros(),
{
    assert(zero_block() =~= sixteen_zeros());
}

/// The speedy key that is sent for a 12c verifier is hex. Under the combo key its bytes open to the
/// salt, and behind it the 64 bytes that are derived from the password over the verifier data and
/// the name of the key, with as many iterations as the server asked for.
pub proof fn speedy_key_opens(state: AuthView, salt: Seq<u8>)
    requires
        state.verifier_type == 0x4815,
        state.combo_key matches Some(combo_key) && combo_key.len() == 32,
        state.session.auth_vfr_data matches Some(vfr) && is_hex(vfr),
        state.session.auth_pbkdf2_vgen_count is Some,
        salt.len() == 16,
    ensures
        ({
            let combo_key = state.combo_key->0;
            let derived_key = pbkdf2_key(
                state.password,
                hex_bytes(state.session.auth_vfr_data->0) + encode_utf8(
                    "AUTH_PBKDF2_SPEEDY_KEY"@,
                ),
                state.session.auth_pbkdf2_vgen_count->0,
                64,
            );
            let plain = salt + derived_key;
            let sealed = aes256_cipher(combo_key, sixteen_zeros(), plain);
            speedy_key_made(state, salt) matches Ok(Some(text)) && is_hex(text) && (
            derived_key.len() == 64 && sealed.len() == 96 && opens_from_the_front_256(
                combo_key,
                sealed,
                plain + pkcs7_padding(80),
            ) ==> decrypted_256(combo_key, hex_bytes(text)) == Ok::<Seq<u8>, CryptoError>(plain))
        }),
{
    lemma_start();
    let combo_key = state.combo_key->0;
    let derived_key = pbkdf2_key(
        state.password,
        hex_bytes(state.session.auth_vfr_data->0) + encode_utf8("AUTH_PBKDF2_SPEEDY_KEY"@),
        state.session.auth_pbkdf2_vgen_count->0,
        64,
    );
    let plain = salt + derived_key;
    let sealed = aes256_cipher(combo_key, sixteen_zeros(), plain);
    hex_reads_back(sealed.take(80));
    if derived_key.len() == 64 {
        assert((plain + pkcs7_padding(80)).take(80) =~= plain);
    }
}

/// A speedy key is made for a 12c verifier only, and for that if and only if the combo key has 32
/// bytes, the verifier data is hex, and the server said how many iterations to make.
pub proof fn speedy_key_is_for_12c(state: AuthView, salt: Seq<u8>)
    ensures
        state.verifier_type != 0x4815 ==> speedy_key_made(state, salt) == Ok::<
            Option<Seq<char>>,
            ErrorView,
        >(None),
        state.verifier_type == 0x4815 ==> (speedy_key_made(state, salt) is Ok <==> {
            &&& state.combo_key matches Some(combo_key) && combo_key.len() == 32
            &&& state.session.auth_vfr_data matches Some(vfr) && is_hex(vfr)
            &&& state.session.auth_pbkdf2_vgen_count is Some
        }),
        state.verifier_type == 0x4815 && speedy_key_made(state, salt) is Ok
            ==> speedy_key_made(state, salt)->Ok_0 is Some,
{
}

/// The password that is sent is hex. Under the combo key its bytes open to the salt, behind it the
/// password, and the padding: with AES-256 for a 12c verifier, and with AES-192 for any other.
pub proof fn sent_password_opens(state: AuthView, salt: Seq<u8>)
    requires
        state.combo_key matches Some(combo_key) && combo_key.len() == (if state.verifier_type
            == 0x4815 {
            32int
        } else {
            24
        }),
    ensures
        ({
            let combo_key = state.combo_key->0;
            let plain = salt + state.password;
            let padded = plain + pkcs7_padding(plain.len());
            let sealed = if state.verifier_type == 0x4815 {
                aes256_cipher(combo_key, sixteen_zeros(), plain)
            } else {
                aes192_cipher(combo_key, sixteen_zeros(), plain)
            };
            password_encoded(state, salt) matches Ok(text) && is_hex(text) && hex_bytes(text)
                == sealed && (sealed.len() % 16 == 0 ==> if state.verifier_type == 0x4815 {
                aes256_plain(combo_key, sixteen_zeros(), sealed) == padded ==> decrypted_256(
                    combo_key,
                    hex_bytes(text),
                ) == Ok::<Seq<u8>, CryptoError>(padded)
            } else {
                aes192_plain(combo_key, sixteen_zeros(), sealed) == padded ==> decrypted_192(
                    combo_key,
                    hex_bytes(text),
                ) == Ok::<Seq<u8>, CryptoError>(padded)
            })
        }),
{
    lemma_start();
    let combo_key = state.combo_key->0;
    let plain = salt + state.password;
    let sealed = if state.verifier_type == 0x4815 {
        aes256_cipher(combo_key, sixteen_zeros(), plain)
    } else {
        aes192_cipher(combo_key, sixteen_zeros(), plain)
    };
    hex_reads_back(sealed);
}

/// Phase two can be built if and only if the combo key has the size of the verifier's cipher, the
/// client's key is there, and, for a 12c verifier, the verifier data is hex and the server said how
/// many iterations to make. What is missing is told, and what comes first of it.
pub proof fn phase_two_is_built_with_keys(
    state: AuthView,
    ttc_field_version: u8,
    large_sdu: bool,
    password_salt: Seq<u8>,
    key_salt: Seq<u8>,
    utc_offset: int,
)
    ensures
        ({
            let outcome = phase_two_packet(
                state,
                ttc_field_version,
                large_sdu,
                password_salt,
                key_salt,
                utc_offset,
            );
            let is_12c = state.verifier_type == 0x4815;
            let key_size: int = if is_12c {
                32
            } else {
                24
            };
            if state.combo_key is None {
                outcome == Err::<Seq<u8>, ErrorView>(
                    ErrorView::Protocol("Combo key not generated"@),
                )
            } else if state.combo_key->0.len() != key_size {
                outcome == Err::<Seq<u8>, ErrorView>(ErrorView::Crypto(CryptoError::KeyLength))
            } else if state.client_session_key is None {
                outcome == Err::<Seq<u8>, ErrorView>(
                    ErrorView::Protocol("Client session key not generated"@),
                )
            } else if is_12c && state.session.auth_vfr_data is None {
                outcome == Err::<Seq<u8>, ErrorView>(
                    ErrorView::AuthenticationFailed("Missing AUTH_VFR_DATA"@),
                )
            } else if is_12c && !is_hex(state.session.auth_vfr_data->0) {
                outcome == Err::<Seq<u8>, ErrorView>(
                    ErrorView::Protocol(
                        "Invalid AUTH_VFR_DATA hex: "@ + hex_failure(
                            state.session.auth_vfr_data->0,
                        ),
                    ),
                )
            } else if is_12c && state.session.auth_pbkdf2_vgen_count is None {
                outcome == Err::<Seq<u8>, ErrorView>(
                    ErrorView::AuthenticationFailed("Missing iterations"@),
                )
            } else {
                outcome is Ok
            }
        }),
{
}

/// The hash of the password that an 11g verifier uses as a key: the digest of the password and
/// behind it the verifier data, filled up with four zero bytes.
pub proof fn hash_of_11g(password: Seq<u8>, verifier_data: Seq<u8>)
    ensures
        password_hash_11g(password, verifier_data) == sha1_digest(password + verifier_data) + seq![
            0u8,
            0u8,
            0u8,
            0u8,
        ],
{
}

/// The hash of the password that a 12c verifier uses as a key: the first 32 bytes of the digest of
/// the derived key and behind it the verifier data.
pub proof fn hash_of_12c(password: Seq<u8>, verifier_data: Seq<u8>, iterations: u32)
    ensures
        password_hash_12c(password, verifier_data, iterations) == sha512_digest(
            pbkdf2_key(
                password,
                verifier_data + encode_utf8("AUTH_PBKDF2_SPEEDY_KEY"@),
                iterations,
                64,
            ) + verifier_data,
        ).take(32),
{
}

/// The combo key of 11g comes of the bytes from the seventeenth to the fortieth of both halves,
/// each pair combined by exclusive or: the digest of the first 16 of them, and behind it as much of
/// the digest of the others as makes 24 bytes.
pub proof fn combo_key_of_11g(part_a: Seq<u8>, part_b: Seq<u8>, mixed: Seq<u8>)
    requires
        part_a.len() >= 40,
        part_b.len() >= 40,
        mixed.len() == 24,
        forall|i: int| 0 <= i < 24 ==> #[trigger] mixed[i] == part_a[16 + i] ^ part_b[16 + i],
    ensures
        combo_key_11g(part_a, part_b) == (md5_digest(mixed.take(16)) + md5_digest(
            mixed.skip(16),
        )).take(24),
{
    assert(mixed_halves(part_a, part_b) =~= mixed);
}

/// Which half is whose does not matter to the combo key of 11g.
pub proof fn combo_key_of_11g_is_symmetric(part_a: Seq<u8>, part_b: Seq<u8>)
    ensures
        combo_key_11g(part_a, part_b) == combo_key_11g(part_b, part_a),
{
    let one = mixed_halves(part_a, part_b);
    let two = mixed_halves(part_b, part_a);
    assert forall|i: int| 0 <= i < one.len() implies #[trigger] one[i] == two[i] by {
        let a = part_a[16 + i];
        let b = part_b[16 + i];
        assert(a ^ b == b ^ a) by (bit_vector);
    }
    assert(one =~= two);
}

/// Short halves of an 11g session key: as many bytes are combined as both have behind the
/// sixteenth.
pub proof fn combo_key_of_short_halves(part_a: Seq<u8>, part_b: Seq<u8>, mixed: Seq<u8>)
    requires
        part_a.len() < 40 || part_b.len() < 40,
        mixed.len() + 16 <= part_a.len() || mixed.len() == 0,
        mixed.len() + 16 <= part_b.len() || mixed.len() == 0,
        mixed.len() + 16 >= part_a.len() || mixed.len() + 16 >= part_b.len(),
        forall|i: int|
            0 <= i < mixed.len() ==> #[trigger] mixed[i] == part_a[16 + i] ^ part_b[16 + i],
    ensures
        combo_key_11g(part_a, part_b) == (if mixed.len() <= 16 {
            md5_digest(mixed) + md5_digest(Seq::empty())
        } else {
            md5_digest(mixed.take(16)) + md5_digest(mixed.skip(16))
        }).take(24),
{
    assert(mixed_halves(part_a, part_b) =~= mixed);
    if mixed.len() <= 16 {
        assert(mixed.skip(mixed.len() as int) =~= Seq::empty());
    }
}

/// The combo key of 12c is derived from the first 32 bytes of the client's half and behind them the
/// first 32 of the server's half, written as hex.
pub proof fn combo_key_of_12c(part_a: Seq<u8>, part_b: Seq<u8>, salt: Seq<u8>, iterations: u32)
    requires
        part_a.len() >= 32,
        part_b.len() >= 32,
    ensures
        combo_key_12c(part_a, part_b, salt, iterations) == pbkdf2_key(
            encode_utf8(hex_upper(part_b.take(32) + part_a.take(32))),
            salt,
            iterations,
            32,
        ),
{
    assert(part_a.len() == 32 ==> part_a.take(32) =~= part_a);
    assert(part_b.len() == 32 ==> part_b.take(32) =~= part_b);
}

/// Halves of fewer bytes go whole into the combo key of 12c.
pub proof fn combo_key_of_12c_takes_short_halves(
    part_a: Seq<u8>,
    part_b: Seq<u8>,
    salt: Seq<u8>,
    iterations: u32,
)
    requires
        part_a.len() <= 32,
        part_b.len() <= 32,
    ensures
        combo_key_12c(part_a, part_b, salt, iterations) == pbkdf2_key(
            encode_utf8(hex_upper(part_b + part_a)),
            salt,
            iterations,
            32,
        ),
{
}

/// The keys of a 12c logon, where the server said all that they take. Under the hash of the
/// password the server's half is opened and the client's half is sealed; both make the combo key,
/// with the salt and the number of iterations that the server gave for it. Nothing else changes.
pub proof fn keys_of_12c_logon(
    state: AuthView,
    verifier_data: Seq<char>,
    server_key: Seq<char>,
    salt: Seq<char>,
    part_b: Seq<u8>,
)
    requires
        state.verifier_type == 0x4815,
        state.session.auth_vfr_data == Some(verifier_data),
        state.session.auth_sesskey == Some(server_key),
        state.session.auth_pbkdf2_csk_salt == Some(salt),
        state.session.auth_pbkdf2_vgen_count is Some,
        state.session.auth_pbkdf2_sder_count is Some,
        is_hex(verifier_data),
        is_hex(server_key),
        is_hex(salt),
        server_key.len() % 32 == 0,
        server_key.len() >= 64,
        part_b.len() == server_key.len() / 2,
    ensures
        ({
            let data = hex_bytes(verifier_data);
            let derived_key = pbkdf2_key(
                state.password,
                data + encode_utf8("AUTH_PBKDF2_SPEEDY_KEY"@),
                state.session.auth_pbkdf2_vgen_count->0,
                64,
            );
            let digest = sha512_digest(derived_key + data);
            let hash = digest.take(32);
            let part_a = aes256_plain(hash, sixteen_zeros(), hex_bytes(server_key));
            let client_key = aes256_cipher(hash, sixteen_zeros(), part_b);
            let combo_key = pbkdf2_key(
                encode_utf8(hex_upper(part_b.take(32) + part_a.take(32))),
                hex_bytes(salt),
                state.session.auth_pbkdf2_sder_count->0,
                32,
            );
            digest.len() == 64 && part_a.len() == part_b.len() ==> verifier_made(state, part_b) == (
                AuthView {
                    client_session_key: Some(client_key),
                    combo_key: Some(combo_key),
                    ..state
                },
                Ok::<(), ErrorView>(()),
            )
        }),
{
    lemma_start();
    let data = hex_bytes(verifier_data);
    let count = state.session.auth_pbkdf2_vgen_count->0;
    let hash = password_hash_12c(state.password, data, count);
    hash_of_12c(state.password, data, count);
    let part_a = aes256_plain(hash, sixteen_zeros(), hex_bytes(server_key));
    if part_a.len() == part_b.len() {
        combo_key_of_12c(
            part_a,
            part_b,
            hex_bytes(salt),
            state.session.auth_pbkdf2_sder_count->0,
        );
    }
}

/// The keys of an 11g logon, for either form of its verifier, where the server said all that they
/// take. Under the hash of the password the server's half is opened and the client's half is
/// sealed; both make the combo key. Nothing else changes.
pub proof fn keys_of_11g_logon(
    state: AuthView,
    verifier_data: Seq<char>,
    server_key: Seq<char>,
    part_b: Seq<u8>,
)
    requires
        state.verifier_type == 0xb152 || state.verifier_type == 0x1b25,
        state.session.auth_vfr_data == Some(verifier_data),
        state.session.auth_sesskey == Some(server_key),
        is_hex(verifier_data),
        is_hex(server_key),
        server_key.len() % 32 == 0,
        part_b.len() == server_key.len() / 2,
    ensures
        ({
            let digest = sha1_digest(state.password + hex_bytes(verifier_data));
            let hash = digest + seq![0u8, 0u8, 0u8, 0u8];
            let part_a = aes192_plain(hash, sixteen_zeros(), hex_bytes(server_key));
            let client_key = aes192_cipher(hash, sixteen_zeros(), part_b);
            digest.len() == 20 ==> verifier_made(state, part_b) == (
                AuthView {
                    client_session_key: Some(client_key),
                    combo_key: Some(combo_key_11g(part_a, part_b)),
                    ..state
                },
                Ok::<(), ErrorView>(()),
            )
        }),
{
    lemma_start();
    hash_of_11g(state.password, hex_bytes(verifier_data));
}

/// What is missing of what the keys take, or wrong with it, is told, and what comes first of it.
/// Without verifier data and a session key in hex, and a known verifier type, no key is made.
pub proof fn missing_data_is_told(state: AuthView, part_b: Seq<u8>)
    ensures
        ({
            let outcome = verifier_made(state, part_b);
            let session = state.session;
            if session.auth_vfr_data is None {
                outcome == (
                    state,
                    Err::<(), ErrorView>(
                        ErrorView::AuthenticationFailed("Missing AUTH_VFR_DATA"@),
                    ),
                )
            } else if !is_hex(session.auth_vfr_data->0) {
                outcome == (
                    state,
                    Err::<(), ErrorView>(
                        ErrorView::Protocol(
                            "Invalid AUTH_VFR_DATA hex: "@ + hex_failure(session.auth_vfr_data->0),
                        ),
                    ),
                )
            } else if session.auth_sesskey is None {
                outcome == (
                    state,
                    Err::<(), ErrorView>(ErrorView::AuthenticationFailed("Missing AUTH_SESSKEY"@)),
                )
            } else if !is_hex(session.auth_sesskey->0) {
                outcome == (
                    state,
                    Err::<(), ErrorView>(
                        ErrorView::Protocol(
                            "Invalid AUTH_SESSKEY hex: "@ + hex_failure(session.auth_sesskey->0),
                        ),
                    ),
                )
            } else if state.verifier_type != 0x4815 && state.verifier_type != 0xb152
                && state.verifier_type != 0x1b25 {
                outcome == (
                    state,
                    Err::<(), ErrorView>(ErrorView::UnsupportedVerifierType(state.verifier_type)),
                )
            } else if state.verifier_type == 0x4815 && session.auth_pbkdf2_vgen_count is None {
                outcome == (
                    state,
                    Err::<(), ErrorView>(
                        ErrorView::AuthenticationFailed("Missing AUTH_PBKDF2_VGEN_COUNT"@),
                    ),
                )
            } else {
                true
            }
        }),
{
}

/// Of a 12c logon without the salt of the combo key, or the number of its iterations, the client's
/// key is made, and no combo key.
pub proof fn missing_combo_data_is_told(state: AuthView, part_b: Seq<u8>)
    requires
        state.verifier_type == 0x4815,
        state.session.auth_vfr_data matches Some(vfr) && is_hex(vfr),
        state.session.auth_sesskey matches Some(key) && is_hex(key) && key.len() % 32 == 0,
        state.session.auth_pbkdf2_vgen_count is Some,
    ensures
        ({
            let outcome = verifier_made(state, part_b);
            let session = state.session;
            let data = hex_bytes(session.auth_vfr_data->0);
            let digest = sha512_digest(
                pbkdf2_key(
                    state.password,
                    data + encode_utf8("AUTH_PBKDF2_SPEEDY_KEY"@),
                    session.auth_pbkdf2_vgen_count->0,
                    64,
                ) + data,
            );
            let with_key = AuthView {
                client_session_key: Some(
                    aes256_cipher(digest.take(32), sixteen_zeros(), part_b),
                ),
                ..state
            };
            digest.len() == 64 ==> if session.auth_pbkdf2_csk_salt is None {
                outcome == (
                    with_key,
                    Err::<(), ErrorView>(
                        ErrorView::AuthenticationFailed("Missing AUTH_PBKDF2_CSK_SALT"@),
                    ),
                )
            } else if !is_hex(session.auth_pbkdf2_csk_salt->0) {
                outcome == (
                    with_key,
                    Err::<(), ErrorView>(
                        ErrorView::Protocol(
                            "Invalid CSK_SALT hex: "@ + hex_failure(
                                session.auth_pbkdf2_csk_salt->0,
                            ),
                        ),
                    ),
                )
            } else if session.auth_pbkdf2_sder_count is None {
                outcome == (
                    with_key,
                    Err::<(), ErrorView>(
                        ErrorView::AuthenticationFailed("Missing AUTH_PBKDF2_SDER_COUNT"@),
                    ),
                )
            } else {
                outcome.1 is Ok
            }
        }),
{
    lemma_start();
    let data = hex_bytes(state.session.auth_vfr_data->0);
    hash_of_12c(state.password, data, state.session.auth_pbkdf2_vgen_count->0);
}

/// A response of the server is accepted if and only if there is none, or it is hex and opens, under
/// the combo key, to at least 32 bytes with the marker from the seventeenth to the last of these:
/// with AES-256 for a 12c verifier, and with AES-192 for any other.
pub proof fn response_opens_to_the_marker(state: AuthView)
    ensures
        state.session.auth_svr_response is None ==> server_response_checked(state) is Ok,
        state.session.auth_svr_response matches Some(response) ==> {
            let bytes = hex_bytes(response);
            let combo_key = state.combo_key->0;
            let plain = if state.verifier_type == 0x4815 {
                aes256_plain(combo_key, sixteen_zeros(), bytes)
            } else {
                aes192_plain(combo_key, sixteen_zeros(), bytes)
            };
            server_response_checked(state) is Ok <==> {
                &&& state.combo_key is Some
                &&& combo_key.len() == (if state.verifier_type == 0x4815 {
                    32int
                } else {
                    24
                })
                &&& is_hex(response)
                &&& bytes.len() % 16 == 0
                &&& plain.len() >= 32
                &&& plain.subrange(16, 32) == encode_utf8("SERVER_TO_CLIENT"@)
            }
        },
{
    lemma_start();
}

/// AES-192 takes keys of 24 bytes and AES-256 keys of 32, and whole blocks of 16 bytes are opened,
/// in a chain that starts from zeros; anything else is refused, the key first.
pub proof fn ciphers_take_their_sizes(key: Seq<u8>, data: Seq<u8>)
    ensures
        decrypted_192(key, data) == (if key.len() != 24 {
            Err::<Seq<u8>, CryptoError>(CryptoError::KeyLength)
        } else if data.len() % 16 != 0 {
            Err(CryptoError::DataLength)
        } else {
            Ok(aes192_plain(key, sixteen_zeros(), data))
        }),
        decrypted_256(key, data) == (if key.len() != 32 {
            Err::<Seq<u8>, CryptoError>(CryptoError::KeyLength)
        } else if data.len() % 16 != 0 {
            Err(CryptoError::DataLength)
        } else {
            Ok(aes256_plain(key, sixteen_zeros(), data))
        }),
        encrypted_192(key, data) == (if key.len() != 24 {
            Err::<Seq<u8>, CryptoError>(CryptoError::KeyLength)
        } else {
            Ok(aes192_cipher(key, sixteen_zeros(), data))
        }),
        encrypted_256(key, data) == (if key.len() != 32 {
            Err::<Seq<u8>, CryptoError>(CryptoError::KeyLength)
        } else {
            Ok(aes256_cipher(key, sixteen_zeros(), data))
        }),
{
    lemma_start();
}

/// The client draws as many bytes for its half of the session key as the server's half has: one for
/// each two digits of it.
pub proof fn halves_have_one_size(session: SessionView)
    ensures
        session.auth_sesskey is None ==> half_size(session) == 0,
        session.auth_sesskey matches Some(key) && is_hex(key) ==> half_size(session) == hex_bytes(
            session.auth_sesskey->0,
        ).len(),
{
}

} // verus!
