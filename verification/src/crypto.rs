//! Ciphers and key derivation of the O5LOGON protocol.

use crate::error::{CryptoError, Error, Result};
use crate::hex_codec::{encode_upper, hex_upper};
use cbc::cipher::block_padding::{NoPadding, Pkcs7};
use cbc::cipher::{BlockDecryptMut, BlockEncryptMut, KeyIvInit};
use rand::RngCore;
use sha1::Digest;
use vstd::prelude::*;
use vstd::utf8::encode_utf8;

verus! {

/// Size of a cipher block.
pub const BLOCK_SIZE: usize = 16;

/// Size of the key of AES-192.
pub const KEY_SIZE_192: usize = 24;

/// Size of the key of AES-256.
pub const KEY_SIZE_256: usize = 32;

/// Size of a salt.
pub const SALT_SIZE: usize = 16;

/// The SHA-1 digest of some bytes.
pub uninterp spec fn sha1_digest(data: Seq<u8>) -> Seq<u8>;

/// The SHA-512 digest of some bytes.
pub uninterp spec fn sha512_digest(data: Seq<u8>) -> Seq<u8>;

/// The MD5 digest of some bytes.
pub uninterp spec fn md5_digest(data: Seq<u8>) -> Seq<u8>;

/// The key of `size` bytes that PBKDF2 with HMAC-SHA-512 derives.
pub uninterp spec fn pbkdf2_key(
    password: Seq<u8>,
    salt: Seq<u8>,
    iterations: u32,
    size: nat,
) -> Seq<u8>;

/// What AES-192 in CBC mode makes of padded data, starting from the given block.
pub uninterp spec fn aes192_cipher(key: Seq<u8>, start: Seq<u8>, data: Seq<u8>) -> Seq<u8>;

/// What AES-256 in CBC mode makes of padded data, starting from the given block.
pub uninterp spec fn aes256_cipher(key: Seq<u8>, start: Seq<u8>, data: Seq<u8>) -> Seq<u8>;

/// What AES-192 in CBC mode makes of whole cipher blocks, starting from the given block.
pub uninterp spec fn aes192_plain(key: Seq<u8>, start: Seq<u8>, data: Seq<u8>) -> Seq<u8>;

/// What AES-256 in CBC mode makes of whole cipher blocks, starting from the given block.
pub uninterp spec fn aes256_plain(key: Seq<u8>, start: Seq<u8>, data: Seq<u8>) -> Seq<u8>;

/// The PKCS #7 padding of data of the given length: each byte holds the length of the padding.
pub open spec fn pkcs7_padding(len: nat) -> Seq<u8> {
    let count = (BLOCK_SIZE - len % (BLOCK_SIZE as nat)) as nat;
    Seq::new(count, |i: int| count as u8)
}

/// Calls `Sha1::digest`. Claims that the 20 bytes are a function of the data.
#[verifier::external_body]
fn sha1(data: &[u8]) -> (digest: Vec<u8>)
    ensures
        digest@ == sha1_digest(data@),
        digest@.len() == 20,
{
    sha1::Sha1::digest(data).to_vec()
}

/// Calls `Sha512::digest`. Claims that the 64 bytes are a function of the data.
#[verifier::external_body]
fn sha512(data: &[u8]) -> (digest: Vec<u8>)
    ensures
        digest@ == sha512_digest(data@),
        digest@.len() == 64,
{
    sha2::Sha512::digest(data).to_vec()
}

/// Calls `Md5::digest`. Claims that the 16 bytes are a function of the data.
#[verifier::external_body]
fn md5(data: &[u8]) -> (digest: Vec<u8>)
    ensures
        digest@ == md5_digest(data@),
        digest@.len() == 16,
{
    md5::Md5::digest(data).to_vec()
}

/// Calls `pbkdf2::pbkdf2_hmac` with SHA-512. Claims that the key is a function of the password, the
/// salt, the number of iterations and the size, and has that size.
#[verifier::external_body]
pub(crate) fn pbkdf2_derive(
    password: &[u8],
    salt: &[u8],
    iterations: u32,
    size: usize,
) -> (key: Vec<u8>)
    requires
        size <= 64,
    ensures
        key@ == pbkdf2_key(password@, salt@, iterations, size as nat),
        key@.len() == size,
{
    let mut key = vec![0u8; size];
    pbkdf2::pbkdf2_hmac::<sha2::Sha512>(password, salt, iterations, &mut key);
    key
}

/// Calls `encrypt_padded_vec_mut` of the `cipher` crate with `cbc::Encryptor<Aes192>`. Claims that
/// the result is a function of key, start block and data, as long as the padded data, and that
/// decrypting it, or the first of its blocks alone, gives back as much of the padded data: a block
/// is decrypted with the one before it, and with none behind it.
#[verifier::external_body]
fn aes192_encrypt(key: &[u8], start: &[u8], data: &[u8]) -> (encrypted: Vec<u8>)
    requires
        key@.len() == KEY_SIZE_192,
        start@.len() == BLOCK_SIZE,
    ensures
        encrypted@ == aes192_cipher(key@, start@, data@),
        encrypted@.len() == data@.len() + pkcs7_padding(data@.len()).len(),
        aes192_plain(key@, start@, encrypted@) == data@ + pkcs7_padding(data@.len()),
        forall|n: int|
            0 <= n <= encrypted@.len() && n % (BLOCK_SIZE as int) == 0 ==> aes192_plain(
                key@,
                start@,
                #[trigger] encrypted@.take(n),
            ) == (data@ + pkcs7_padding(data@.len())).take(n),
{
    let cipher = cbc::Encryptor::<aes::Aes192>::new_from_slices(key, start).unwrap();
    cipher.encrypt_padded_vec_mut::<Pkcs7>(data)
}

/// Calls `encrypt_padded_vec_mut` of the `cipher` crate with `cbc::Encryptor<Aes256>`. Claims that
/// the result is a function of key, start block and data, as long as the padded data, and that
/// decrypting it, or the first of its blocks alone, gives back as much of the padded data: a block
/// is decrypted with the one before it, and with none behind it.
#[verifier::external_body]
fn aes256_encrypt(key: &[u8], start: &[u8], data: &[u8]) -> (encrypted: Vec<u8>)
    requires
        key@.len() == KEY_SIZE_256,
        start@.len() == BLOCK_SIZE,
    ensures
        encrypted@ == aes256_cipher(key@, start@, data@),
        encrypted@.len() == data@.len() + pkcs7_padding(data@.len()).len(),
        aes256_plain(key@, start@, encrypted@) == data@ + pkcs7_padding(data@.len()),
        forall|n: int|
            0 <= n <= encrypted@.len() && n % (BLOCK_SIZE as int) == 0 ==> aes256_plain(
                key@,
                start@,
                #[trigger] encrypted@.take(n),
            ) == (data@ + pkcs7_padding(data@.len())).take(n),
{
    let cipher = cbc::Encryptor::<aes::Aes256>::new_from_slices(key, start).unwrap();
    cipher.encrypt_padded_vec_mut::<Pkcs7>(data)
}

/// Calls `decrypt_padded_vec_mut` of the `cipher` crate with `cbc::Decryptor<Aes192>` and no
/// padding. Claims that the result is a function of key, start block and data, as long as the data.
#[verifier::external_body]
fn aes192_decrypt(key: &[u8], start: &[u8], data: &[u8]) -> (decrypted: Vec<u8>)
    requires
        key@.len() == KEY_SIZE_192,
        start@.len() == BLOCK_SIZE,
        data@.len() % (BLOCK_SIZE as nat) == 0,
    ensures
        decrypted@ == aes192_plain(key@, start@, data@),
        decrypted@.len() == data@.len(),
{
    let cipher = cbc::Decryptor::<aes::Aes192>::new_from_slices(key, start).unwrap();
    cipher.decrypt_padded_vec_mut::<NoPadding>(data).unwrap()
}

/// Calls `decrypt_padded_vec_mut` of the `cipher` crate with `cbc::Decryptor<Aes256>` and no
/// padding. Claims that the result is a function of key, start block and data, as long as the data.
#[verifier::external_body]
fn aes256_decrypt(key: &[u8], start: &[u8], data: &[u8]) -> (decrypted: Vec<u8>)
    requires
        key@.len() == KEY_SIZE_256,
        start@.len() == BLOCK_SIZE,
        data@.len() % (BLOCK_SIZE as nat) == 0,
    ensures
        decrypted@ == aes256_plain(key@, start@, data@),
        decrypted@.len() == data@.len(),
{
    let cipher = cbc::Decryptor::<aes::Aes256>::new_from_slices(key, start).unwrap();
    cipher.decrypt_padded_vec_mut::<NoPadding>(data).unwrap()
}

/// Calls `fill_bytes` of the thread's random number generator of the `rand` crate. Claims that the
/// buffer keeps its length.
#[verifier::external_body]
fn fill_random(buf: &mut Vec<u8>)
    ensures
        final(buf)@.len() == old(buf)@.len(),
{
    rand::thread_rng().fill_bytes(buf)
}

/// The block that every chain starts from.
pub open spec fn zero_block() -> Seq<u8> {
    Seq::new(BLOCK_SIZE as nat, |i: int| 0u8)
}

/// The block that every chain starts from
fn start_block() -> (block: Vec<u8>)
    ensures
        block@ == zero_block(),
{
    let mut block: Vec<u8> = Vec::new();
    block.resize(BLOCK_SIZE, 0);
    assert(block@ =~= zero_block());
    block
}

/// What a cipher makes of data: a failure where the key does not have the size it needs.
pub open spec fn encrypted(
    key: Seq<u8>,
    key_size: nat,
    cipher: Seq<u8>,
) -> core::result::Result<Seq<u8>, CryptoError> {
    if key.len() != key_size {
        Err(CryptoError::KeyLength)
    } else {
        Ok(cipher)
    }
}

/// What a cipher makes of whole blocks: a failure where the key does not have the size it needs,
/// or the data is no whole number of blocks.
pub open spec fn decrypted(
    key: Seq<u8>,
    key_size: nat,
    data: Seq<u8>,
    plain: Seq<u8>,
) -> core::result::Result<Seq<u8>, CryptoError> {
    if key.len() != key_size {
        Err(CryptoError::KeyLength)
    } else if data.len() % (BLOCK_SIZE as nat) != 0 {
        Err(CryptoError::DataLength)
    } else {
        Ok(plain)
    }
}

/// The result of [`encrypt_cbc_192`].
pub open spec fn encrypted_192(key: Seq<u8>, data: Seq<u8>) -> core::result::Result<
    Seq<u8>,
    CryptoError,
> {
    encrypted(key, KEY_SIZE_192 as nat, aes192_cipher(key, zero_block(), data))
}

/// The result of [`encrypt_cbc_256_pkcs7`].
pub open spec fn encrypted_256(key: Seq<u8>, data: Seq<u8>) -> core::result::Result<
    Seq<u8>,
    CryptoError,
> {
    encrypted(key, KEY_SIZE_256 as nat, aes256_cipher(key, zero_block(), data))
}

/// The result of [`decrypt_cbc_192`].
pub open spec fn decrypted_192(key: Seq<u8>, data: Seq<u8>) -> core::result::Result<
    Seq<u8>,
    CryptoError,
> {
    decrypted(key, KEY_SIZE_192 as nat, data, aes192_plain(key, zero_block(), data))
}

/// The result of [`decrypt_cbc_256`].
pub open spec fn decrypted_256(key: Seq<u8>, data: Seq<u8>) -> core::result::Result<
    Seq<u8>,
    CryptoError,
> {
    decrypted(key, KEY_SIZE_256 as nat, data, aes256_plain(key, zero_block(), data))
}

/// True of encrypted blocks of AES-192 of which any first ones decrypt to as much of the plain
/// bytes.
pub open spec fn opens_from_the_front_192(
    key: Seq<u8>,
    encrypted: Seq<u8>,
    plain: Seq<u8>,
) -> bool {
    forall|n: int|
        0 <= n <= encrypted.len() && n % (BLOCK_SIZE as int) == 0 ==> decrypted_192(
            key,
            #[trigger] encrypted.take(n),
        ) == Ok::<Seq<u8>, CryptoError>(plain.take(n))
}

/// True of encrypted blocks of AES-256 of which any first ones decrypt to as much of the plain
/// bytes.
pub open spec fn opens_from_the_front_256(
    key: Seq<u8>,
    encrypted: Seq<u8>,
    plain: Seq<u8>,
) -> bool {
    forall|n: int|
        0 <= n <= encrypted.len() && n % (BLOCK_SIZE as int) == 0 ==> decrypted_256(
            key,
            #[trigger] encrypted.take(n),
        ) == Ok::<Seq<u8>, CryptoError>(plain.take(n))
}

/// True of a result that is what a cipher made.
pub open spec fn cipher_result(
    result: Result<Vec<u8>>,
    expected: core::result::Result<Seq<u8>, CryptoError>,
) -> bool {
    match expected {
        Ok(bytes) => result matches Ok(value) && value@ == bytes,
        Err(error) => result == Err::<Vec<u8>, Error>(Error::Crypto(error)),
    }
}

/// Encrypt with AES-192 in CBC mode, with PKCS #7 padding
pub fn encrypt_cbc_192(key: &[u8], data: &[u8]) -> (result: Result<Vec<u8>>)
    ensures
        cipher_result(result, encrypted_192(key@, data@)),
        result matches Ok(bytes) ==> bytes@.len() == data@.len() + pkcs7_padding(
            data@.len(),
        ).len() && decrypted_192(key@, bytes@) == Ok::<Seq<u8>, CryptoError>(
            data@ + pkcs7_padding(data@.len()),
        ),
        result matches Ok(bytes) ==> opens_from_the_front_192(
            key@,
            bytes@,
            data@ + pkcs7_padding(data@.len()),
        ),
{
    if key.len() != KEY_SIZE_192 {
        return Err(Error::Crypto(CryptoError::KeyLength));
    }
    Ok(aes192_encrypt(key, start_block().as_slice(), data))
}

/// Encrypt with AES-256 in CBC mode, with PKCS #7 padding
pub fn encrypt_cbc_256_pkcs7(key: &[u8], data: &[u8]) -> (result: Result<Vec<u8>>)
    ensures
        cipher_result(result, encrypted_256(key@, data@)),
        result matches Ok(bytes) ==> bytes@.len() == data@.len() + pkcs7_padding(
            data@.len(),
        ).len() && decrypted_256(key@, bytes@) == Ok::<Seq<u8>, CryptoError>(
            data@ + pkcs7_padding(data@.len()),
        ),
        result matches Ok(bytes) ==> opens_from_the_front_256(
            key@,
            bytes@,
            data@ + pkcs7_padding(data@.len()),
        ),
{
    if key.len() != KEY_SIZE_256 {
        return Err(Error::Crypto(CryptoError::KeyLength));
    }
    Ok(aes256_encrypt(key, start_block().as_slice(), data))
}

/// Decrypt with AES-192 in CBC mode; the padding stays
pub fn decrypt_cbc_192(key: &[u8], data: &[u8]) -> (result: Result<Vec<u8>>)
    ensures
        cipher_result(result, decrypted_192(key@, data@)),
        result matches Ok(bytes) ==> bytes@.len() == data@.len(),
{
    if key.len() != KEY_SIZE_192 {
        return Err(Error::Crypto(CryptoError::KeyLength));
    }
    if data.len() % BLOCK_SIZE != 0 {
        return Err(Error::Crypto(CryptoError::DataLength));
    }
    Ok(aes192_decrypt(key, start_block().as_slice(), data))
}

/// Decrypt with AES-256 in CBC mode; the padding stays
pub fn decrypt_cbc_256(key: &[u8], data: &[u8]) -> (result: Result<Vec<u8>>)
    ensures
        cipher_result(result, decrypted_256(key@, data@)),
        result matches Ok(bytes) ==> bytes@.len() == data@.len(),
{
    if key.len() != KEY_SIZE_256 {
        return Err(Error::Crypto(CryptoError::KeyLength));
    }
    if data.len() % BLOCK_SIZE != 0 {
        return Err(Error::Crypto(CryptoError::DataLength));
    }
    Ok(aes256_decrypt(key, start_block().as_slice(), data))
}

/// The first `count` elements, or all where there are fewer.
pub open spec fn at_most(bytes: Seq<u8>, count: nat) -> Seq<u8> {
    if bytes.len() <= count {
        bytes
    } else {
        bytes.take(count as int)
    }
}

/// The first `count` bytes, or all where there are fewer
fn front(bytes: &[u8], count: usize) -> (taken: &[u8])
    ensures
        taken@ == at_most(bytes@, count as nat),
{
    if bytes.len() <= count {
        bytes
    } else {
        let taken = vstd::slice::slice_subrange(bytes, 0, count);
        assert(taken@ =~= bytes@.take(count as int));
        taken
    }
}

/// Joins two byte strings
pub(crate) fn concat_bytes(a: &[u8], b: &[u8]) -> (joined: Vec<u8>)
    ensures
        joined@ == a@ + b@,
{
    let mut joined: Vec<u8> = vstd::slice::slice_to_vec(a);
    joined.extend_from_slice(b);
    assert(joined@ =~= a@ + b@);
    joined
}

/// The salt of the key that a 12c verifier derives from the password.
pub open spec fn speedy_salt(verifier_data: Seq<u8>) -> Seq<u8> {
    verifier_data + encode_utf8("AUTH_PBKDF2_SPEEDY_KEY"@)
}

/// The hash of the password that an 11g verifier uses as a key.
pub open spec fn password_hash_11g(password: Seq<u8>, verifier_data: Seq<u8>) -> Seq<u8> {
    sha1_digest(password + verifier_data) + seq![0u8, 0u8, 0u8, 0u8]
}

/// The hash of the password that a 12c verifier uses as a key.
pub open spec fn password_hash_12c(
    password: Seq<u8>,
    verifier_data: Seq<u8>,
    iterations: u32,
) -> Seq<u8> {
    sha512_digest(
        pbkdf2_key(password, speedy_salt(verifier_data), iterations, 64) + verifier_data,
    ).take(KEY_SIZE_256 as int)
}

/// Bytes 16 to 40 of the two halves of an 11g session key, combined.
pub open spec fn mixed_halves(part_a: Seq<u8>, part_b: Seq<u8>) -> Seq<u8> {
    let shorter: int = if part_a.len() < part_b.len() {
        part_a.len() as int
    } else {
        part_b.len() as int
    };
    let count: nat = if shorter <= 16 {
        0
    } else if shorter < 40 {
        (shorter - 16) as nat
    } else {
        24
    };
    Seq::new(count, |i: int| part_a[16 + i] ^ part_b[16 + i])
}

/// The key that the two halves of an 11g session key make together.
pub open spec fn combo_key_11g(part_a: Seq<u8>, part_b: Seq<u8>) -> Seq<u8> {
    let mixed = mixed_halves(part_a, part_b);
    let head = at_most(mixed, 16);
    (md5_digest(head) + md5_digest(mixed.skip(head.len() as int))).take(KEY_SIZE_192 as int)
}

/// The key that the two halves of a 12c session key make together.
pub open spec fn combo_key_12c(
    part_a: Seq<u8>,
    part_b: Seq<u8>,
    salt: Seq<u8>,
    iterations: u32,
) -> Seq<u8> {
    let joined = at_most(part_b, KEY_SIZE_256 as nat) + at_most(part_a, KEY_SIZE_256 as nat);
    pbkdf2_key(encode_utf8(hex_upper(joined)), salt, iterations, KEY_SIZE_256 as nat)
}

/// Hash the password for an 11g verifier
pub fn generate_11g_password_hash(password: &[u8], verifier_data: &[u8]) -> (hash: Vec<u8>)
    ensures
        hash@ == password_hash_11g(password@, verifier_data@),
        hash@.len() == 24,
{
    let salted = concat_bytes(password, verifier_data);
    let mut hash = sha1(salted.as_slice());
    hash.push(0);
    hash.push(0);
    hash.push(0);
    hash.push(0);
    assert(hash@ =~= password_hash_11g(password@, verifier_data@));
    hash
}

/// Hash the password for a 12c verifier
pub fn generate_12c_password_hash(password: &[u8], verifier_data: &[u8], iterations: u32) -> (hash:
    Vec<u8>)
    ensures
        hash@ == password_hash_12c(password@, verifier_data@, iterations),
        hash@.len() == 32,
{
    let salt = concat_bytes(verifier_data, "AUTH_PBKDF2_SPEEDY_KEY".as_bytes());
    let password_key = pbkdf2_derive(password, salt.as_slice(), iterations, 64);
    let salted = concat_bytes(password_key.as_slice(), verifier_data);
    let mut hash = sha512(salted.as_slice());
    hash.truncate(KEY_SIZE_256);
    assert(hash@ =~= password_hash_12c(password@, verifier_data@, iterations));
    hash
}

/// Combine the two halves of an 11g session key
pub fn generate_11g_combo_key(part_a: &[u8], part_b: &[u8]) -> (key: Vec<u8>)
    ensures
        key@ == combo_key_11g(part_a@, part_b@),
        key@.len() == 24,
{
    let mut mixed: Vec<u8> = Vec::new();
    let mut i: usize = 16;
    while i < 40 && i < part_a.len() && i < part_b.len()
        invariant
            16 <= i <= 40,
            mixed@.len() == i - 16,
            mixed@.len() <= mixed_halves(part_a@, part_b@).len(),
            forall|j: int|
                0 <= j < mixed@.len() ==> mixed@[j] == #[trigger] mixed_halves(part_a@, part_b@)[j],
        decreases 40 - i,
    {
        mixed.push(part_a[i] ^ part_b[i]);
        i = i + 1;
    }
    assert(mixed@ =~= mixed_halves(part_a@, part_b@));
    let head = front(mixed.as_slice(), 16);
    let tail = vstd::slice::slice_subrange(mixed.as_slice(), head.len(), mixed.len());
    assert(tail@ =~= mixed@.skip(head@.len() as int));
    let mut key = md5(head);
    let second = md5(tail);
    key.extend_from_slice(second.as_slice());
    assert(key@ =~= md5_digest(head@) + md5_digest(tail@));
    key.truncate(KEY_SIZE_192);
    assert(key@ =~= combo_key_11g(part_a@, part_b@));
    key
}

/// Combine the two halves of a 12c session key
pub fn generate_12c_combo_key(part_a: &[u8], part_b: &[u8], salt: &[u8], iterations: u32) -> (key:
    Vec<u8>)
    ensures
        key@ == combo_key_12c(part_a@, part_b@, salt@, iterations),
        key@.len() == 32,
{
    let joined = concat_bytes(front(part_b, KEY_SIZE_256), front(part_a, KEY_SIZE_256));
    let text = encode_upper(joined.as_slice());
    pbkdf2_derive(text.as_str().as_bytes(), salt, iterations, KEY_SIZE_256)
}

/// Draw the client's half of the session key
pub fn generate_session_key_part(length: usize) -> (part: Vec<u8>)
    ensures
        part@.len() == length,
{
    let mut part: Vec<u8> = Vec::new();
    part.resize(length, 0);
    fill_random(&mut part);
    part
}

/// Draw a salt
pub fn generate_salt() -> (salt: Vec<u8>)
    ensures
        salt@.len() == 16,
{
    generate_session_key_part(SALT_SIZE)
}

} // verus!
