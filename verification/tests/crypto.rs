use oracle_rs::crypto::{
    decrypt_cbc_192, decrypt_cbc_256, encrypt_cbc_192, encrypt_cbc_256_pkcs7,
    generate_11g_combo_key, generate_11g_password_hash, generate_12c_combo_key,
    generate_12c_password_hash, generate_salt, generate_session_key_part,
};
use oracle_rs::error::CryptoError;
use oracle_rs::Error;

fn bytes(text: &str) -> Vec<u8> {
    hex::decode(text).unwrap()
}

fn counting(size: usize) -> Vec<u8> {
    (0..size).map(|i| i as u8).collect()
}

fn stepping(size: usize) -> Vec<u8> {
    (0..size).map(|i| (7 * i + 3) as u8).collect()
}

#[test]
fn password_hash_of_11g_is_sha1() {
    assert_eq!(
        generate_11g_password_hash(b"abc", b""),
        bytes("a9993e364706816aba3e25717850c26c9cd0d89d00000000")
    );
    assert_eq!(
        generate_11g_password_hash(b"tiger", &bytes("00112233445566778899aabbccddeeff")),
        bytes("113229ade85221413f901af41904b9b732ae54a800000000")
    );
}

#[test]
fn password_hash_of_12c_is_derived() {
    assert_eq!(
        generate_12c_password_hash(b"tiger", &bytes("00112233445566778899aabbccddeeff"), 4096),
        bytes("2994707bb5f2acbe080618d3343ff84d355841be0dbdb36ac7929b451971d005")
    );
}

#[test]
fn combo_key_of_11g_mixes_the_halves() {
    assert_eq!(
        generate_11g_combo_key(&counting(48), &stepping(48)),
        bytes("87e84e6612ea03be719e4e02d6a78ba5aa68693e2487f477")
    );
    // Halves that are too short leave nothing to mix: the digests of nothing
    assert_eq!(
        generate_11g_combo_key(&counting(16), &stepping(48)),
        bytes("d41d8cd98f00b204e9800998ecf8427ed41d8cd98f00b204")
    );
}

#[test]
fn combo_key_of_12c_is_derived_from_the_halves() {
    let expected = bytes("cf91ff1fe6f256af43159a452205f09c58481e8e365c6137dca1c50768c40377");
    let salt = bytes("0102030405060708");
    assert_eq!(generate_12c_combo_key(&counting(32), &stepping(32), &salt, 3), expected);
    // Only the first 32 bytes of each half count
    assert_eq!(generate_12c_combo_key(&counting(48), &stepping(40), &salt, 3), expected);
}

#[test]
fn aes_192_encrypts_blocks_in_a_chain() {
    let key = counting(24);
    let encrypted = encrypt_cbc_192(&key, &bytes("00112233445566778899aabbccddeeff")).unwrap();
    assert_eq!(encrypted.len(), 32);
    assert_eq!(&encrypted[..16], &bytes("dda97ca4864cdfe06eaf70a0ec0d7191")[..]);
    assert_eq!(
        encrypt_cbc_192(&key, b"hello").unwrap(),
        bytes("12056740635d5dd4124b24264bb8a00a")
    );
    assert_eq!(
        decrypt_cbc_192(&key, &bytes("dda97ca4864cdfe06eaf70a0ec0d7191")).unwrap(),
        bytes("00112233445566778899aabbccddeeff")
    );
}

#[test]
fn aes_256_encrypts_blocks_in_a_chain() {
    let key = counting(32);
    let encrypted = encrypt_cbc_256_pkcs7(&key, &bytes("00112233445566778899aabbccddeeff")).unwrap();
    assert_eq!(encrypted.len(), 32);
    assert_eq!(&encrypted[..16], &bytes("8ea2b7ca516745bfeafc49904b496089")[..]);
    assert_eq!(
        encrypt_cbc_256_pkcs7(&key, b"twenty bytes of text").unwrap(),
        bytes("2d07a151f41b83a78d3f5fc430a1a0ba12425e827cd32c754c593cabc756701b")
    );
    assert_eq!(
        decrypt_cbc_256(&key, &bytes("8ea2b7ca516745bfeafc49904b496089")).unwrap(),
        bytes("00112233445566778899aabbccddeeff")
    );
}

#[test]
fn decrypting_gives_back_data_and_padding() {
    for size in 0..40 {
        let data = stepping(size);
        let padding = 16 - size % 16;
        let mut expected = data.clone();
        expected.extend(vec![padding as u8; padding]);

        let encrypted = encrypt_cbc_192(&counting(24), &data).unwrap();
        assert_eq!(decrypt_cbc_192(&counting(24), &encrypted).unwrap(), expected);
        let encrypted = encrypt_cbc_256_pkcs7(&counting(32), &data).unwrap();
        assert_eq!(decrypt_cbc_256(&counting(32), &encrypted).unwrap(), expected);
    }
}

#[test]
fn wrong_lengths_are_errors() {
    for size in [0, 16, 23, 25, 32] {
        assert!(matches!(encrypt_cbc_192(&counting(size), b""), Err(Error::Crypto(CryptoError::KeyLength))));
        assert!(matches!(decrypt_cbc_192(&counting(size), b"x"), Err(Error::Crypto(CryptoError::KeyLength))));
    }
    for size in [0, 16, 24, 31, 33] {
        assert!(matches!(encrypt_cbc_256_pkcs7(&counting(size), b""), Err(Error::Crypto(CryptoError::KeyLength))));
        assert!(matches!(decrypt_cbc_256(&counting(size), b"x"), Err(Error::Crypto(CryptoError::KeyLength))));
    }
    assert!(matches!(decrypt_cbc_192(&counting(24), b"x"), Err(Error::Crypto(CryptoError::DataLength))));
    assert!(matches!(decrypt_cbc_256(&counting(32), &counting(17)), Err(Error::Crypto(CryptoError::DataLength))));
    assert_eq!(decrypt_cbc_192(&counting(24), b"").unwrap(), Vec::<u8>::new());
    assert_eq!(decrypt_cbc_256(&counting(32), b"").unwrap(), Vec::<u8>::new());
}

#[test]
fn random_bytes_are_drawn() {
    let salt = generate_salt();
    assert_eq!(salt.len(), 16);
    assert_ne!(salt, generate_salt());
    let part = generate_session_key_part(48);
    assert_eq!(part.len(), 48);
    assert_ne!(part, vec![0u8; 48]);
    assert_eq!(generate_session_key_part(0), Vec::<u8>::new());
}
