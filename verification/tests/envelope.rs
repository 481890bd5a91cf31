use cryption_env::envelope::authenticated;
use cryption_env::nonce::NONCE_SPACE;
use cryption_env::primitive::{MAX_AAD_LEN, MAX_PLAINTEXT_LEN};
use cryption_env::{
    decode, decrypt, encode, encrypt, import_key, is_sealable, Cryption_Env, EnvelopeError,
};

fn env_with(byte: u8) -> Cryption_Env {
    Cryption_Env::with_key(import_key(&[byte; 32]).unwrap())
}

fn sample_plaintexts() -> Vec<Vec<u8>> {
    vec![
        Vec::new(),
        vec![0],
        b"hello".to_vec(),
        vec![0xff; 15],
        vec![0xa5; 16],
        vec![0x3c; 17],
        (0u8..=255).collect(),
        vec![7; 5000],
    ]
}

#[test]
fn decrypt_returns_what_encrypt_was_given() {
    let mut env = env_with(0x10);
    for plaintext in sample_plaintexts() {
        for aad in [&b""[..], &b"a"[..], &b"header: 1"[..], &[0u8; 300][..]] {
            let bytes = encrypt(&mut env, &plaintext, aad).unwrap();
            assert_eq!(decrypt(&env, &bytes, aad), Ok(plaintext.clone()));
        }
    }
}

#[test]
fn envelope_round_trip_through_the_methods() {
    let mut env = env_with(0x11);
    let envelope = env.encrypt(b"in three parts", b"context").unwrap();
    assert_eq!(envelope.nonce, [0; 12]);
    assert_eq!(envelope.ciphertext.len(), 14);
    assert_eq!(env.decrypt(&envelope, b"context"), Ok(b"in three parts".to_vec()));
    assert_eq!(env.decrypt(&envelope, b"Context"), Err(EnvelopeError::AuthenticationFailure));
}

#[test]
fn encrypt_is_encode_of_the_envelope() {
    let mut one = env_with(0x12);
    let mut two = env_with(0x12);
    let envelope = one.encrypt(b"twice", b"aad").unwrap();
    let bytes = encrypt(&mut two, b"twice", b"aad").unwrap();
    assert_eq!(encode(&envelope.nonce, &envelope.ciphertext, &envelope.tag), bytes);
    assert_eq!(decode(&bytes), Ok(envelope));
}

#[test]
fn encoded_envelope_is_28_bytes_longer_than_the_plaintext() {
    let mut env = env_with(0x13);
    for n in [0usize, 1, 5, 15, 16, 17, 31, 32, 33, 1000, 65_536] {
        let plaintext = vec![0x61; n];
        assert_eq!(encrypt(&mut env, &plaintext, b"").unwrap().len(), 28 + n);
        assert_eq!(encrypt(&mut env, &plaintext, b"some aad").unwrap().len(), 28 + n);
    }
}

#[test]
fn known_answer_for_the_empty_message() {
    let mut env = env_with(0);
    let bytes = encrypt(&mut env, b"", b"").unwrap();
    let expected: Vec<u8> = vec![
        0, 0, 0, 0, 0, 0, 0, 0, 0, 0, 0, 0, 0x53, 0x0f, 0x8a, 0xfb, 0xc7, 0x45, 0x36, 0xb9, 0xa9,
        0x63, 0xb4, 0xf1, 0xc4, 0xcb, 0x73, 0x8b,
    ];
    assert_eq!(bytes, expected);
}

#[test]
fn known_answer_for_one_block_of_zeros() {
    let mut env = env_with(0);
    let envelope = env.encrypt(&[0; 16], b"").unwrap();
    assert_eq!(envelope.nonce, [0; 12]);
    assert_eq!(
        envelope.ciphertext,
        vec![
            0xce, 0xa7, 0x40, 0x3d, 0x4d, 0x60, 0x6b, 0x6e, 0x07, 0x4e, 0xc5, 0xd3, 0xba, 0xf3,
            0x9d, 0x18
        ]
    );
    assert_eq!(
        envelope.tag,
        [
            0xd0, 0xd1, 0xc8, 0xa7, 0x99, 0x99, 0x6b, 0xf0, 0x26, 0x5b, 0x98, 0xb5, 0xd4, 0x8a,
            0xb9, 0x19
        ]
    );
}

fn from_hex(hex: &str) -> Vec<u8> {
    let digits: Vec<u8> = hex.bytes().map(|c| (c as char).to_digit(16).unwrap() as u8).collect();
    digits.chunks(2).map(|pair| pair[0] * 16 + pair[1]).collect()
}

#[test]
fn known_answer_with_associated_data() {
    let key = from_hex("feffe9928665731c6d6a8f9467308308feffe9928665731c6d6a8f9467308308");
    let plaintext = from_hex(
        "d9313225f88406e5a55909c5aff5269a86a7a9531534f7da2e4c303d8a318a72\
         1c3c0c95956809532fcf0e2449a6b525b16aedf5aa0de657ba637b39",
    );
    let aad = from_hex("feedfacedeadbeeffeedfacedeadbeefabaddad2");
    let mut env =
        Cryption_Env::resume(import_key(&key).unwrap(), 0xcafe_babe_face_dbad_deca_f888);
    let envelope = env.encrypt(&plaintext, &aad).unwrap();
    assert_eq!(envelope.nonce.to_vec(), from_hex("cafebabefacedbaddecaf888"));
    assert_eq!(
        envelope.ciphertext,
        from_hex(
            "522dc1f099567d07f47f37a32a84427d643a8cdcbfe5c0c97598a2bd2555d1aa\
             8cb08e48590dbb3da7b08b1056828838c5f61e6393ba7a0abcc9f662",
        )
    );
    assert_eq!(envelope.tag.to_vec(), from_hex("76fc6ece0f4e1768cddf8853bb2d551b"));
    assert_eq!(env.decrypt(&envelope, &aad), Ok(plaintext));
}

#[test]
fn example_hello_under_the_zero_key() {
    let mut env = env_with(0);
    let bytes = encrypt(&mut env, b"hello", b"").unwrap();
    assert_eq!(bytes.len(), 33);
    assert_eq!(&bytes[..12], &[0u8; 12][..]);
    assert_eq!(&bytes[12..17], &[0xa6u8, 0xc2, 0x2c, 0x51, 0x22][..]);
    assert_eq!(decrypt(&env, &bytes, b""), Ok(b"hello".to_vec()));

    let ones = env_with(1);
    assert_eq!(decrypt(&ones, &bytes, b""), Err(EnvelopeError::AuthenticationFailure));
}

#[test]
fn flipping_any_bit_of_the_ciphertext_is_detected() {
    let mut env = env_with(0x21);
    let plaintext = b"twenty-one bytes long";
    let bytes = encrypt(&mut env, plaintext, b"aad").unwrap();
    assert_eq!(bytes.len(), 28 + 21);
    for index in 12..bytes.len() - 16 {
        for bit in 0..8 {
            let mut tampered = bytes.clone();
            tampered[index] ^= 1 << bit;
            assert_eq!(
                decrypt(&env, &tampered, b"aad"),
                Err(EnvelopeError::AuthenticationFailure),
                "byte {} bit {}",
                index,
                bit
            );
        }
    }
    assert_eq!(decrypt(&env, &bytes, b"aad"), Ok(plaintext.to_vec()));
}

#[test]
fn flipping_any_bit_of_the_tag_is_detected() {
    let mut env = env_with(0x22);
    let bytes = encrypt(&mut env, b"tagged", b"").unwrap();
    for index in bytes.len() - 16..bytes.len() {
        for bit in 0..8 {
            let mut tampered = bytes.clone();
            tampered[index] ^= 1 << bit;
            assert_eq!(
                decrypt(&env, &tampered, b""),
                Err(EnvelopeError::AuthenticationFailure),
                "byte {} bit {}",
                index,
                bit
            );
        }
    }
}

#[test]
fn flipping_any_bit_of_the_tag_of_an_empty_message_is_detected() {
    let mut env = env_with(0x23);
    let bytes = encrypt(&mut env, b"", b"only aad").unwrap();
    assert_eq!(bytes.len(), 28);
    for index in 12..28 {
        for bit in 0..8 {
            let mut tampered = bytes.clone();
            tampered[index] ^= 1 << bit;
            assert_eq!(
                decrypt(&env, &tampered, b"only aad"),
                Err(EnvelopeError::AuthenticationFailure)
            );
        }
    }
}

#[test]
fn altering_the_nonce_is_detected() {
    let mut env = env_with(0x24);
    let bytes = encrypt(&mut env, b"under nonce zero", b"").unwrap();
    for index in 0..12 {
        for bit in 0..8 {
            let mut tampered = bytes.clone();
            tampered[index] ^= 1 << bit;
            assert_eq!(
                decrypt(&env, &tampered, b""),
                Err(EnvelopeError::AuthenticationFailure),
                "byte {} bit {}",
                index,
                bit
            );
        }
    }
    let mut replaced = bytes.clone();
    replaced[..12].copy_from_slice(&[0xff; 12]);
    assert_eq!(decrypt(&env, &replaced, b""), Err(EnvelopeError::AuthenticationFailure));
}

#[test]
fn a_different_key_does_not_open_the_envelope() {
    let mut env = env_with(0x25);
    let bytes = encrypt(&mut env, b"for one key only", b"").unwrap();
    for byte in [0u8, 1, 0x24, 0x26, 0xff] {
        assert_eq!(
            decrypt(&env_with(byte), &bytes, b""),
            Err(EnvelopeError::AuthenticationFailure)
        );
    }
    let mut near = [0x25u8; 32];
    near[0] ^= 0x80;
    let neighbour = Cryption_Env::with_key(import_key(&near).unwrap());
    assert_eq!(decrypt(&neighbour, &bytes, b""), Err(EnvelopeError::AuthenticationFailure));
}

#[test]
fn different_associated_data_does_not_open_the_envelope() {
    let mut env = env_with(0x26);
    let bytes = encrypt(&mut env, b"bound to its context", b"context").unwrap();
    for aad in [&b""[..], &b"contex"[..], &b"context "[..], &b"Context"[..], &b"contexu"[..]] {
        assert_eq!(decrypt(&env, &bytes, aad), Err(EnvelopeError::AuthenticationFailure));
    }
    assert_eq!(decrypt(&env, &bytes, b"context"), Ok(b"bound to its context".to_vec()));

    let plain = encrypt(&mut env, b"no context", b"").unwrap();
    assert_eq!(decrypt(&env, &plain, b"x"), Err(EnvelopeError::AuthenticationFailure));
}

#[test]
fn cutting_an_envelope_short_is_detected() {
    let mut env = env_with(0x27);
    let bytes = encrypt(&mut env, b"ten bytes!", b"").unwrap();
    assert_eq!(bytes.len(), 38);
    for n in 28..38 {
        assert_eq!(decrypt(&env, &bytes[..n], b""), Err(EnvelopeError::AuthenticationFailure));
    }
    let mut longer = bytes.clone();
    longer.push(0);
    assert_eq!(decrypt(&env, &longer, b""), Err(EnvelopeError::AuthenticationFailure));
}

#[test]
fn decrypt_of_fewer_than_28_bytes_is_malformed() {
    let mut env = env_with(0x28);
    let bytes = encrypt(&mut env, b"", b"").unwrap();
    assert_eq!(bytes.len(), 28);
    for n in 0..28 {
        assert_eq!(decrypt(&env, &bytes[..n], b""), Err(EnvelopeError::MalformedEnvelope));
        assert_eq!(decrypt(&env, &vec![0; n], b"aad"), Err(EnvelopeError::MalformedEnvelope));
    }
    assert_eq!(decrypt(&env, &[0; 28], b""), Err(EnvelopeError::AuthenticationFailure));
}

#[test]
fn ten_thousand_encryptions_use_ten_thousand_increasing_nonces() {
    let mut env = env_with(0x29);
    let mut nonces: Vec<Vec<u8>> = Vec::new();
    for _ in 0..10_000 {
        let bytes = encrypt(&mut env, b"same message", b"").unwrap();
        nonces.push(bytes[..12].to_vec());
    }
    assert_eq!(nonces[0], vec![0; 12]);
    assert_eq!(nonces[9_999], vec![0, 0, 0, 0, 0, 0, 0, 0, 0, 0, 0x27, 0x0f]);
    for pair in nonces.windows(2) {
        assert!(pair[0] < pair[1]);
    }
    let mut distinct = nonces.clone();
    distinct.sort();
    distinct.dedup();
    assert_eq!(distinct.len(), 10_000);
    assert_eq!(env.position(), 10_000);
}

#[test]
fn the_same_message_never_encrypts_to_the_same_bytes() {
    let mut env = env_with(0x2a);
    let first = encrypt(&mut env, b"again", b"").unwrap();
    let second = encrypt(&mut env, b"again", b"").unwrap();
    assert_ne!(first, second);
    assert_ne!(first[12..], second[12..]);
    assert_eq!(decrypt(&env, &first, b""), Ok(b"again".to_vec()));
    assert_eq!(decrypt(&env, &second, b""), Ok(b"again".to_vec()));
}

#[test]
fn position_counts_the_encryptions() {
    let mut env = env_with(0x2b);
    assert_eq!(env.position(), 0);
    encrypt(&mut env, b"one", b"").unwrap();
    assert_eq!(env.position(), 1);
    env.encrypt(b"two", b"").unwrap();
    assert_eq!(env.position(), 2);
    assert_eq!(decrypt(&env, &[0; 5], b""), Err(EnvelopeError::MalformedEnvelope));
    assert_eq!(decrypt(&env, &[0; 50], b""), Err(EnvelopeError::AuthenticationFailure));
    assert_eq!(env.position(), 2);
}

#[test]
fn a_resumed_environment_carries_on_where_the_counter_stood() {
    let mut first = env_with(0x2c);
    let early = encrypt(&mut first, b"before the restart", b"").unwrap();
    let stored = first.position();
    assert_eq!(stored, 1);

    let mut second = Cryption_Env::resume(import_key(&[0x2c; 32]).unwrap(), stored);
    assert_eq!(second.position(), 1);
    let late = encrypt(&mut second, b"after the restart", b"").unwrap();
    assert_eq!(&late[..12], &[0u8, 0, 0, 0, 0, 0, 0, 0, 0, 0, 0, 1][..]);
    assert_eq!(decrypt(&second, &early, b""), Ok(b"before the restart".to_vec()));
    assert_eq!(decrypt(&first, &late, b""), Ok(b"after the restart".to_vec()));
}

#[test]
fn encryption_fails_once_the_nonces_are_used_up() {
    let mut env = Cryption_Env::resume(import_key(&[0x2d; 32]).unwrap(), NONCE_SPACE - 1);
    let last = encrypt(&mut env, b"the last one", b"").unwrap();
    assert_eq!(&last[..12], &[0xffu8; 12][..]);
    assert_eq!(decrypt(&env, &last, b""), Ok(b"the last one".to_vec()));
    assert_eq!(env.position(), NONCE_SPACE);

    assert_eq!(encrypt(&mut env, b"one too many", b""), Err(EnvelopeError::NonceExhausted));
    assert_eq!(env.encrypt(b"one too many", b"").err(), Some(EnvelopeError::NonceExhausted));
    assert_eq!(env.position(), NONCE_SPACE);
    assert_eq!(decrypt(&env, &last, b""), Ok(b"the last one".to_vec()));
}

#[test]
fn a_new_environment_has_a_key_of_its_own() {
    let mut one = Cryption_Env::new();
    let two = Cryption_Env::new();
    assert_eq!(one.position(), 0);
    let bytes = encrypt(&mut one, b"mine", b"").unwrap();
    assert_eq!(&bytes[..12], &[0u8; 12][..]);
    assert_eq!(one.position(), 1);
    assert_eq!(decrypt(&one, &bytes, b""), Ok(b"mine".to_vec()));
    assert_eq!(decrypt(&two, &bytes, b""), Err(EnvelopeError::AuthenticationFailure));
}

#[test]
fn every_refusal_of_the_cipher_is_an_authentication_failure() {
    assert_eq!(authenticated(Err(aes_gcm::aead::Error)), Err(EnvelopeError::AuthenticationFailure));
    assert_eq!(authenticated(Ok(vec![1, 2, 3])), Ok(vec![1, 2, 3]));
    assert_eq!(authenticated(Ok(Vec::new())), Ok(Vec::new()));
}

#[test]
fn what_the_cipher_takes_is_sealable() {
    assert_eq!(MAX_PLAINTEXT_LEN, 1 << 36);
    assert_eq!(MAX_AAD_LEN, 1 << 36);
    assert!(is_sealable(b"", b""));
    assert!(is_sealable(b"hello", b"header"));
    assert!(is_sealable(&vec![0; 100_000], &vec![0; 100_000]));
}
