use base64::Engine;
use ecies_core::encoding::{from_hex, to_hex};
use ecies_core::keys::is_valid_secret_key;
use ecies_core::{decrypt, encrypt, generate_secret_key, public_key_from, round_trip, CryptoError};

fn hex_of_byte_value(v: u8) -> String {
    // the 32-byte big-endian scalar whose value is v, as hexadecimal text
    let mut bytes = [0u8; 32];
    bytes[31] = v;
    to_hex(&bytes)
}

#[test]
fn hex_encodes_lowercase_pairs() {
    assert_eq!(to_hex(&[0x12, 0x34]), "1234");
    assert_eq!(to_hex(&[]), "");
    assert_eq!(to_hex(&[0x00, 0xff, 0xab]), "00ffab");
}

#[test]
fn hex_decodes_both_cases() {
    assert_eq!(from_hex("1234").unwrap(), vec![0x12, 0x34]);
    assert_eq!(from_hex("00ffab").unwrap(), vec![0x00, 0xff, 0xab]);
    assert_eq!(from_hex("00FFAB").unwrap(), vec![0x00, 0xff, 0xab]);
    assert_eq!(from_hex("").unwrap(), Vec::<u8>::new());
}

#[test]
fn hex_round_trips() {
    let data: Vec<u8> = (0u16..=255).map(|b| b as u8).collect();
    let text = to_hex(&data);
    assert_eq!(from_hex(&text).unwrap(), data);
}

#[test]
fn from_hex_rejects_bad_digits() {
    assert_eq!(from_hex("zz").unwrap_err(), CryptoError::MalformedEncoding);
    assert_eq!(from_hex("1g").unwrap_err(), CryptoError::MalformedEncoding);
}

#[test]
fn from_hex_rejects_odd_length() {
    assert_eq!(from_hex("abc").unwrap_err(), CryptoError::MalformedEncoding);
    assert_eq!(from_hex("a").unwrap_err(), CryptoError::MalformedEncoding);
}

#[test]
fn secret_key_validation_rejects_edge_scalars() {
    // zero is below the range
    assert!(!is_valid_secret_key(&[0u8; 32]));
    // one is the smallest valid scalar
    let mut one = [0u8; 32];
    one[31] = 1;
    assert!(is_valid_secret_key(&one));
    // the group order itself is out of range, the order minus one is in
    let order = from_hex("fffffffffffffffffffffffffffffffebaaedce6af48a03bbfd25e8cd0364141")
        .unwrap();
    assert!(!is_valid_secret_key(&order));
    let order_minus_one =
        from_hex("fffffffffffffffffffffffffffffffebaaedce6af48a03bbfd25e8cd0364140").unwrap();
    assert!(is_valid_secret_key(&order_minus_one));
    // wrong lengths
    assert!(!is_valid_secret_key(&[1u8; 31]));
    assert!(!is_valid_secret_key(&[1u8; 33]));
}

#[test]
fn parse_rejects_all_zero_secret_key() {
    let zero_hex = hex_of_byte_value(0);
    assert_eq!(public_key_from(&zero_hex).unwrap_err(), CryptoError::InvalidKey);
}

#[test]
fn public_key_from_rejects_malformed_hex() {
    assert_eq!(public_key_from("zz").unwrap_err(), CryptoError::MalformedEncoding);
    assert_eq!(public_key_from("abc").unwrap_err(), CryptoError::MalformedEncoding);
}

#[test]
fn public_key_of_one_is_the_base_point() {
    // the compressed form of the curve's base point, a published constant
    let pk = public_key_from(&hex_of_byte_value(1)).unwrap();
    assert_eq!(pk, "0279be667ef9dcbbac55a06295ce870b07029bfcdb2dce28d959f2815b16f81798");
}

#[test]
fn key_derivation_is_deterministic() {
    let sk = generate_secret_key();
    let pk1 = public_key_from(&sk).unwrap();
    let pk2 = public_key_from(&sk).unwrap();
    assert_eq!(pk1, pk2);
    assert_eq!(pk1.len(), 66);
}

#[test]
fn generated_keys_are_valid_hex() {
    let sk = generate_secret_key();
    assert_eq!(sk.len(), 64);
    let bytes = from_hex(&sk).unwrap();
    assert_eq!(bytes.len(), 32);
    assert!(is_valid_secret_key(&bytes));
}

#[test]
fn encrypt_decrypt_round_trips() {
    let sk = generate_secret_key();
    let pk = public_key_from(&sk).unwrap();
    let message = b"attack at dawn";
    let c = encrypt(&pk, message).unwrap();
    let p = decrypt(&sk, &c).unwrap();
    assert_eq!(p, message);
}

#[test]
fn round_trip_helper_returns_message() {
    assert_eq!(round_trip(b"some payload").unwrap(), b"some payload");
    assert_eq!(round_trip(b"").unwrap(), b"");
}

#[test]
fn encryption_is_randomized_but_consistent() {
    let sk = generate_secret_key();
    let pk = public_key_from(&sk).unwrap();
    let message = b"same message";
    let c1 = encrypt(&pk, message).unwrap();
    let c2 = encrypt(&pk, message).unwrap();
    assert_ne!(c1, c2);
    assert_eq!(decrypt(&sk, &c1).unwrap(), message);
    assert_eq!(decrypt(&sk, &c2).unwrap(), message);
}

#[test]
fn encrypt_rejects_invalid_public_key() {
    // 33 zero bytes are no point on the curve
    let bad = to_hex(&[0u8; 33]);
    assert_eq!(encrypt(&bad, b"m").unwrap_err(), CryptoError::InvalidKey);
    assert_eq!(encrypt("zz", b"m").unwrap_err(), CryptoError::MalformedEncoding);
}

#[test]
fn decrypt_rejects_malformed_inputs() {
    let sk = generate_secret_key();
    assert_eq!(decrypt("zz", "aGk=").unwrap_err(), CryptoError::MalformedEncoding);
    assert_eq!(decrypt(&sk, "not base64!").unwrap_err(), CryptoError::MalformedEncoding);
    // valid base64 of something far too short
    assert_eq!(decrypt(&sk, "aGk=").unwrap_err(), CryptoError::MalformedMessage);
    let zero_hex = to_hex(&[0u8; 32]);
    assert_eq!(decrypt(&zero_hex, "aGk=").unwrap_err(), CryptoError::InvalidKey);
}

#[test]
fn tampering_never_yields_plaintext() {
    let sk = generate_secret_key();
    let pk = public_key_from(&sk).unwrap();
    let message = b"integrity matters";
    let c = encrypt(&pk, message).unwrap();
    let blob = base64::engine::general_purpose::STANDARD.decode(&c).unwrap();
    for byte_index in 0..blob.len() {
        for bit in 0..8 {
            let mut twisted = blob.clone();
            twisted[byte_index] ^= 1u8 << bit;
            let twisted_b64 = base64::engine::general_purpose::STANDARD.encode(&twisted);
            let r = decrypt(&sk, &twisted_b64);
            assert!(r.is_err(), "bit {} of byte {} slipped through", bit, byte_index);
            if byte_index >= 65 {
                // outside the ephemeral-key field the tag check must fail
                assert_eq!(r.unwrap_err(), CryptoError::AuthenticationFailed);
            } else {
                // inside it, the twisted point may fall off the curve
                let e = r.unwrap_err();
                assert!(e == CryptoError::AuthenticationFailed || e == CryptoError::InvalidKey);
            }
        }
    }
}

#[test]
fn decrypting_with_another_key_fails_authentication() {
    let sk1 = generate_secret_key();
    let pk1 = public_key_from(&sk1).unwrap();
    let mut sk2 = generate_secret_key();
    while sk2 == sk1 {
        sk2 = generate_secret_key();
    }
    let c = encrypt(&pk1, b"for the first key only").unwrap();
    assert_eq!(decrypt(&sk2, &c).unwrap_err(), CryptoError::AuthenticationFailed);
}

#[test]
fn known_message_decrypts() {
    // a fixed key and message encrypted by the same scheme elsewhere
    let sk_hex = "e520872701d9ec44dbac2eab85512ad14ad0c42e01de56d7b528abd8524fcb47";
    let blob = from_hex(
        "047be1885aeb48d4d4db0c992996725d3264784fef88c5b60782f8d0f940c213227fc3f904f846d5ec3d0fba6653754501e8ebadc421aa3892a20fef33cff0206047058a4cfb4efbeae96b2d019b4ab2edce33328748a0d008a69c8f5816b72d45bd9b5a41bb6ea0127ab23057ec6fcd",
    )
    .unwrap();
    let c = base64::engine::general_purpose::STANDARD.encode(&blob);
    let p = decrypt(sk_hex, &c).unwrap();
    assert_eq!(p, "hello world\u{1f30d}".as_bytes());
}

#[test]
fn example_scenario() {
    let sk = generate_secret_key();
    let pk = public_key_from(&sk).unwrap();
    let c = encrypt(&pk, b"Good morning Cape Town!").unwrap();
    let p = decrypt(&sk, &c).unwrap();
    assert_eq!(p, b"Good morning Cape Town!");
}

#[test]
fn point_encodings_are_interchangeable() {
    let sk = generate_secret_key();
    let pk_compressed = public_key_from(&sk).unwrap();
    // the same point, re-encoded uncompressed
    let point = ecies::PublicKey::parse_slice(&from_hex(&pk_compressed).unwrap(), None).unwrap();
    let pk_uncompressed = to_hex(&point.serialize());
    assert_eq!(pk_uncompressed.len(), 130);
    let message = b"either encoding will do";
    let c1 = encrypt(&pk_compressed, message).unwrap();
    let c2 = encrypt(&pk_uncompressed, message).unwrap();
    assert_eq!(decrypt(&sk, &c1).unwrap(), message);
    assert_eq!(decrypt(&sk, &c2).unwrap(), message);
}
