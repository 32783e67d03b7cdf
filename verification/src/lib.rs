//! Asymmetric encryption of byte payloads with the Elliptic Curve Integrated
//! Encryption Scheme (ECIES) over secp256k1.
//!
//! The library offers four operations: generating a secret key, deriving the
//! matching public key, encrypting a message under a public key, and
//! decrypting it under the secret key. Keys travel as lowercase hexadecimal
//! text and encrypted messages as standard base64 text.

use vstd::prelude::*;

pub mod encoding;
pub mod engine;
pub mod keys;

verus! {

use vstd::string::StringSliceAdditionalSpecFns;
use crate::encoding::{
    to_hex,
    from_hex,
    to_base64,
    from_base64,
    ascii_chars_of,
    hex_bytes_of,
    is_hex_seq,
    hex_decoded,
    b64_of,
    b64_valid,
    b64_decoded,
    is_base64_char,
    lemma_b64_round_trip,
};
use crate::keys::{secret_key_ok, is_valid_secret_key};
use crate::engine::{
    public_key_ok,
    public_key_of,
    compressed_of,
    decryption_of,
    ciphertext_for,
    MESSAGE_OVERHEAD,
    PLAINTEXT_LIMIT,
};

/// The failures a caller can see.
///
/// Entropy exhaustion is the one unrecoverable condition: key generation
/// aborts rather than reporting it.
#[derive(Clone, Copy, Debug, PartialEq, Eq, Structural)]
pub enum CryptoError {
    /// Key bytes that are not a valid curve scalar or point.
    InvalidKey,
    /// Text that is not valid hexadecimal or base64.
    MalformedEncoding,
    /// An encrypted message shorter than its fixed-size fields, or a
    /// plaintext beyond the cipher's size limit.
    MalformedMessage,
    /// An authentication tag that does not match the ciphertext.
    AuthenticationFailed,
}

/// What deriving a public key from the hexadecimal text with UTF-8 bytes
/// `sb` must yield: the hexadecimal text of the derived 33-byte compressed
/// public key, or the error naming what was wrong.
pub open spec fn spec_public_key_from(sb: Seq<u8>) -> Result<Seq<char>, CryptoError> {
    if !is_hex_seq(sb) {
        Err(CryptoError::MalformedEncoding)
    } else if !secret_key_ok(hex_decoded(sb)) {
        Err(CryptoError::InvalidKey)
    } else {
        Ok(ascii_chars_of(hex_bytes_of(public_key_of(hex_decoded(sb)))))
    }
}

/// What decrypting the base64 text `cs` under the secret key written as the
/// hexadecimal text with UTF-8 bytes `sb` must yield: the plaintext, or the
/// error naming the first thing wrong with the key or the message.
pub open spec fn spec_decrypt(sb: Seq<u8>, cs: Seq<char>) -> Result<Seq<u8>, CryptoError> {
    if !is_hex_seq(sb) {
        Err(CryptoError::MalformedEncoding)
    } else if !secret_key_ok(hex_decoded(sb)) {
        Err(CryptoError::InvalidKey)
    } else if !b64_valid(cs) {
        Err(CryptoError::MalformedEncoding)
    } else if b64_decoded(cs).len() < MESSAGE_OVERHEAD {
        Err(CryptoError::MalformedMessage)
    } else if !public_key_ok(b64_decoded(cs).subrange(0, 65)) {
        Err(CryptoError::InvalidKey)
    } else {
        match decryption_of(hex_decoded(sb), b64_decoded(cs)) {
            Some(p) => Ok(p),
            None => Err(CryptoError::AuthenticationFailed),
        }
    }
}

/// A fresh secret key, as lowercase hexadecimal text of its 32 bytes.
/// Aborts only if the operating system's entropy source fails.
pub fn generate_secret_key() -> (r: String)
    ensures
        r@.len() == 64,
        exists|sk: Seq<u8>|
            #[trigger] secret_key_ok(sk) && r@ == ascii_chars_of(hex_bytes_of(sk)),
{
    let kp = crate::engine::generate_keypair_bytes();
    let sk = kp.0;
    let r = to_hex(sk.as_slice());
    proof {
        assert(secret_key_ok(sk@) && r@ == ascii_chars_of(hex_bytes_of(sk@)));
    }
    r
}

/// The public key matching a secret key, each as hexadecimal text.
/// Derivation is deterministic: the result is a function of the input.
pub fn public_key_from(secret_key_hex: &str) -> (r: Result<String, CryptoError>)
    ensures
        match r {
            Ok(pk) => spec_public_key_from(secret_key_hex.spec_bytes()) == Ok::<
                Seq<char>,
                CryptoError,
            >(pk@),
            Err(e) => spec_public_key_from(secret_key_hex.spec_bytes()) == Err::<
                Seq<char>,
                CryptoError,
            >(e),
        },
        r is Ok ==> public_key_ok(public_key_of(hex_decoded(secret_key_hex.spec_bytes()))),
        r is Ok ==> compressed_of(public_key_of(hex_decoded(secret_key_hex.spec_bytes())))
            == public_key_of(hex_decoded(secret_key_hex.spec_bytes())),
        r matches Ok(pk) ==> pk@.len() == 66 && pk@[0] == '0' && (pk@[1] == '2' || pk@[1]
            == '3'),
{
    let sk = match from_hex(secret_key_hex) {
        Ok(v) => v,
        Err(e) => {
            return Err(e);
        },
    };
    if !is_valid_secret_key(sk.as_slice()) {
        return Err(CryptoError::InvalidKey);
    }
    let pk = crate::engine::derive_public_key_bytes(sk.as_slice());
    let text = to_hex(pk.as_slice());
    proof {
        assert(hex_bytes_of(pk@)[0] == 48);
        assert(hex_bytes_of(pk@)[1] == 50 || hex_bytes_of(pk@)[1] == 51);
        assert(text@[0] == 48u8 as char && '0' as u8 == 48);
        assert('2' as u8 == 50 && '3' as u8 == 51);
    }
    Ok(text)
}

/// An encryption of `message` to the public key given as hexadecimal text,
/// as base64 text. A fresh ephemeral key and nonce are drawn, so two calls
/// on one input differ; what is fixed is that the result decodes to a
/// message of the plaintext's length plus [`MESSAGE_OVERHEAD`] that
/// decrypts, under any secret key matching the public key, to `message`.
pub fn encrypt(public_key_hex: &str, message: &[u8]) -> (r: Result<String, CryptoError>)
    ensures
        match r {
            Ok(c) => ({
                let pkb = hex_decoded(public_key_hex.spec_bytes());
                &&& is_hex_seq(public_key_hex.spec_bytes())
                &&& public_key_ok(pkb)
                &&& b64_valid(c@)
                &&& c@ == b64_of(b64_decoded(c@))
                &&& b64_decoded(c@).len() == MESSAGE_OVERHEAD + message@.len()
                &&& public_key_ok(b64_decoded(c@).subrange(0, 65))
                &&& ciphertext_for(pkb, message@, b64_decoded(c@))
                &&& forall|i: int| 0 <= i < c@.len() ==> is_base64_char(#[trigger] c@[i])
            }),
            Err(e) => ({
                let sb = public_key_hex.spec_bytes();
                ||| (e == CryptoError::MalformedEncoding && !is_hex_seq(sb))
                ||| (e == CryptoError::InvalidKey && is_hex_seq(sb) && !public_key_ok(
                    hex_decoded(sb),
                ))
                ||| (e == CryptoError::MalformedMessage && is_hex_seq(sb) && public_key_ok(
                    hex_decoded(sb),
                ) && message@.len() > PLAINTEXT_LIMIT)
            }),
        },
{
    let pk = match from_hex(public_key_hex) {
        Ok(v) => v,
        Err(e) => {
            return Err(e);
        },
    };
    if !crate::engine::is_valid_public_key_bytes(pk.as_slice()) {
        return Err(CryptoError::InvalidKey);
    }
    let kp = crate::engine::generate_keypair_bytes();
    let ephemeral_sk = kp.0;
    let mut blob = kp.1;
    let ghost ephemeral_view = blob@;
    let key = crate::engine::encapsulate_bytes(ephemeral_sk.as_slice(), pk.as_slice());
    match crate::engine::sym_encrypt_bytes(key.as_slice(), message) {
        Some(sym) => {
            let mut sym = sym;
            let ghost sym_view = sym@;
            blob.append(&mut sym);
            let c = to_base64(blob.as_slice());
            proof {
                lemma_b64_round_trip(c@, blob@);
                assert(blob@.subrange(0, 65) =~= ephemeral_view);
                assert(blob@.skip(65) =~= sym_view);
                assert(ciphertext_for(pk@, message@, blob@));
            }
            Ok(c)
        },
        None => Err(CryptoError::MalformedMessage),
    }
}

/// The plaintext of an encrypted message, given the secret key as
/// hexadecimal text and the message as base64 text. The authentication tag
/// is verified before any plaintext is returned; a message that fails it
/// yields [`CryptoError::AuthenticationFailed`] and nothing else.
pub fn decrypt(secret_key_hex: &str, ciphertext_b64: &str) -> (r: Result<Vec<u8>, CryptoError>)
    ensures
        match r {
            Ok(p) => spec_decrypt(secret_key_hex.spec_bytes(), ciphertext_b64@) == Ok::<
                Seq<u8>,
                CryptoError,
            >(p@),
            Err(e) => spec_decrypt(secret_key_hex.spec_bytes(), ciphertext_b64@) == Err::<
                Seq<u8>,
                CryptoError,
            >(e),
        },
{
    let sk = match from_hex(secret_key_hex) {
        Ok(v) => v,
        Err(e) => {
            return Err(e);
        },
    };
    if !is_valid_secret_key(sk.as_slice()) {
        return Err(CryptoError::InvalidKey);
    }
    let blob = match from_base64(ciphertext_b64) {
        Some(v) => v,
        None => {
            return Err(CryptoError::MalformedEncoding);
        },
    };
    proof {
        lemma_b64_round_trip(ciphertext_b64@, blob@);
    }
    if blob.len() < MESSAGE_OVERHEAD {
        return Err(CryptoError::MalformedMessage);
    }
    let ephemeral = vstd::slice::slice_subrange(blob.as_slice(), 0, 65);
    if !crate::engine::is_valid_public_key_bytes(ephemeral) {
        return Err(CryptoError::InvalidKey);
    }
    let key = crate::engine::decapsulate_bytes(ephemeral, sk.as_slice());
    let rest = vstd::slice::slice_subrange(blob.as_slice(), 65, blob.len());
    proof {
        assert(rest@ =~= blob@.skip(65));
    }
    match crate::engine::sym_decrypt_bytes(key.as_slice(), rest) {
        Some(p) => Ok(p),
        None => Err(CryptoError::AuthenticationFailed),
    }
}

/// Round trip: a message encrypted to a freshly generated key pair and
/// decrypted under the matching secret key comes back unchanged, and within
/// the cipher's size limit nothing along the way can fail.
pub fn round_trip(message: &[u8]) -> (r: Result<Vec<u8>, CryptoError>)
    ensures
        r matches Ok(p) ==> p@ == message@,
        message@.len() <= PLAINTEXT_LIMIT ==> r is Ok,
{
    let sk_hex = generate_secret_key();
    let ghost skb: Seq<u8> = choose|sk: Seq<u8>|
        #[trigger] secret_key_ok(sk) && sk_hex@ == ascii_chars_of(hex_bytes_of(sk));
    proof {
        crate::encoding::lemma_hex_text_bytes(skb);
        crate::encoding::lemma_hex_round_trip(skb);
    }
    let pk_hex = match public_key_from(sk_hex.as_str()) {
        Ok(v) => v,
        Err(e) => {
            return Err(e);
        },
    };
    let ghost pkb: Seq<u8> = engine::public_key_of(skb);
    proof {
        assert(pk_hex@ == ascii_chars_of(hex_bytes_of(pkb)));
        crate::encoding::lemma_hex_text_bytes(pkb);
        crate::encoding::lemma_hex_round_trip(pkb);
    }
    let c = match encrypt(pk_hex.as_str(), message) {
        Ok(v) => v,
        Err(e) => {
            return Err(e);
        },
    };
    proof {
        engine::lemma_round_trip(skb, pkb, message@, b64_decoded(c@));
        assert(spec_decrypt(hex_bytes_of(skb), c@) == Ok::<Seq<u8>, CryptoError>(message@));
    }
    decrypt(sk_hex.as_str(), c.as_str())
}

/// Key derivation is deterministic: for one secret-key text there is one
/// derivation outcome, so any two results that `public_key_from`'s contract
/// allows for it are the same.
pub proof fn lemma_public_key_from_deterministic(
    sb: Seq<u8>,
    r1: Result<Seq<char>, CryptoError>,
    r2: Result<Seq<char>, CryptoError>,
)
    requires
        r1 == spec_public_key_from(sb),
        r2 == spec_public_key_from(sb),
    ensures
        r1 == r2,
{
}

} // verus!
