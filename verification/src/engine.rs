//! The ECIES operations on raw key and message bytes.
//!
//! The outside crate does the curve arithmetic, the key derivation and the
//! authenticated cipher, through its configuration-free calls: key-pair
//! generation, encapsulation and decapsulation with the compression choices
//! passed explicitly, and the symmetric cipher, whose nonce and tag sizes
//! are compile-time constants. The wire format — the ephemeral public key in
//! 65-byte uncompressed form, then a 16-byte nonce, a 16-byte authentication
//! tag and the ciphertext, one byte per plaintext byte — is assembled and
//! parsed by verified code here and in the crate root.

use vstd::prelude::*;

verus! {

use crate::keys::secret_key_ok;

/// How many bytes an encrypted message holds besides the ciphertext:
/// a 65-byte ephemeral public key, a 16-byte nonce and a 16-byte tag.
pub const MESSAGE_OVERHEAD: usize = 65 + 16 + 16;

/// How many bytes the symmetric layer adds: the nonce and the tag.
pub const SYMMETRIC_OVERHEAD: usize = 16 + 16;

/// The greatest plaintext length the cipher accepts.
pub const PLAINTEXT_LIMIT: u64 = 0x10_0000_0000;

/// Whether `pk` parses as a public key: a point on the curve in 33-byte
/// compressed, 65-byte uncompressed or 64-byte raw form. Stands for the
/// outside parser's verdict, a function of the bytes alone.
pub uninterp spec fn public_key_ok(pk: Seq<u8>) -> bool;

/// The 33-byte compressed form of the public key derived from the secret key
/// `sk`. Stands for what the outside derivation returns; derivation is
/// deterministic, so this is a function of `sk` alone.
pub uninterp spec fn public_key_of(sk: Seq<u8>) -> Seq<u8>;

/// The canonical 33-byte compressed form of the point that the well-formed
/// public-key bytes `pk` encode. Stands for the outside parser followed by
/// compressed serialization; the three accepted encodings of one point share
/// it.
pub uninterp spec fn compressed_of(pk: Seq<u8>) -> Seq<u8>;

/// The 32-byte symmetric key that key agreement derives for an ephemeral and
/// a recipient public key, each taken in canonical compressed form. The
/// underlying Diffie-Hellman point is determined by the two points alone,
/// whichever side computes it, so this is a function of its arguments;
/// encapsulation and decapsulation both return it.
pub uninterp spec fn shared_of(ephemeral_pk: Seq<u8>, recipient_pk: Seq<u8>) -> Seq<u8>;

/// What the symmetric layer makes of `data` — nonce, tag, ciphertext — under
/// the 32-byte key `key`: the plaintext, or nothing when `data` is too short
/// or its tag does not verify. The cipher draws no randomness when
/// decrypting and reads no configuration, so this is a function of its
/// arguments alone.
pub uninterp spec fn sym_decryption_of(key: Seq<u8>, data: Seq<u8>) -> Option<Seq<u8>>;

/// What decrypting the encrypted message `blob` under the well-formed secret
/// key `sk` yields: the symmetric layer's verdict under the key that the
/// blob's ephemeral field and `sk` agree on, or nothing when the blob is too
/// short or its ephemeral field is no valid public key.
pub open spec fn decryption_of(sk: Seq<u8>, blob: Seq<u8>) -> Option<Seq<u8>> {
    if blob.len() < MESSAGE_OVERHEAD || !public_key_ok(blob.subrange(0, 65)) {
        None
    } else {
        sym_decryption_of(
            shared_of(compressed_of(blob.subrange(0, 65)), public_key_of(sk)),
            blob.skip(65),
        )
    }
}

/// Whether `blob` is an encryption of `m` to the public key bytes `pk`:
/// decrypting it under any secret key matching `pk`'s point yields `m` back.
pub open spec fn ciphertext_for(pk: Seq<u8>, m: Seq<u8>, blob: Seq<u8>) -> bool {
    forall|sk: Seq<u8>|
        secret_key_ok(sk) && public_key_of(sk) == compressed_of(pk) ==> decryption_of(sk, blob)
            == Some(m)
}

/// Round trip: a blob that decrypts to `m` under every key matching the
/// public key `pk` does so, in particular, under a secret key `sk` whose
/// derived public key is `pk`'s point.
pub proof fn lemma_round_trip(sk: Seq<u8>, pk: Seq<u8>, m: Seq<u8>, blob: Seq<u8>)
    requires
        secret_key_ok(sk),
        public_key_of(sk) == compressed_of(pk),
        ciphertext_for(pk, m, blob),
    ensures
        decryption_of(sk, blob) == Some(m),
{
}

/// The accepted encodings of one point are interchangeable: two public-key
/// byte strings with one canonical compressed form admit the same
/// encryptions.
pub proof fn lemma_encodings_interchangeable(a: Seq<u8>, b: Seq<u8>, m: Seq<u8>, blob: Seq<u8>)
    requires
        compressed_of(a) == compressed_of(b),
    ensures
        ciphertext_for(a, m, blob) == ciphertext_for(b, m, blob),
{
}

/// Relies on the outside key generator: it draws a fresh random scalar in
/// `[1, order - 1]` and serializes it as 32 big-endian bytes, and the
/// matching public key, serialized uncompressed into 65 bytes, parses back
/// to the derived point. Aborts if the operating system's entropy source
/// fails.
#[verifier::external_body]
pub(crate) fn generate_keypair_bytes() -> (r: (Vec<u8>, Vec<u8>))
    ensures
        secret_key_ok(r.0@),
        r.1@.len() == 65,
        public_key_ok(r.1@),
        compressed_of(r.1@) == public_key_of(r.0@),
{
    let (sk, pk) = ecies::utils::generate_keypair();
    (sk.serialize().to_vec(), pk.serialize().to_vec())
}

/// Relies on the outside secret-key parser, public-key derivation and
/// compressed serialization: a well-formed scalar parses, its public key is
/// derived deterministically, and the 33-byte compressed form it serializes
/// to — leading byte 2 or 3 — parses back to the same point, so it is its
/// own canonical form.
#[verifier::external_body]
pub(crate) fn derive_public_key_bytes(sk: &[u8]) -> (r: Vec<u8>)
    requires
        secret_key_ok(sk@),
    ensures
        r@ == public_key_of(sk@),
        r@.len() == 33,
        r@[0] == 2 || r@[0] == 3,
        public_key_ok(r@),
        compressed_of(r@) == r@,
{
    let key = ecies::SecretKey::parse_slice(sk).unwrap();
    let public_key = ecies::PublicKey::from_secret_key(&key);
    public_key.serialize_compressed().to_vec()
}

/// Relies on the outside public-key parser: it accepts exactly the byte
/// strings of length 33, 64 or 65 that encode a point on the curve, and
/// compressed serialization inverts it on 33-byte input, which is therefore
/// its own canonical form.
#[verifier::external_body]
pub(crate) fn is_valid_public_key_bytes(pk: &[u8]) -> (r: bool)
    ensures
        r == public_key_ok(pk@),
        (pk@.len() != 33 && pk@.len() != 64 && pk@.len() != 65) ==> !r,
        (r && pk@.len() == 33) ==> compressed_of(pk@) == pk@,
{
    ecies::PublicKey::parse_slice(pk, None).is_ok()
}

/// Relies on the outside encapsulation with explicit, uncompressed point
/// serialization: it derives the 32-byte symmetric key from the ephemeral
/// key's point and the recipient's point and nothing else. The multiplied
/// point cannot be the point at infinity — the group has prime order and
/// the scalar is in range — so the call cannot fail.
#[verifier::external_body]
pub(crate) fn encapsulate_bytes(ephemeral_sk: &[u8], recipient_pk: &[u8]) -> (r: Vec<u8>)
    requires
        secret_key_ok(ephemeral_sk@),
        public_key_ok(recipient_pk@),
    ensures
        r@ == shared_of(public_key_of(ephemeral_sk@), compressed_of(recipient_pk@)),
        r@.len() == 32,
{
    let sk = ecies::SecretKey::parse_slice(ephemeral_sk).unwrap();
    let pk = ecies::PublicKey::parse_slice(recipient_pk, None).unwrap();
    ecies::utils::encapsulate(&sk, &pk, false).unwrap().to_vec()
}

/// Relies on the outside decapsulation with explicit, uncompressed point
/// serialization: it derives the same 32-byte symmetric key as encapsulation
/// for the same two points — the Diffie-Hellman point each side multiplies
/// out is one and the same — and cannot fail on a valid point and an
/// in-range scalar.
#[verifier::external_body]
pub(crate) fn decapsulate_bytes(ephemeral_pk: &[u8], recipient_sk: &[u8]) -> (r: Vec<u8>)
    requires
        public_key_ok(ephemeral_pk@),
        secret_key_ok(recipient_sk@),
    ensures
        r@ == shared_of(compressed_of(ephemeral_pk@), public_key_of(recipient_sk@)),
        r@.len() == 32,
{
    let pk = ecies::PublicKey::parse_slice(ephemeral_pk, None).unwrap();
    let sk = ecies::SecretKey::parse_slice(recipient_sk).unwrap();
    ecies::utils::decapsulate(&pk, &sk, false).unwrap().to_vec()
}

/// Relies on the outside symmetric encryption: under a 32-byte key it draws
/// a fresh 16-byte nonce, encrypts with a 16-byte tag into nonce, tag and
/// ciphertext of the plaintext's length, decryptable under the same key; it
/// refuses only a plaintext beyond the cipher's size limit.
#[verifier::external_body]
pub(crate) fn sym_encrypt_bytes(key: &[u8], msg: &[u8]) -> (r: Option<Vec<u8>>)
    requires
        key@.len() == 32,
    ensures
        match r {
            Some(c) => c@.len() == SYMMETRIC_OVERHEAD + msg@.len() && sym_decryption_of(key@, c@)
                == Some(msg@),
            None => msg@.len() > PLAINTEXT_LIMIT,
        },
{
    ecies::symmetric::sym_encrypt(key, msg)
}

/// Relies on the outside symmetric decryption: under a 32-byte key it is a
/// deterministic function of its arguments, returning the plaintext — the
/// data minus nonce and tag — exactly when the data is long enough and its
/// tag verifies.
#[verifier::external_body]
pub(crate) fn sym_decrypt_bytes(key: &[u8], data: &[u8]) -> (r: Option<Vec<u8>>)
    requires
        key@.len() == 32,
    ensures
        match r {
            Some(p) => sym_decryption_of(key@, data@) == Some(p@) && data@.len()
                == SYMMETRIC_OVERHEAD + p@.len(),
            None => sym_decryption_of(key@, data@) is None,
        },
{
    ecies::symmetric::sym_decrypt(key, data)
}

} // verus!
