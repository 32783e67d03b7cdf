//! Key generation, validation and public-key derivation on secp256k1.
//!
//! A secret key is a 32-byte big-endian scalar in `[1, n - 1]`, `n` being the
//! order of the curve's group; a public key is a curve point, handled in its
//! 33-byte compressed (or 65-byte uncompressed) SEC1 form. The scalar range
//! check is implemented and verified here; point arithmetic is the outside
//! crate's, behind trusted declarations.

use vstd::prelude::*;

verus! {

/// The big-endian value of a byte string.
pub open spec fn be_nat(s: Seq<u8>) -> nat
    decreases s.len(),
{
    if s.len() == 0 {
        0
    } else {
        (256 * be_nat(s.drop_last()) + s.last()) as nat
    }
}

/// The order of the secp256k1 group, as its standard 32-byte big-endian form
/// `fffffffffffffffffffffffffffffffebaaedce6af48a03bbfd25e8cd0364141`.
pub open spec fn curve_order_bytes() -> Seq<u8> {
    seq![
        0xffu8,
        0xffu8,
        0xffu8,
        0xffu8,
        0xffu8,
        0xffu8,
        0xffu8,
        0xffu8,
        0xffu8,
        0xffu8,
        0xffu8,
        0xffu8,
        0xffu8,
        0xffu8,
        0xffu8,
        0xfeu8,
        0xbau8,
        0xaeu8,
        0xdcu8,
        0xe6u8,
        0xafu8,
        0x48u8,
        0xa0u8,
        0x3bu8,
        0xbfu8,
        0xd2u8,
        0x5eu8,
        0x8cu8,
        0xd0u8,
        0x36u8,
        0x41u8,
        0x41u8,
    ]
}

/// The order of the secp256k1 group.
pub open spec fn curve_order() -> nat {
    be_nat(curve_order_bytes())
}

/// Whether `sk` is a well-formed secret key: 32 bytes whose value is a
/// nonzero scalar below the group order.
pub open spec fn secret_key_ok(sk: Seq<u8>) -> bool {
    sk.len() == 32 && 0 < be_nat(sk) && be_nat(sk) < curve_order()
}

/// A byte string's value is zero exactly when every byte is zero.
proof fn lemma_be_nat_zero(s: Seq<u8>)
    ensures
        (be_nat(s) == 0) <==> (forall|i: int| 0 <= i < s.len() ==> s[i] == 0),
    decreases s.len(),
{
    if s.len() > 0 {
        lemma_be_nat_zero(s.drop_last());
        if be_nat(s) == 0 {
            assert(forall|i: int| 0 <= i < s.len() - 1 ==> s[i] == s.drop_last()[i]);
        }
        if forall|i: int| 0 <= i < s.len() ==> s[i] == 0 {
            assert(forall|i: int| 0 <= i < s.drop_last().len() ==> s.drop_last()[i] == 0);
        }
    }
}

/// Two byte strings of one length compare, as values, by their first
/// differing byte.
proof fn lemma_be_nat_lt(a: Seq<u8>, b: Seq<u8>, i: int)
    requires
        a.len() == b.len(),
        0 <= i < a.len(),
        forall|j: int| 0 <= j < i ==> a[j] == b[j],
        a[i] < b[i],
    ensures
        be_nat(a) < be_nat(b),
    decreases a.len(),
{
    if i == a.len() - 1 {
        assert(a.drop_last() =~= b.drop_last());
    } else {
        assert(forall|j: int| 0 <= j < i ==> a.drop_last()[j] == b.drop_last()[j]);
        assert(a.drop_last()[i] < b.drop_last()[i]);
        lemma_be_nat_lt(a.drop_last(), b.drop_last(), i);
        assert(a.last() < 256);
    }
}

fn be_bytes_lt(a: &[u8], b: &[u8]) -> (r: bool)
    requires
        a@.len() == b@.len(),
    ensures
        r == (be_nat(a@) < be_nat(b@)),
{
    let n = a.len();
    let mut i: usize = 0;
    while i < n
        invariant
            n == a@.len() == b@.len(),
            i <= n,
            forall|j: int| 0 <= j < i ==> a@[j] == b@[j],
        decreases n - i,
    {
        let x = a[i];
        let y = b[i];
        if x < y {
            proof {
                lemma_be_nat_lt(a@, b@, i as int);
            }
            return true;
        }
        if x > y {
            proof {
                lemma_be_nat_lt(b@, a@, i as int);
            }
            return false;
        }
        i = i + 1;
    }
    proof {
        assert(a@ =~= b@);
    }
    false
}

fn is_all_zero(a: &[u8]) -> (r: bool)
    ensures
        r == (be_nat(a@) == 0),
{
    let n = a.len();
    let mut i: usize = 0;
    while i < n
        invariant
            n == a@.len(),
            i <= n,
            forall|j: int| 0 <= j < i ==> a@[j] == 0,
        decreases n - i,
    {
        if a[i] != 0 {
            proof {
                lemma_be_nat_zero(a@);
            }
            return false;
        }
        i = i + 1;
    }
    proof {
        lemma_be_nat_zero(a@);
    }
    true
}

fn curve_order_array() -> (r: [u8; 32])
    ensures
        r@ =~= curve_order_bytes(),
{
    let r: [u8; 32] = [
        0xff,
        0xff,
        0xff,
        0xff,
        0xff,
        0xff,
        0xff,
        0xff,
        0xff,
        0xff,
        0xff,
        0xff,
        0xff,
        0xff,
        0xff,
        0xfe,
        0xba,
        0xae,
        0xdc,
        0xe6,
        0xaf,
        0x48,
        0xa0,
        0x3b,
        0xbf,
        0xd2,
        0x5e,
        0x8c,
        0xd0,
        0x36,
        0x41,
        0x41,
    ];
    r
}

/// The all-zero byte string is no secret key: its value is zero, below the
/// valid range.
pub proof fn lemma_zero_key_invalid(sk: Seq<u8>)
    requires
        forall|i: int| 0 <= i < sk.len() ==> sk[i] == 0,
    ensures
        !secret_key_ok(sk),
{
    lemma_be_nat_zero(sk);
}

/// Whether `sk` is a well-formed secret key (see [`secret_key_ok`]).
pub fn is_valid_secret_key(sk: &[u8]) -> (r: bool)
    ensures
        r == secret_key_ok(sk@),
{
    if sk.len() != 32 {
        return false;
    }
    if is_all_zero(sk) {
        return false;
    }
    let order = curve_order_array();
    be_bytes_lt(sk, order.as_slice())
}

} // verus!
