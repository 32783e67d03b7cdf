//! The textual codecs: a verified lowercase hexadecimal codec for key
//! material, and the standard base64 codec for encrypted messages, called
//! through trusted declarations.

use vstd::prelude::*;
use base64::Engine;

verus! {

use crate::CryptoError;
use vstd::string::StringSliceAdditionalSpecFns;

/// Whether `b` is the ASCII code of a hexadecimal digit (either case).
pub open spec fn is_hex_digit(b: u8) -> bool {
    (48 <= b <= 57) || (97 <= b <= 102) || (65 <= b <= 70)
}

/// The value of the hexadecimal digit with ASCII code `b`.
pub open spec fn hex_val(b: u8) -> u8
    recommends
        is_hex_digit(b),
{
    if 48 <= b <= 57 {
        (b - 48) as u8
    } else if 97 <= b <= 102 {
        (b - 87) as u8
    } else {
        (b - 55) as u8
    }
}

/// The ASCII code of the lowercase hexadecimal digit of value `n`.
pub open spec fn hex_digit(n: u8) -> u8
    recommends
        n < 16,
{
    if n < 10 {
        (48 + n) as u8
    } else {
        (87 + n) as u8
    }
}

/// The lowercase hexadecimal encoding of `b`, as ASCII codes.
pub open spec fn hex_bytes_of(b: Seq<u8>) -> Seq<u8> {
    Seq::new(
        2 * b.len(),
        |i: int|
            if i % 2 == 0 {
                hex_digit(b[i / 2] / 16)
            } else {
                hex_digit(b[i / 2] % 16)
            },
    )
}

/// Whether `s` is a well-formed hexadecimal text: even length, digits only.
pub open spec fn is_hex_seq(s: Seq<u8>) -> bool {
    s.len() % 2 == 0 && forall|i: int| 0 <= i < s.len() ==> is_hex_digit(#[trigger] s[i])
}

/// The bytes a well-formed hexadecimal text `s` stands for.
pub open spec fn hex_decoded(s: Seq<u8>) -> Seq<u8>
    recommends
        is_hex_seq(s),
{
    Seq::new(s.len() / 2, |i: int| (hex_val(s[2 * i]) * 16 + hex_val(s[2 * i + 1])) as u8)
}

/// ASCII codes read as characters.
pub open spec fn ascii_chars_of(b: Seq<u8>) -> Seq<char> {
    b.map_values(|x: u8| x as char)
}

/// The decoder inverts the encoder: the hexadecimal text of any byte string
/// is well formed and stands for exactly that byte string.
pub proof fn lemma_hex_round_trip(b: Seq<u8>)
    ensures
        is_hex_seq(hex_bytes_of(b)),
        hex_decoded(hex_bytes_of(b)) =~= b,
{
    assert forall|i: int| 0 <= i < hex_bytes_of(b).len() implies is_hex_digit(
        #[trigger] hex_bytes_of(b)[i],
    ) by {
        let n = b[i / 2];
        assert(n / 16 < 16 && n % 16 < 16);
    }
    assert forall|i: int| 0 <= i < b.len() implies hex_decoded(hex_bytes_of(b))[i] == b[i] by {
        let n = b[i];
        assert(hex_bytes_of(b)[2 * i] == hex_digit(n / 16));
        assert(hex_bytes_of(b)[2 * i + 1] == hex_digit(n % 16));
        assert(hex_val(hex_digit(n / 16)) == n / 16);
        assert(hex_val(hex_digit(n % 16)) == n % 16);
        assert(n / 16 * 16 + n % 16 == n);
    }
}

fn hex_digit_char(n: u8) -> (r: u8)
    requires
        n < 16,
    ensures
        r == hex_digit(n),
{
    if n < 10 {
        48 + n
    } else {
        87 + n
    }
}

/// Relies on `String::from_utf8`: bytes below 128 are valid UTF-8 and become
/// the characters with the same codes.
#[verifier::external_body]
fn ascii_to_string(v: Vec<u8>) -> (r: String)
    requires
        forall|i: int| 0 <= i < v@.len() ==> v@[i] < 128,
    ensures
        r@ == ascii_chars_of(v@),
{
    String::from_utf8(v).unwrap()
}

/// The lowercase hexadecimal text of `b`: two digits for each byte, high
/// nibble first.
pub fn to_hex(b: &[u8]) -> (r: String)
    ensures
        r@ == ascii_chars_of(hex_bytes_of(b@)),
        r@.len() == 2 * b@.len(),
{
    let mut v: Vec<u8> = Vec::new();
    let n = b.len();
    let mut i: usize = 0;
    while i < n
        invariant
            n == b@.len(),
            i <= n,
            v@ =~= hex_bytes_of(b@).take(2 * i),
        decreases n - i,
    {
        let byte = b[i];
        v.push(hex_digit_char(byte / 16));
        v.push(hex_digit_char(byte % 16));
        i = i + 1;
        proof {
            assert(v@ =~= hex_bytes_of(b@).take(2 * i));
        }
    }
    proof {
        assert(v@ =~= hex_bytes_of(b@));
        assert(forall|j: int| 0 <= j < v@.len() ==> v@[j] < 128);
    }
    ascii_to_string(v)
}

fn hex_val_of(b: u8) -> (r: u8)
    requires
        is_hex_digit(b),
    ensures
        r == hex_val(b),
{
    if 48 <= b && b <= 57 {
        b - 48
    } else if 97 <= b && b <= 102 {
        b - 87
    } else {
        b - 55
    }
}

fn is_hex_digit_byte(b: u8) -> (r: bool)
    ensures
        r == is_hex_digit(b),
{
    (48 <= b && b <= 57) || (97 <= b && b <= 102) || (65 <= b && b <= 70)
}

/// The bytes that the hexadecimal text `s` stands for, read from its UTF-8
/// bytes; rejects odd length and anything but hexadecimal digits.
pub fn from_hex(s: &str) -> (r: Result<Vec<u8>, CryptoError>)
    ensures
        match r {
            Ok(v) => is_hex_seq(s.spec_bytes()) && v@ == hex_decoded(s.spec_bytes()),
            Err(e) => e == CryptoError::MalformedEncoding && !is_hex_seq(s.spec_bytes()),
        },
{
    let b = s.as_bytes();
    let n = b.len();
    if n % 2 != 0 {
        return Err(CryptoError::MalformedEncoding);
    }
    let mut v: Vec<u8> = Vec::new();
    let mut i: usize = 0;
    while i < n
        invariant
            b@ == s.spec_bytes(),
            n == b@.len(),
            n % 2 == 0,
            i % 2 == 0,
            i <= n,
            forall|j: int| 0 <= j < i ==> is_hex_digit(#[trigger] b@[j]),
            v@ =~= hex_decoded(b@).take(i as int / 2),
        decreases n - i,
    {
        let hi = b[i];
        let lo = b[i + 1];
        if !is_hex_digit_byte(hi) || !is_hex_digit_byte(lo) {
            return Err(CryptoError::MalformedEncoding);
        }
        v.push(hex_val_of(hi) * 16 + hex_val_of(lo));
        i = i + 2;
        proof {
            assert(v@ =~= hex_decoded(b@).take(i as int / 2));
        }
    }
    proof {
        assert(v@ =~= hex_decoded(b@));
    }
    Ok(v)
}

/// The standard base64 text (with padding) that encodes the bytes `b`.
/// Stands for what the outside base64 encoder returns; the decoder's
/// contract ties it back.
pub uninterp spec fn b64_of(b: Seq<u8>) -> Seq<char>;

/// Whether `c` is a character of the standard base64 alphabet or its
/// padding; none of them is the NUL character.
pub open spec fn is_base64_char(c: char) -> bool {
    ('A' <= c <= 'Z') || ('a' <= c <= 'z') || ('0' <= c <= '9') || c == '+' || c == '/' || c == '='
}

/// Whether `s` is the base64 text of some byte string.
pub open spec fn b64_valid(s: Seq<char>) -> bool {
    exists|b: Seq<u8>| s == b64_of(b)
}

/// The byte string whose base64 text `s` is.
pub open spec fn b64_decoded(s: Seq<char>) -> Seq<u8>
    recommends
        b64_valid(s),
{
    choose|b: Seq<u8>| s == b64_of(b)
}

/// Relies on base64's `STANDARD` engine, `encode`: standard alphabet with
/// padding, four characters for every three bytes, all drawn from that
/// alphabet. The encoding is canonical, so no two byte strings share it.
#[verifier::external_body]
pub(crate) fn to_base64(b: &[u8]) -> (r: String)
    ensures
        r@ == b64_of(b@),
        r@.len() == 4 * ((b@.len() + 2) / 3),
        forall|i: int| 0 <= i < r@.len() ==> is_base64_char(#[trigger] r@[i]),
        forall|b2: Seq<u8>| r@ == b64_of(b2) ==> b2 == b@,
{
    base64::engine::general_purpose::STANDARD.encode(b)
}

/// Relies on base64's `STANDARD` engine, `decode`: it inverts `encode` and,
/// requiring canonical padding and trailing bits, accepts nothing but
/// `encode`'s exact output.
#[verifier::external_body]
pub(crate) fn from_base64(s: &str) -> (r: Option<Vec<u8>>)
    ensures
        match r {
            Some(v) => s@ == b64_of(v@) && forall|b: Seq<u8>| s@ == b64_of(b) ==> b == v@,
            None => !b64_valid(s@),
        },
{
    base64::engine::general_purpose::STANDARD.decode(s).ok()
}

/// Canonical base64 text decodes to exactly the bytes it was made from.
pub proof fn lemma_b64_round_trip(s: Seq<char>, b: Seq<u8>)
    requires
        s == b64_of(b),
        forall|b2: Seq<u8>| s == b64_of(b2) ==> b2 == b,
    ensures
        b64_valid(s),
        b64_decoded(s) == b,
{
}

/// Characters with codes below 128 write back, in UTF-8, the bytes they were
/// read from.
pub proof fn lemma_ascii_encode(b: Seq<u8>)
    requires
        forall|i: int| 0 <= i < b.len() ==> b[i] < 128,
    ensures
        vstd::utf8::encode_utf8(ascii_chars_of(b)) =~= b,
{
    let chars = ascii_chars_of(b);
    assert forall|i: int| 0 <= i < chars.len() implies '\0' <= #[trigger] chars[i] <= '\u{7f}' by {
        assert(chars[i] == b[i] as char);
        assert(b[i] < 128);
    }
    assert(vstd::utf8::is_ascii_chars(chars));
    vstd::utf8::is_ascii_chars_encode_utf8(chars);
}

/// A hexadecimal text holds digit characters only, whose codes are below 128;
/// read back as UTF-8 bytes it is itself.
pub proof fn lemma_hex_text_bytes(b: Seq<u8>)
    ensures
        vstd::utf8::encode_utf8(ascii_chars_of(hex_bytes_of(b))) =~= hex_bytes_of(b),
{
    assert forall|i: int| 0 <= i < hex_bytes_of(b).len() implies hex_bytes_of(b)[i] < 128 by {
        let n = b[i / 2];
        assert(n / 16 < 16 && n % 16 < 16);
    }
    lemma_ascii_encode(hex_bytes_of(b));
}

} // verus!
