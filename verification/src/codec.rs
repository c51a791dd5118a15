//! Byte-level codecs the decryption pipeline relies on: hex, UTF-8, AES-256-CBC
//! and Base64, each behind a small trusted wrapper.
use vstd::prelude::*;
use vstd::utf8::{decode_utf8, valid_utf8};
use crate::text::digit_char;
use aes::cipher::block_padding::Pkcs7;
use aes::cipher::{BlockDecryptMut, KeyIvInit};
use base64::Engine;

verus! {

/// A hexadecimal digit in either case.
pub open spec fn is_hex_char(c: char) -> bool {
    let u = c as u32;
    (48 <= u && u <= 57) || (65 <= u && u <= 70) || (97 <= u && u <= 102)
}

/// The value of a hexadecimal digit.
pub open spec fn hex_nibble(c: char) -> nat {
    let u = c as u32;
    if 48 <= u && u <= 57 {
        (u - 48) as nat
    } else if 65 <= u && u <= 70 {
        (u - 55) as nat
    } else {
        (u - 87) as nat
    }
}

/// `hex::decode`: an even number of hex digits, read two at a time, high nibble first.
/// Any other input (odd length, or a character that is not a hex digit, including any
/// non-ASCII character) is refused.
pub open spec fn hex_decode(s: Seq<char>) -> Option<Seq<u8>> {
    if s.len() % 2 == 0 && (forall|i: int| 0 <= i < s.len() ==> is_hex_char(#[trigger] s[i])) {
        Some(
            Seq::new(
                s.len() / 2,
                |i: int| (hex_nibble(s[2 * i]) * 16 + hex_nibble(s[2 * i + 1])) as u8,
            ),
        )
    } else {
        None
    }
}

/// The lower-case hexadecimal digit for `n < 16`.
pub open spec fn nibble_char(n: nat) -> char {
    if n < 10 {
        digit_char(n)
    } else if n == 10 {
        'a'
    } else if n == 11 {
        'b'
    } else if n == 12 {
        'c'
    } else if n == 13 {
        'd'
    } else if n == 14 {
        'e'
    } else {
        'f'
    }
}

/// `hex::encode`: two lower-case hex digits per byte, high nibble first.
pub open spec fn hex_encode(b: Seq<u8>) -> Seq<char> {
    Seq::new(
        2 * b.len(),
        |i: int|
            if i % 2 == 0 {
                nibble_char((b[i / 2] / 16) as nat)
            } else {
                nibble_char((b[i / 2] % 16) as nat)
            },
    )
}

/// Decoding what `hex_encode` wrote gives the bytes back.
pub proof fn lemma_hex_roundtrip(b: Seq<u8>)
    ensures
        hex_decode(hex_encode(b)) == Some(b),
{
    let s = hex_encode(b);
    assert forall|i: int| 0 <= i < s.len() implies is_hex_char(#[trigger] s[i]) by {
        let n: nat = if i % 2 == 0 {
            (b[i / 2] / 16) as nat
        } else {
            (b[i / 2] % 16) as nat
        };
        assert(n < 16);
        assert(s[i] == nibble_char(n));
    }
    assert((2 * b.len()) % 2 == 0) by (nonlinear_arith);
    let d = hex_decode(s).unwrap();
    assert(d.len() == b.len()) by (nonlinear_arith)
        requires
            d.len() == (2 * b.len()) / 2,
    ;
    assert forall|i: int| 0 <= i < b.len() implies #[trigger] d[i] == b[i] by {
        assert((2 * i) % 2 == 0 && (2 * i + 1) % 2 == 1 && (2 * i) / 2 == i && (2 * i + 1) / 2
            == i) by (nonlinear_arith);
        let hi = (b[i] / 16) as nat;
        let lo = (b[i] % 16) as nat;
        assert(s[2 * i] == nibble_char(hi));
        assert(s[2 * i + 1] == nibble_char(lo));
        assert(hex_nibble(nibble_char(hi)) == hi);
        assert(hex_nibble(nibble_char(lo)) == lo);
        assert(hi * 16 + lo == b[i]);
    }
    assert(d =~= b);
}

/// `hex::decode` on the string's bytes. The crate refuses an odd length and any byte
/// that is not an ASCII hex digit; as every non-ASCII character is encoded in bytes of
/// 0x80 and above, the outcome is `hex_decode` of the characters. The error value is dropped.
#[verifier::external_body]
pub(crate) fn hex_decode_str(s: &str) -> (r: Option<Vec<u8>>)
    ensures
        match hex_decode(s@) {
            Some(b) => r matches Some(v) && v@ == b,
            None => r is None,
        },
{
    hex::decode(s).ok()
}

/// `hex::encode`: the lower-case hex rendering of the bytes.
#[verifier::external_body]
pub(crate) fn hex_encode_bytes(b: &[u8]) -> (r: String)
    ensures
        r@ == hex_encode(b@),
{
    hex::encode(b)
}

/// `String::from_utf8`: succeeds exactly on well-formed UTF-8 and then holds the decoded
/// characters. On failure it returns the text of the std error, which is not stated.
#[verifier::external_body]
pub(crate) fn utf8_string(bytes: Vec<u8>) -> (r: Result<String, String>)
    ensures
        match r {
            Ok(s) => valid_utf8(bytes@) && s@ == decode_utf8(bytes@),
            Err(_) => !valid_utf8(bytes@),
        },
{
    String::from_utf8(bytes).map_err(|e| e.to_string())
}

/// The hex digit for `n < 16` is character `n` of `0123456789abcdef`.
proof fn lemma_nibble_char_alphabet(n: nat)
    requires
        n < 16,
    ensures
        nibble_char(n) == "0123456789abcdef"@[n as int],
{
    reveal_strlit("0123456789abcdef");
}

/// `hex_encode` writes each byte as two lower-case digits of `0123456789abcdef`, the high
/// nibble first.
pub proof fn lemma_hex_encode_digits(b: Seq<u8>)
    ensures
        hex_encode(b).len() == 2 * b.len(),
        forall|i: int|
            0 <= i < b.len() ==> hex_encode(b)[2 * i] == "0123456789abcdef"@[(#[trigger] b[i] / 16) as int]
                && hex_encode(b)[2 * i + 1] == "0123456789abcdef"@[(b[i] % 16) as int],
{
    assert forall|i: int| 0 <= i < b.len() implies hex_encode(b)[2 * i] == "0123456789abcdef"@[(
    #[trigger] b[i] / 16) as int] && hex_encode(b)[2 * i + 1] == "0123456789abcdef"@[(b[i] % 16) as int] by {
        assert((2 * i) % 2 == 0 && (2 * i) / 2 == i && (2 * i + 1) % 2 == 1 && (2 * i + 1) / 2 == i)
            by (nonlinear_arith);
        lemma_nibble_char_alphabet((b[i] / 16) as nat);
        lemma_nibble_char_alphabet((b[i] % 16) as nat);
    }
}

/// The plaintext that AES-256 in CBC mode with PKCS#7 unpadding gives for `ciphertext`
/// under `key` and `iv`, or `None` when the `cbc` crate refuses it (length not a multiple
/// of the block size, or malformed padding).
pub uninterp spec fn aes256_cbc_pkcs7_decrypt(ciphertext: Seq<u8>, key: Seq<u8>, iv: Seq<u8>) -> Option<Seq<u8>>;

/// `cbc::Decryptor::<aes::Aes256>::new(key, iv).decrypt_padded_mut::<Pkcs7>` on a copy of
/// `ciphertext`. The key and IV are turned into fixed-size arrays, which panics unless they
/// are 32 and 16 bytes long; `requires` leaves those inputs out. The result is named, not
/// stated.
#[verifier::external_body]
pub(crate) fn aes256_cbc_decrypt(ciphertext: &[u8], key: &[u8], iv: &[u8]) -> (r: Option<Vec<u8>>)
    requires
        key.len() == 32,
        iv.len() == 16,
    ensures
        match aes256_cbc_pkcs7_decrypt(ciphertext@, key@, iv@) {
            Some(p) => r matches Some(v) && v@ == p,
            None => r is None,
        },
{
    let cipher = cbc::Decryptor::<aes::Aes256>::new(key.into(), iv.into());
    let mut buf = ciphertext.to_vec();
    cipher.decrypt_padded_mut::<Pkcs7>(&mut buf).map(|p| p.to_vec()).ok()
}

/// What the standard Base64 engine (`+`/`/` alphabet, padding required) decodes the
/// characters of `input` to, or `None` when it refuses them.
pub uninterp spec fn base64_standard_decode(input: Seq<char>) -> Option<Seq<u8>>;

/// `base64::engine::general_purpose::STANDARD.decode` on the string's bytes. Success and
/// the decoded bytes are named; the error text that comes back on failure is the crate's
/// own description and is not stated.
#[verifier::external_body]
pub(crate) fn base64_decode(input: &str) -> (r: Result<Vec<u8>, String>)
    ensures
        match base64_standard_decode(input@) {
            Some(b) => r matches Ok(v) && v@ == b,
            None => r is Err,
        },
{
    base64::engine::general_purpose::STANDARD.decode(input).map_err(|e| e.to_string())
}

} // verus!
