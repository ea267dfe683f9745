//! Unpadded Base64URL, the text form of binary keys and cursors.

use base64::engine::general_purpose::URL_SAFE_NO_PAD;
use base64::Engine;
use vstd::prelude::*;

verus! {

/// Symbol of the six-bit value `value` in the URL-safe alphabet.
pub open spec fn symbol(value: int) -> char {
    if value < 26 {
        ('A' as int + value) as char
    } else if value < 52 {
        ('a' as int + value - 26) as char
    } else if value < 62 {
        ('0' as int + value - 52) as char
    } else if value == 62 {
        '-'
    } else {
        '_'
    }
}

/// Unpadded Base64URL form of `bytes`: four symbols for each three bytes, and two or three symbols,
/// the unused low bits zero, for the one or two bytes that may be left.
pub open spec fn base64url(bytes: Seq<u8>) -> Seq<char>
    decreases bytes.len(),
{
    if bytes.len() == 0 {
        Seq::empty()
    } else if bytes.len() == 1 {
        seq![symbol(bytes[0] as int / 4), symbol(bytes[0] as int % 4 * 16)]
    } else if bytes.len() == 2 {
        seq![
            symbol(bytes[0] as int / 4),
            symbol(bytes[0] as int % 4 * 16 + bytes[1] as int / 16),
            symbol(bytes[1] as int % 16 * 4),
        ]
    } else {
        seq![
            symbol(bytes[0] as int / 4),
            symbol(bytes[0] as int % 4 * 16 + bytes[1] as int / 16),
            symbol(bytes[1] as int % 16 * 4 + bytes[2] as int / 64),
            symbol(bytes[2] as int % 64),
        ] + base64url(bytes.skip(3))
    }
}

/// The byte string whose unpadded Base64URL form is `text`, where there is one.
pub open spec fn base64url_bytes(text: Seq<char>) -> Option<Seq<u8>> {
    if exists|bytes: Seq<u8>| base64url(bytes) == text {
        Some(choose|bytes: Seq<u8>| base64url(bytes) == text)
    } else {
        None
    }
}

/// `c` is a symbol of the URL-safe alphabet.
pub open spec fn is_symbol(c: char) -> bool {
    'A' <= c <= 'Z' || 'a' <= c <= 'z' || '0' <= c <= '9' || c == '-' || c == '_'
}

/// `bytes.len()` bytes take `4 * bytes.len() / 3` symbols, rounded up, all of the alphabet.
pub proof fn lemma_base64url_shape(bytes: Seq<u8>)
    ensures
        base64url(bytes).len() == (4 * bytes.len() + 2) / 3,
        forall|i: int|
            0 <= i < base64url(bytes).len() ==> is_symbol(#[trigger] base64url(bytes)[i]),
    decreases bytes.len(),
{
    if bytes.len() >= 3 {
        lemma_base64url_shape(bytes.skip(3));
    }
}

proof fn lemma_symbol_injective(v: int, w: int)
    requires
        0 <= v < 64,
        0 <= w < 64,
        symbol(v) == symbol(w),
    ensures
        v == w,
{
}

/// Different byte strings have different Base64URL forms.
pub proof fn lemma_base64url_injective(a: Seq<u8>, b: Seq<u8>)
    requires
        base64url(a) == base64url(b),
    ensures
        a == b,
    decreases a.len(),
{
    lemma_base64url_shape(a);
    lemma_base64url_shape(b);
    assert(a.len() == b.len());
    let s = base64url(a);
    let t = base64url(b);
    if a.len() >= 1 {
        assert(s[0] == t[0] && s[1] == t[1]);
        lemma_symbol_injective(a[0] as int / 4, b[0] as int / 4);
    }
    if a.len() == 1 {
        lemma_symbol_injective(a[0] as int % 4 * 16, b[0] as int % 4 * 16);
    } else if a.len() >= 2 {
        assert(s[2] == t[2]);
        lemma_symbol_injective(
            a[0] as int % 4 * 16 + a[1] as int / 16,
            b[0] as int % 4 * 16 + b[1] as int / 16,
        );
        if a.len() == 2 {
            lemma_symbol_injective(a[1] as int % 16 * 4, b[1] as int % 16 * 4);
        } else {
            assert(s[3] == t[3]);
            lemma_symbol_injective(
                a[1] as int % 16 * 4 + a[2] as int / 64,
                b[1] as int % 16 * 4 + b[2] as int / 64,
            );
            lemma_symbol_injective(a[2] as int % 64, b[2] as int % 64);
            assert(s.skip(4) =~= base64url(a.skip(3)));
            assert(t.skip(4) =~= base64url(b.skip(3)));
            lemma_base64url_injective(a.skip(3), b.skip(3));
            assert forall|i: int| 3 <= i < a.len() implies a[i] == b[i] by {
                assert(a.skip(3)[i - 3] == b.skip(3)[i - 3]);
            }
        }
    }
    assert(a =~= b);
}

/// The Base64URL form of a byte string is read back as that byte string.
pub proof fn lemma_base64url_round_trip(bytes: Seq<u8>)
    ensures
        base64url_bytes(base64url(bytes)) == Some(bytes),
{
    let read = choose|b: Seq<u8>| base64url(b) == base64url(bytes);
    lemma_base64url_injective(read, bytes);
}

/// The error of the Base64 decoder.
#[verifier::external_type_specification]
#[verifier::external_body]
pub struct ExDecodeError(base64::DecodeError);

/// Base64URL form of `bytes`.
///
/// Calls `base64::Engine::encode` on `base64::engine::general_purpose::URL_SAFE_NO_PAD`, which
/// writes the URL-safe alphabet without padding.
#[verifier::external_body]
pub(crate) fn encode_base64url(bytes: &[u8]) -> (text: String)
    ensures
        text@ == base64url(bytes@),
{
    URL_SAFE_NO_PAD.encode(bytes)
}

/// Bytes whose Base64URL form is `text`.
///
/// Calls `base64::Engine::decode` on `base64::engine::general_purpose::URL_SAFE_NO_PAD`, which
/// accepts only what that engine writes: no symbol outside the alphabet, no padding, no length that
/// no byte string has, and no unused bit set in the last symbol.
#[verifier::external_body]
pub(crate) fn decode_base64url(text: &str) -> (bytes: Result<Vec<u8>, base64::DecodeError>)
    ensures
        match bytes {
            Ok(decoded) => base64url(decoded@) == text@,
            Err(_) => forall|b: Seq<u8>| #[trigger] base64url(b) != text@,
        },
{
    URL_SAFE_NO_PAD.decode(text)
}

} // verus!
