//! UTF-8 text and fixed-width numbers as bytes.

use vstd::prelude::*;
use vstd::string::*;
use vstd::utf8::*;

verus! {

/// Text of `bytes`, where they are valid UTF-8.
///
/// Calls `core::str::from_utf8`, which accepts exactly the valid UTF-8 byte strings and gives the
/// text with those bytes.
#[verifier::external_body]
pub(crate) fn utf8_text(bytes: &[u8]) -> (text: Option<&str>)
    ensures
        text is Some <==> valid_utf8(bytes@),
        text matches Some(t) ==> t@ == decode_utf8(bytes@),
{
    core::str::from_utf8(bytes).ok()
}

/// Number whose big-endian digits, in base 256, are `bytes`.
pub open spec fn big_endian(bytes: Seq<u8>) -> nat
    decreases bytes.len(),
{
    if bytes.len() == 0 {
        0
    } else {
        big_endian(bytes.drop_last()) * 256 + bytes.last() as nat
    }
}

/// The `width` big-endian digits of `n`, in base 256.
pub open spec fn be_digits(n: nat, width: nat) -> Seq<u8>
    decreases width,
{
    if width == 0 {
        Seq::empty()
    } else {
        be_digits(n / 256, (width - 1) as nat).push((n % 256) as u8)
    }
}

/// There are as many digits as asked for.
pub proof fn lemma_be_digits_len(n: nat, width: nat)
    ensures
        be_digits(n, width).len() == width,
    decreases width,
{
    if width != 0 {
        lemma_be_digits_len(n / 256, (width - 1) as nat);
    }
}

/// Largest number of `width` digits in base 256.
spec fn be_max(width: nat) -> nat
    decreases width,
{
    if width == 0 {
        0
    } else {
        be_max((width - 1) as nat) * 256 + 255
    }
}

proof fn lemma_be_digits_value(n: nat, width: nat)
    requires
        n <= be_max(width),
    ensures
        be_digits(n, width).len() == width,
        big_endian(be_digits(n, width)) == n,
    decreases width,
{
    if width != 0 {
        lemma_be_digits_value(n / 256, (width - 1) as nat);
        let digits = be_digits(n, width);
        assert(digits.drop_last() =~= be_digits(n / 256, (width - 1) as nat));
    }
}

/// A number survives being written as its eight big-endian bytes and read back.
pub proof fn lemma_big_endian_round_trip(n: u64)
    ensures
        be_digits(n as nat, 8).len() == 8,
        big_endian(be_digits(n as nat, 8)) == n,
{
    reveal_with_fuel(be_max, 9);
    lemma_be_digits_value(n as nat, 8);
}

/// The `width` big-endian bytes of `n`.
pub fn to_big_endian(n: u64, width: usize) -> (bytes: Vec<u8>)
    ensures
        bytes@ == be_digits(n as nat, width as nat),
    decreases width,
{
    if width == 0 {
        Vec::new()
    } else {
        let mut bytes = to_big_endian(n / 256, width - 1);
        bytes.push((n % 256) as u8);
        bytes
    }
}

/// Number whose eight big-endian bytes are `bytes`, where there are eight.
pub fn from_big_endian(bytes: &[u8]) -> (n: Option<u64>)
    ensures
        n is Some <==> bytes@.len() == 8,
        n matches Some(value) ==> value == big_endian(bytes@),
{
    if bytes.len() != 8 {
        return None;
    }
    let mut n: u64 = 0;
    let mut i: usize = 0;
    while i < 8
        invariant
            i <= 8,
            bytes@.len() == 8,
            n == big_endian(bytes@.take(i as int)),
            n <= be_max(i as nat),
        decreases 8 - i,
    {
        proof {
            reveal_with_fuel(be_max, 9);
            assert(be_max((i + 1) as nat) <= u64::MAX);
            assert(bytes@.take(i + 1).drop_last() =~= bytes@.take(i as int));
        }
        n = n * 256 + bytes[i] as u64;
        i += 1;
    }
    assert(bytes@.take(8) =~= bytes@);
    Some(n)
}

/// The two texts one after the other.
pub fn text_concat(first: &str, second: &str) -> (text: String)
    ensures
        text@ == first@ + second@,
{
    let mut text = first.to_owned();
    text.append(second);
    text
}

/// UTF-8 takes at most four bytes for a character.
pub proof fn lemma_encode_len(text: Seq<char>)
    ensures
        encode_utf8(text).len() <= 4 * text.len(),
    decreases text.len(),
{
    if text.len() != 0 {
        lemma_encode_len(text.drop_first());
    }
}

/// UTF-8 takes at least one byte for a character.
pub proof fn lemma_encode_at_least(text: Seq<char>)
    ensures
        encode_utf8(text).len() >= text.len(),
    decreases text.len(),
{
    if text.len() != 0 {
        lemma_encode_at_least(text.drop_first());
    }
}

/// The bytes of two texts one after the other are the bytes of the one after those of the other.
pub proof fn lemma_encode_concat(first: Seq<char>, second: Seq<char>)
    ensures
        encode_utf8(first + second) == encode_utf8(first) + encode_utf8(second),
    decreases first.len(),
{
    if first.len() == 0 {
        assert(first + second =~= second);
        assert(encode_utf8(first) + encode_utf8(second) =~= encode_utf8(second));
    } else {
        lemma_encode_concat(first.drop_first(), second);
        assert((first + second).drop_first() =~= first.drop_first() + second);
        assert(encode_utf8(first + second) =~= encode_utf8(first) + encode_utf8(second));
    }
}

} // verus!
