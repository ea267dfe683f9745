//! What a reply shows can be passed back unchanged: keys, cursors and locations.

use crate::base64url::{
    base64url, is_symbol, lemma_base64url_injective, lemma_base64url_round_trip,
    lemma_base64url_shape,
};
use crate::reply::module_location;
use crate::request::{
    cursor_bytes, effective_limit, header_text, key_bytes, key_text, keys_asked, listing_asked,
    lower_hex_digit, module_id_form, named_key, CursorKind, KeyPageQuery, MAX_KEY_SIZE,
};
use crate::text::lemma_encode_concat;
use crate::views::option_view;
use vstd::prelude::*;
use vstd::utf8::*;

verus! {

/// `~` is the Base64URL form of no byte string.
pub proof fn lemma_empty_key_text_is_apart(bytes: Seq<u8>)
    ensures
        base64url(bytes) != "~"@,
{
    reveal_strlit("~");
    lemma_base64url_shape(bytes);
    if base64url(bytes) == "~"@ {
        assert(is_symbol(base64url(bytes)[0]));
    }
}

/// The text that a reply shows of a key names that key: the empty key by `~`, any other by its
/// Base64URL form.
pub proof fn law_key_text_names_its_key(key: Seq<u8>)
    requires
        key.len() <= MAX_KEY_SIZE,
    ensures
        key_bytes(key_text(key)) == Some(key),
{
    if key.len() == 0 {
        assert(key =~= Seq::empty());
    } else {
        lemma_empty_key_text_is_apart(key);
        lemma_base64url_round_trip(key);
    }
}

/// Different keys have different texts.
pub proof fn law_key_texts_differ(a: Seq<u8>, b: Seq<u8>)
    requires
        key_text(a) == key_text(b),
    ensures
        a == b,
{
    lemma_empty_key_text_is_apart(a);
    lemma_empty_key_text_is_apart(b);
    if a.len() == 0 || b.len() == 0 {
        assert(a =~= b);
    } else {
        lemma_base64url_injective(a, b);
    }
}

/// A key has one text only: what names it in a request is what a reply shows of it.
pub proof fn law_key_has_one_text(text: Seq<char>)
    requires
        key_bytes(text) is Some,
    ensures
        key_text(key_bytes(text)->0) == text,
        key_bytes(text)->0.len() <= MAX_KEY_SIZE,
{
}

/// The cursor of a key page, passed back with the same prefix and limit, asks for what follows that
/// key.
pub proof fn law_key_cursor_is_understood(query: KeyPageQuery, key: Seq<u8>)
    requires
        key.len() <= MAX_KEY_SIZE,
        option_view(query.cursor) == Some(key_text(key)),
        effective_limit(query.limit) is Some,
        named_key(option_view(query.prefix), true) is Some,
    ensures
        keys_asked(Ok(query)) == Some(
            (
                named_key(option_view(query.prefix), true)->0,
                Some(key),
                effective_limit(query.limit)->0,
            ),
        ),
{
    law_key_text_names_its_key(key);
}

/// Leaving the prefix out of a key listing, or naming the empty key as prefix, asks for all keys.
pub proof fn law_absent_prefix_is_the_empty_one()
    ensures
        named_key(None, true) == Some(Seq::<u8>::empty()),
        named_key(Some("~"@), true) == named_key(None, true),
        forall|key: Seq<u8>| Seq::<u8>::empty().is_prefix_of(key),
{
    assert forall|key: Seq<u8>| Seq::<u8>::empty().is_prefix_of(key) by {
        assert(Seq::<u8>::empty() =~= key.subrange(0, 0));
    }
}

/// The characters of the Base64URL form take one byte each.
pub proof fn lemma_base64url_is_ascii(bytes: Seq<u8>)
    ensures
        is_ascii_chars(base64url(bytes)),
        encode_utf8(base64url(bytes)).len() == base64url(bytes).len(),
        header_text(encode_utf8(base64url(bytes))),
{
    lemma_base64url_shape(bytes);
    let text = base64url(bytes);
    assert forall|i: int| 0 <= i < text.len() implies 32 <= (#[trigger] text[i]) as u32 && (
    text[i] as u32) < 127 by {
        assert(is_symbol(text[i]));
    }
    is_ascii_chars_encode_utf8(text);
}

/// The text of a module or peer cursor that is neither empty nor longer than a cursor may be stands
/// for that cursor.
pub proof fn lemma_cursor_text_stands_for_it(cursor: Seq<u8>)
    requires
        1 <= cursor.len() <= 12288,
    ensures
        cursor_bytes(base64url(cursor)) == Some(cursor),
{
    lemma_base64url_shape(cursor);
    lemma_base64url_is_ascii(cursor);
    lemma_base64url_round_trip(cursor);
}

/// The cursor of a module page, passed back with the same limit, asks for what follows that module.
pub proof fn law_module_cursor_is_understood(id: Seq<u8>, limit: Option<usize>)
    requires
        module_id_form(id),
        effective_limit(limit) is Some,
    ensures
        listing_asked(Some(base64url(id)), limit, CursorKind::Module) == Some(
            (Some(id), effective_limit(limit)->0),
        ),
{
    lemma_cursor_text_stands_for_it(id);
}

/// The cursor of a peer page, passed back with the same limit, asks for what follows that peer,
/// unless the peer's address is empty or takes more than 12288 bytes.
pub proof fn law_peer_cursor_is_understood(address: Seq<char>, limit: Option<usize>)
    requires
        1 <= encode_utf8(address).len() <= 12288,
        effective_limit(limit) is Some,
    ensures
        listing_asked(Some(base64url(encode_utf8(address))), limit, CursorKind::Peer) == Some(
            (Some(encode_utf8(address)), effective_limit(limit)->0),
        ),
{
    encode_utf8_valid_utf8(address);
    lemma_cursor_text_stands_for_it(encode_utf8(address));
}

/// The text that names a key, and the path of a module with an identifier of the form that
/// registration gives, can stand in a header.
pub proof fn law_shown_texts_fit_in_headers(text: Seq<char>, id: Seq<char>)
    ensures
        key_bytes(text) is Some ==> header_text(encode_utf8(text)),
        module_id_form(encode_utf8(id)) ==> header_text(encode_utf8(module_location(id))),
{
    if key_bytes(text) is Some {
        if text == "~"@ {
            reveal_strlit("~");
            is_ascii_chars_encode_utf8(text);
        } else {
            lemma_base64url_is_ascii(key_bytes(text)->0);
        }
    }
    if module_id_form(encode_utf8(id)) {
        reveal_strlit("/api/v1/modules/");
        let path = "/api/v1/modules/"@;
        is_ascii_chars_encode_utf8(path);
        lemma_encode_concat(path, id);
        let whole = encode_utf8(module_location(id));
        assert forall|i: int| 0 <= i < whole.len() implies 32 <= #[trigger] whole[i] < 127 by {
            if i < path.len() {
                assert(whole[i] == encode_utf8(path)[i]);
            } else {
                assert(whole[i] == encode_utf8(id)[i - path.len()]);
                assert(lower_hex_digit(encode_utf8(id)[i - path.len()]));
            }
        }
    }
}

} // verus!
