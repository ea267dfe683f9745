//! What reading a request comes to, in terms of the request's own parts.

use crate::base64url::{base64url, lemma_base64url_shape};
use crate::format_laws::law_base64url_is_read_back;
use crate::passing_back::{
    lemma_base64url_is_ascii, lemma_cursor_text_stands_for_it, lemma_empty_key_text_is_apart,
};
use crate::request::{
    cursor_bytes, decode_cursor, decode_key, encode_cursor, encode_key, is_module_id,
    is_module_id_bytes, key_bytes, lower_hex_digit, module_id_form, page_size, parse_key_query,
    parse_page_query, CursorKind, InvalidRequest, KeyPageQuery, PageQuery, ParsedKeyQuery,
    ParsedPageQuery,
};
use crate::views::option_view;
use vstd::prelude::*;
use vstd::utf8::*;

verus! {

/// A limit from 1 to 100 is meant as it is named, none means 50, and any other is refused.
pub proof fn law_named_limit_is_meant(limit: Option<usize>, size: Result<usize, InvalidRequest>)
    requires
        call_ensures(page_size, (limit,), size),
    ensures
        limit is None ==> size == Ok::<usize, InvalidRequest>(50),
        limit is Some && 1 <= limit->0 <= 100 ==> size == Ok::<usize, InvalidRequest>(limit->0),
        limit is Some && !(1 <= limit->0 <= 100) ==> size is Err,
{
}

/// A byte string is taken for a module identifier exactly where it is 64 digits 0 to 9 and a to f.
pub proof fn law_module_identifiers_are_digests(id: &[u8], valid: bool)
    requires
        call_ensures(is_module_id_bytes, (id,), valid),
    ensures
        valid <==> id@.len() == 64 && forall|i: int|
            0 <= i < 64 ==> (48 <= #[trigger] id@[i] <= 57 || 97 <= id@[i] <= 102),
{
    if valid {
        assert(module_id_form(id@));
        assert forall|i: int| 0 <= i < 64 implies (48 <= #[trigger] id@[i] <= 57 || 97 <= id@[i]
            <= 102) by {
            assert(lower_hex_digit(id@[i]));
        }
    }
    if id@.len() == 64 && forall|i: int|
        0 <= i < 64 ==> (48 <= #[trigger] id@[i] <= 57 || 97 <= id@[i] <= 102) {
        assert forall|i: int| 0 <= i < id@.len() implies lower_hex_digit(
            #[trigger] id@[i],
        ) by {}
    }
}

/// A text is taken for a module identifier exactly where its bytes are.
pub proof fn law_module_identifier_texts(id: &str, bytes: &[u8], valid: bool, bytes_valid: bool)
    requires
        call_ensures(is_module_id, (id,), valid),
        call_ensures(is_module_id_bytes, (bytes,), bytes_valid),
        bytes@ == encode_utf8(id@),
    ensures
        valid == bytes_valid,
{
}

/// The text of a cursor is read as the byte string of 1 to 12288 bytes that it is the Base64URL
/// form of, and refused where there is none.
pub proof fn law_cursor_is_its_base64url_form(
    cursor: &str,
    bytes: Result<Vec<u8>, InvalidRequest>,
    other: Seq<u8>,
)
    requires
        call_ensures(decode_cursor, (cursor,), bytes),
    ensures
        bytes is Ok ==> base64url(bytes->Ok_0@) == cursor@ && 1 <= bytes->Ok_0@.len() <= 12288,
        base64url(other) == cursor@ && 1 <= other.len() <= 12288 ==> bytes is Ok
            && bytes->Ok_0@ == other,
{
    assert(option_view(bytes.ok()) == cursor_bytes(cursor@));
    if bytes is Ok {
        let read = bytes->Ok_0@;
        law_base64url_is_read_back(cursor@, read);
        lemma_base64url_shape(read);
        lemma_base64url_is_ascii(read);
    }
    if base64url(other) == cursor@ && 1 <= other.len() <= 12288 {
        lemma_cursor_text_stands_for_it(other);
    }
}

/// The text of a cursor is its Base64URL form, and there is one exactly where there is a cursor.
pub proof fn law_cursor_is_written_in_base64url(cursor: Option<Vec<u8>>, text: Option<String>)
    requires
        call_ensures(encode_cursor, (cursor,), text),
    ensures
        text is Some <==> cursor is Some,
        cursor is Some ==> text->0@ == base64url(cursor->0@),
{
}

/// The text of the empty key is `~`, and that of any other key its Base64URL form.
pub proof fn law_key_is_written_in_base64url(key: &[u8], text: String)
    requires
        call_ensures(encode_key, (key,), text),
    ensures
        key@.len() == 0 ==> text@ == "~"@,
        key@.len() > 0 ==> text@ == base64url(key@),
{
}

/// `text` stands for `key`: it is `~` and the key empty, or the key has 1 to 8192 bytes and `text`
/// is its Base64URL form.
pub open spec fn stands_for(text: Seq<char>, key: Seq<u8>) -> bool {
    (text == "~"@ && key.len() == 0) || (1 <= key.len() <= 8192 && text == base64url(key))
}

/// A text is read as the key that it stands for.
pub proof fn lemma_key_stands(text: Seq<char>, key: Seq<u8>)
    ensures
        key_bytes(text) == Some(key) <==> stands_for(text, key),
{
    if text == "~"@ {
        lemma_empty_key_text_is_apart(key);
        assert(key.len() == 0 ==> key =~= Seq::empty());
    } else {
        law_base64url_is_read_back(text, key);
    }
}

/// A named key is the one that its text stands for, and a text that stands for none is refused.
pub proof fn law_named_key_is_read(
    text: &str,
    allow_absent: bool,
    key: Result<Vec<u8>, InvalidRequest>,
    other: Seq<u8>,
)
    requires
        call_ensures(decode_key, (Some(text), allow_absent), key),
    ensures
        key is Ok ==> stands_for(text@, key->Ok_0@),
        stands_for(text@, other) ==> key is Ok && key->Ok_0@ == other,
{
    assert(option_view(Some(text)) == Some(text@));
    assert(option_view(key.ok()) == key_bytes(text@));
    if key is Ok {
        lemma_key_stands(text@, key->Ok_0@);
    }
    lemma_key_stands(text@, other);
}

/// A key that is not named is the empty one where it may be absent, and refused where it may not.
pub proof fn law_absent_key_is_empty(
    allow_absent: bool,
    key: Result<Vec<u8>, InvalidRequest>,
)
    requires
        call_ensures(decode_key, (None::<&str>, allow_absent), key),
    ensures
        key is Ok <==> allow_absent,
        key is Ok ==> key->Ok_0@.len() == 0,
{
    assert(option_view(None::<&str>) is None);
}

/// The limit is one that may be named.
pub open spec fn may_be_named(limit: Option<usize>) -> bool {
    limit is Some ==> 1 <= limit->0 <= 100
}

/// The node is asked for as many items as the request names, with or without a cursor, and for 50
/// where it names none.
pub proof fn law_listing_asks_for_the_named_limit(
    query: PageQuery,
    kind: CursorKind,
    parsed: Result<ParsedPageQuery, InvalidRequest>,
)
    requires
        call_ensures(parse_page_query, (Ok(query), kind), parsed),
    ensures
        parsed is Ok ==> may_be_named(query.limit),
        parsed is Ok && query.limit is Some ==> parsed->Ok_0.limit == query.limit->0,
        parsed is Ok && query.limit is None ==> parsed->Ok_0.limit == 50,
{
}

/// A module or peer listing without a cursor is accepted with any limit that may be named, and asks
/// the node from the beginning.
pub proof fn law_first_page_is_asked_for(
    query: PageQuery,
    kind: CursorKind,
    parsed: Result<ParsedPageQuery, InvalidRequest>,
)
    requires
        call_ensures(parse_page_query, (Ok(query), kind), parsed),
        query.cursor is None,
    ensures
        parsed is Ok <==> may_be_named(query.limit),
        parsed is Ok ==> parsed->Ok_0.cursor is None,
{
}

/// `bytes` may be the cursor of a listing of this kind: 64 digits of a module, or UTF-8 of a peer.
pub open spec fn cursor_of_kind(kind: CursorKind, bytes: Seq<u8>) -> bool {
    match kind {
        CursorKind::Module => bytes.len() == 64 && forall|i: int|
            0 <= i < 64 ==> (48 <= #[trigger] bytes[i] <= 57 || 97 <= bytes[i] <= 102),
        CursorKind::Peer => valid_utf8(bytes),
    }
}

/// A module or peer listing with a cursor asks the node for what follows exactly the bytes that the
/// cursor's text is the Base64URL form of; it is accepted wherever these may be the cursor of such
/// a listing and the limit may be named, and nowhere else.
pub proof fn law_next_page_is_asked_for(
    query: PageQuery,
    kind: CursorKind,
    parsed: Result<ParsedPageQuery, InvalidRequest>,
    bytes: Seq<u8>,
)
    requires
        call_ensures(parse_page_query, (Ok(query), kind), parsed),
        query.cursor is Some,
    ensures
        parsed is Ok ==> {
            let cursor = parsed->Ok_0.cursor;
            &&& may_be_named(query.limit)
            &&& cursor is Some
            &&& base64url(cursor->0@) == query.cursor->0@
            &&& 1 <= cursor->0@.len() <= 12288
            &&& cursor_of_kind(kind, cursor->0@)
        },
        may_be_named(query.limit) && base64url(bytes) == query.cursor->0@ && 1 <= bytes.len()
            <= 12288 && cursor_of_kind(kind, bytes) ==> parsed is Ok && parsed->Ok_0.cursor is Some
            && parsed->Ok_0.cursor->0@ == bytes,
{
    let text = query.cursor->0@;
    assert(option_view(query.cursor) == Some(text));
    if parsed is Ok {
        let read = parsed->Ok_0.cursor->0@;
        assert(cursor_bytes(text) == Some(read));
        law_base64url_is_read_back(text, read);
        lemma_base64url_shape(read);
        lemma_base64url_is_ascii(read);
        lemma_cursor_form(kind, read);
    }
    if base64url(bytes) == text && 1 <= bytes.len() <= 12288 {
        lemma_cursor_text_stands_for_it(bytes);
        lemma_cursor_form(kind, bytes);
    }
}

/// What the cursors of a listing are tested for.
pub proof fn lemma_cursor_form(kind: CursorKind, bytes: Seq<u8>)
    ensures
        cursor_of_kind(kind, bytes) <==> match kind {
            CursorKind::Module => module_id_form(bytes),
            CursorKind::Peer => valid_utf8(bytes),
        },
{
    if kind is Module {
        if module_id_form(bytes) {
            assert forall|i: int| 0 <= i < 64 implies (48 <= #[trigger] bytes[i] <= 57 || 97
                <= bytes[i] <= 102) by {
                assert(lower_hex_digit(bytes[i]));
            }
        }
        if cursor_of_kind(kind, bytes) {
            assert forall|i: int| 0 <= i < bytes.len() implies lower_hex_digit(
                #[trigger] bytes[i],
            ) by {}
        }
    }
}

/// A key listing is accepted exactly where its limit may be named and its prefix and its cursor, as
/// far as they are named, stand for keys.
pub open spec fn key_query_stands(
    query: KeyPageQuery,
    prefix: Seq<u8>,
    cursor: Option<Seq<u8>>,
) -> bool {
    &&& may_be_named(query.limit)
    &&& match query.prefix {
        Some(text) => stands_for(text@, prefix),
        None => prefix.len() == 0,
    }
    &&& match query.cursor {
        Some(text) => cursor is Some && stands_for(text@, cursor->0),
        None => cursor is None,
    }
}

/// A key listing, with or without a cursor and whatever its limit, asks the node for the keys under
/// the key that its prefix stands for, the empty one where it names none; for what follows the key
/// that its cursor stands for; and for as many as it names, 50 where it names none. It is accepted
/// wherever its parts stand for keys, and nowhere else.
pub proof fn law_key_listing_asks_for_what_it_names(
    query: KeyPageQuery,
    parsed: Result<ParsedKeyQuery, InvalidRequest>,
    prefix: Seq<u8>,
    cursor: Option<Seq<u8>>,
)
    requires
        call_ensures(parse_key_query, (Ok(query),), parsed),
    ensures
        parsed is Ok ==> {
            let asked = parsed->Ok_0;
            &&& key_query_stands(query, asked.prefix@, option_view(asked.cursor))
            &&& asked.cursor is Some <==> query.cursor is Some
            &&& query.limit is Some ==> asked.limit == query.limit->0
            &&& query.limit is None ==> asked.limit == 50
        },
        key_query_stands(query, prefix, cursor) ==> parsed is Ok && parsed->Ok_0.prefix@ == prefix
            && option_view(parsed->Ok_0.cursor) == cursor,
{
    if let Some(text) = query.prefix {
        assert(option_view(query.prefix) == Some(text@));
        lemma_key_stands(text@, prefix);
        if parsed is Ok {
            lemma_key_stands(text@, parsed->Ok_0.prefix@);
        }
    } else {
        assert(prefix.len() == 0 ==> prefix =~= Seq::empty());
    }
    if let Some(text) = query.cursor {
        if let Some(key) = cursor {
            lemma_key_stands(text@, key);
        }
        if parsed is Ok {
            lemma_key_stands(text@, parsed->Ok_0.cursor->0@);
        }
    }
}

/// A query that could not be read is refused.
pub proof fn law_unreadable_queries_are_refused(
    kind: CursorKind,
    page: Result<ParsedPageQuery, InvalidRequest>,
    keys: Result<ParsedKeyQuery, InvalidRequest>,
)
    requires
        call_ensures(parse_page_query, (Err(InvalidRequest), kind), page),
        call_ensures(parse_key_query, (Err(InvalidRequest),), keys),
    ensures
        page is Err,
        keys is Err,
{
}

} // verus!
