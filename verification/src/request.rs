//! What a management request asks for, and which requests are refused as malformed.

use crate::base64url::{
    base64url, base64url_bytes, decode_base64url, encode_base64url, lemma_base64url_round_trip,
};
use crate::bytes::bytes_equal;
use crate::text::utf8_text;
use crate::views::option_view;
use vstd::prelude::*;
use vstd::string::*;
use vstd::utf8::*;

verus! {

/// Items on a page where the request names no limit.
pub const DEFAULT_PAGE_SIZE: usize = 50;

/// Largest limit that a request may name.
pub const MAX_PAGE_SIZE: usize = 100;

/// Longest key, in bytes.
pub const MAX_KEY_SIZE: usize = 8192;

/// Longest text of a module or peer cursor, in bytes.
pub const MAX_CURSOR_SIZE: usize = 16384;

/// Largest upload, in bytes.
pub const MAX_UPLOAD_SIZE: usize = 16777216;

/// Stands for the empty key.
pub const EMPTY_KEY: &'static str = "~";

/// The one media type of an upload.
pub const WASM_MEDIA_TYPE: &'static str = "application/wasm";

/// The request is malformed.
#[derive(Debug, Clone, Copy, PartialEq, Eq)]
pub struct InvalidRequest;

/// The query of a module or peer listing.
#[derive(Debug, Clone, PartialEq, Eq)]
pub struct PageQuery {
    pub cursor: Option<String>,
    pub limit: Option<usize>,
}

/// The query of a key listing.
#[derive(Debug, Clone, PartialEq, Eq)]
pub struct KeyPageQuery {
    pub prefix: Option<String>,
    pub cursor: Option<String>,
    pub limit: Option<usize>,
}

/// What the cursors of a listing hold: module identifiers, or peer addresses.
#[derive(Debug, Clone, Copy, PartialEq, Eq)]
pub enum CursorKind {
    Module,
    Peer,
}

/// A module or peer listing as asked for.
#[derive(Debug, Clone, PartialEq, Eq)]
pub struct ParsedPageQuery {
    pub cursor: Option<Vec<u8>>,
    pub limit: usize,
}

/// A key listing as asked for.
#[derive(Debug, Clone, PartialEq, Eq)]
pub struct ParsedKeyQuery {
    pub prefix: Vec<u8>,
    pub cursor: Option<Vec<u8>>,
    pub limit: usize,
}

/// The limit that a request means, where it is one to a hundred.
pub open spec fn effective_limit(limit: Option<usize>) -> Option<usize> {
    let meant = match limit {
        Some(named) => named,
        None => DEFAULT_PAGE_SIZE,
    };
    if 1 <= meant <= MAX_PAGE_SIZE {
        Some(meant)
    } else {
        None
    }
}

/// The limit that a request means.
pub fn page_size(limit: Option<usize>) -> (size: Result<usize, InvalidRequest>)
    ensures
        size.ok() == effective_limit(limit),
{
    let limit = match limit {
        Some(limit) => limit,
        None => DEFAULT_PAGE_SIZE,
    };
    if limit < 1 || limit > MAX_PAGE_SIZE {
        return Err(InvalidRequest);
    }
    Ok(limit)
}

/// `id` has the form of a module identifier: 64 lowercase hexadecimal digits.
pub open spec fn module_id_form(id: Seq<u8>) -> bool {
    id.len() == 64 && forall|i: int| 0 <= i < id.len() ==> lower_hex_digit(#[trigger] id[i])
}

/// `byte` is a lowercase hexadecimal digit.
pub open spec fn lower_hex_digit(byte: u8) -> bool {
    '0' as u8 <= byte <= '9' as u8 || 'a' as u8 <= byte <= 'f' as u8
}

/// Whether `id` has the form of a module identifier.
pub fn is_module_id_bytes(id: &[u8]) -> (valid: bool)
    ensures
        valid == module_id_form(id@),
{
    if id.len() != 64 {
        return false;
    }
    let mut i: usize = 0;
    while i < id.len()
        invariant
            i <= id@.len(),
            id@.len() == 64,
            forall|j: int| 0 <= j < i ==> lower_hex_digit(#[trigger] id@[j]),
        decreases id@.len() - i,
    {
        let byte = id[i];
        if !(('0' as u8 <= byte && byte <= '9' as u8) || ('a' as u8 <= byte && byte <= 'f' as u8)) {
            return false;
        }
        i += 1;
    }
    true
}

/// Whether `id` has the form of a module identifier.
pub fn is_module_id(id: &str) -> (valid: bool)
    ensures
        valid == module_id_form(encode_utf8(id@)),
{
    is_module_id_bytes(id.as_bytes())
}

/// The bytes that the text of a module or peer cursor stands for.
pub open spec fn cursor_bytes(cursor: Seq<char>) -> Option<Seq<u8>> {
    if cursor.len() == 0 || encode_utf8(cursor).len() > MAX_CURSOR_SIZE {
        None
    } else {
        base64url_bytes(cursor)
    }
}

/// The bytes of the text of a module or peer cursor.
pub fn decode_cursor(cursor: &str) -> (bytes: Result<Vec<u8>, InvalidRequest>)
    ensures
        option_view(bytes.ok()) == cursor_bytes(cursor@),
{
    if cursor.is_empty() || cursor.as_bytes().len() > MAX_CURSOR_SIZE {
        return Err(InvalidRequest);
    }
    match decode_base64url(cursor) {
        Ok(bytes) => {
            proof {
                lemma_base64url_round_trip(bytes@);
            }
            Ok(bytes)
        },
        Err(_) => Err(InvalidRequest),
    }
}

/// The text of a module or peer cursor.
pub open spec fn cursor_text(cursor: Option<Seq<u8>>) -> Option<Seq<char>> {
    match cursor {
        Some(bytes) => Some(base64url(bytes)),
        None => None,
    }
}

/// The text of a module or peer cursor.
pub fn encode_cursor(cursor: Option<Vec<u8>>) -> (text: Option<String>)
    ensures
        option_view(text) == cursor_text(option_view(cursor)),
{
    match cursor {
        Some(bytes) => Some(encode_base64url(bytes.as_slice())),
        None => None,
    }
}

/// The text of a key: `~` for the empty key, its Base64URL form for any other.
pub open spec fn key_text(key: Seq<u8>) -> Seq<char> {
    if key.len() == 0 {
        EMPTY_KEY@
    } else {
        base64url(key)
    }
}

/// The text of a key.
pub fn encode_key(key: &[u8]) -> (text: String)
    ensures
        text@ == key_text(key@),
{
    if key.len() == 0 {
        EMPTY_KEY.to_owned()
    } else {
        encode_base64url(key)
    }
}

/// The key that `text` stands for.
pub open spec fn key_bytes(text: Seq<char>) -> Option<Seq<u8>> {
    if text == EMPTY_KEY@ {
        Some(Seq::empty())
    } else {
        match base64url_bytes(text) {
            Some(key) => if 1 <= key.len() <= MAX_KEY_SIZE {
                Some(key)
            } else {
                None
            },
            None => None,
        }
    }
}

/// The key that a request names. `allow_absent` says whether it may name none, which stands for the
/// empty key.
pub open spec fn named_key(encoded: Option<Seq<char>>, allow_absent: bool) -> Option<Seq<u8>> {
    match encoded {
        Some(text) => key_bytes(text),
        None => if allow_absent {
            Some(Seq::empty())
        } else {
            None
        },
    }
}

/// The key that a request names.
pub fn decode_key(encoded: Option<&str>, allow_absent: bool) -> (key: Result<
    Vec<u8>,
    InvalidRequest,
>)
    ensures
        option_view(key.ok()) == named_key(option_view(encoded), allow_absent),
{
    let encoded = match encoded {
        Some(encoded) => encoded,
        None => {
            return if allow_absent {
                Ok(Vec::new())
            } else {
                Err(InvalidRequest)
            };
        },
    };
    if texts_equal(encoded, EMPTY_KEY) {
        return Ok(Vec::new());
    }
    let decoded = match decode_base64url(encoded) {
        Ok(decoded) => decoded,
        Err(_) => {
            return Err(InvalidRequest);
        },
    };
    proof {
        lemma_base64url_round_trip(decoded@);
    }
    if decoded.is_empty() || decoded.len() > MAX_KEY_SIZE {
        return Err(InvalidRequest);
    }
    Ok(decoded)
}

/// Whether the two texts are equal.
fn texts_equal(a: &str, b: &str) -> (equal: bool)
    ensures
        equal == (a@ == b@),
{
    proof {
        encode_utf8_decode_utf8(a@);
        encode_utf8_decode_utf8(b@);
    }
    bytes_equal(a.as_bytes(), b.as_bytes())
}

/// What a module or peer listing asks for: the cursor and the limit. The cursor of a module listing
/// has the form of a module identifier, and that of a peer listing is UTF-8.
pub open spec fn listing_asked(
    cursor: Option<Seq<char>>,
    limit: Option<usize>,
    kind: CursorKind,
) -> Option<(Option<Seq<u8>>, usize)> {
    match effective_limit(limit) {
        Some(limit) => match cursor {
            Some(text) => match cursor_bytes(text) {
                Some(bytes) => if match kind {
                    CursorKind::Module => module_id_form(bytes),
                    CursorKind::Peer => valid_utf8(bytes),
                } {
                    Some((Some(bytes), limit))
                } else {
                    None
                },
                None => None,
            },
            None => Some((None, limit)),
        },
        None => None,
    }
}

/// What a module or peer listing with query `query` asks for.
pub open spec fn page_asked(query: Result<PageQuery, InvalidRequest>, kind: CursorKind) -> Option<
    (Option<Seq<u8>>, usize),
> {
    match query {
        Ok(query) => listing_asked(option_view(query.cursor), query.limit, kind),
        Err(_) => None,
    }
}

/// What the query of a module or peer listing asks for.
pub fn parse_page_query(query: Result<PageQuery, InvalidRequest>, kind: CursorKind) -> (parsed:
    Result<ParsedPageQuery, InvalidRequest>)
    ensures
        match parsed {
            Ok(asked) => page_asked(query, kind) == Some(
                (option_view(asked.cursor), asked.limit),
            ),
            Err(_) => page_asked(query, kind) is None,
        },
{
    let query = match query {
        Ok(query) => query,
        Err(_) => {
            return Err(InvalidRequest);
        },
    };
    let limit = match page_size(query.limit) {
        Ok(limit) => limit,
        Err(_) => {
            return Err(InvalidRequest);
        },
    };
    let cursor = match query.cursor {
        Some(text) => match decode_cursor(text.as_str()) {
            Ok(cursor) => cursor,
            Err(_) => {
                return Err(InvalidRequest);
            },
        },
        None => {
            return Ok(ParsedPageQuery { cursor: None, limit });
        },
    };
    let accepted = match kind {
        CursorKind::Module => is_module_id_bytes(cursor.as_slice()),
        CursorKind::Peer => utf8_text(cursor.as_slice()).is_some(),
    };
    if accepted {
        Ok(ParsedPageQuery { cursor: Some(cursor), limit })
    } else {
        Err(InvalidRequest)
    }
}

/// What a key listing with query `query` asks for: the prefix, the cursor and the limit.
pub open spec fn keys_asked(query: Result<KeyPageQuery, InvalidRequest>) -> Option<
    (Seq<u8>, Option<Seq<u8>>, usize),
> {
    match query {
        Ok(query) => match (
            effective_limit(query.limit),
            named_key(option_view(query.prefix), true),
            query.cursor,
        ) {
            (Some(limit), Some(prefix), None) => Some((prefix, None, limit)),
            (Some(limit), Some(prefix), Some(cursor)) => match key_bytes(cursor@) {
                Some(key) => Some((prefix, Some(key), limit)),
                None => None,
            },
            _ => None,
        },
        Err(_) => None,
    }
}

/// What the query of a key listing asks for.
pub fn parse_key_query(query: Result<KeyPageQuery, InvalidRequest>) -> (parsed: Result<
    ParsedKeyQuery,
    InvalidRequest,
>)
    ensures
        match parsed {
            Ok(asked) => keys_asked(query) == Some(
                (asked.prefix@, option_view(asked.cursor), asked.limit),
            ),
            Err(_) => keys_asked(query) is None,
        },
{
    let query = match query {
        Ok(query) => query,
        Err(_) => {
            return Err(InvalidRequest);
        },
    };
    let limit = match page_size(query.limit) {
        Ok(limit) => limit,
        Err(_) => {
            return Err(InvalidRequest);
        },
    };
    let prefix = match &query.prefix {
        Some(prefix) => decode_key(Some(prefix.as_str()), true),
        None => decode_key(None, true),
    };
    let prefix = match prefix {
        Ok(prefix) => prefix,
        Err(_) => {
            return Err(InvalidRequest);
        },
    };
    let cursor = match &query.cursor {
        Some(cursor) => match decode_key(Some(cursor.as_str()), false) {
            Ok(cursor) => Some(cursor),
            Err(_) => {
                return Err(InvalidRequest);
            },
        },
        None => None,
    };
    Ok(ParsedKeyQuery { prefix, cursor, limit })
}

/// `byte` may stand in a header value that is read as text.
pub open spec fn header_byte(byte: u8) -> bool {
    byte == 9 || 32 <= byte < 127
}

/// The header value `value` can be read as text.
pub open spec fn header_text(value: Seq<u8>) -> bool {
    forall|i: int| 0 <= i < value.len() ==> header_byte(#[trigger] value[i])
}

/// The bytes of `value` before its first `;`.
pub open spec fn before_parameters(value: Seq<u8>) -> Seq<u8>
    decreases value.len(),
{
    if value.len() == 0 || value[0] == ';' as u8 {
        Seq::empty()
    } else {
        seq![value[0]] + before_parameters(value.drop_first())
    }
}

/// A space or a tab.
pub open spec fn blank(byte: u8) -> bool {
    byte == 32 || byte == 9
}

/// `value` without the blanks that it begins with.
pub open spec fn without_leading_blanks(value: Seq<u8>) -> Seq<u8>
    decreases value.len(),
{
    if value.len() != 0 && blank(value[0]) {
        without_leading_blanks(value.drop_first())
    } else {
        value
    }
}

/// `value` without the blanks that it ends in.
pub open spec fn without_trailing_blanks(value: Seq<u8>) -> Seq<u8>
    decreases value.len(),
{
    if value.len() != 0 && blank(value.last()) {
        without_trailing_blanks(value.drop_last())
    } else {
        value
    }
}

/// The media type in the header value `value`: its part before any parameters, without the blanks
/// around it.
pub open spec fn media_type(value: Seq<u8>) -> Seq<u8> {
    without_trailing_blanks(without_leading_blanks(before_parameters(value)))
}

/// `byte`, in lower case where it is a letter.
pub open spec fn lower_case(byte: u8) -> u8 {
    if 'A' as u8 <= byte <= 'Z' as u8 {
        (byte + 32) as u8
    } else {
        byte
    }
}

/// `value` with each letter in lower case.
pub open spec fn lower_cased(value: Seq<u8>) -> Seq<u8> {
    value.map_values(|byte: u8| lower_case(byte))
}

/// The header value `value` names, in any case, the media type of an upload.
pub open spec fn wasm_content_type(value: Seq<u8>) -> bool {
    &&& header_text(value)
    &&& lower_cased(media_type(value)) == encode_utf8(WASM_MEDIA_TYPE@)
}

/// Whether the header value `value` can be read as text.
fn is_header_text(value: &[u8]) -> (readable: bool)
    ensures
        readable == header_text(value@),
{
    let mut i: usize = 0;
    while i < value.len()
        invariant
            i <= value@.len(),
            forall|j: int| 0 <= j < i ==> header_byte(#[trigger] value@[j]),
        decreases value@.len() - i,
    {
        if !(value[i] == 9 || (32 <= value[i] && value[i] < 127)) {
            assert(!header_byte(value@[i as int]));
            return false;
        }
        i += 1;
    }
    true
}

/// Where the parameters of the header value `value` begin, or its end.
fn parameters_start(value: &[u8]) -> (end: usize)
    ensures
        end <= value@.len(),
        before_parameters(value@) == value@.take(end as int),
{
    let mut end: usize = 0;
    assert(value@.skip(0) =~= value@);
    assert(value@.take(0) + before_parameters(value@) =~= before_parameters(value@));
    while end < value.len() && value[end] != ';' as u8
        invariant
            end <= value@.len(),
            before_parameters(value@) == value@.take(end as int) + before_parameters(
                value@.skip(end as int),
            ),
        decreases value@.len() - end,
    {
        proof {
            let rest = value@.skip(end as int);
            assert(rest.drop_first() =~= value@.skip(end + 1));
            assert(value@.take(end as int) + (seq![rest[0]] + before_parameters(rest.drop_first()))
                =~= value@.take(end + 1) + before_parameters(value@.skip(end + 1)));
        }
        end += 1;
    }
    assert(value@.take(end as int) + before_parameters(value@.skip(end as int)) =~= value@.take(
        end as int,
    ));
    end
}

/// The media type in the header value `value`, in lower case.
fn lower_media_type(value: &[u8]) -> (name: Vec<u8>)
    ensures
        name@ == lower_cased(media_type(value@)),
{
    let mut end: usize = parameters_start(value);
    let ghost part = before_parameters(value@);

    let mut start: usize = 0;
    assert(part =~= value@.subrange(0, end as int));
    while start < end && (value[start] == 32 || value[start] == 9)
        invariant
            start <= end <= value@.len(),
            without_leading_blanks(part) == without_leading_blanks(
                value@.subrange(start as int, end as int),
            ),
        decreases end - start,
    {
        assert(value@.subrange(start as int, end as int).drop_first() =~= value@.subrange(
            start + 1,
            end as int,
        ));
        start += 1;
    }
    let ghost unled = without_leading_blanks(part);
    assert(unled == value@.subrange(start as int, end as int));

    while start < end && (value[end - 1] == 32 || value[end - 1] == 9)
        invariant
            start <= end <= value@.len(),
            without_trailing_blanks(unled) == without_trailing_blanks(
                value@.subrange(start as int, end as int),
            ),
        decreases end - start,
    {
        assert(value@.subrange(start as int, end as int).drop_last() =~= value@.subrange(
            start as int,
            end - 1,
        ));
        end -= 1;
    }
    assert(media_type(value@) == value@.subrange(start as int, end as int));

    let mut name: Vec<u8> = Vec::new();
    let mut next: usize = start;
    while next < end
        invariant
            start <= next <= end <= value@.len(),
            name@ == lower_cased(value@.subrange(start as int, next as int)),
        decreases end - next,
    {
        let byte = value[next];
        if 'A' as u8 <= byte && byte <= 'Z' as u8 {
            name.push(byte + 32);
        } else {
            name.push(byte);
        }
        next += 1;
        assert(name@ =~= lower_cased(value@.subrange(start as int, next as int)));
    }
    name
}

/// Whether the content type of a request, where it has one, is that of an upload.
pub fn is_wasm_content_type(content_type: Option<&[u8]>) -> (accepted: bool)
    ensures
        accepted == match content_type {
            Some(value) => wasm_content_type(value@),
            None => false,
        },
{
    match content_type {
        Some(value) => is_header_text(value) && bytes_equal(
            lower_media_type(value).as_slice(),
            WASM_MEDIA_TYPE.as_bytes(),
        ),
        None => false,
    }
}

} // verus!
