//! The JSON documents of the management API.

use crate::control::{ModuleInfo, ModuleInfoView, PeerInfo, PeerInfoView};
use crate::text::lemma_encode_concat;
use crate::views::{option_view, seq_view};
use serde_json::Value;
use vstd::prelude::*;
use vstd::utf8::*;

verus! {

/// Lowercase hexadecimal digit of `value`.
pub open spec fn hex_digit(value: int) -> char {
    if value < 10 {
        ('0' as int + value) as char
    } else {
        ('a' as int + value - 10) as char
    }
}

/// `c` as it stands in a JSON string: quotes, backslashes and control characters are escaped, and
/// nothing else is.
pub open spec fn json_char(c: char) -> Seq<char> {
    if c == '"' {
        seq!['\\', '"']
    } else if c == '\\' {
        seq!['\\', '\\']
    } else if c as int == 8 {
        seq!['\\', 'b']
    } else if c as int == 9 {
        seq!['\\', 't']
    } else if c as int == 10 {
        seq!['\\', 'n']
    } else if c as int == 12 {
        seq!['\\', 'f']
    } else if c as int == 13 {
        seq!['\\', 'r']
    } else if (c as int) < 32 {
        seq!['\\', 'u', '0', '0', hex_digit(c as int / 16), hex_digit(c as int % 16)]
    } else {
        seq![c]
    }
}

/// The characters of `text` as they stand in a JSON string.
pub open spec fn json_chars(text: Seq<char>) -> Seq<char>
    decreases text.len(),
{
    if text.len() == 0 {
        Seq::empty()
    } else {
        json_chars(text.drop_last()) + json_char(text.last())
    }
}

/// `text` as a JSON string.
pub open spec fn json_string(text: Seq<char>) -> Seq<char> {
    seq!['"'] + json_chars(text) + seq!['"']
}

/// `n` as a JSON number: its decimal digits.
pub open spec fn json_number(n: nat) -> Seq<char>
    decreases n,
{
    if n < 10 {
        seq![hex_digit(n as int)]
    } else {
        json_number(n / 10).push(hex_digit((n % 10) as int))
    }
}

/// `text` as a JSON string, or `null` where there is none.
pub open spec fn json_optional(text: Option<Seq<char>>) -> Seq<char> {
    match text {
        Some(inner) => json_string(inner),
        None => "null"@,
    }
}

/// The documents of `items`, with commas between them.
pub open spec fn json_joined(items: Seq<Seq<char>>) -> Seq<char>
    decreases items.len(),
{
    if items.len() == 0 {
        Seq::empty()
    } else if items.len() == 1 {
        items[0]
    } else {
        json_joined(items.drop_last()) + seq![','] + items.last()
    }
}

/// The JSON array of the documents `items`.
pub open spec fn json_array(items: Seq<Seq<char>>) -> Seq<char> {
    seq!['['] + json_joined(items) + seq![']']
}

/// One member of a JSON object.
pub open spec fn json_member(name: Seq<char>, value: Seq<char>) -> Seq<char> {
    json_string(name) + seq![':'] + value
}

/// The JSON object with the members `members`.
pub open spec fn json_object(members: Seq<Seq<char>>) -> Seq<char> {
    seq!['{'] + json_joined(members) + seq!['}']
}

/// A module as a JSON document.
pub open spec fn module_text(module: ModuleInfoView) -> Seq<char> {
    json_object(
        seq![
            json_member("id"@, json_string(module.id)),
            json_member("size_bytes"@, json_number(module.size_bytes as nat)),
        ],
    )
}

/// A peer as a JSON document.
pub open spec fn peer_text(peer: PeerInfoView) -> Seq<char> {
    json_object(
        seq![
            json_member("address"@, json_string(peer.address)),
            json_member("node_id"@, json_string(peer.node_id)),
        ],
    )
}

/// A page of the documents `items` as a JSON document.
pub open spec fn page_text(items: Seq<Seq<char>>, next_cursor: Option<Seq<char>>) -> Seq<char> {
    json_object(
        seq![
            json_member("items"@, json_array(items)),
            json_member("next_cursor"@, json_optional(next_cursor)),
        ],
    )
}

/// A page of modules as a JSON document.
pub open spec fn module_page_text(
    items: Seq<ModuleInfoView>,
    next_cursor: Option<Seq<char>>,
) -> Seq<char> {
    page_text(items.map_values(|module: ModuleInfoView| module_text(module)), next_cursor)
}

/// A page of peers as a JSON document.
pub open spec fn peer_page_text(
    items: Seq<PeerInfoView>,
    next_cursor: Option<Seq<char>>,
) -> Seq<char> {
    page_text(items.map_values(|peer: PeerInfoView| peer_text(peer)), next_cursor)
}

/// A page of keys, each by its text, as a JSON document.
pub open spec fn key_page_text(items: Seq<Seq<char>>, next_cursor: Option<Seq<char>>) -> Seq<char> {
    page_text(items.map_values(|key: Seq<char>| json_string(key)), next_cursor)
}

/// The answer of a probe as a JSON document.
pub open spec fn probe_text(status: Seq<char>) -> Seq<char> {
    json_object(seq![json_member("status"@, json_string(status))])
}

/// A failure as a JSON document.
pub open spec fn error_text(code: Seq<char>, message: Seq<char>) -> Seq<char> {
    json_object(
        seq![
            json_member(
                "error"@,
                json_object(
                    seq![
                        json_member("code"@, json_string(code)),
                        json_member("message"@, json_string(message)),
                    ],
                ),
            ),
        ],
    )
}

/// The error of the JSON serializer.
#[verifier::external_type_specification]
#[verifier::external_body]
pub struct ExJsonError(serde_json::Error);

/// Bytes of a module's JSON document.
///
/// Calls `serde_json::to_vec` on an object with the module's fields. It writes the members in the
/// order of their names, no blanks, and integers in decimal; writing such a value to memory does
/// not fail.
#[verifier::external_body]
pub(crate) fn module_json(module: &ModuleInfo) -> (bytes: Result<Vec<u8>, serde_json::Error>)
    ensures
        bytes is Ok,
        bytes->Ok_0@ == encode_utf8(module_text(module@)),
{
    let object = Value::from_iter(
        [("id", Value::from(module.id.as_str())), ("size_bytes", Value::from(module.size_bytes))],
    );
    serde_json::to_vec(&object)
}

/// Bytes of the JSON document of a page of modules.
///
/// Calls `serde_json::to_vec` on an object that holds the modules as an array and the cursor as a
/// string or `null`. It writes the members in the order of their names and no blanks; writing such
/// a value to memory does not fail.
#[verifier::external_body]
pub(crate) fn module_page_json(items: &Vec<ModuleInfo>, next_cursor: &Option<String>) -> (bytes:
    Result<Vec<u8>, serde_json::Error>)
    ensures
        bytes is Ok,
        bytes->Ok_0@ == encode_utf8(
            module_page_text(seq_view(items@), option_view(*next_cursor)),
        ),
{
    let rows: Vec<Value> = items.iter().map(
        |module|
            Value::from_iter(
                [
                    ("id", Value::from(module.id.as_str())),
                    ("size_bytes", Value::from(module.size_bytes)),
                ],
            ),
    ).collect();
    let cursor = Value::from(next_cursor.clone());
    serde_json::to_vec(&Value::from_iter([("items", Value::from(rows)), ("next_cursor", cursor)]))
}

/// Bytes of the JSON document of a page of peers.
///
/// Calls `serde_json::to_vec` on an object that holds the peers as an array and the cursor as a
/// string or `null`. It writes the members in the order of their names and no blanks; writing such
/// a value to memory does not fail.
#[verifier::external_body]
pub(crate) fn peer_page_json(items: &Vec<PeerInfo>, next_cursor: &Option<String>) -> (bytes: Result<
    Vec<u8>,
    serde_json::Error,
>)
    ensures
        bytes is Ok,
        bytes->Ok_0@ == encode_utf8(
            peer_page_text(seq_view(items@), option_view(*next_cursor)),
        ),
{
    let rows: Vec<Value> = items.iter().map(
        |peer|
            Value::from_iter(
                [("address", peer.address.as_str()), ("node_id", peer.node_id.as_str())],
            ),
    ).collect();
    let cursor = Value::from(next_cursor.clone());
    serde_json::to_vec(&Value::from_iter([("items", Value::from(rows)), ("next_cursor", cursor)]))
}

/// Bytes of the JSON document of a page of keys.
///
/// Calls `serde_json::to_vec` on an object that holds the keys' texts as an array of strings and
/// the cursor as a string or `null`. It writes the members in the order of their names and no
/// blanks; writing such a value to memory does not fail.
#[verifier::external_body]
pub(crate) fn key_page_json(items: &Vec<String>, next_cursor: &Option<String>) -> (bytes: Result<
    Vec<u8>,
    serde_json::Error,
>)
    ensures
        bytes is Ok,
        bytes->Ok_0@ == encode_utf8(
            key_page_text(seq_view(items@), option_view(*next_cursor)),
        ),
{
    let rows = Value::from(items.clone());
    let cursor = Value::from(next_cursor.clone());
    serde_json::to_vec(&Value::from_iter([("items", rows), ("next_cursor", cursor)]))
}

/// Bytes of the JSON document of a probe's answer.
///
/// Calls `serde_json::to_vec` on an object with one string member, and does not fail on it.
#[verifier::external_body]
pub(crate) fn probe_json(status: &str) -> (bytes: Result<Vec<u8>, serde_json::Error>)
    ensures
        bytes is Ok,
        bytes->Ok_0@ == encode_utf8(probe_text(status@)),
{
    serde_json::to_vec(&Value::from_iter([("status", status)]))
}

/// Bytes of the JSON document of a failure.
///
/// Calls `serde_json::to_vec` on an object whose one member is an object with two string members,
/// written in the order of their names, and does not fail on it.
#[verifier::external_body]
pub(crate) fn error_json(code: &str, message: &str) -> (bytes: Result<Vec<u8>, serde_json::Error>)
    ensures
        bytes is Ok,
        bytes->Ok_0@ == encode_utf8(error_text(code@, message@)),
{
    let failure = Value::from_iter([("code", code), ("message", message)]);
    serde_json::to_vec(&Value::from_iter([("error", failure)]))
}

/// Escaping makes at most six characters of one.
pub proof fn lemma_json_string_len(text: Seq<char>)
    ensures
        json_string(text).len() <= 6 * text.len() + 2,
{
    lemma_json_chars_len(text);
}

proof fn lemma_json_chars_len(text: Seq<char>)
    ensures
        json_chars(text).len() <= 6 * text.len(),
    decreases text.len(),
{
    if text.len() != 0 {
        lemma_json_chars_len(text.drop_last());
    }
}

/// The length of an object with one member.
pub proof fn lemma_object_of_one_len(member: Seq<char>)
    ensures
        json_object(seq![member]).len() == member.len() + 2,
{
}

/// The length of an object with two members.
pub proof fn lemma_object_of_two_len(first: Seq<char>, second: Seq<char>)
    ensures
        json_object(seq![first, second]).len() == first.len() + second.len() + 3,
{
    let members = seq![first, second];
    assert(members.drop_last() =~= seq![first]);
    assert(json_joined(seq![first]) == first);
}

/// A bound on the length of the document of a failure.
pub proof fn lemma_error_text_len(code: Seq<char>, message: Seq<char>)
    ensures
        error_text(code, message).len() <= 6 * code.len() + 6 * message.len() + 200,
{
    reveal_strlit("error");
    reveal_strlit("code");
    reveal_strlit("message");
    lemma_json_string_len(code);
    lemma_json_string_len(message);
    lemma_json_string_len("error"@);
    lemma_json_string_len("code"@);
    lemma_json_string_len("message"@);
    let code_member = json_member("code"@, json_string(code));
    let message_member = json_member("message"@, json_string(message));
    lemma_object_of_two_len(code_member, message_member);
    lemma_object_of_one_len(json_member("error"@, json_object(seq![code_member, message_member])));
}

/// A bound on the length of the document of a probe's answer.
pub proof fn lemma_probe_text_len(status: Seq<char>)
    ensures
        probe_text(status).len() <= 6 * status.len() + 100,
{
    reveal_strlit("status");
    lemma_json_string_len(status);
    lemma_json_string_len("status"@);
    lemma_object_of_one_len(json_member("status"@, json_string(status)));
}

/// A bound on the length of the document of a page, but for its items.
pub proof fn lemma_page_text_len(items: Seq<Seq<char>>, next_cursor: Option<Seq<char>>)
    ensures
        page_text(items, next_cursor).len() <= json_joined(items).len() + 200 + 6 * (
        match next_cursor {
            Some(cursor) => cursor.len(),
            None => 0,
        }),
{
    reveal_strlit("items");
    reveal_strlit("next_cursor");
    reveal_strlit("null");
    lemma_json_string_len("items"@);
    lemma_json_string_len("next_cursor"@);
    if let Some(cursor) = next_cursor {
        lemma_json_string_len(cursor);
    }
    lemma_object_of_two_len(
        json_member("items"@, json_array(items)),
        json_member("next_cursor"@, json_optional(next_cursor)),
    );
}

/// The least number of more than `digits` decimal digits.
spec fn ten_to(digits: nat) -> nat
    decreases digits,
{
    if digits == 0 {
        1
    } else {
        10 * ten_to((digits - 1) as nat)
    }
}

proof fn lemma_json_number_len(n: nat, digits: nat)
    requires
        1 <= digits,
        n < ten_to(digits),
    ensures
        json_number(n).len() <= digits,
    decreases digits,
{
    if n >= 10 {
        reveal_with_fuel(ten_to, 2);
        assert(digits >= 2);
        lemma_json_number_len(n / 10, (digits - 1) as nat);
    }
}

/// A bound on the length of a module's document.
pub proof fn lemma_module_text_len(module: ModuleInfoView)
    ensures
        module_text(module).len() <= 6 * module.id.len() + 200,
{
    reveal_strlit("id");
    reveal_strlit("size_bytes");
    lemma_json_string_len("id"@);
    lemma_json_string_len("size_bytes"@);
    lemma_json_string_len(module.id);
    assert(module.size_bytes < ten_to(20)) by {
        reveal_with_fuel(ten_to, 21);
    }
    lemma_json_number_len(module.size_bytes as nat, 20);
    lemma_object_of_two_len(
        json_member("id"@, json_string(module.id)),
        json_member("size_bytes"@, json_number(module.size_bytes as nat)),
    );
}

/// A bound on the length of joined documents, each of at most `longest` characters.
pub proof fn lemma_json_joined_len(items: Seq<Seq<char>>, longest: nat)
    requires
        forall|i: int| 0 <= i < items.len() ==> (#[trigger] items[i]).len() <= longest,
    ensures
        json_joined(items).len() <= items.len() * (longest + 1),
    decreases items.len(),
{
    if items.len() > 1 {
        let rest = items.drop_last();
        assert forall|i: int| 0 <= i < rest.len() implies (#[trigger] rest[i]).len() <= longest by {
            assert(rest[i] == items[i]);
        }
        lemma_json_joined_len(rest, longest);
        assert((items.len() - 1) * (longest + 1) + (longest + 1) == items.len() * (longest + 1))
            by (nonlinear_arith);
    } else if items.len() == 1 {
        assert(items[0].len() <= longest);
    }
}

/// Joined documents begin with the first of them.
proof fn lemma_json_joined_begins(items: Seq<Seq<char>>) -> (rest: Seq<char>)
    requires
        items.len() >= 1,
    ensures
        json_joined(items) == items[0] + rest,
    decreases items.len(),
{
    if items.len() == 1 {
        assert(items[0] =~= items[0] + Seq::empty());
        Seq::empty()
    } else {
        let rest = lemma_json_joined_begins(items.drop_last());
        let more = rest + seq![','] + items.last();
        assert(items[0] + rest + seq![','] + items.last() =~= items[0] + more);
        more
    }
}

/// The document of a page takes at least the bytes of its first item.
pub proof fn lemma_page_holds_first_item(items: Seq<Seq<char>>, next_cursor: Option<Seq<char>>)
    requires
        items.len() >= 1,
    ensures
        encode_utf8(page_text(items, next_cursor)).len() >= encode_utf8(items[0]).len(),
{
    let rest = lemma_json_joined_begins(items);
    let first = json_member("items"@, json_array(items));
    let second = json_member("next_cursor"@, json_optional(next_cursor));
    assert(seq![first, second].drop_last() =~= seq![first]);
    assert(json_joined(seq![first]) == first);
    assert(json_joined(seq![first, second]) == first + seq![','] + second);
    let before = seq!['{'] + json_string("items"@) + seq![':'] + seq!['['];
    let after = rest + seq![']'] + seq![','] + second + seq!['}'];
    assert(page_text(items, next_cursor) =~= before + (items[0] + after));
    lemma_encode_concat(before, items[0] + after);
    lemma_encode_concat(items[0], after);
}

} // verus!
