//! How the JSON documents of the management API are written, character by character.

use crate::control::{ModuleInfoView, PeerInfoView};
use crate::json::{
    error_text, json_array, json_char, json_chars, json_joined, json_member, json_number,
    json_object, json_optional, json_string, key_page_text, module_page_text, module_text,
    page_text, peer_page_text, peer_text, probe_text,
};
use vstd::prelude::*;

verus! {

/// The members of a JSON string are written one after the other.
pub proof fn law_strings_are_written_in_turn(first: Seq<char>, second: Seq<char>)
    ensures
        json_chars(first + second) == json_chars(first) + json_chars(second),
        json_chars(Seq::empty()) == Seq::<char>::empty(),
    decreases second.len(),
{
    if second.len() == 0 {
        assert(first + second =~= first);
        assert(json_chars(first) + json_chars(second) =~= json_chars(first));
    } else {
        law_strings_are_written_in_turn(first, second.drop_last());
        assert((first + second).drop_last() =~= first + second.drop_last());
        assert(json_chars(first + second) =~= json_chars(first) + json_chars(second));
    }
}

/// A character that is no quote, no backslash and no control character is written as it is; those
/// are written as their escapes.
pub proof fn law_characters_are_escaped(c: char)
    ensures
        c as int >= 32 && c != '"' && c != '\\' ==> json_chars(seq![c]) == seq![c],
        c == '"' ==> json_chars(seq![c]) == seq!['\\', '"'],
        c == '\\' ==> json_chars(seq![c]) == seq!['\\', '\\'],
        c as int == 8 ==> json_chars(seq![c]) == seq!['\\', 'b'],
        c as int == 9 ==> json_chars(seq![c]) == seq!['\\', 't'],
        c as int == 10 ==> json_chars(seq![c]) == seq!['\\', 'n'],
        c as int == 12 ==> json_chars(seq![c]) == seq!['\\', 'f'],
        c as int == 13 ==> json_chars(seq![c]) == seq!['\\', 'r'],
        (c as int) < 32 && !(8 <= c as int <= 10) && !(12 <= c as int <= 13) ==> json_chars(seq![c])
            == seq![
            '\\',
            'u',
            '0',
            '0',
            "0123456789abcdef"@[c as int / 16],
            "0123456789abcdef"@[c as int % 16],
        ],
{
    reveal_strlit("0123456789abcdef");
    assert(seq![c].drop_last() =~= Seq::empty());
    reveal_with_fuel(json_chars, 2);
    assert(json_chars(seq![c]) =~= json_char(c));
}

/// A JSON string stands between quotes.
pub proof fn law_strings_are_quoted(text: Seq<char>)
    ensures
        json_string(text) == "\""@ + json_chars(text) + "\""@,
        json_optional(Some(text)) == json_string(text),
        json_optional(None) == "null"@,
{
    reveal_strlit("\"");
    assert("\""@ =~= seq!['"']);
}

/// A text without characters to escape is written as it is.
pub proof fn lemma_plain(text: Seq<char>)
    requires
        forall|i: int|
            0 <= i < text.len() ==> (#[trigger] text[i]) as int >= 32 && text[i] != '"' && text[i]
                != '\\',
    ensures
        json_chars(text) == text,
    decreases text.len(),
{
    if text.len() > 0 {
        let c = text[text.len() - 1];
        assert(json_char(c) =~= seq![c]);
        lemma_plain(text.drop_last());
        assert(text =~= text.drop_last() + seq![c]);
    } else {
        assert(text =~= Seq::empty());
    }
}

/// The value of decimal digits.
pub open spec fn decimal(text: Seq<char>) -> nat
    decreases text.len(),
{
    if text.len() == 0 {
        0
    } else {
        decimal(text.drop_last()) * 10 + (text.last() as int - '0' as int) as nat
    }
}

/// A number is written in decimal digits, without a leading zero unless it is zero.
pub proof fn law_numbers_are_decimal(n: nat)
    ensures
        json_number(n).len() > 0,
        forall|i: int|
            0 <= i < json_number(n).len() ==> '0' <= #[trigger] json_number(n)[i] <= '9',
        decimal(json_number(n)) == n,
        n > 0 ==> json_number(n)[0] != '0',
    decreases n,
{
    let text = json_number(n);
    if n < 10 {
        assert(text.drop_last() =~= Seq::empty());
        assert(decimal(text.drop_last()) == 0);
    } else {
        law_numbers_are_decimal(n / 10);
        assert(text.drop_last() =~= json_number(n / 10));
        assert forall|i: int| 0 <= i < text.len() implies '0' <= #[trigger] text[i] <= '9' by {
            if i < json_number(n / 10).len() {
                assert(text[i] == json_number(n / 10)[i]);
            }
        }
        assert(text[0] == json_number(n / 10)[0]);
    }
}

/// Documents are joined in their order, with a comma between two of them.
pub proof fn law_items_are_joined_by_commas(items: Seq<Seq<char>>, item: Seq<char>)
    ensures
        json_joined(Seq::empty()) == Seq::<char>::empty(),
        json_joined(items.push(item)) == (if items.len() == 0 {
            item
        } else {
            json_joined(items) + ","@ + item
        }),
{
    reveal_strlit(",");
    assert(","@ =~= seq![',']);
    assert(items.push(item).drop_last() =~= items);
}

/// An object of two members.
proof fn lemma_two_members(first: Seq<char>, second: Seq<char>)
    ensures
        json_object(seq![first, second]) == seq!['{'] + first + seq![','] + second + seq!['}'],
{
    assert(seq![first, second].drop_last() =~= seq![first]);
    assert(json_joined(seq![first]) == first);
    assert(json_object(seq![first, second]) =~= seq!['{'] + first + seq![','] + second + seq!['}']);
}

/// A module's document holds its identifier and its size.
pub proof fn law_module_document(module: ModuleInfoView)
    ensures
        module_text(module) == "{\"id\":"@ + json_string(module.id) + ",\"size_bytes\":"@
            + json_number(module.size_bytes as nat) + "}"@,
{
    reveal_strlit("id");
    reveal_strlit("size_bytes");
    reveal_strlit("{\"id\":");
    reveal_strlit(",\"size_bytes\":");
    reveal_strlit("}");
    lemma_plain("id"@);
    lemma_plain("size_bytes"@);
    lemma_two_members(
        json_member("id"@, json_string(module.id)),
        json_member("size_bytes"@, json_number(module.size_bytes as nat)),
    );
    assert(module_text(module) =~= "{\"id\":"@ + json_string(module.id) + ",\"size_bytes\":"@
        + json_number(module.size_bytes as nat) + "}"@);
}

/// A peer's document holds its address and its node's identifier.
pub proof fn law_peer_document(peer: PeerInfoView)
    ensures
        peer_text(peer) == "{\"address\":"@ + json_string(peer.address) + ",\"node_id\":"@
            + json_string(peer.node_id) + "}"@,
{
    reveal_strlit("address");
    reveal_strlit("node_id");
    reveal_strlit("{\"address\":");
    reveal_strlit(",\"node_id\":");
    reveal_strlit("}");
    lemma_plain("address"@);
    lemma_plain("node_id"@);
    lemma_two_members(
        json_member("address"@, json_string(peer.address)),
        json_member("node_id"@, json_string(peer.node_id)),
    );
    assert(peer_text(peer) =~= "{\"address\":"@ + json_string(peer.address) + ",\"node_id\":"@
        + json_string(peer.node_id) + "}"@);
}

/// A page's document holds its items and its cursor.
pub open spec fn page_written(items: Seq<Seq<char>>, next_cursor: Option<Seq<char>>) -> Seq<char> {
    "{\"items\":["@ + json_joined(items) + "],\"next_cursor\":"@ + json_optional(next_cursor) + "}"@
}

/// A page's document holds the documents of its items, each in its place, and its cursor or `null`.
pub proof fn law_page_documents(
    items: Seq<Seq<char>>,
    modules: Seq<ModuleInfoView>,
    peers: Seq<PeerInfoView>,
    next_cursor: Option<Seq<char>>,
)
    ensures
        page_text(items, next_cursor) == page_written(items, next_cursor),
        module_page_text(modules, next_cursor) == page_written(
            Seq::new(modules.len(), |i: int| module_text(modules[i])),
            next_cursor,
        ),
        peer_page_text(peers, next_cursor) == page_written(
            Seq::new(peers.len(), |i: int| peer_text(peers[i])),
            next_cursor,
        ),
        key_page_text(items, next_cursor) == page_written(
            Seq::new(items.len(), |i: int| json_string(items[i])),
            next_cursor,
        ),
{
    lemma_page(items, next_cursor);
    let shown = Seq::new(modules.len(), |i: int| module_text(modules[i]));
    assert(modules.map_values(|module: ModuleInfoView| module_text(module)) =~= shown);
    lemma_page(shown, next_cursor);
    let shown = Seq::new(peers.len(), |i: int| peer_text(peers[i]));
    assert(peers.map_values(|peer: PeerInfoView| peer_text(peer)) =~= shown);
    lemma_page(shown, next_cursor);
    let shown = Seq::new(items.len(), |i: int| json_string(items[i]));
    assert(items.map_values(|key: Seq<char>| json_string(key)) =~= shown);
    lemma_page(shown, next_cursor);
}

proof fn lemma_page(items: Seq<Seq<char>>, next_cursor: Option<Seq<char>>)
    ensures
        page_text(items, next_cursor) == page_written(items, next_cursor),
{
    reveal_strlit("items");
    reveal_strlit("next_cursor");
    reveal_strlit("{\"items\":[");
    reveal_strlit("],\"next_cursor\":");
    reveal_strlit("}");
    lemma_plain("items"@);
    lemma_plain("next_cursor"@);
    lemma_two_members(
        json_member("items"@, json_array(items)),
        json_member("next_cursor"@, json_optional(next_cursor)),
    );
    assert(page_text(items, next_cursor) =~= page_written(items, next_cursor));
}

/// The document of a probe holds its status, and that of a failure its code and its message.
pub proof fn law_probe_and_failure_documents(
    status: Seq<char>,
    code: Seq<char>,
    message: Seq<char>,
)
    ensures
        probe_text(status) == "{\"status\":"@ + json_string(status) + "}"@,
        error_text(code, message) == "{\"error\":{\"code\":"@ + json_string(code)
            + ",\"message\":"@ + json_string(message) + "}}"@,
{
    reveal_strlit("status");
    reveal_strlit("error");
    reveal_strlit("code");
    reveal_strlit("message");
    reveal_strlit("{\"status\":");
    reveal_strlit("{\"error\":{\"code\":");
    reveal_strlit(",\"message\":");
    reveal_strlit("}");
    reveal_strlit("}}");
    lemma_plain("status"@);
    lemma_plain("error"@);
    lemma_plain("code"@);
    lemma_plain("message"@);
    assert(probe_text(status) =~= "{\"status\":"@ + json_string(status) + "}"@);
    lemma_two_members(
        json_member("code"@, json_string(code)),
        json_member("message"@, json_string(message)),
    );
    assert(error_text(code, message) =~= "{\"error\":{\"code\":"@ + json_string(code)
        + ",\"message\":"@ + json_string(message) + "}}"@);
}

} // verus!
