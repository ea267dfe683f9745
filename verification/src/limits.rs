//! How long replies are, and that listings make progress.

use crate::base64url::lemma_base64url_shape;
use crate::control::{ControlErrorView, ControlPageView, ModuleInfoView, PeerInfoView};
use crate::json::{
    error_text, json_joined, json_string, key_page_text, lemma_error_text_len,
    lemma_json_joined_len, lemma_json_string_len, lemma_module_text_len,
    lemma_page_holds_first_item, lemma_page_text_len, lemma_probe_text_len, module_page_text,
    module_text, page_text, peer_text, probe_text,
};
use crate::paging::shows_something;
use crate::reply::{
    control_error_view, error_view, health_view, internal_error_view, invalid_request_view,
    json_view, key_cursor_text, key_page_document, key_page_view, key_texts, keys_that_fit,
    method_not_allowed_view, module_page_view, not_found_view, oversized_key,
    payload_too_large_view, peer_cursor_text, peer_page_document, peer_page_view, peers_that_fit,
    ready_view, unsupported_media_type_view, within_limit, MAX_RESPONSE_BODY_SIZE,
};
use crate::request::{cursor_text, key_text, module_id_form, MAX_KEY_SIZE, MAX_PAGE_SIZE};
use crate::text::{lemma_encode_at_least, lemma_encode_len};
use vstd::prelude::*;
use vstd::utf8::*;

verus! {

proof fn lemma_short_error(status: u16, code: Seq<char>, message: Seq<char>)
    requires
        code.len() <= 100,
        message.len() <= 100,
    ensures
        within_limit(error_view(status, code, message)),
{
    lemma_error_text_len(code, message);
    lemma_encode_len(error_text(code, message));
}

/// Every reply that refuses a request is within the limit.
pub proof fn lemma_refusals_within_limit()
    ensures
        within_limit(invalid_request_view()),
        within_limit(internal_error_view()),
        within_limit(not_found_view()),
        within_limit(method_not_allowed_view()),
        within_limit(unsupported_media_type_view()),
        within_limit(payload_too_large_view()),
        forall|error: ControlErrorView| within_limit(#[trigger] control_error_view(error)),
{
    reveal_strlit("invalid_request");
    reveal_strlit("invalid request");
    reveal_strlit("internal_error");
    reveal_strlit("internal server error");
    reveal_strlit("not_found");
    reveal_strlit("resource not found");
    reveal_strlit("module not found");
    reveal_strlit("key not found");
    reveal_strlit("method not allowed");
    reveal_strlit("unsupported_media_type");
    reveal_strlit("content type must be application/wasm");
    reveal_strlit("payload_too_large");
    reveal_strlit("request body too large");
    reveal_strlit("module_invalid");
    reveal_strlit("invalid WebAssembly module");
    reveal_strlit("module_execution_failed");
    reveal_strlit("module execution failed");
    lemma_short_error(400, "invalid_request"@, "invalid request"@);
    lemma_short_error(500, "internal_error"@, "internal server error"@);
    lemma_short_error(404, "not_found"@, "resource not found"@);
    lemma_short_error(404, "not_found"@, "module not found"@);
    lemma_short_error(404, "not_found"@, "key not found"@);
    lemma_short_error(405, "invalid_request"@, "method not allowed"@);
    lemma_short_error(
        415,
        "unsupported_media_type"@,
        "content type must be application/wasm"@,
    );
    lemma_short_error(413, "payload_too_large"@, "request body too large"@);
    lemma_short_error(422, "module_invalid"@, "invalid WebAssembly module"@);
    lemma_short_error(422, "module_execution_failed"@, "module execution failed"@);
}

/// Every reply to a probe is within the limit.
pub proof fn lemma_probes_within_limit(up: bool)
    ensures
        within_limit(health_view(up)),
        within_limit(ready_view(up)),
{
    lemma_refusals_within_limit();
    reveal_strlit("healthy");
    reveal_strlit("ready");
    reveal_strlit("not_ready");
    reveal_strlit("node is not ready");
    lemma_probe_text_len("healthy"@);
    lemma_encode_len(probe_text("healthy"@));
    lemma_probe_text_len("ready"@);
    lemma_encode_len(probe_text("ready"@));
    lemma_short_error(503, "not_ready"@, "node is not ready"@);
}

/// No longer page of the keys fits.
pub proof fn lemma_fit_is_longest_for_keys(
    texts: Seq<Seq<char>>,
    next_cursor: Option<Seq<char>>,
    most: nat,
)
    ensures
        match keys_that_fit(texts, next_cursor, most) {
            Some(count) => count <= most && key_page_document(texts, next_cursor, count).len()
                <= MAX_RESPONSE_BODY_SIZE && forall|more: nat|
                count < more <= most ==> (#[trigger] key_page_document(
                    texts,
                    next_cursor,
                    more,
                )).len() > MAX_RESPONSE_BODY_SIZE,
            None => forall|count: nat|
                count <= most ==> (#[trigger] key_page_document(texts, next_cursor, count)).len()
                    > MAX_RESPONSE_BODY_SIZE,
        },
    decreases most,
{
    if key_page_document(texts, next_cursor, most).len() > MAX_RESPONSE_BODY_SIZE && most != 0 {
        lemma_fit_is_longest_for_keys(texts, next_cursor, (most - 1) as nat);
    }
}

/// No longer page of the peers fits.
pub proof fn lemma_fit_is_longest_for_peers(
    peers: Seq<PeerInfoView>,
    next_cursor: Option<Seq<char>>,
    most: nat,
)
    ensures
        match peers_that_fit(peers, next_cursor, most) {
            Some(count) => count <= most && (most > 0 ==> count > 0) && peer_page_document(
                peers,
                next_cursor,
                count,
            ).len() <= MAX_RESPONSE_BODY_SIZE && forall|more: nat|
                count < more <= most ==> (#[trigger] peer_page_document(
                    peers,
                    next_cursor,
                    more,
                )).len() > MAX_RESPONSE_BODY_SIZE,
            None => forall|count: nat|
                1 <= count <= most || count == most ==> (#[trigger] peer_page_document(
                    peers,
                    next_cursor,
                    count,
                )).len() > MAX_RESPONSE_BODY_SIZE,
        },
    decreases most,
{
    if peer_page_document(peers, next_cursor, most).len() > MAX_RESPONSE_BODY_SIZE && most > 1 {
        lemma_fit_is_longest_for_peers(peers, next_cursor, (most - 1) as nat);
    }
}

/// Every reply to a key or peer listing is within the limit, whatever the node lists.
pub proof fn lemma_bounded_pages_within_limit(
    keys: Seq<Seq<u8>>,
    peers: Seq<PeerInfoView>,
    next_cursor: Option<Seq<u8>>,
)
    ensures
        within_limit(key_page_view(keys, next_cursor)),
        within_limit(peer_page_view(peers, next_cursor)),
{
    lemma_refusals_within_limit();
    lemma_fit_is_longest_for_keys(key_texts(keys), key_cursor_text(next_cursor), keys.len());
    lemma_fit_is_longest_for_peers(peers, cursor_text(next_cursor), peers.len());
}

proof fn lemma_key_text_len(key: Seq<u8>)
    requires
        key.len() <= MAX_KEY_SIZE,
    ensures
        key_text(key).len() <= 10923,
{
    reveal_strlit("~");
    lemma_base64url_shape(key);
}

/// A page of one key and its own cursor is never too long.
proof fn lemma_one_key_fits(texts: Seq<Seq<char>>, next_cursor: Option<Seq<char>>)
    requires
        texts.len() >= 1,
        texts[0].len() <= 10923,
        match next_cursor {
            Some(cursor) => texts.len() == 1 ==> cursor.len() <= 10923,
            None => true,
        },
    ensures
        key_page_document(texts, next_cursor, 1).len() <= MAX_RESPONSE_BODY_SIZE,
{
    let shown = texts.take(1);
    let cursor = if texts.len() == 1 {
        next_cursor
    } else {
        Some(texts[0])
    };
    let items = shown.map_values(|key: Seq<char>| json_string(key));
    assert(items[0] == json_string(texts[0]));
    assert(json_joined(items) == items[0]);
    lemma_json_string_len(texts[0]);
    lemma_page_text_len(items, cursor);
    lemma_encode_len(key_page_text(shown, cursor));
}

/// How many keys the reply to a key listing shows of a page, where it succeeds: the most that fit.
/// A page that is answered with a failure counts whole.
pub open spec fn keys_shown() -> spec_fn(ControlPageView<Seq<u8>>) -> nat {
    |page: ControlPageView<Seq<u8>>|
        match keys_that_fit(
            key_texts(page.items),
            key_cursor_text(page.next_cursor),
            page.items.len(),
        ) {
            Some(count) => if count > 0 {
                count
            } else {
                page.items.len()
            },
            None => page.items.len(),
        }
}

/// How many peers the reply to a peer listing shows of a page, where it succeeds: the most that
/// fit. A page that is answered with a failure counts whole.
pub open spec fn peers_shown() -> spec_fn(ControlPageView<PeerInfoView>) -> nat {
    |page: ControlPageView<PeerInfoView>|
        match peers_that_fit(page.items, cursor_text(page.next_cursor), page.items.len()) {
            Some(count) => count,
            None => page.items.len(),
        }
}

/// Of a page that has any items at least one counts as shown.
pub proof fn lemma_replies_show_something()
    ensures
        shows_something(keys_shown()),
        shows_something(peers_shown()),
{
    assert forall|page: ControlPageView<Seq<u8>>| page.items.len() > 0 implies 1
        <= #[trigger] keys_shown()(page) <= page.items.len() by {
        lemma_fit_is_longest_for_keys(
            key_texts(page.items),
            key_cursor_text(page.next_cursor),
            page.items.len(),
        );
    }
    assert forall|page: ControlPageView<PeerInfoView>| page.items.len() > 0 implies 1
        <= #[trigger] peers_shown()(page) <= page.items.len() by {
        lemma_fit_is_longest_for_peers(
            page.items,
            cursor_text(page.next_cursor),
            page.items.len(),
        );
    }
}

/// The document of a page without items and without a cursor fits.
pub proof fn lemma_empty_pages_fit()
    ensures
        keys_shown()(ControlPageView { items: Seq::empty(), next_cursor: None }) == 0,
        key_page_view(Seq::empty(), None) == json_view(
            200,
            Seq::empty(),
            key_page_document(Seq::empty(), None, 0),
        ),
        peers_shown()(ControlPageView { items: Seq::empty(), next_cursor: None }) == 0,
        peer_page_view(Seq::empty(), None) == json_view(
            200,
            Seq::empty(),
            peer_page_document(Seq::empty(), None, 0),
        ),
{
    let none = Seq::<Seq<char>>::empty();
    assert(key_texts(Seq::empty()) =~= none);
    assert(none.take(0).map_values(|key: Seq<char>| json_string(key)) =~= none);
    assert(Seq::<PeerInfoView>::empty().take(0).map_values(|peer: PeerInfoView| peer_text(peer))
        =~= none);
    lemma_page_text_len(none, None);
    lemma_encode_len(page_text(none, None));
}

/// A key listing always makes progress: where no key is longer than a key may be and there is one,
/// the reply succeeds, shows at least the first key, shows as many as fit, and resumes after the
/// last one it shows, or, where it shows all, where the node said.
pub proof fn law_key_pages_make_progress(page: ControlPageView<Seq<u8>>)
    requires
        page.items.len() >= 1,
        !oversized_key(page.items),
        match page.next_cursor {
            Some(cursor) => page.items.len() == 1 ==> cursor.len() <= MAX_KEY_SIZE,
            None => true,
        },
    ensures
        1 <= keys_shown()(page) <= page.items.len(),
        key_page_view(page.items, page.next_cursor) == json_view(
            200,
            Seq::empty(),
            key_page_document(
                key_texts(page.items),
                key_cursor_text(page.next_cursor),
                keys_shown()(page),
            ),
        ),
        forall|more: nat|
            keys_shown()(page) < more <= page.items.len() ==> (#[trigger] key_page_document(
                key_texts(page.items),
                key_cursor_text(page.next_cursor),
                more,
            )).len() > MAX_RESPONSE_BODY_SIZE,
{
    let keys = page.items;
    let texts = key_texts(keys);
    let cursor = key_cursor_text(page.next_cursor);
    assert(keys[0].len() <= MAX_KEY_SIZE);
    lemma_key_text_len(keys[0]);
    if keys.len() == 1 && page.next_cursor is Some {
        lemma_key_text_len(page.next_cursor->0);
    }
    lemma_one_key_fits(texts, cursor);
    lemma_fit_is_longest_for_keys(texts, cursor, texts.len());
}

/// A peer listing makes progress, where a page of its first peer fits: the reply succeeds, shows at
/// least that peer, shows as many as fit, and resumes after the last one it shows, or, where it
/// shows all, where the node said.
pub proof fn law_peer_pages_make_progress(page: ControlPageView<PeerInfoView>)
    requires
        page.items.len() >= 1,
        peer_page_document(page.items, cursor_text(page.next_cursor), 1).len()
            <= MAX_RESPONSE_BODY_SIZE,
    ensures
        1 <= peers_shown()(page) <= page.items.len(),
        peer_page_view(page.items, page.next_cursor) == json_view(
            200,
            Seq::empty(),
            peer_page_document(page.items, cursor_text(page.next_cursor), peers_shown()(page)),
        ),
        forall|more: nat|
            peers_shown()(page) < more <= page.items.len() ==> (#[trigger] peer_page_document(
                page.items,
                cursor_text(page.next_cursor),
                more,
            )).len() > MAX_RESPONSE_BODY_SIZE,
{
    lemma_fit_is_longest_for_peers(page.items, cursor_text(page.next_cursor), page.items.len());
}

/// A peer whose own document is longer than a reply may be is a failure, not an oversized reply.
pub proof fn law_oversized_peer_is_a_failure(
    peers: Seq<PeerInfoView>,
    next_cursor: Option<Seq<u8>>,
)
    requires
        peers.len() >= 1,
        encode_utf8(peer_text(peers[0])).len() > MAX_RESPONSE_BODY_SIZE,
    ensures
        peer_page_view(peers, next_cursor) == internal_error_view(),
{
    let cursor = cursor_text(next_cursor);
    lemma_fit_is_longest_for_peers(peers, cursor, peers.len());
    assert forall|count: nat| 1 <= count <= peers.len() implies (#[trigger] peer_page_document(
        peers,
        cursor,
        count,
    )).len() > MAX_RESPONSE_BODY_SIZE by {
        let items = peers.take(count as int).map_values(|peer: PeerInfoView| peer_text(peer));
        assert(items[0] == peer_text(peers[0]));
        let resume = if count == peers.len() {
            cursor
        } else {
            Some(peer_cursor_text(peers[count - 1]))
        };
        lemma_page_holds_first_item(items, resume);
    }
}

/// A module listing of at most a hundred modules, each with an identifier of the form that
/// registration gives, is shown whole.
pub proof fn law_module_pages_are_whole(
    modules: Seq<ModuleInfoView>,
    next_cursor: Option<Seq<u8>>,
)
    requires
        modules.len() <= MAX_PAGE_SIZE,
        forall|i: int|
            0 <= i < modules.len() ==> module_id_form(encode_utf8((#[trigger] modules[i]).id)),
        match next_cursor {
            Some(cursor) => module_id_form(cursor),
            None => true,
        },
    ensures
        module_page_view(modules, next_cursor) == json_view(
            200,
            Seq::empty(),
            encode_utf8(module_page_text(modules, cursor_text(next_cursor))),
        ),
{
    let items = modules.map_values(|module: ModuleInfoView| module_text(module));
    assert forall|i: int| 0 <= i < items.len() implies (#[trigger] items[i]).len() <= 600 by {
        lemma_encode_at_least(modules[i].id);
        lemma_module_text_len(modules[i]);
    }
    lemma_json_joined_len(items, 600);
    assert(items.len() * 601 <= 60100);
    if let Some(cursor) = next_cursor {
        lemma_base64url_shape(cursor);
    }
    lemma_page_text_len(items, cursor_text(next_cursor));
    lemma_encode_len(module_page_text(modules, cursor_text(next_cursor)));
}

} // verus!
