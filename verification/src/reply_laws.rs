//! What each outcome is answered, in terms of what the node says.

use crate::base64url::base64url;
use crate::control::{
    outcome_view, ControlError, ControlPage, ModuleInfo, ModuleRegistration, PeerInfo,
    PeerInfoView,
};
use crate::json::{json_string, module_text, peer_text};
use crate::json_laws::{
    law_page_documents, law_probe_and_failure_documents, lemma_plain, page_written,
};
use crate::limits::{lemma_fit_is_longest_for_keys, lemma_fit_is_longest_for_peers};
use crate::reply::{
    bounded_key_page, bounded_module_page, bounded_peer_page, control_error_response,
    control_error_view, done_reply, error_response, health_reply, internal_error,
    internal_error_view, invalid_request, key_cursor_text, key_list_reply,
    key_page_document, key_texts, keys_that_fit, method_not_allowed, module_list_reply,
    module_reply, not_found, oversized_key, payload_too_large_response, peer_list_reply,
    peer_page_document, peers_that_fit, ready_reply, registration_reply,
    unsupported_media_type_response, value_reply, Reply, ReplyView,
};
use crate::request::cursor_text;
use crate::views::{option_view, seq_view};
use vstd::prelude::*;
use vstd::utf8::*;

verus! {

/// `reply` has this status, the content type of JSON and then these headers, and this document.
pub open spec fn answers(
    reply: ReplyView,
    status: u16,
    headers: Seq<(Seq<char>, Seq<char>)>,
    document: Seq<char>,
) -> bool {
    &&& reply.status == status
    &&& reply.headers == seq![("content-type"@, "application/json"@)] + headers
    &&& reply.body == encode_utf8(document)
}

/// `reply` has this status and reports a failure with this code and this message, and nothing else.
pub open spec fn fails(
    reply: ReplyView,
    status: u16,
    code: Seq<char>,
    message: Seq<char>,
) -> bool {
    answers(
        reply,
        status,
        Seq::empty(),
        "{\"error\":{\"code\":"@ + json_string(code) + ",\"message\":"@ + json_string(message)
            + "}}"@,
    )
}

/// `reply` says that the node failed, and no more.
pub open spec fn fails_internally(reply: ReplyView) -> bool {
    fails(reply, 500, "internal_error"@, "internal server error"@)
}

/// A failure is answered with its status, its code and its message.
pub proof fn law_failure_is_answered(status: u16, code: &str, message: &str, reply: Reply)
    requires
        call_ensures(error_response, (status, code, message), reply),
    ensures
        fails(reply@, status, code@, message@),
{
    law_probe_and_failure_documents(Seq::empty(), code@, message@);
}

/// What is answered to an error: its kind decides alone, and what a storage or an internal error
/// says is not told.
pub open spec fn error_answered(error: ControlError, reply: ReplyView) -> bool {
    match error {
        ControlError::InvalidCursor => fails(reply, 400, "invalid_request"@, "invalid request"@),
        ControlError::ModuleNotFound => fails(reply, 404, "not_found"@, "module not found"@),
        ControlError::KeyNotFound => fails(reply, 404, "not_found"@, "key not found"@),
        ControlError::InvalidModule(_) => fails(
            reply,
            422,
            "module_invalid"@,
            "invalid WebAssembly module"@,
        ),
        ControlError::ModuleExecutionFailed(_) => fails(
            reply,
            422,
            "module_execution_failed"@,
            "module execution failed"@,
        ),
        ControlError::Storage(_) => fails_internally(reply),
        ControlError::Internal(_) => fails_internally(reply),
    }
}

proof fn lemma_error_answered(error: ControlError)
    ensures
        error_answered(error, control_error_view(error@)),
        fails_internally(internal_error_view()),
{
    law_probe_and_failure_documents(Seq::empty(), "invalid_request"@, "invalid request"@);
    law_probe_and_failure_documents(Seq::empty(), "not_found"@, "module not found"@);
    law_probe_and_failure_documents(Seq::empty(), "not_found"@, "key not found"@);
    law_probe_and_failure_documents(Seq::empty(), "module_invalid"@, "invalid WebAssembly module"@);
    law_probe_and_failure_documents(
        Seq::empty(),
        "module_execution_failed"@,
        "module execution failed"@,
    );
    law_probe_and_failure_documents(Seq::empty(), "internal_error"@, "internal server error"@);
}

/// An error is answered by its kind, and alike whatever the request was.
pub proof fn law_errors_are_answered_by_their_kind(
    error: ControlError,
    reply: Reply,
    registration: Reply,
    module: Reply,
    done: Reply,
    modules: Reply,
    peers: Reply,
    keys: Reply,
    text: &str,
    value: Reply,
)
    requires
        call_ensures(control_error_response, (error,), reply),
        call_ensures(registration_reply, (Err(error),), registration),
        call_ensures(module_reply, (Err(error),), module),
        call_ensures(done_reply, (Err(error),), done),
        call_ensures(module_list_reply, (Err(error),), modules),
        call_ensures(peer_list_reply, (Err(error),), peers),
        call_ensures(key_list_reply, (Err(error),), keys),
        call_ensures(value_reply, (text, Err(error)), value),
    ensures
        error_answered(error, reply@),
        error_answered(error, registration@),
        error_answered(error, module@),
        error_answered(error, done@),
        error_answered(error, modules@),
        error_answered(error, peers@),
        error_answered(error, keys@),
        error_answered(error, value@),
{
    lemma_error_answered(error);
    assert(outcome_view(Err::<ModuleRegistration, _>(error)) is Err);
    assert(outcome_view(Err::<ModuleInfo, _>(error)) is Err);
    assert(outcome_view(Err::<(), _>(error)) is Err);
    assert(outcome_view(Err::<ControlPage<ModuleInfo>, _>(error)) is Err);
    assert(outcome_view(Err::<ControlPage<PeerInfo>, _>(error)) is Err);
    assert(outcome_view(Err::<ControlPage<Vec<u8>>, _>(error)) is Err);
    assert(outcome_view(Err::<Vec<u8>, _>(error)) is Err);
}

/// Each refusal has its status, its code and its message.
pub proof fn law_refusals_are_answered(
    malformed: Reply,
    failed: Reply,
    unserved: Reply,
    method: Reply,
    media: Reply,
    large: Reply,
)
    requires
        call_ensures(invalid_request, (), malformed),
        call_ensures(internal_error, (), failed),
        call_ensures(not_found, (), unserved),
        call_ensures(method_not_allowed, (), method),
        call_ensures(unsupported_media_type_response, (), media),
        call_ensures(payload_too_large_response, (), large),
    ensures
        fails(malformed@, 400, "invalid_request"@, "invalid request"@),
        fails_internally(failed@),
        fails(unserved@, 404, "not_found"@, "resource not found"@),
        fails(method@, 405, "invalid_request"@, "method not allowed"@),
        fails(
            media@,
            415,
            "unsupported_media_type"@,
            "content type must be application/wasm"@,
        ),
        fails(large@, 413, "payload_too_large"@, "request body too large"@),
{
    lemma_error_answered(ControlError::InvalidCursor);
    law_probe_and_failure_documents(Seq::empty(), "not_found"@, "resource not found"@);
    law_probe_and_failure_documents(Seq::empty(), "invalid_request"@, "method not allowed"@);
    law_probe_and_failure_documents(
        Seq::empty(),
        "unsupported_media_type"@,
        "content type must be application/wasm"@,
    );
    law_probe_and_failure_documents(Seq::empty(), "payload_too_large"@, "request body too large"@);
}

/// A module is answered with its document, where that does not take more than 1048576 bytes; a new
/// one is answered as created, under its path.
pub proof fn law_module_is_answered_with_its_document(
    module: ModuleInfo,
    created: bool,
    registration: Reply,
    shown: Reply,
)
    requires
        call_ensures(registration_reply, (Ok(ModuleRegistration { module, created }),), registration),
        call_ensures(module_reply, (Ok(module),), shown),
    ensures
        encode_utf8(module_text(module@)).len() > 1048576 ==> fails_internally(registration@)
            && fails_internally(shown@),
        encode_utf8(module_text(module@)).len() <= 1048576 ==> answers(
            shown@,
            200,
            Seq::empty(),
            module_text(module@),
        ),
        encode_utf8(module_text(module@)).len() <= 1048576 && created ==> answers(
            registration@,
            201,
            seq![("location"@, "/api/v1/modules/"@ + module.id@)],
            module_text(module@),
        ),
        encode_utf8(module_text(module@)).len() <= 1048576 && !created ==> answers(
            registration@,
            200,
            Seq::empty(),
            module_text(module@),
        ),
{
    lemma_error_answered(ControlError::InvalidCursor);
    let registered = ModuleRegistration { module, created };
    assert(registered@.module == module@);
    assert(outcome_view(Ok::<_, ControlError>(registered))->Ok_0 == registered@);
    assert(outcome_view(Ok::<_, ControlError>(module))->Ok_0 == module@);
}

/// What was done is answered without content.
pub proof fn law_done_is_answered_without_content(done: Reply)
    requires
        call_ensures(done_reply, (Ok(()),), done),
    ensures
        done@.status == 204,
        done@.headers.len() == 0,
        done@.body.len() == 0,
{
    assert(outcome_view(Ok::<(), ControlError>(())) is Ok);
}

/// A value of at most 1048576 bytes is answered as it is, byte for byte, with the key's text; a
/// longer one is a failure.
pub proof fn law_value_is_answered_raw(text: &str, value: Vec<u8>, reply: Reply)
    requires
        call_ensures(value_reply, (text, Ok(value)), reply),
    ensures
        value@.len() <= 1048576 ==> reply@.status == 200 && reply@.body == value@ && reply@.headers
            == seq![("content-type"@, "application/octet-stream"@), ("x-numax-key"@, text@)],
        value@.len() > 1048576 ==> fails_internally(reply@),
{
    lemma_error_answered(ControlError::InvalidCursor);
    assert(outcome_view(Ok::<_, ControlError>(value))->Ok_0 == value@);
}

/// A probe is answered by what the node says of itself.
pub proof fn law_probes_are_answered(up: bool, health: Reply, ready: Reply)
    requires
        call_ensures(health_reply, (up,), health),
        call_ensures(ready_reply, (up,), ready),
    ensures
        up ==> answers(health@, 200, Seq::empty(), "{\"status\":\"healthy\"}"@),
        !up ==> fails_internally(health@),
        up ==> answers(ready@, 200, Seq::empty(), "{\"status\":\"ready\"}"@),
        !up ==> answers(
            ready@,
            503,
            seq![("retry-after"@, "1"@)],
            "{\"error\":{\"code\":"@ + json_string("not_ready"@) + ",\"message\":"@ + json_string(
                "node is not ready"@,
            ) + "}}"@,
        ),
{
    lemma_error_answered(ControlError::InvalidCursor);
    law_probe_and_failure_documents("healthy"@, "not_ready"@, "node is not ready"@);
    law_probe_and_failure_documents("ready"@, "not_ready"@, "node is not ready"@);
    reveal_strlit("healthy");
    reveal_strlit("ready");
    reveal_strlit("{\"status\":");
    reveal_strlit("}");
    reveal_strlit("{\"status\":\"healthy\"}");
    reveal_strlit("{\"status\":\"ready\"}");
    lemma_plain("healthy"@);
    lemma_plain("ready"@);
    assert("{\"status\":"@ + json_string("healthy"@) + "}"@ =~= "{\"status\":\"healthy\"}"@);
    assert("{\"status\":"@ + json_string("ready"@) + "}"@ =~= "{\"status\":\"ready\"}"@);
}

/// A module page is answered with the document of each module in its place and its cursor in
/// Base64URL, where that does not take more than 1048576 bytes.
pub proof fn law_module_page_is_answered(page: ControlPage<ModuleInfo>, reply: Reply)
    requires
        call_ensures(module_list_reply, (Ok(page),), reply),
    ensures
        ({
            let document = page_written(
                Seq::new(page.items@.len(), |i: int| module_text(page.items@[i]@)),
                match page.next_cursor {
                    Some(cursor) => Some(base64url(cursor@)),
                    None => None,
                },
            );
            &&& encode_utf8(document).len() <= 1048576 ==> answers(
                reply@,
                200,
                Seq::empty(),
                document,
            )
            &&& encode_utf8(document).len() > 1048576 ==> fails_internally(reply@)
        }),
{
    lemma_error_answered(ControlError::InvalidCursor);
    let modules = seq_view(page.items@);
    assert(page@.items == modules);
    let cursor = cursor_text(page@.next_cursor);
    law_page_documents(Seq::empty(), modules, Seq::empty(), cursor);
    assert(Seq::new(page.items@.len(), |i: int| module_text(page.items@[i]@)) =~= Seq::new(
        modules.len(),
        |i: int| module_text(modules[i]),
    ));
    assert(outcome_view(Ok::<_, ControlError>(page))->Ok_0 == page@);
}

/// The text that a reply shows of a key.
pub open spec fn shown_key(key: Seq<u8>) -> Seq<char> {
    if key.len() == 0 {
        "~"@
    } else {
        base64url(key)
    }
}

/// The document of a page of the first `count` of `keys`: the text of each in its place, and as
/// cursor the last text shown, or, where all are shown, that of `next`.
pub open spec fn keys_written(keys: Seq<Seq<u8>>, next: Option<Seq<u8>>, count: int) -> Seq<char> {
    page_written(
        Seq::new(count as nat, |i: int| json_string(shown_key(keys[i]))),
        if count < keys.len() {
            if count > 0 {
                Some(shown_key(keys[count - 1]))
            } else {
                None
            }
        } else {
            match next {
                Some(key) => Some(shown_key(key)),
                None => None,
            }
        },
    )
}

proof fn lemma_keys_written(keys: Seq<Seq<u8>>, next: Option<Seq<u8>>, count: nat)
    requires
        count <= keys.len(),
    ensures
        key_page_document(key_texts(keys), key_cursor_text(next), count) == encode_utf8(
            keys_written(keys, next, count as int),
        ),
{
    let texts = key_texts(keys);
    let shown = texts.take(count as int);
    let cursor = if count == texts.len() {
        key_cursor_text(next)
    } else if count == 0 {
        None
    } else {
        Some(texts[count - 1])
    };
    law_page_documents(shown, Seq::empty(), Seq::empty(), cursor);
    assert(Seq::new(shown.len(), |i: int| json_string(shown[i])) =~= Seq::new(
        count,
        |i: int| json_string(shown_key(keys[i])),
    ));
}

/// A key page is answered with as many of its keys, from the first on, as a document of at most
/// 1048576 bytes holds. It is a failure exactly where a key takes more than 8192 bytes, or where no
/// such document fits.
pub proof fn law_key_page_is_answered(
    page: ControlPage<Vec<u8>>,
    reply: Reply,
    count: nat,
)
    requires
        call_ensures(key_list_reply, (Ok(page),), reply),
    ensures
        ({
            let keys = Seq::new(page.items@.len(), |i: int| page.items@[i]@);
            let next = option_view(page.next_cursor);
            let long = exists|i: int| 0 <= i < keys.len() && (#[trigger] keys[i]).len() > 8192;
            let fits = |n: int| encode_utf8(keys_written(keys, next, n)).len() <= 1048576;
            &&& long ==> fails_internally(reply@)
            &&& !long && count <= keys.len() && fits(count as int) && (forall|more: int|
                count < more <= keys.len() ==> !#[trigger] fits(more)) ==> answers(
                reply@,
                200,
                Seq::empty(),
                keys_written(keys, next, count as int),
            )
            &&& !long && (forall|n: int| 0 <= n <= keys.len() ==> !#[trigger] fits(n))
                ==> fails_internally(reply@)
        }),
{
    lemma_error_answered(ControlError::InvalidCursor);
    let keys = Seq::new(page.items@.len(), |i: int| page.items@[i]@);
    let next = option_view(page.next_cursor);
    assert(seq_view(page.items@) =~= keys);
    assert(page@.items == keys && page@.next_cursor == next);
    assert(outcome_view(Ok::<_, ControlError>(page))->Ok_0 == page@);
    let fits = |n: int| encode_utf8(keys_written(keys, next, n)).len() <= 1048576;
    let texts = key_texts(keys);
    let cursor = key_cursor_text(next);
    lemma_fit_is_longest_for_keys(texts, cursor, texts.len());
    assert forall|n: nat| n <= keys.len() implies (#[trigger] key_page_document(texts, cursor, n))
        == encode_utf8(keys_written(keys, next, n as int)) by {
        lemma_keys_written(keys, next, n);
    }
    if !oversized_key(keys) {
        if count <= keys.len() && fits(count as int) && (forall|more: int|
            count < more <= keys.len() ==> !#[trigger] fits(more)) {
            let found = keys_that_fit(texts, cursor, texts.len());
            assert(key_page_document(texts, cursor, count).len() <= 1048576);
            assert(found is Some);
            if found->0 > count {
                assert(!fits(found->0 as int));
            }
            assert(found->0 == count);
        }
        if forall|n: int| 0 <= n <= keys.len() ==> !#[trigger] fits(n) {
            let found = keys_that_fit(texts, cursor, texts.len());
            if found is Some {
                assert(!fits(found->0 as int));
            }
        }
    }
}

/// The document of a page of the first `count` of `peers`: the document of each in its place, and
/// as cursor the address of the last one shown, or, where all are shown, `next`, in Base64URL.
pub open spec fn peers_written(
    peers: Seq<PeerInfoView>,
    next: Option<Seq<u8>>,
    count: int,
) -> Seq<char> {
    page_written(
        Seq::new(count as nat, |i: int| peer_text(peers[i])),
        if count < peers.len() {
            Some(base64url(encode_utf8(peers[count - 1].address)))
        } else {
            match next {
                Some(bytes) => Some(base64url(bytes)),
                None => None,
            }
        },
    )
}

proof fn lemma_peers_written(peers: Seq<PeerInfoView>, next: Option<Seq<u8>>, count: nat)
    requires
        count <= peers.len(),
    ensures
        peer_page_document(peers, cursor_text(next), count) == encode_utf8(
            peers_written(peers, next, count as int),
        ),
{
    let shown = peers.take(count as int);
    let cursor = if count == peers.len() {
        cursor_text(next)
    } else {
        Some(base64url(encode_utf8(peers[count - 1].address)))
    };
    law_page_documents(Seq::empty(), Seq::empty(), shown, cursor);
    assert(Seq::new(shown.len(), |i: int| peer_text(shown[i])) =~= Seq::new(
        count,
        |i: int| peer_text(peers[i]),
    ));
}

/// A peer page is answered with as many of its peers, from the first on, as a document of at most
/// 1048576 bytes holds, and with at least one of some. It is a failure where no such document fits.
pub proof fn law_peer_page_is_answered(page: ControlPage<PeerInfo>, reply: Reply, count: nat)
    requires
        call_ensures(peer_list_reply, (Ok(page),), reply),
    ensures
        ({
            let peers = Seq::new(page.items@.len(), |i: int| page.items@[i]@);
            let next = option_view(page.next_cursor);
            let fits = |n: int| encode_utf8(peers_written(peers, next, n)).len() <= 1048576;
            let least: int = if peers.len() > 0 {
                1
            } else {
                0
            };
            &&& least <= count <= peers.len() && fits(count as int) && (forall|more: int|
                count < more <= peers.len() ==> !#[trigger] fits(more)) ==> answers(
                reply@,
                200,
                Seq::empty(),
                peers_written(peers, next, count as int),
            )
            &&& (forall|n: int| least <= n <= peers.len() ==> !#[trigger] fits(n))
                ==> fails_internally(reply@)
        }),
{
    lemma_error_answered(ControlError::InvalidCursor);
    let peers = Seq::new(page.items@.len(), |i: int| page.items@[i]@);
    let next = option_view(page.next_cursor);
    assert(seq_view(page.items@) =~= peers);
    assert(page@.items == peers && page@.next_cursor == next);
    assert(outcome_view(Ok::<_, ControlError>(page))->Ok_0 == page@);
    let fits = |n: int| encode_utf8(peers_written(peers, next, n)).len() <= 1048576;
    let cursor = cursor_text(next);
    lemma_fit_is_longest_for_peers(peers, cursor, peers.len());
    assert forall|n: nat| n <= peers.len() implies (#[trigger] peer_page_document(
        peers,
        cursor,
        n,
    )) == encode_utf8(peers_written(peers, next, n as int)) by {
        lemma_peers_written(peers, next, n);
    }
    let least: int = if peers.len() > 0 {
        1
    } else {
        0
    };
    let found = peers_that_fit(peers, cursor, peers.len());
    if least <= count <= peers.len() && fits(count as int) && (forall|more: int|
        count < more <= peers.len() ==> !#[trigger] fits(more)) {
        assert(peer_page_document(peers, cursor, count).len() <= 1048576);
        assert(found is Some);
        if found->0 > count {
            assert(!fits(found->0 as int));
        }
        assert(found->0 == count);
    }
    if forall|n: int| least <= n <= peers.len() ==> !#[trigger] fits(n) {
        if found is Some {
            assert(!fits(found->0 as int));
        }
    }
}

/// A page answers alike whether the node's outcome or its items and cursor are handed in.
pub proof fn law_pages_are_answered_alike(
    modules: ControlPage<ModuleInfo>,
    peers: ControlPage<PeerInfo>,
    keys: ControlPage<Vec<u8>>,
    of_modules: (Reply, Reply),
    of_peers: (Reply, Reply),
    of_keys: (Reply, Reply),
)
    requires
        call_ensures(module_list_reply, (Ok(modules),), of_modules.0),
        call_ensures(bounded_module_page, (modules.items, modules.next_cursor), of_modules.1),
        call_ensures(peer_list_reply, (Ok(peers),), of_peers.0),
        call_ensures(bounded_peer_page, (peers.items, peers.next_cursor), of_peers.1),
        call_ensures(key_list_reply, (Ok(keys),), of_keys.0),
        call_ensures(bounded_key_page, (keys.items, keys.next_cursor), of_keys.1),
    ensures
        of_modules.0@ == of_modules.1@,
        of_peers.0@ == of_peers.1@,
        of_keys.0@ == of_keys.1@,
{
    assert(outcome_view(Ok::<_, ControlError>(modules))->Ok_0 == modules@);
    assert(outcome_view(Ok::<_, ControlError>(peers))->Ok_0 == peers@);
    assert(outcome_view(Ok::<_, ControlError>(keys))->Ok_0 == keys@);
}

} // verus!
