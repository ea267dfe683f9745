//! The replies of the management API.

use crate::base64url::{base64url, encode_base64url};
use crate::control::{
    outcome_view, ControlError, ControlErrorView, ControlPage, ControlPageView, ModuleInfo,
    ModuleInfoView, ModuleRegistration, ModuleRegistrationView, PeerInfo, PeerInfoView,
};
use crate::json::{
    error_json, error_text, key_page_json, key_page_text, module_json, module_page_json,
    module_page_text, module_text, peer_page_json, peer_page_text, probe_json, probe_text,
};
use crate::limits::{
    lemma_bounded_pages_within_limit, lemma_probes_within_limit, lemma_refusals_within_limit,
};
use crate::request::{cursor_text, encode_cursor, encode_key, key_text, MAX_KEY_SIZE};
use crate::text::text_concat;
use crate::views::{option_view, seq_view};
use vstd::prelude::*;
use vstd::string::*;
use vstd::utf8::*;

verus! {

/// Longest body of a reply, in bytes.
pub const MAX_RESPONSE_BODY_SIZE: usize = 1048576;

/// A reply: its status, its headers and its body.
#[derive(Debug, Clone, PartialEq, Eq)]
pub struct Reply {
    pub status: u16,
    pub headers: Vec<(String, String)>,
    pub body: Vec<u8>,
}

/// What a [`Reply`] stands for.
#[verifier::ext_equal]
pub struct ReplyView {
    pub status: u16,
    pub headers: Seq<(Seq<char>, Seq<char>)>,
    pub body: Seq<u8>,
}

impl View for Reply {
    type V = ReplyView;

    open spec fn view(&self) -> ReplyView {
        ReplyView { status: self.status, headers: seq_view(self.headers@), body: self.body@ }
    }
}

/// A reply whose body is the JSON document `document`, with the headers `extra` besides its content
/// type.
pub open spec fn json_view(
    status: u16,
    extra: Seq<(Seq<char>, Seq<char>)>,
    document: Seq<u8>,
) -> ReplyView {
    ReplyView {
        status,
        headers: seq![("content-type"@, "application/json"@)] + extra,
        body: document,
    }
}

/// A reply that reports a failure.
pub open spec fn error_view(status: u16, code: Seq<char>, message: Seq<char>) -> ReplyView {
    json_view(status, Seq::empty(), encode_utf8(error_text(code, message)))
}

/// The body of `reply` is no longer than a body may be.
pub open spec fn within_limit(reply: ReplyView) -> bool {
    reply.body.len() <= MAX_RESPONSE_BODY_SIZE
}

/// A reply with the status of a failure says in its one document form what failed.
pub open spec fn failure_reported(reply: ReplyView) -> bool {
    reply.status >= 400 ==> {
        &&& reply.headers.len() > 0
        &&& reply.headers[0] == ("content-type"@, "application/json"@)
        &&& exists|code: Seq<char>, message: Seq<char>|
            reply.body == encode_utf8(#[trigger] error_text(code, message))
    }
}

/// The reply to a malformed request.
pub open spec fn invalid_request_view() -> ReplyView {
    error_view(400, "invalid_request"@, "invalid request"@)
}

/// The reply to a request that the node failed on.
pub open spec fn internal_error_view() -> ReplyView {
    error_view(500, "internal_error"@, "internal server error"@)
}

/// A reply whose body is the JSON document `document`, where it is not too long.
pub open spec fn bounded_view(
    status: u16,
    extra: Seq<(Seq<char>, Seq<char>)>,
    document: Seq<u8>,
) -> ReplyView {
    if document.len() <= MAX_RESPONSE_BODY_SIZE {
        json_view(status, extra, document)
    } else {
        internal_error_view()
    }
}

/// The reply to a request that failed with `error`. What a storage or internal error says stays
/// with the node.
pub open spec fn control_error_view(error: ControlErrorView) -> ReplyView {
    match error {
        ControlErrorView::InvalidCursor => invalid_request_view(),
        ControlErrorView::ModuleNotFound => error_view(404, "not_found"@, "module not found"@),
        ControlErrorView::KeyNotFound => error_view(404, "not_found"@, "key not found"@),
        ControlErrorView::InvalidModule(_) => error_view(
            422,
            "module_invalid"@,
            "invalid WebAssembly module"@,
        ),
        ControlErrorView::ModuleExecutionFailed(_) => error_view(
            422,
            "module_execution_failed"@,
            "module execution failed"@,
        ),
        ControlErrorView::Storage(_) => internal_error_view(),
        ControlErrorView::Internal(_) => internal_error_view(),
    }
}

/// The header in `extra`, where there is one.
pub open spec fn header_if_any(extra: Option<(Seq<char>, Seq<char>)>) -> Seq<
    (Seq<char>, Seq<char>),
> {
    match extra {
        Some(pair) => seq![pair],
        None => Seq::empty(),
    }
}

/// The header `name` with value `value`.
fn header(name: &str, value: &str) -> (pair: (String, String))
    ensures
        pair@ == (name@, value@),
{
    (name.to_owned(), value.to_owned())
}

/// A reply whose body is the JSON document `document`, with one more header where there is one.
fn json_reply(status: u16, extra: Option<(String, String)>, document: Vec<u8>) -> (reply: Reply)
    ensures
        reply@ == json_view(
            status,
            header_if_any(option_view(extra)),
            document@,
        ),
{
    let mut headers: Vec<(String, String)> = Vec::new();
    headers.push(header("content-type", "application/json"));
    let ghost added = header_if_any(option_view(extra));
    if let Some(pair) = extra {
        headers.push(pair);
    }
    assert(seq_view(headers@) =~= seq![("content-type"@, "application/json"@)] + added);
    Reply { status, headers, body: document }
}

/// A reply that reports a failure.
pub fn error_response(status: u16, code: &str, message: &str) -> (reply: Reply)
    ensures
        reply@ == error_view(status, code@, message@),
{
    json_reply(status, None, error_json(code, message).unwrap())
}

/// The reply to a malformed request.
pub fn invalid_request() -> (reply: Reply)
    ensures
        within_limit(reply@),
        failure_reported(reply@),
        reply@ == invalid_request_view(),
{
    proof {
        lemma_refusals_within_limit();
    }
    error_response(400, "invalid_request", "invalid request")
}

/// The reply to a request that the node failed on.
pub fn internal_error() -> (reply: Reply)
    ensures
        within_limit(reply@),
        failure_reported(reply@),
        reply@ == internal_error_view(),
{
    proof {
        lemma_refusals_within_limit();
    }
    error_response(500, "internal_error", "internal server error")
}

/// The reply to a request that failed with `error`.
pub fn control_error_response(error: ControlError) -> (reply: Reply)
    ensures
        within_limit(reply@),
        failure_reported(reply@),
        reply@ == control_error_view(error@),
{
    proof {
        lemma_refusals_within_limit();
        assert(within_limit(control_error_view(error@)));
    }
    match error {
        ControlError::InvalidCursor => invalid_request(),
        ControlError::ModuleNotFound => error_response(404, "not_found", "module not found"),
        ControlError::KeyNotFound => error_response(404, "not_found", "key not found"),
        ControlError::InvalidModule(_) => error_response(
            422,
            "module_invalid",
            "invalid WebAssembly module",
        ),
        ControlError::ModuleExecutionFailed(_) => error_response(
            422,
            "module_execution_failed",
            "module execution failed",
        ),
        ControlError::Storage(_) => internal_error(),
        ControlError::Internal(_) => internal_error(),
    }
}

/// A reply whose body is the JSON document `document`, where it is not too long.
fn bounded_reply(status: u16, extra: Option<(String, String)>, document: Vec<u8>) -> (reply: Reply)
    ensures
        within_limit(reply@),
        status < 400 ==> failure_reported(reply@),
        reply@ == bounded_view(
            status,
            header_if_any(option_view(extra)),
            document@,
        ),
{
    if document.len() <= MAX_RESPONSE_BODY_SIZE {
        json_reply(status, extra, document)
    } else {
        internal_error()
    }
}

/// The document of the page that shows the first `count` of the keys `texts`. Where it leaves keys
/// out, its cursor is the last key that it shows.
pub open spec fn key_page_document(
    texts: Seq<Seq<char>>,
    next_cursor: Option<Seq<char>>,
    count: nat,
) -> Seq<u8> {
    encode_utf8(
        key_page_text(
            texts.take(count as int),
            if count == texts.len() {
                next_cursor
            } else if count == 0 {
                None
            } else {
                Some(texts[count - 1])
            },
        ),
    )
}

/// The most keys, `most` or fewer, with which a page of the keys `texts` is not too long.
pub open spec fn keys_that_fit(
    texts: Seq<Seq<char>>,
    next_cursor: Option<Seq<char>>,
    most: nat,
) -> Option<nat>
    decreases most,
{
    if key_page_document(texts, next_cursor, most).len() <= MAX_RESPONSE_BODY_SIZE {
        Some(most)
    } else if most == 0 {
        None
    } else {
        keys_that_fit(texts, next_cursor, (most - 1) as nat)
    }
}

/// The texts of the keys `keys`.
pub open spec fn key_texts(keys: Seq<Seq<u8>>) -> Seq<Seq<char>> {
    keys.map_values(|key: Seq<u8>| key_text(key))
}

/// The text of the key that a listing resumes after, where it does.
pub open spec fn key_cursor_text(cursor: Option<Seq<u8>>) -> Option<Seq<char>> {
    match cursor {
        Some(key) => Some(key_text(key)),
        None => None,
    }
}

/// One of `keys` is longer than a key may be.
pub open spec fn oversized_key(keys: Seq<Seq<u8>>) -> bool {
    exists|i: int| 0 <= i < keys.len() && (#[trigger] keys[i]).len() > MAX_KEY_SIZE
}

/// The reply to a key listing: as many of the keys as fit, and the cursor after them.
pub open spec fn key_page_view(keys: Seq<Seq<u8>>, next_cursor: Option<Seq<u8>>) -> ReplyView {
    let texts = key_texts(keys);
    let cursor = key_cursor_text(next_cursor);
    if oversized_key(keys) {
        internal_error_view()
    } else {
        match keys_that_fit(texts, cursor, texts.len()) {
            Some(count) => json_view(200, Seq::empty(), key_page_document(texts, cursor, count)),
            None => internal_error_view(),
        }
    }
}

/// The reply to a key listing.
pub fn bounded_key_page(items: Vec<Vec<u8>>, next_cursor: Option<Vec<u8>>) -> (reply: Reply)
    ensures
        within_limit(reply@),
        failure_reported(reply@),
        reply@ == key_page_view(seq_view(items@), option_view(next_cursor)),
{
    proof {
        lemma_bounded_pages_within_limit(
            seq_view(items@),
            Seq::empty(),
            option_view(next_cursor),
        );
    }
    let ghost keys = seq_view(items@);
    let ghost texts = key_texts(keys);
    let ghost cursor = key_cursor_text(option_view(next_cursor));
    let mut shown: Vec<String> = Vec::new();
    let mut i: usize = 0;
    assert(seq_view(shown@) =~= texts.take(0));
    while i < items.len()
        invariant
            i <= items@.len(),
            keys == seq_view(items@),
            texts == key_texts(keys),
            cursor == key_cursor_text(option_view(next_cursor)),
            forall|j: int| 0 <= j < i ==> (#[trigger] keys[j]).len() <= MAX_KEY_SIZE,
            seq_view(shown@) == texts.take(i as int),
        decreases items@.len() - i,
    {
        if items[i].len() > MAX_KEY_SIZE {
            assert(keys[i as int].len() > MAX_KEY_SIZE);
            return internal_error();
        }
        let text = encode_key(items[i].as_slice());
        assert(text@ == texts[i as int]);
        assert(seq_view(shown@.push(text)) =~= seq_view(shown@).push(text@));
        assert(texts.take(i as int).push(texts[i as int]) =~= texts.take(i + 1));
        shown.push(text);
        i += 1;
    }
    assert(texts.take(texts.len() as int) =~= texts);
    let mut resume = match &next_cursor {
        Some(key) => Some(encode_key(key.as_slice())),
        None => None,
    };
    loop
        invariant
            shown@.len() <= texts.len(),
            !oversized_key(keys),
            texts == key_texts(keys),
            cursor == key_cursor_text(option_view(next_cursor)),
            keys == seq_view(items@),
            seq_view(shown@) == texts.take(shown@.len() as int),
            key_page_document(texts, cursor, shown@.len()) == encode_utf8(
                key_page_text(seq_view(shown@), option_view(resume)),
            ),
            keys_that_fit(texts, cursor, texts.len()) == keys_that_fit(
                texts,
                cursor,
                shown@.len(),
            ),
        decreases shown@.len(),
    {
        match key_page_json(&shown, &resume) {
            Ok(document) => {
                if document.len() <= MAX_RESPONSE_BODY_SIZE {
                    return json_reply(200, None, document);
                }
            },
            Err(_) => {
                return internal_error();
            },
        }
        if shown.len() == 0 {
            return internal_error();
        }
        shown.truncate(shown.len() - 1);
        resume = match shown.last() {
            Some(last) => Some(last.clone()),
            None => None,
        };
        proof {
            assert(seq_view(shown@) =~= texts.take(shown@.len() as int));
            if shown@.len() > 0 {
                assert(seq_view(shown@).last() == texts[shown@.len() - 1]);
            }
        }
    }
}

/// The text of the cursor that resumes a peer listing after `peer`.
pub open spec fn peer_cursor_text(peer: PeerInfoView) -> Seq<char> {
    base64url(encode_utf8(peer.address))
}

/// The document of the page that shows the first `count` of `peers`. Where it leaves peers out, its
/// cursor is that of the last peer that it shows.
pub open spec fn peer_page_document(
    peers: Seq<PeerInfoView>,
    next_cursor: Option<Seq<char>>,
    count: nat,
) -> Seq<u8> {
    encode_utf8(
        peer_page_text(
            peers.take(count as int),
            if count == peers.len() {
                next_cursor
            } else {
                Some(peer_cursor_text(peers[count - 1]))
            },
        ),
    )
}

/// The most peers, `most` or fewer but not none of some, with which a page of `peers` is not too
/// long.
pub open spec fn peers_that_fit(
    peers: Seq<PeerInfoView>,
    next_cursor: Option<Seq<char>>,
    most: nat,
) -> Option<nat>
    decreases most,
{
    if peer_page_document(peers, next_cursor, most).len() <= MAX_RESPONSE_BODY_SIZE {
        Some(most)
    } else if most <= 1 {
        None
    } else {
        peers_that_fit(peers, next_cursor, (most - 1) as nat)
    }
}

/// The reply to a peer listing: as many of the peers as fit, and the cursor after them. A first
/// peer that does not fit is a failure.
pub open spec fn peer_page_view(
    peers: Seq<PeerInfoView>,
    next_cursor: Option<Seq<u8>>,
) -> ReplyView {
    let cursor = cursor_text(next_cursor);
    match peers_that_fit(peers, cursor, peers.len()) {
        Some(count) => json_view(200, Seq::empty(), peer_page_document(peers, cursor, count)),
        None => internal_error_view(),
    }
}

/// The reply to a peer listing.
pub fn bounded_peer_page(items: Vec<PeerInfo>, next_cursor: Option<Vec<u8>>) -> (reply: Reply)
    ensures
        within_limit(reply@),
        failure_reported(reply@),
        reply@ == peer_page_view(seq_view(items@), option_view(next_cursor)),
{
    proof {
        lemma_bounded_pages_within_limit(
            Seq::empty(),
            seq_view(items@),
            option_view(next_cursor),
        );
    }
    let ghost peers = seq_view(items@);
    let ghost cursor = cursor_text(option_view(next_cursor));
    let mut shown = items;
    let mut resume = encode_cursor(next_cursor);
    assert(peers.take(peers.len() as int) =~= peers);
    loop
        invariant
            shown@.len() <= peers.len(),
            peers == seq_view(items@),
            cursor == cursor_text(option_view(next_cursor)),
            seq_view(shown@) == peers.take(shown@.len() as int),
            peer_page_document(peers, cursor, shown@.len()) == encode_utf8(
                peer_page_text(seq_view(shown@), option_view(resume)),
            ),
            peers_that_fit(peers, cursor, peers.len()) == peers_that_fit(
                peers,
                cursor,
                shown@.len(),
            ),
        decreases shown@.len(),
    {
        match peer_page_json(&shown, &resume) {
            Ok(document) => {
                if document.len() <= MAX_RESPONSE_BODY_SIZE {
                    return json_reply(200, None, document);
                }
            },
            Err(_) => {
                return internal_error();
            },
        }
        if shown.len() <= 1 {
            return internal_error();
        }
        shown.truncate(shown.len() - 1);
        proof {
            assert(seq_view(shown@) =~= peers.take(shown@.len() as int));
            assert(seq_view(shown@).last() == peers[shown@.len() - 1]);
        }
        resume = Some(encode_base64url(shown[shown.len() - 1].address.as_str().as_bytes()));
    }
}

/// The reply to a module listing.
pub open spec fn module_page_view(
    modules: Seq<ModuleInfoView>,
    next_cursor: Option<Seq<u8>>,
) -> ReplyView {
    bounded_view(
        200,
        Seq::empty(),
        encode_utf8(module_page_text(modules, cursor_text(next_cursor))),
    )
}

/// The reply to a module listing.
pub fn bounded_module_page(items: Vec<ModuleInfo>, next_cursor: Option<Vec<u8>>) -> (reply: Reply)
    ensures
        within_limit(reply@),
        failure_reported(reply@),
        reply@ == module_page_view(seq_view(items@), option_view(next_cursor)),
{
    let resume = encode_cursor(next_cursor);
    match module_page_json(&items, &resume) {
        Ok(document) => bounded_reply(200, None, document),
        Err(_) => internal_error(),
    }
}

/// The path under which module `id` is found.
pub open spec fn module_location(id: Seq<char>) -> Seq<char> {
    "/api/v1/modules/"@ + id
}

/// The reply to an upload, where the outcome of the registration is `outcome`: a module that is new
/// to the node is announced with its location.
pub open spec fn registration_view(
    outcome: Result<ModuleRegistrationView, ControlErrorView>,
) -> ReplyView {
    match outcome {
        Ok(registration) => if registration.created {
            bounded_view(
                201,
                seq![("location"@, module_location(registration.module.id))],
                encode_utf8(module_text(registration.module)),
            )
        } else {
            bounded_view(200, Seq::empty(), encode_utf8(module_text(registration.module)))
        },
        Err(error) => control_error_view(error),
    }
}

/// The reply to an upload, where the outcome of the registration is `outcome`.
pub fn registration_reply(outcome: Result<ModuleRegistration, ControlError>) -> (reply: Reply)
    ensures
        within_limit(reply@),
        failure_reported(reply@),
        reply@ == registration_view(outcome_view(outcome)),
{
    match outcome {
        Ok(registration) => {
            let status: u16 = if registration.created {
                201
            } else {
                200
            };
            let location = if registration.created {
                Some(
                    (
                        "location".to_owned(),
                        text_concat("/api/v1/modules/", registration.module.id.as_str()),
                    ),
                )
            } else {
                None
            };
            match module_json(&registration.module) {
                Ok(document) => bounded_reply(status, location, document),
                Err(_) => internal_error(),
            }
        },
        Err(error) => control_error_response(error),
    }
}

/// The reply to a request for a module.
pub open spec fn module_view(outcome: Result<ModuleInfoView, ControlErrorView>) -> ReplyView {
    match outcome {
        Ok(module) => bounded_view(200, Seq::empty(), encode_utf8(module_text(module))),
        Err(error) => control_error_view(error),
    }
}

/// The reply to a request for a module, where what the node says is `outcome`.
pub fn module_reply(outcome: Result<ModuleInfo, ControlError>) -> (reply: Reply)
    ensures
        within_limit(reply@),
        failure_reported(reply@),
        reply@ == module_view(outcome_view(outcome)),
{
    match outcome {
        Ok(module) => match module_json(&module) {
            Ok(document) => bounded_reply(200, None, document),
            Err(_) => internal_error(),
        },
        Err(error) => control_error_response(error),
    }
}

/// The reply to a request to do something: no content where it was done.
pub open spec fn done_view(outcome: Result<(), ControlErrorView>) -> ReplyView {
    match outcome {
        Ok(_) => ReplyView { status: 204, headers: Seq::empty(), body: Seq::empty() },
        Err(error) => control_error_view(error),
    }
}

/// The reply to a request to do something, where what became of it is `outcome`.
pub fn done_reply(outcome: Result<(), ControlError>) -> (reply: Reply)
    ensures
        within_limit(reply@),
        failure_reported(reply@),
        reply@ == done_view(outcome_view(outcome)),
{
    match outcome {
        Ok(()) => {
            let reply = Reply { status: 204, headers: Vec::new(), body: Vec::new() };
            assert(seq_view(reply.headers@) =~= Seq::empty());
            reply
        },
        Err(error) => control_error_response(error),
    }
}

/// The reply to a module listing, where what the node says is `outcome`.
pub open spec fn module_list_view(
    outcome: Result<ControlPageView<ModuleInfoView>, ControlErrorView>,
) -> ReplyView {
    match outcome {
        Ok(page) => module_page_view(page.items, page.next_cursor),
        Err(error) => control_error_view(error),
    }
}

/// The reply to a module listing, where what the node says is `outcome`.
pub fn module_list_reply(outcome: Result<ControlPage<ModuleInfo>, ControlError>) -> (reply: Reply)
    ensures
        within_limit(reply@),
        failure_reported(reply@),
        reply@ == module_list_view(outcome_view(outcome)),
{
    match outcome {
        Ok(page) => bounded_module_page(page.items, page.next_cursor),
        Err(error) => control_error_response(error),
    }
}

/// The reply to a peer listing, where what the node says is `outcome`.
pub open spec fn peer_list_view(
    outcome: Result<ControlPageView<PeerInfoView>, ControlErrorView>,
) -> ReplyView {
    match outcome {
        Ok(page) => peer_page_view(page.items, page.next_cursor),
        Err(error) => control_error_view(error),
    }
}

/// The reply to a peer listing, where what the node says is `outcome`.
pub fn peer_list_reply(outcome: Result<ControlPage<PeerInfo>, ControlError>) -> (reply: Reply)
    ensures
        within_limit(reply@),
        failure_reported(reply@),
        reply@ == peer_list_view(outcome_view(outcome)),
{
    match outcome {
        Ok(page) => bounded_peer_page(page.items, page.next_cursor),
        Err(error) => control_error_response(error),
    }
}

/// The reply to a key listing, where what the node says is `outcome`.
pub open spec fn key_list_view(
    outcome: Result<ControlPageView<Seq<u8>>, ControlErrorView>,
) -> ReplyView {
    match outcome {
        Ok(page) => key_page_view(page.items, page.next_cursor),
        Err(error) => control_error_view(error),
    }
}

/// The reply to a key listing, where what the node says is `outcome`.
pub fn key_list_reply(outcome: Result<ControlPage<Vec<u8>>, ControlError>) -> (reply: Reply)
    ensures
        within_limit(reply@),
        failure_reported(reply@),
        reply@ == key_list_view(outcome_view(outcome)),
{
    match outcome {
        Ok(page) => bounded_key_page(page.items, page.next_cursor),
        Err(error) => control_error_response(error),
    }
}

/// The reply to a request for the value of the key with text `key`, where what the node says is
/// `outcome`: the raw value, where it is not too long, and the key's text.
pub open spec fn value_view(
    key: Seq<char>,
    outcome: Result<Seq<u8>, ControlErrorView>,
) -> ReplyView {
    match outcome {
        Ok(value) => if value.len() <= MAX_RESPONSE_BODY_SIZE {
            ReplyView {
                status: 200,
                headers: seq![
                    ("content-type"@, "application/octet-stream"@),
                    ("x-numax-key"@, key),
                ],
                body: value,
            }
        } else {
            internal_error_view()
        },
        Err(error) => control_error_view(error),
    }
}

/// The reply to a request for the value of the key with text `key`.
pub fn value_reply(key: &str, outcome: Result<Vec<u8>, ControlError>) -> (reply: Reply)
    ensures
        within_limit(reply@),
        failure_reported(reply@),
        reply@ == value_view(key@, outcome_view(outcome)),
{
    proof {
        lemma_refusals_within_limit();
    }
    match outcome {
        Ok(value) => {
            if value.len() > MAX_RESPONSE_BODY_SIZE {
                return internal_error();
            }
            let mut headers: Vec<(String, String)> = Vec::new();
            headers.push(header("content-type", "application/octet-stream"));
            headers.push(header("x-numax-key", key));
            assert(seq_view(headers@) =~= seq![
                ("content-type"@, "application/octet-stream"@),
                ("x-numax-key"@, key@),
            ]);
            Reply { status: 200, headers, body: value }
        },
        Err(error) => control_error_response(error),
    }
}

/// The reply to a health probe.
pub open spec fn health_view(healthy: bool) -> ReplyView {
    if healthy {
        json_view(200, Seq::empty(), encode_utf8(probe_text("healthy"@)))
    } else {
        internal_error_view()
    }
}

/// The reply to a health probe.
pub fn health_reply(healthy: bool) -> (reply: Reply)
    ensures
        within_limit(reply@),
        failure_reported(reply@),
        reply@ == health_view(healthy),
{
    proof {
        lemma_probes_within_limit(healthy);
    }
    if healthy {
        json_reply(200, None, probe_json("healthy").unwrap())
    } else {
        internal_error()
    }
}

/// The reply to a readiness probe. A node that is not ready asks to be tried again after a second.
pub open spec fn ready_view(ready: bool) -> ReplyView {
    if ready {
        json_view(200, Seq::empty(), encode_utf8(probe_text("ready"@)))
    } else {
        json_view(
            503,
            seq![("retry-after"@, "1"@)],
            encode_utf8(error_text("not_ready"@, "node is not ready"@)),
        )
    }
}

/// The reply to a readiness probe.
pub fn ready_reply(ready: bool) -> (reply: Reply)
    ensures
        within_limit(reply@),
        failure_reported(reply@),
        reply@ == ready_view(ready),
{
    proof {
        lemma_probes_within_limit(ready);
    }
    if ready {
        json_reply(200, None, probe_json("ready").unwrap())
    } else {
        json_reply(
            503,
            Some(header("retry-after", "1")),
            error_json("not_ready", "node is not ready").unwrap(),
        )
    }
}

/// The reply to a request for a path that is not served.
pub open spec fn not_found_view() -> ReplyView {
    error_view(404, "not_found"@, "resource not found"@)
}

/// The reply to a request for a path that is not served.
pub fn not_found() -> (reply: Reply)
    ensures
        within_limit(reply@),
        failure_reported(reply@),
        reply@ == not_found_view(),
{
    proof {
        lemma_refusals_within_limit();
    }
    error_response(404, "not_found", "resource not found")
}

/// The reply to a request whose method the path does not serve.
pub open spec fn method_not_allowed_view() -> ReplyView {
    error_view(405, "invalid_request"@, "method not allowed"@)
}

/// The reply to a request whose method the path does not serve.
pub fn method_not_allowed() -> (reply: Reply)
    ensures
        within_limit(reply@),
        failure_reported(reply@),
        reply@ == method_not_allowed_view(),
{
    proof {
        lemma_refusals_within_limit();
    }
    error_response(405, "invalid_request", "method not allowed")
}

/// The reply to an upload that is not of the one media type.
pub open spec fn unsupported_media_type_view() -> ReplyView {
    error_view(415, "unsupported_media_type"@, "content type must be application/wasm"@)
}

/// The reply to an upload that is not of the one media type.
pub fn unsupported_media_type_response() -> (reply: Reply)
    ensures
        within_limit(reply@),
        failure_reported(reply@),
        reply@ == unsupported_media_type_view(),
{
    proof {
        lemma_refusals_within_limit();
    }
    error_response(415, "unsupported_media_type", "content type must be application/wasm")
}

/// The reply to an upload that is too large.
pub open spec fn payload_too_large_view() -> ReplyView {
    error_view(413, "payload_too_large"@, "request body too large"@)
}

/// The reply to an upload that is too large.
pub fn payload_too_large_response() -> (reply: Reply)
    ensures
        within_limit(reply@),
        failure_reported(reply@),
        reply@ == payload_too_large_view(),
{
    proof {
        lemma_refusals_within_limit();
    }
    error_response(413, "payload_too_large", "request body too large")
}

} // verus!
