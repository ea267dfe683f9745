//! The management API: what each of its requests is answered.
//!
//! A request comes with its raw parts and is answered by asking the node's control interface, unless
//! it is malformed: such a request is refused before the node is asked. What the node says is up to
//! the node, so a contract here fixes what the node is asked and what is replied to each answer.
//!
//! Each route stands twice. Its `_asking` form is given the question as a function that can be called
//! only once, and only with what an accepted request names: so the node is asked no more than once
//! for a request, and never for a refused one. The other form puts the question to a control
//! interface; that it does so only once is left unsaid there, as an interface behind a shared
//! reference shows no trace of a question.
//!
//! Where the node answers later, a server takes the same steps one by one: it reads the request, asks
//! the node, and makes the reply of what the node says.

use crate::control::{
    outcome_view, ControlError, ControlPage, ModuleInfo, ModuleRegistration, PeerInfo,
    RuntimeControl,
};
use crate::reply::{
    done_reply, done_view, failure_reported, health_reply, health_view, invalid_request,
    invalid_request_view, key_list_reply, key_list_view, module_list_reply, module_list_view,
    module_reply, module_view, payload_too_large_response, payload_too_large_view, peer_list_reply,
    peer_list_view, ready_reply, ready_view, registration_reply, registration_view,
    unsupported_media_type_response, unsupported_media_type_view, value_reply, value_view,
    within_limit, Reply, ReplyView,
};
use crate::request::{
    decode_key, is_module_id, is_wasm_content_type, key_bytes, keys_asked, module_id_form,
    page_asked, parse_key_query, parse_page_query, wasm_content_type, CursorKind, InvalidRequest,
    KeyPageQuery, PageQuery, MAX_UPLOAD_SIZE,
};
use crate::views::option_view;
use vstd::prelude::*;
use vstd::string::*;
use vstd::utf8::*;

verus! {

/// The body of an upload as it arrived: whole, cut off for its size, or not readable.
#[derive(Debug, Clone, PartialEq, Eq)]
pub enum Upload {
    Received(Vec<u8>),
    TooLarge,
    Unreadable,
}

/// What an upload is refused with, where it is: first for its media type, then for its size, then
/// for having no readable content.
pub open spec fn upload_refusal(content_type: Option<Seq<u8>>, body: Upload) -> Option<ReplyView> {
    let wasm = match content_type {
        Some(value) => wasm_content_type(value),
        None => false,
    };
    if !wasm {
        Some(unsupported_media_type_view())
    } else {
        match body {
            Upload::Received(bytes) => if bytes@.len() > MAX_UPLOAD_SIZE {
                Some(payload_too_large_view())
            } else if bytes@.len() == 0 {
                Some(invalid_request_view())
            } else {
                None
            },
            Upload::TooLarge => Some(payload_too_large_view()),
            Upload::Unreadable => Some(invalid_request_view()),
        }
    }
}

/// The bytes of an upload, or the reply that refuses it.
pub fn upload_bytes(content_type: Option<&[u8]>, body: Upload) -> (accepted: Result<Vec<u8>, Reply>)
    ensures
        match accepted {
            Ok(bytes) => upload_refusal(option_view(content_type), body) is None && body
                == Upload::Received(bytes),
            Err(reply) => upload_refusal(option_view(content_type), body) == Some(reply@)
                && within_limit(reply@) && failure_reported(reply@),
        },
{
    if !is_wasm_content_type(content_type) {
        return Err(unsupported_media_type_response());
    }
    let bytes = match body {
        Upload::Received(bytes) => bytes,
        Upload::TooLarge => {
            return Err(payload_too_large_response());
        },
        Upload::Unreadable => {
            return Err(invalid_request());
        },
    };
    if bytes.len() > MAX_UPLOAD_SIZE {
        return Err(payload_too_large_response());
    }
    if bytes.is_empty() {
        return Err(invalid_request());
    }
    Ok(bytes)
}

/// Answers an upload, which `ask` is called to register, once and no more.
pub fn register_module_asking<F: FnOnce(Vec<u8>) -> Result<ModuleRegistration, ControlError>>(
    content_type: Option<&[u8]>,
    body: Upload,
    ask: F,
) -> (reply: Reply)
    requires
        forall|bytes: Vec<u8>|
            upload_refusal(option_view(content_type), body) is None && body == Upload::Received(
                bytes,
            ) ==> #[trigger] call_requires(ask, (bytes,)),
    ensures
        within_limit(reply@),
        failure_reported(reply@),
        match upload_refusal(option_view(content_type), body) {
            Some(refusal) => reply@ == refusal,
            None => exists|
                bytes: Vec<u8>,
                outcome: Result<ModuleRegistration, ControlError>,
            |
                #![trigger call_ensures(ask, (bytes,), outcome)]
                body == Upload::Received(bytes) && call_ensures(ask, (bytes,), outcome) && reply@
                    == registration_view(outcome_view(outcome)),
        },
{
    match upload_bytes(content_type, body) {
        Ok(bytes) => registration_reply(ask(bytes)),
        Err(reply) => reply,
    }
}

/// Answers an upload: the node is asked to register the bytes.
pub fn register_module<C: RuntimeControl + ?Sized>(
    control: &C,
    content_type: Option<&[u8]>,
    body: Upload,
) -> (reply: Reply)
    ensures
        within_limit(reply@),
        failure_reported(reply@),
        match upload_refusal(option_view(content_type), body) {
            Some(refusal) => reply@ == refusal,
            None => exists|
                bytes: Vec<u8>,
                outcome: Result<ModuleRegistration, ControlError>,
            |
                #![trigger call_ensures(C::register_module, (control, bytes), outcome)]
                body == Upload::Received(bytes) && call_ensures(
                    C::register_module,
                    (control, bytes),
                    outcome,
                ) && reply@ == registration_view(outcome_view(outcome)),
        },
{
    let ask = |bytes: Vec<u8>| -> (outcome: Result<ModuleRegistration, ControlError>)
        ensures
            call_ensures(C::register_module, (control, bytes), outcome),
        { control.register_module(bytes) };
    register_module_asking(content_type, body, ask)
}

/// Answers a module listing, which `ask` is called for, once and no more.
pub fn list_modules_asking<
    F: FnOnce(Option<Vec<u8>>, usize) -> Result<ControlPage<ModuleInfo>, ControlError>,
>(query: Result<PageQuery, InvalidRequest>, ask: F) -> (reply: Reply)
    requires
        forall|after: Option<Vec<u8>>, limit: usize|
            page_asked(query, CursorKind::Module) == Some((option_view(after), limit))
                ==> #[trigger] call_requires(ask, (after, limit)),
    ensures
        within_limit(reply@),
        failure_reported(reply@),
        match page_asked(query, CursorKind::Module) {
            Some(asked) => exists|
                after: Option<Vec<u8>>,
                limit: usize,
                outcome: Result<ControlPage<ModuleInfo>, ControlError>,
            |
                #![trigger call_ensures(ask, (after, limit), outcome)]
                asked == (option_view(after), limit) && call_ensures(ask, (after, limit), outcome)
                    && reply@ == module_list_view(outcome_view(outcome)),
            None => reply@ == invalid_request_view(),
        },
{
    match parse_page_query(query, CursorKind::Module) {
        Ok(asked) => module_list_reply(ask(asked.cursor, asked.limit)),
        Err(_) => invalid_request(),
    }
}

/// Answers a module listing.
pub fn list_modules<C: RuntimeControl + ?Sized>(
    control: &C,
    query: Result<PageQuery, InvalidRequest>,
) -> (reply: Reply)
    ensures
        within_limit(reply@),
        failure_reported(reply@),
        match page_asked(query, CursorKind::Module) {
            Some(asked) => exists|
                after: Option<Vec<u8>>,
                limit: usize,
                outcome: Result<ControlPage<ModuleInfo>, ControlError>,
            |
                #![trigger call_ensures(C::list_modules, (control, after, limit), outcome)]
                asked == (option_view(after), limit) && call_ensures(
                    C::list_modules,
                    (control, after, limit),
                    outcome,
                ) && reply@ == module_list_view(outcome_view(outcome)),
            None => reply@ == invalid_request_view(),
        },
{
    let ask = |after: Option<Vec<u8>>, limit: usize| -> (outcome: Result<
        ControlPage<ModuleInfo>,
        ControlError,
    >)
        ensures
            call_ensures(C::list_modules, (control, after, limit), outcome),
        { control.list_modules(after, limit) };
    list_modules_asking(query, ask)
}

/// The identifier of the module that a path names, where it names one.
pub open spec fn module_named(path: Result<String, InvalidRequest>) -> Option<String> {
    match path {
        Ok(id) => if module_id_form(encode_utf8(id@)) {
            Some(id)
        } else {
            None
        },
        Err(_) => None,
    }
}

/// The identifier of the module that a path names.
pub fn module_id(path: Result<String, InvalidRequest>) -> (id: Result<String, InvalidRequest>)
    ensures
        id.ok() == module_named(path),
{
    match path {
        Ok(id) => if is_module_id(id.as_str()) {
            Ok(id)
        } else {
            Err(InvalidRequest)
        },
        Err(_) => Err(InvalidRequest),
    }
}

/// Answers a request for a module, which `ask` is called for, once and no more.
pub fn get_module_asking<F: FnOnce(String) -> Result<ModuleInfo, ControlError>>(
    path: Result<String, InvalidRequest>,
    ask: F,
) -> (reply: Reply)
    requires
        module_named(path) matches Some(id) ==> call_requires(ask, (id,)),
    ensures
        within_limit(reply@),
        failure_reported(reply@),
        match module_named(path) {
            Some(id) => exists|outcome: Result<ModuleInfo, ControlError>|
                #![trigger call_ensures(ask, (id,), outcome)]
                call_ensures(ask, (id,), outcome) && reply@ == module_view(outcome_view(outcome)),
            None => reply@ == invalid_request_view(),
        },
{
    match module_id(path) {
        Ok(id) => module_reply(ask(id)),
        Err(_) => invalid_request(),
    }
}

/// Answers a request for a module.
pub fn get_module<C: RuntimeControl + ?Sized>(
    control: &C,
    path: Result<String, InvalidRequest>,
) -> (reply: Reply)
    ensures
        within_limit(reply@),
        failure_reported(reply@),
        match module_named(path) {
            Some(id) => exists|outcome: Result<ModuleInfo, ControlError>|
                #![trigger call_ensures(C::get_module, (control, id), outcome)]
                call_ensures(C::get_module, (control, id), outcome) && reply@ == module_view(
                    outcome_view(outcome),
                ),
            None => reply@ == invalid_request_view(),
        },
{
    let ask = |id: String| -> (outcome: Result<ModuleInfo, ControlError>)
        ensures
            call_ensures(C::get_module, (control, id), outcome),
        { control.get_module(id) };
    get_module_asking(path, ask)
}

/// Answers a request to delete a module, which `ask` is called for, once and no more.
pub fn delete_module_asking<F: FnOnce(String) -> Result<(), ControlError>>(
    path: Result<String, InvalidRequest>,
    ask: F,
) -> (reply: Reply)
    requires
        module_named(path) matches Some(id) ==> call_requires(ask, (id,)),
    ensures
        within_limit(reply@),
        failure_reported(reply@),
        match module_named(path) {
            Some(id) => exists|outcome: Result<(), ControlError>|
                #![trigger call_ensures(ask, (id,), outcome)]
                call_ensures(ask, (id,), outcome) && reply@ == done_view(outcome_view(outcome)),
            None => reply@ == invalid_request_view(),
        },
{
    match module_id(path) {
        Ok(id) => done_reply(ask(id)),
        Err(_) => invalid_request(),
    }
}

/// Answers a request to delete a module.
pub fn delete_module<C: RuntimeControl + ?Sized>(
    control: &C,
    path: Result<String, InvalidRequest>,
) -> (reply: Reply)
    ensures
        within_limit(reply@),
        failure_reported(reply@),
        match module_named(path) {
            Some(id) => exists|outcome: Result<(), ControlError>|
                #![trigger call_ensures(C::delete_module, (control, id), outcome)]
                call_ensures(C::delete_module, (control, id), outcome) && reply@ == done_view(
                    outcome_view(outcome),
                ),
            None => reply@ == invalid_request_view(),
        },
{
    let ask = |id: String| -> (outcome: Result<(), ControlError>)
        ensures
            call_ensures(C::delete_module, (control, id), outcome),
        { control.delete_module(id) };
    delete_module_asking(path, ask)
}

/// Answers a request to run a module, which `ask` is called for, once and no more.
pub fn run_module_asking<F: FnOnce(String) -> Result<(), ControlError>>(
    path: Result<String, InvalidRequest>,
    ask: F,
) -> (reply: Reply)
    requires
        module_named(path) matches Some(id) ==> call_requires(ask, (id,)),
    ensures
        within_limit(reply@),
        failure_reported(reply@),
        match module_named(path) {
            Some(id) => exists|outcome: Result<(), ControlError>|
                #![trigger call_ensures(ask, (id,), outcome)]
                call_ensures(ask, (id,), outcome) && reply@ == done_view(outcome_view(outcome)),
            None => reply@ == invalid_request_view(),
        },
{
    match module_id(path) {
        Ok(id) => done_reply(ask(id)),
        Err(_) => invalid_request(),
    }
}

/// Answers a request to run a module.
pub fn run_module<C: RuntimeControl + ?Sized>(
    control: &C,
    path: Result<String, InvalidRequest>,
) -> (reply: Reply)
    ensures
        within_limit(reply@),
        failure_reported(reply@),
        match module_named(path) {
            Some(id) => exists|outcome: Result<(), ControlError>|
                #![trigger call_ensures(C::run_module, (control, id), outcome)]
                call_ensures(C::run_module, (control, id), outcome) && reply@ == done_view(
                    outcome_view(outcome),
                ),
            None => reply@ == invalid_request_view(),
        },
{
    let ask = |id: String| -> (outcome: Result<(), ControlError>)
        ensures
            call_ensures(C::run_module, (control, id), outcome),
        { control.run_module(id) };
    run_module_asking(path, ask)
}

/// Answers a peer listing, which `ask` is called for, once and no more.
pub fn list_peers_asking<
    F: FnOnce(Option<Vec<u8>>, usize) -> Result<ControlPage<PeerInfo>, ControlError>,
>(query: Result<PageQuery, InvalidRequest>, ask: F) -> (reply: Reply)
    requires
        forall|after: Option<Vec<u8>>, limit: usize|
            page_asked(query, CursorKind::Peer) == Some((option_view(after), limit))
                ==> #[trigger] call_requires(ask, (after, limit)),
    ensures
        within_limit(reply@),
        failure_reported(reply@),
        match page_asked(query, CursorKind::Peer) {
            Some(asked) => exists|
                after: Option<Vec<u8>>,
                limit: usize,
                outcome: Result<ControlPage<PeerInfo>, ControlError>,
            |
                #![trigger call_ensures(ask, (after, limit), outcome)]
                asked == (option_view(after), limit) && call_ensures(ask, (after, limit), outcome)
                    && reply@ == peer_list_view(outcome_view(outcome)),
            None => reply@ == invalid_request_view(),
        },
{
    match parse_page_query(query, CursorKind::Peer) {
        Ok(asked) => peer_list_reply(ask(asked.cursor, asked.limit)),
        Err(_) => invalid_request(),
    }
}

/// Answers a peer listing.
pub fn list_peers<C: RuntimeControl + ?Sized>(
    control: &C,
    query: Result<PageQuery, InvalidRequest>,
) -> (reply: Reply)
    ensures
        within_limit(reply@),
        failure_reported(reply@),
        match page_asked(query, CursorKind::Peer) {
            Some(asked) => exists|
                after: Option<Vec<u8>>,
                limit: usize,
                outcome: Result<ControlPage<PeerInfo>, ControlError>,
            |
                #![trigger call_ensures(C::list_peers, (control, after, limit), outcome)]
                asked == (option_view(after), limit) && call_ensures(
                    C::list_peers,
                    (control, after, limit),
                    outcome,
                ) && reply@ == peer_list_view(outcome_view(outcome)),
            None => reply@ == invalid_request_view(),
        },
{
    let ask = |after: Option<Vec<u8>>, limit: usize| -> (outcome: Result<
        ControlPage<PeerInfo>,
        ControlError,
    >)
        ensures
            call_ensures(C::list_peers, (control, after, limit), outcome),
        { control.list_peers(after, limit) };
    list_peers_asking(query, ask)
}

/// Answers a key listing, which `ask` is called for, once and no more.
pub fn list_keys_asking<
    F: FnOnce(Vec<u8>, Option<Vec<u8>>, usize) -> Result<ControlPage<Vec<u8>>, ControlError>,
>(query: Result<KeyPageQuery, InvalidRequest>, ask: F) -> (reply: Reply)
    requires
        forall|under: Vec<u8>, after: Option<Vec<u8>>, limit: usize|
            keys_asked(query) == Some((under@, option_view(after), limit))
                ==> #[trigger] call_requires(ask, (under, after, limit)),
    ensures
        within_limit(reply@),
        failure_reported(reply@),
        match keys_asked(query) {
            Some(asked) => exists|
                under: Vec<u8>,
                after: Option<Vec<u8>>,
                limit: usize,
                outcome: Result<ControlPage<Vec<u8>>, ControlError>,
            |
                #![trigger call_ensures(ask, (under, after, limit), outcome)]
                asked == (under@, option_view(after), limit) && call_ensures(
                    ask,
                    (under, after, limit),
                    outcome,
                ) && reply@ == key_list_view(outcome_view(outcome)),
            None => reply@ == invalid_request_view(),
        },
{
    match parse_key_query(query) {
        Ok(asked) => key_list_reply(ask(asked.prefix, asked.cursor, asked.limit)),
        Err(_) => invalid_request(),
    }
}

/// Answers a key listing.
pub fn list_keys<C: RuntimeControl + ?Sized>(
    control: &C,
    query: Result<KeyPageQuery, InvalidRequest>,
) -> (reply: Reply)
    ensures
        within_limit(reply@),
        failure_reported(reply@),
        match keys_asked(query) {
            Some(asked) => exists|
                under: Vec<u8>,
                after: Option<Vec<u8>>,
                limit: usize,
                outcome: Result<ControlPage<Vec<u8>>, ControlError>,
            |
                #![trigger call_ensures(C::list_keys, (control, under, after, limit), outcome)]
                asked == (under@, option_view(after), limit) && call_ensures(
                    C::list_keys,
                    (control, under, after, limit),
                    outcome,
                ) && reply@ == key_list_view(outcome_view(outcome)),
            None => reply@ == invalid_request_view(),
        },
{
    let ask = |under: Vec<u8>, after: Option<Vec<u8>>, limit: usize| -> (outcome: Result<
        ControlPage<Vec<u8>>,
        ControlError,
    >)
        ensures
            call_ensures(C::list_keys, (control, under, after, limit), outcome),
        { control.list_keys(under, after, limit) };
    list_keys_asking(query, ask)
}

/// The text of the key that a path names and the key itself, where it names one.
pub open spec fn key_named(path: Result<String, InvalidRequest>) -> Option<(Seq<char>, Seq<u8>)> {
    match path {
        Ok(text) => match key_bytes(text@) {
            Some(key) => Some((text@, key)),
            None => None,
        },
        Err(_) => None,
    }
}

/// The text of the key that a path names and the key itself.
pub fn path_key(path: Result<String, InvalidRequest>) -> (named: Result<
    (String, Vec<u8>),
    InvalidRequest,
>)
    ensures
        option_view(named.ok()) == key_named(path),
{
    match path {
        Ok(text) => match decode_key(Some(text.as_str()), false) {
            Ok(key) => Ok((text, key)),
            Err(_) => Err(InvalidRequest),
        },
        Err(_) => Err(InvalidRequest),
    }
}

/// Answers a request for the value of a key, which `ask` is called for, once and no more.
pub fn get_value_asking<F: FnOnce(Vec<u8>) -> Result<Vec<u8>, ControlError>>(
    path: Result<String, InvalidRequest>,
    ask: F,
) -> (reply: Reply)
    requires
        forall|named: Vec<u8>|
            key_named(path) matches Some((_, key)) && named@ == key ==> #[trigger] call_requires(
                ask,
                (named,),
            ),
    ensures
        within_limit(reply@),
        failure_reported(reply@),
        match key_named(path) {
            Some((text, key)) => exists|named: Vec<u8>, outcome: Result<Vec<u8>, ControlError>|
                #![trigger call_ensures(ask, (named,), outcome)]
                named@ == key && call_ensures(ask, (named,), outcome) && reply@ == value_view(
                    text,
                    outcome_view(outcome),
                ),
            None => reply@ == invalid_request_view(),
        },
{
    match path_key(path) {
        Ok((text, key)) => value_reply(text.as_str(), ask(key)),
        Err(_) => invalid_request(),
    }
}

/// Answers a request for the value of a key.
pub fn get_value<C: RuntimeControl + ?Sized>(
    control: &C,
    path: Result<String, InvalidRequest>,
) -> (reply: Reply)
    ensures
        within_limit(reply@),
        failure_reported(reply@),
        match key_named(path) {
            Some((text, key)) => exists|
                named: Vec<u8>,
                outcome: Result<Vec<u8>, ControlError>,
            |
                #![trigger call_ensures(C::get_value, (control, named), outcome)]
                named@ == key && call_ensures(C::get_value, (control, named), outcome) && reply@
                    == value_view(text, outcome_view(outcome)),
            None => reply@ == invalid_request_view(),
        },
{
    let ask = |key: Vec<u8>| -> (outcome: Result<Vec<u8>, ControlError>)
        ensures
            call_ensures(C::get_value, (control, key), outcome),
        { control.get_value(key) };
    get_value_asking(path, ask)
}

/// Answers a health probe, which `ask` is called for, once and no more.
pub fn health_asking<F: FnOnce() -> bool>(ask: F) -> (reply: Reply)
    requires
        call_requires(ask, ()),
    ensures
        within_limit(reply@),
        failure_reported(reply@),
        exists|healthy: bool|
            #![trigger call_ensures(ask, (), healthy)]
            call_ensures(ask, (), healthy) && reply@ == health_view(healthy),
{
    health_reply(ask())
}

/// Answers a health probe.
pub fn health<C: RuntimeControl + ?Sized>(control: &C) -> (reply: Reply)
    ensures
        within_limit(reply@),
        failure_reported(reply@),
        exists|healthy: bool|
            #![trigger call_ensures(C::is_healthy, (control,), healthy)]
            call_ensures(C::is_healthy, (control,), healthy) && reply@ == health_view(healthy),
{
    let ask = || -> (healthy: bool)
        ensures
            call_ensures(C::is_healthy, (control,), healthy),
        { control.is_healthy() };
    health_asking(ask)
}

/// Answers a readiness probe, which `ask` is called for, once and no more.
pub fn ready_asking<F: FnOnce() -> bool>(ask: F) -> (reply: Reply)
    requires
        call_requires(ask, ()),
    ensures
        within_limit(reply@),
        failure_reported(reply@),
        exists|ready: bool|
            #![trigger call_ensures(ask, (), ready)]
            call_ensures(ask, (), ready) && reply@ == ready_view(ready),
{
    ready_reply(ask())
}

/// Answers a readiness probe.
pub fn ready<C: RuntimeControl + ?Sized>(control: &C) -> (reply: Reply)
    ensures
        within_limit(reply@),
        failure_reported(reply@),
        exists|ready: bool|
            #![trigger call_ensures(C::is_ready, (control,), ready)]
            call_ensures(C::is_ready, (control,), ready) && reply@ == ready_view(ready),
{
    let ask = || -> (ready: bool)
        ensures
            call_ensures(C::is_ready, (control,), ready),
        { control.is_ready() };
    ready_asking(ask)
}

} // verus!
