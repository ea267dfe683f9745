//! What each route of the management API comes to: what it refuses, what the node is asked, and what
//! is replied.

use crate::control::{
    ControlError, ControlPage, ModuleInfo, ModuleRegistration, PeerInfo, RuntimeControl,
};
use crate::json_laws::law_probe_and_failure_documents;
use crate::reply::{
    done_reply, health_reply, invalid_request_view, key_list_reply, module_list_reply, module_reply,
    payload_too_large_view, peer_list_reply, ready_reply, registration_reply,
    unsupported_media_type_view, value_reply, Reply,
};
use crate::reply_laws::fails;
use crate::request::{
    is_wasm_content_type, parse_key_query, parse_page_query, CursorKind, InvalidRequest,
    KeyPageQuery, PageQuery, ParsedKeyQuery, ParsedPageQuery,
};
use crate::request_laws::{cursor_of_kind, lemma_cursor_form, lemma_key_stands, stands_for};
use crate::routes::{
    delete_module, delete_module_asking, get_module, get_module_asking, get_value,
    get_value_asking, health, health_asking, key_named, list_keys, list_keys_asking, list_modules,
    list_modules_asking, list_peers, list_peers_asking, module_id, path_key, ready, ready_asking,
    register_module, register_module_asking, run_module, run_module_asking, upload_bytes, Upload,
};
use crate::views::option_view;
use vstd::prelude::*;
use vstd::utf8::*;

verus! {

proof fn lemma_refusals()
    ensures
        fails(invalid_request_view(), 400, "invalid_request"@, "invalid request"@),
        fails(
            unsupported_media_type_view(),
            415,
            "unsupported_media_type"@,
            "content type must be application/wasm"@,
        ),
        fails(
            payload_too_large_view(),
            413,
            "payload_too_large"@,
            "request body too large"@,
        ),
{
    law_probe_and_failure_documents(Seq::empty(), "invalid_request"@, "invalid request"@);
    law_probe_and_failure_documents(
        Seq::empty(),
        "unsupported_media_type"@,
        "content type must be application/wasm"@,
    );
    law_probe_and_failure_documents(Seq::empty(), "payload_too_large"@, "request body too large"@);
}

/// Whether an upload is accepted depends on its media type and its length alone: one that names the
/// media type and was received whole, with 1 to 16777216 bytes, is accepted as it is, byte for
/// byte, whatever the bytes are. Any other is refused, first for its media type, then for its size,
/// and an empty or unreadable one as malformed.
pub proof fn law_upload_is_accepted_for_its_type_and_length(
    content_type: Option<&[u8]>,
    body: Upload,
    named: bool,
    accepted: Result<Vec<u8>, Reply>,
)
    requires
        call_ensures(is_wasm_content_type, (content_type,), named),
        call_ensures(upload_bytes, (content_type, body), accepted),
    ensures
        accepted is Ok <==> named && body is Received && 1 <= body->Received_0@.len() <= 16777216,
        accepted is Ok ==> accepted->Ok_0@ == body->Received_0@,
        !named ==> fails(
            accepted->Err_0@,
            415,
            "unsupported_media_type"@,
            "content type must be application/wasm"@,
        ),
        named && (body is TooLarge || (body is Received && body->Received_0@.len() > 16777216))
            ==> fails(
            accepted->Err_0@,
            413,
            "payload_too_large"@,
            "request body too large"@,
        ),
        named && (body is Unreadable || (body is Received && body->Received_0@.len() == 0))
            ==> fails(accepted->Err_0@, 400, "invalid_request"@, "invalid request"@),
{
    lemma_refusals();
    if let Some(value) = content_type {
        assert(option_view(content_type) == Some(value@));
    }
}

/// A path names the module whose identifier it holds, exactly where that is 64 digits 0 to 9 and a
/// to f.
pub proof fn law_path_names_a_module(
    path: Result<String, InvalidRequest>,
    id: Result<String, InvalidRequest>,
)
    requires
        call_ensures(module_id, (path,), id),
    ensures
        id is Ok <==> path is Ok && cursor_of_kind(
            CursorKind::Module,
            encode_utf8(path->Ok_0@),
        ),
        id is Ok ==> id->Ok_0@ == path->Ok_0@,
{
    if path is Ok {
        lemma_cursor_form(CursorKind::Module, encode_utf8(path->Ok_0@));
    }
}

/// A path names the key that its text stands for, exactly where it stands for one.
pub proof fn law_path_names_a_key(
    path: Result<String, InvalidRequest>,
    named: Result<(String, Vec<u8>), InvalidRequest>,
    key: Seq<u8>,
)
    requires
        call_ensures(path_key, (path,), named),
    ensures
        named is Ok ==> path is Ok && named->Ok_0.0@ == path->Ok_0@ && stands_for(
            path->Ok_0@,
            named->Ok_0.1@,
        ),
        path is Ok && stands_for(path->Ok_0@, key) ==> named is Ok && named->Ok_0.1@ == key,
{
    assert(option_view(named.ok()) == key_named(path));
    if path is Ok {
        lemma_key_stands(path->Ok_0@, key);
    }
    if let Ok(pair) = named {
        assert(option_view(named.ok()) == Some(pair@));
        assert(pair@ == (pair.0@, pair.1@));
        lemma_key_stands(path->Ok_0@, pair.1@);
    }
}

/// A request for a module is refused where its path names none, and else asks the node for exactly
/// that module and replies what it says.
pub proof fn law_module_request_asks_for_its_module<
    F: FnOnce(String) -> Result<ModuleInfo, ControlError>,
    C: RuntimeControl + ?Sized,
>(
    control: &C,
    ask: F,
    path: Result<String, InvalidRequest>,
    parsed: Result<String, InvalidRequest>,
    reply: Reply,
    direct: Reply,
)
    requires
        call_ensures(module_id, (path,), parsed),
        call_ensures(get_module_asking::<F>, (path, ask), reply),
        call_ensures(get_module::<C>, (control, path), direct),
    ensures
        parsed is Err ==> fails(reply@, 400, "invalid_request"@, "invalid request"@) && fails(
            direct@,
            400,
            "invalid_request"@,
            "invalid request"@,
        ),
        parsed is Ok ==> exists|outcome: Result<ModuleInfo, ControlError>|
            #![trigger call_ensures(ask, (parsed->Ok_0,), outcome)]
            call_ensures(ask, (parsed->Ok_0,), outcome) && forall|made: Reply|
                call_ensures(module_reply, (outcome,), made) ==> #[trigger] made@ == reply@,
        parsed is Ok ==> exists|outcome: Result<ModuleInfo, ControlError>|
            #![trigger call_ensures(C::get_module, (control, parsed->Ok_0), outcome)]
            call_ensures(C::get_module, (control, parsed->Ok_0), outcome) && forall|made: Reply|
                call_ensures(module_reply, (outcome,), made) ==> #[trigger] made@ == direct@,
{
    lemma_refusals();
}

/// A request to delete a module is refused where its path names none, and else asks the node to
/// delete exactly that module and replies what it says.
pub proof fn law_deletion_request_asks_for_its_module<
    F: FnOnce(String) -> Result<(), ControlError>,
    C: RuntimeControl + ?Sized,
>(
    control: &C,
    ask: F,
    path: Result<String, InvalidRequest>,
    parsed: Result<String, InvalidRequest>,
    reply: Reply,
    direct: Reply,
)
    requires
        call_ensures(module_id, (path,), parsed),
        call_ensures(delete_module_asking::<F>, (path, ask), reply),
        call_ensures(delete_module::<C>, (control, path), direct),
    ensures
        parsed is Err ==> fails(reply@, 400, "invalid_request"@, "invalid request"@) && fails(
            direct@,
            400,
            "invalid_request"@,
            "invalid request"@,
        ),
        parsed is Ok ==> exists|outcome: Result<(), ControlError>|
            #![trigger call_ensures(ask, (parsed->Ok_0,), outcome)]
            call_ensures(ask, (parsed->Ok_0,), outcome) && forall|made: Reply|
                call_ensures(done_reply, (outcome,), made) ==> #[trigger] made@ == reply@,
        parsed is Ok ==> exists|outcome: Result<(), ControlError>|
            #![trigger call_ensures(C::delete_module, (control, parsed->Ok_0), outcome)]
            call_ensures(C::delete_module, (control, parsed->Ok_0), outcome) && forall|made: Reply|
                call_ensures(done_reply, (outcome,), made) ==> #[trigger] made@ == direct@,
{
    lemma_refusals();
}

/// A request to run a module is refused where its path names none, and else asks the node to run
/// exactly that module and replies what it says.
pub proof fn law_run_request_asks_for_its_module<
    F: FnOnce(String) -> Result<(), ControlError>,
    C: RuntimeControl + ?Sized,
>(
    control: &C,
    ask: F,
    path: Result<String, InvalidRequest>,
    parsed: Result<String, InvalidRequest>,
    reply: Reply,
    direct: Reply,
)
    requires
        call_ensures(module_id, (path,), parsed),
        call_ensures(run_module_asking::<F>, (path, ask), reply),
        call_ensures(run_module::<C>, (control, path), direct),
    ensures
        parsed is Err ==> fails(reply@, 400, "invalid_request"@, "invalid request"@) && fails(
            direct@,
            400,
            "invalid_request"@,
            "invalid request"@,
        ),
        parsed is Ok ==> exists|outcome: Result<(), ControlError>|
            #![trigger call_ensures(ask, (parsed->Ok_0,), outcome)]
            call_ensures(ask, (parsed->Ok_0,), outcome) && forall|made: Reply|
                call_ensures(done_reply, (outcome,), made) ==> #[trigger] made@ == reply@,
        parsed is Ok ==> exists|outcome: Result<(), ControlError>|
            #![trigger call_ensures(C::run_module, (control, parsed->Ok_0), outcome)]
            call_ensures(C::run_module, (control, parsed->Ok_0), outcome) && forall|made: Reply|
                call_ensures(done_reply, (outcome,), made) ==> #[trigger] made@ == direct@,
{
    lemma_refusals();
}

/// A module listing is refused where its query is, and else asks the node for what the query asks
/// and replies the page that it gives.
pub proof fn law_module_listing_asks_what_its_query_asks<
    F: FnOnce(Option<Vec<u8>>, usize) -> Result<ControlPage<ModuleInfo>, ControlError>,
    C: RuntimeControl + ?Sized,
>(
    control: &C,
    ask: F,
    query: Result<PageQuery, InvalidRequest>,
    parsed: Result<ParsedPageQuery, InvalidRequest>,
    reply: Reply,
    direct: Reply,
)
    requires
        call_ensures(parse_page_query, (query, CursorKind::Module), parsed),
        call_ensures(list_modules_asking::<F>, (query, ask), reply),
        call_ensures(list_modules::<C>, (control, query), direct),
    ensures
        parsed is Err ==> fails(reply@, 400, "invalid_request"@, "invalid request"@) && fails(
            direct@,
            400,
            "invalid_request"@,
            "invalid request"@,
        ),
        parsed is Ok ==> exists|
                after: Option<Vec<u8>>, limit: usize,
                outcome: Result<ControlPage<ModuleInfo>, ControlError>,
            |
            #![trigger call_ensures(ask, (after, limit), outcome)]
            option_view(after) == option_view(parsed->Ok_0.cursor) && limit == parsed->Ok_0.limit
                && call_ensures(ask, (after, limit), outcome) && forall|made: Reply|
                call_ensures(module_list_reply, (outcome,), made) ==> #[trigger] made@ == reply@,
        parsed is Ok ==> exists|
                after: Option<Vec<u8>>, limit: usize,
                outcome: Result<ControlPage<ModuleInfo>, ControlError>,
            |
            #![trigger call_ensures(C::list_modules, (control, after, limit), outcome)]
            option_view(after) == option_view(parsed->Ok_0.cursor) && limit == parsed->Ok_0.limit
                && call_ensures(C::list_modules, (control, after, limit), outcome)
                && forall|made: Reply|
                call_ensures(module_list_reply, (outcome,), made) ==> #[trigger] made@ == direct@,
{
    lemma_refusals();
}

/// A peer listing is refused where its query is, and else asks the node for what the query asks and
/// replies the page that it gives.
pub proof fn law_peer_listing_asks_what_its_query_asks<
    F: FnOnce(Option<Vec<u8>>, usize) -> Result<ControlPage<PeerInfo>, ControlError>,
    C: RuntimeControl + ?Sized,
>(
    control: &C,
    ask: F,
    query: Result<PageQuery, InvalidRequest>,
    parsed: Result<ParsedPageQuery, InvalidRequest>,
    reply: Reply,
    direct: Reply,
)
    requires
        call_ensures(parse_page_query, (query, CursorKind::Peer), parsed),
        call_ensures(list_peers_asking::<F>, (query, ask), reply),
        call_ensures(list_peers::<C>, (control, query), direct),
    ensures
        parsed is Err ==> fails(reply@, 400, "invalid_request"@, "invalid request"@) && fails(
            direct@,
            400,
            "invalid_request"@,
            "invalid request"@,
        ),
        parsed is Ok ==> exists|
                after: Option<Vec<u8>>, limit: usize,
                outcome: Result<ControlPage<PeerInfo>, ControlError>,
            |
            #![trigger call_ensures(ask, (after, limit), outcome)]
            option_view(after) == option_view(parsed->Ok_0.cursor) && limit == parsed->Ok_0.limit
                && call_ensures(ask, (after, limit), outcome) && forall|made: Reply|
                call_ensures(peer_list_reply, (outcome,), made) ==> #[trigger] made@ == reply@,
        parsed is Ok ==> exists|
                after: Option<Vec<u8>>, limit: usize,
                outcome: Result<ControlPage<PeerInfo>, ControlError>,
            |
            #![trigger call_ensures(C::list_peers, (control, after, limit), outcome)]
            option_view(after) == option_view(parsed->Ok_0.cursor) && limit == parsed->Ok_0.limit
                && call_ensures(C::list_peers, (control, after, limit), outcome)
                && forall|made: Reply|
                call_ensures(peer_list_reply, (outcome,), made) ==> #[trigger] made@ == direct@,
{
    lemma_refusals();
}

/// A key listing is refused where its query is, and else asks the node for what the query asks and
/// replies the page that it gives.
pub proof fn law_key_listing_asks_what_its_query_asks<
    F: FnOnce(Vec<u8>, Option<Vec<u8>>, usize) -> Result<ControlPage<Vec<u8>>, ControlError>,
    C: RuntimeControl + ?Sized,
>(
    control: &C,
    ask: F,
    query: Result<KeyPageQuery, InvalidRequest>,
    parsed: Result<ParsedKeyQuery, InvalidRequest>,
    reply: Reply,
    direct: Reply,
)
    requires
        call_ensures(parse_key_query, (query,), parsed),
        call_ensures(list_keys_asking::<F>, (query, ask), reply),
        call_ensures(list_keys::<C>, (control, query), direct),
    ensures
        parsed is Err ==> fails(reply@, 400, "invalid_request"@, "invalid request"@) && fails(
            direct@,
            400,
            "invalid_request"@,
            "invalid request"@,
        ),
        parsed is Ok ==> exists|
                under: Vec<u8>, after: Option<Vec<u8>>, limit: usize,
                outcome: Result<ControlPage<Vec<u8>>, ControlError>,
            |
            #![trigger call_ensures(ask, (under, after, limit), outcome)]
            under@ == parsed->Ok_0.prefix@ && option_view(after) == option_view(parsed->Ok_0.cursor)
                && limit == parsed->Ok_0.limit
                && call_ensures(ask, (under, after, limit), outcome)
                && forall|made: Reply|
                call_ensures(key_list_reply, (outcome,), made) ==> #[trigger] made@ == reply@,
        parsed is Ok ==> exists|
                under: Vec<u8>, after: Option<Vec<u8>>, limit: usize,
                outcome: Result<ControlPage<Vec<u8>>, ControlError>,
            |
            #![trigger call_ensures(C::list_keys, (control, under, after, limit), outcome)]
            under@ == parsed->Ok_0.prefix@ && option_view(after) == option_view(parsed->Ok_0.cursor)
                && limit == parsed->Ok_0.limit
                && call_ensures(C::list_keys, (control, under, after, limit), outcome)
                && forall|made: Reply|
                call_ensures(key_list_reply, (outcome,), made) ==> #[trigger] made@ == direct@,
{
    lemma_refusals();
}

/// A request for a value is refused where its path names no key, and else asks the node for exactly
/// that key and replies the value that it gives, with the key's text.
pub proof fn law_value_request_asks_for_its_key<
    F: FnOnce(Vec<u8>) -> Result<Vec<u8>, ControlError>,
    C: RuntimeControl + ?Sized,
>(
    control: &C,
    ask: F,
    path: Result<String, InvalidRequest>,
    text: &str,
    parsed: Result<(String, Vec<u8>), InvalidRequest>,
    reply: Reply,
    direct: Reply,
)
    requires
        call_ensures(path_key, (path,), parsed),
        parsed is Ok ==> text@ == parsed->Ok_0.0@,
        call_ensures(get_value_asking::<F>, (path, ask), reply),
        call_ensures(get_value::<C>, (control, path), direct),
    ensures
        parsed is Err ==> fails(reply@, 400, "invalid_request"@, "invalid request"@) && fails(
            direct@,
            400,
            "invalid_request"@,
            "invalid request"@,
        ),
        parsed is Ok ==> exists|
                key: Vec<u8>,
                outcome: Result<Vec<u8>, ControlError>,
            |
            #![trigger call_ensures(ask, (key,), outcome)]
            key@ == parsed->Ok_0.1@ && call_ensures(ask, (key,), outcome) && forall|made: Reply|
                call_ensures(value_reply, (text, outcome), made) ==> #[trigger] made@ == reply@,
        parsed is Ok ==> exists|
                key: Vec<u8>,
                outcome: Result<Vec<u8>, ControlError>,
            |
            #![trigger call_ensures(C::get_value, (control, key), outcome)]
            key@ == parsed->Ok_0.1@
                && call_ensures(C::get_value, (control, key), outcome)
                && forall|made: Reply|
                call_ensures(value_reply, (text, outcome), made) ==> #[trigger] made@ == direct@,
{
    lemma_refusals();
    if let Ok(pair) = parsed {
        assert(option_view(parsed.ok()) == Some(pair@));
        assert(pair@ == (pair.0@, pair.1@));
    }
}

/// An upload is answered with its refusal where it is refused, and else asks the node to register
/// exactly its bytes and replies what it says.
pub proof fn law_upload_asks_to_register_its_bytes<
    F: FnOnce(Vec<u8>) -> Result<ModuleRegistration, ControlError>,
    C: RuntimeControl + ?Sized,
>(
    control: &C,
    ask: F,
    content_type: Option<&[u8]>,
    body: Upload,
    parsed: Result<Vec<u8>, Reply>,
    reply: Reply,
    direct: Reply,
)
    requires
        call_ensures(upload_bytes, (content_type, body), parsed),
        call_ensures(register_module_asking::<F>, (content_type, body, ask), reply),
        call_ensures(register_module::<C>, (control, content_type, body), direct),
    ensures
        parsed is Err ==> reply@ == parsed->Err_0@ && direct@ == parsed->Err_0@,
        parsed is Ok ==> exists|
                bytes: Vec<u8>,
                outcome: Result<ModuleRegistration, ControlError>,
            |
            #![trigger call_ensures(ask, (bytes,), outcome)]
            bytes@ == parsed->Ok_0@ && call_ensures(ask, (bytes,), outcome) && forall|made: Reply|
                call_ensures(registration_reply, (outcome,), made) ==> #[trigger] made@ == reply@,
        parsed is Ok ==> exists|
                bytes: Vec<u8>,
                outcome: Result<ModuleRegistration, ControlError>,
            |
            #![trigger call_ensures(C::register_module, (control, bytes), outcome)]
            bytes@ == parsed->Ok_0@
                && call_ensures(C::register_module, (control, bytes), outcome)
                && forall|made: Reply|
                call_ensures(registration_reply, (outcome,), made) ==> #[trigger] made@ == direct@,
{
    lemma_refusals();
}

/// A health probe asks the node and replies what it says.
pub proof fn law_health_probe_asks_the_node<
    F: FnOnce() -> bool,
    C: RuntimeControl + ?Sized,
>(
    control: &C,
    ask: F,
    reply: Reply,
    direct: Reply,
)
    requires
        call_ensures(health_asking::<F>, (ask,), reply),
        call_ensures(health::<C>, (control,), direct),
    ensures
        exists|up: bool|
            #![trigger call_ensures(ask, (), up)]
            call_ensures(ask, (), up) && forall|made: Reply|
                call_ensures(health_reply, (up,), made) ==> #[trigger] made@ == reply@,
        exists|up: bool|
            #![trigger call_ensures(C::is_healthy, (control,), up)]
            call_ensures(C::is_healthy, (control,), up) && forall|made: Reply|
                call_ensures(health_reply, (up,), made) ==> #[trigger] made@ == direct@,
{
}

/// A readiness probe asks the node and replies what it says.
pub proof fn law_ready_probe_asks_the_node<
    F: FnOnce() -> bool,
    C: RuntimeControl + ?Sized,
>(
    control: &C,
    ask: F,
    reply: Reply,
    direct: Reply,
)
    requires
        call_ensures(ready_asking::<F>, (ask,), reply),
        call_ensures(ready::<C>, (control,), direct),
    ensures
        exists|up: bool|
            #![trigger call_ensures(ask, (), up)]
            call_ensures(ask, (), up) && forall|made: Reply|
                call_ensures(ready_reply, (up,), made) ==> #[trigger] made@ == reply@,
        exists|up: bool|
            #![trigger call_ensures(C::is_ready, (control,), up)]
            call_ensures(C::is_ready, (control,), up) && forall|made: Reply|
                call_ensures(ready_reply, (up,), made) ==> #[trigger] made@ == direct@,
{
}

} // verus!
