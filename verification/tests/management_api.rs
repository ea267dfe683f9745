//! The management API against a node that is held in memory.

use std::collections::BTreeMap;
use std::sync::Mutex;

use base64::engine::general_purpose::URL_SAFE_NO_PAD;
use base64::Engine;
use numax_control::control::{
    ControlError, ControlPage, ModuleInfo, ModuleRegistration, PeerInfo, RuntimeIntrospection,
    RuntimeManagement,
};
use numax_control::reply::{
    bounded_key_page, method_not_allowed, not_found, Reply, MAX_RESPONSE_BODY_SIZE,
};
use numax_control::request::{InvalidRequest, KeyPageQuery, PageQuery, MAX_KEY_SIZE, MAX_UPLOAD_SIZE};
use numax_control::routes::{self, Upload};
use serde_json::Value;

#[derive(Default)]
struct TestControl {
    modules: Mutex<BTreeMap<String, ModuleInfo>>,
    ready: Mutex<bool>,
    asked: Mutex<Vec<String>>,
}

impl TestControl {
    fn module_id(bytes: &[u8]) -> String {
        format!("{:064x}", bytes.len())
    }

    fn note(&self, question: String) {
        self.asked.lock().unwrap().push(question);
    }

    fn asked(&self) -> Vec<String> {
        self.asked.lock().unwrap().clone()
    }
}

impl RuntimeIntrospection for TestControl {
    fn list_modules(
        &self,
        cursor: Option<Vec<u8>>,
        limit: usize,
    ) -> Result<ControlPage<ModuleInfo>, ControlError> {
        self.note(format!("list_modules {cursor:?} {limit}"));
        let cursor = cursor
            .map(String::from_utf8)
            .transpose()
            .map_err(|_| ControlError::InvalidCursor)?;
        let mut items = self
            .modules
            .lock()
            .unwrap()
            .values()
            .filter(|module| cursor.as_ref().map_or(true, |cursor| &module.id > cursor))
            .take(limit + 1)
            .cloned()
            .collect::<Vec<_>>();
        let has_more = items.len() > limit;
        items.truncate(limit);
        let next_cursor = if has_more {
            Some(items.last().unwrap().id.as_bytes().to_vec())
        } else {
            None
        };
        Ok(ControlPage { items, next_cursor })
    }

    fn get_module(&self, id: String) -> Result<ModuleInfo, ControlError> {
        self.note(format!("get_module {id}"));
        self.modules
            .lock()
            .unwrap()
            .get(&id)
            .cloned()
            .ok_or(ControlError::ModuleNotFound)
    }

    fn list_peers(
        &self,
        cursor: Option<Vec<u8>>,
        limit: usize,
    ) -> Result<ControlPage<PeerInfo>, ControlError> {
        self.note(format!("list_peers {cursor:?} {limit}"));
        let cursor = cursor
            .map(String::from_utf8)
            .transpose()
            .map_err(|_| ControlError::InvalidCursor)?;
        let mut items = [
            PeerInfo {
                address: "127.0.0.1:9001".to_string(),
                node_id: "node-a".to_string(),
            },
            PeerInfo {
                address: "127.0.0.1:9002".to_string(),
                node_id: "node-b".to_string(),
            },
        ]
        .into_iter()
        .filter(|peer| cursor.as_ref().map_or(true, |cursor| &peer.address > cursor))
        .take(limit + 1)
        .collect::<Vec<_>>();
        let has_more = items.len() > limit;
        items.truncate(limit);
        let next_cursor = if has_more {
            Some(items.last().unwrap().address.as_bytes().to_vec())
        } else {
            None
        };
        Ok(ControlPage { items, next_cursor })
    }

    fn list_keys(
        &self,
        prefix: Vec<u8>,
        cursor: Option<Vec<u8>>,
        limit: usize,
    ) -> Result<ControlPage<Vec<u8>>, ControlError> {
        self.note(format!("list_keys {prefix:?} {cursor:?} {limit}"));
        let mut items = [b"app:a".to_vec(), b"app:b".to_vec(), vec![0, 255, b'k']]
            .into_iter()
            .filter(|key| key.starts_with(&prefix))
            .filter(|key| cursor.as_ref().map_or(true, |cursor| key > cursor))
            .take(limit + 1)
            .collect::<Vec<_>>();
        items.sort();
        let has_more = items.len() > limit;
        items.truncate(limit);
        let next_cursor = if has_more {
            Some(items.last().unwrap().clone())
        } else {
            None
        };
        Ok(ControlPage { items, next_cursor })
    }

    fn get_value(&self, key: Vec<u8>) -> Result<Vec<u8>, ControlError> {
        self.note(format!("get_value {key:?}"));
        match key.as_slice() {
            [0, 255, b'k'] => Ok(vec![0, 1, 255]),
            [] => Ok(b"of the empty key".to_vec()),
            b"full" => Ok(vec![7; MAX_RESPONSE_BODY_SIZE]),
            b"over" => Ok(vec![7; MAX_RESPONSE_BODY_SIZE + 1]),
            _ => Err(ControlError::KeyNotFound),
        }
    }

    fn is_healthy(&self) -> bool {
        true
    }

    fn is_ready(&self) -> bool {
        *self.ready.lock().unwrap()
    }
}

impl RuntimeManagement for TestControl {
    fn register_module(&self, bytes: Vec<u8>) -> Result<ModuleRegistration, ControlError> {
        self.note(format!("register_module {}", bytes.len()));
        if bytes == b"invalid" {
            return Err(ControlError::InvalidModule("test rejection".to_string()));
        }
        let id = Self::module_id(&bytes);
        let module = ModuleInfo {
            id: id.clone(),
            size_bytes: bytes.len() as u64,
        };
        let created = self
            .modules
            .lock()
            .unwrap()
            .insert(id, module.clone())
            .is_none();
        Ok(ModuleRegistration { module, created })
    }

    fn delete_module(&self, id: String) -> Result<(), ControlError> {
        self.note(format!("delete_module {id}"));
        self.modules.lock().unwrap().remove(&id);
        Ok(())
    }

    fn run_module(&self, id: String) -> Result<(), ControlError> {
        self.note(format!("run_module {id}"));
        if id == "f".repeat(64) {
            return Err(ControlError::ModuleExecutionFailed("test trap".to_string()));
        }
        if self.modules.lock().unwrap().contains_key(&id) {
            Ok(())
        } else {
            Err(ControlError::ModuleNotFound)
        }
    }
}

/// The text that `encoded` stands for with its percent escapes, where it is UTF-8.
fn percent_decoded(encoded: &str) -> Result<String, InvalidRequest> {
    let raw = encoded.as_bytes();
    let mut bytes = Vec::new();
    let mut i = 0;
    while i < raw.len() {
        if raw[i] == b'%' && i + 2 < raw.len() {
            let digits = std::str::from_utf8(&raw[i + 1..i + 3]).unwrap();
            bytes.push(u8::from_str_radix(digits, 16).unwrap());
            i += 3;
        } else {
            bytes.push(raw[i]);
            i += 1;
        }
    }
    String::from_utf8(bytes).map_err(|_| InvalidRequest)
}

/// The parameters of a query, which may be `allowed` ones only.
fn parameters(query: &str, allowed: &[&str]) -> Result<BTreeMap<String, String>, InvalidRequest> {
    let mut found = BTreeMap::new();
    for pair in query.split('&').filter(|pair| !pair.is_empty()) {
        let (name, value) = pair.split_once('=').ok_or(InvalidRequest)?;
        if !allowed.contains(&name) {
            return Err(InvalidRequest);
        }
        found.insert(name.to_string(), percent_decoded(value)?);
    }
    Ok(found)
}

fn limit_of(found: &BTreeMap<String, String>) -> Result<Option<usize>, InvalidRequest> {
    match found.get("limit") {
        Some(limit) => limit.parse().map(Some).map_err(|_| InvalidRequest),
        None => Ok(None),
    }
}

fn page_query(query: &str) -> Result<PageQuery, InvalidRequest> {
    let found = parameters(query, &["cursor", "limit"])?;
    Ok(PageQuery {
        cursor: found.get("cursor").cloned(),
        limit: limit_of(&found)?,
    })
}

fn key_page_query(query: &str) -> Result<KeyPageQuery, InvalidRequest> {
    let found = parameters(query, &["prefix", "cursor", "limit"])?;
    Ok(KeyPageQuery {
        prefix: found.get("prefix").cloned(),
        cursor: found.get("cursor").cloned(),
        limit: limit_of(&found)?,
    })
}

/// Sends a request to the handler of its path and method.
fn call(
    control: &TestControl,
    method: &str,
    uri: &str,
    content_type: Option<&str>,
    body: &[u8],
) -> Reply {
    let (path, query) = uri.split_once('?').unwrap_or((uri, ""));
    let path = path.strip_prefix("/api/v1/").unwrap_or("");
    let parts: Vec<&str> = path.split('/').collect();
    match (method, parts.as_slice()) {
        ("POST", ["modules"]) => routes::register_module(
            control,
            content_type.map(|value| value.as_bytes()),
            Upload::Received(body.to_vec()),
        ),
        ("GET", ["modules"]) => routes::list_modules(control, page_query(query)),
        ("GET", ["modules", id]) => routes::get_module(control, percent_decoded(id)),
        ("DELETE", ["modules", id]) => routes::delete_module(control, percent_decoded(id)),
        ("POST", ["modules", id, "runs"]) => routes::run_module(control, percent_decoded(id)),
        ("GET", ["peers"]) => routes::list_peers(control, page_query(query)),
        ("GET", ["keys"]) => routes::list_keys(control, key_page_query(query)),
        ("GET", ["keys", key]) => routes::get_value(control, percent_decoded(key)),
        ("GET", ["health"]) => routes::health(control),
        ("GET", ["ready"]) => routes::ready(control),
        (_, ["modules"] | ["modules", _] | ["modules", _, "runs"]) => method_not_allowed(),
        (_, ["peers"] | ["keys"] | ["keys", _] | ["health"] | ["ready"]) => method_not_allowed(),
        _ => not_found(),
    }
}

fn header<'a>(reply: &'a Reply, name: &str) -> Option<&'a str> {
    reply
        .headers
        .iter()
        .find(|header| header.0 == name)
        .map(|header| header.1.as_str())
}

fn json(reply: &Reply) -> Value {
    assert_eq!(header(reply, "content-type"), Some("application/json"));
    serde_json::from_slice(&reply.body).unwrap()
}

#[test]
fn registration_enforces_media_type_validation_and_idempotency() {
    let control = TestControl::default();

    let unsupported = call(
        &control,
        "POST",
        "/api/v1/modules",
        Some("application/octet-stream"),
        b"wasm",
    );
    assert_eq!(unsupported.status, 415);

    let empty = call(&control, "POST", "/api/v1/modules", Some("application/wasm"), b"");
    assert_eq!(empty.status, 400);

    let invalid = call(
        &control,
        "POST",
        "/api/v1/modules",
        Some("application/wasm; charset=binary"),
        b"invalid",
    );
    assert_eq!(invalid.status, 422);
    assert_eq!(json(&invalid)["error"]["code"], "module_invalid");

    let created = call(&control, "POST", "/api/v1/modules", Some("application/wasm"), b"wasm");
    let id = TestControl::module_id(b"wasm");
    assert_eq!(created.status, 201);
    assert_eq!(
        header(&created, "location"),
        Some(format!("/api/v1/modules/{id}").as_str())
    );
    let created_body = json(&created);
    assert_eq!(created_body["id"], id);
    assert_eq!(created_body["size_bytes"], 4);

    let duplicate = call(&control, "POST", "/api/v1/modules", Some("application/wasm"), b"wasm");
    assert_eq!(duplicate.status, 200);
    assert!(header(&duplicate, "location").is_none());
}

#[test]
fn module_routes_cover_list_get_run_and_idempotent_delete() {
    let control = TestControl::default();
    let registered = call(&control, "POST", "/api/v1/modules", Some("application/wasm"), b"wasm");
    let id = json(&registered)["id"].as_str().unwrap().to_string();

    let listed = call(&control, "GET", "/api/v1/modules?limit=1", None, b"");
    assert_eq!(listed.status, 200);
    assert_eq!(json(&listed)["items"][0]["id"], id);

    let inspected = call(&control, "GET", &format!("/api/v1/modules/{id}"), None, b"");
    assert_eq!(inspected.status, 200);

    let run = call(&control, "POST", &format!("/api/v1/modules/{id}/runs"), None, b"");
    assert_eq!(run.status, 204);

    for _ in 0..2 {
        let deleted = call(&control, "DELETE", &format!("/api/v1/modules/{id}"), None, b"");
        assert_eq!(deleted.status, 204);
    }

    let missing = call(&control, "GET", &format!("/api/v1/modules/{id}"), None, b"");
    assert_eq!(missing.status, 404);
    assert_eq!(json(&missing)["error"]["message"], "module not found");

    let execution_failed = call(
        &TestControl::default(),
        "POST",
        &format!("/api/v1/modules/{}/runs", "f".repeat(64)),
        None,
        b"",
    );
    assert_eq!(execution_failed.status, 422);
    assert_eq!(
        json(&execution_failed)["error"]["code"],
        "module_execution_failed"
    );
}

#[test]
fn collection_queries_and_binary_keys_are_strict_and_binary_safe() {
    let control = TestControl::default();

    for uri in [
        "/api/v1/modules?limit=0",
        "/api/v1/modules?limit=101",
        "/api/v1/modules?unknown=true",
        "/api/v1/modules?cursor=not-a-module-cursor",
        "/api/v1/keys?prefix=%25%25%25",
        "/api/v1/keys/%FF",
    ] {
        let reply = call(&control, "GET", uri, None, b"");
        assert_eq!(reply.status, 400, "{uri}");
    }

    let prefix = URL_SAFE_NO_PAD.encode(b"app:");
    let keys = call(
        &control,
        "GET",
        &format!("/api/v1/keys?prefix={prefix}&limit=1"),
        None,
        b"",
    );
    assert_eq!(keys.status, 200);
    let keys = json(&keys);
    assert_eq!(keys["items"][0], URL_SAFE_NO_PAD.encode(b"app:a"));
    assert_eq!(keys["next_cursor"], URL_SAFE_NO_PAD.encode(b"app:a"));

    let binary_key = URL_SAFE_NO_PAD.encode([0, 255, b'k']);
    let value = call(&control, "GET", &format!("/api/v1/keys/{binary_key}"), None, b"");
    assert_eq!(value.status, 200);
    assert_eq!(header(&value, "content-type"), Some("application/octet-stream"));
    assert_eq!(header(&value, "x-numax-key"), Some(binary_key.as_str()));
    assert_eq!(value.body, vec![0, 1, 255]);
}

#[test]
fn peer_pagination_probes_and_fallbacks_follow_the_json_contract() {
    let control = TestControl::default();

    let peers = call(&control, "GET", "/api/v1/peers?limit=1", None, b"");
    assert_eq!(peers.status, 200);
    let peers = json(&peers);
    assert_eq!(peers["items"][0]["node_id"], "node-a");
    assert_eq!(peers["next_cursor"], URL_SAFE_NO_PAD.encode(b"127.0.0.1:9001"));

    let health = call(&control, "GET", "/api/v1/health", None, b"");
    assert_eq!(health.status, 200);
    assert_eq!(json(&health)["status"], "healthy");

    let not_ready = call(&control, "GET", "/api/v1/ready", None, b"");
    assert_eq!(not_ready.status, 503);
    assert_eq!(header(&not_ready, "retry-after"), Some("1"));
    *control.ready.lock().unwrap() = true;
    let ready = call(&control, "GET", "/api/v1/ready", None, b"");
    assert_eq!(ready.status, 200);

    let missing = call(&control, "GET", "/api/v1/missing", None, b"");
    assert_eq!(missing.status, 404);
    assert_eq!(json(&missing)["error"]["code"], "not_found");

    let wrong_method = call(&control, "PATCH", "/api/v1/health", None, b"");
    assert_eq!(wrong_method.status, 405);
    assert_eq!(json(&wrong_method)["error"]["code"], "invalid_request");
}

#[test]
fn key_pages_are_trimmed_to_the_response_body_limit() {
    let keys = (0..100)
        .map(|index| vec![index; MAX_KEY_SIZE])
        .collect::<Vec<_>>();

    let reply = bounded_key_page(keys, None);
    assert_eq!(reply.status, 200);
    let bytes = reply.body;
    assert!(bytes.len() <= MAX_RESPONSE_BODY_SIZE);

    let page: Value = serde_json::from_slice(&bytes).unwrap();
    let items = page["items"].as_array().unwrap();
    assert!(!items.is_empty());
    assert!(items.len() < 100);
    assert_eq!(page["next_cursor"], *items.last().unwrap());
}

#[test]
fn malformed_requests_never_reach_the_node() {
    let control = TestControl::default();
    let upper = "A".repeat(64);
    for (method, uri) in [
        ("GET", "/api/v1/modules?limit=0".to_string()),
        ("GET", "/api/v1/modules?cursor=".to_string()),
        ("GET", "/api/v1/peers?limit=101".to_string()),
        ("GET", "/api/v1/peers?cursor=_w".to_string()),
        ("GET", "/api/v1/keys?limit=x".to_string()),
        ("GET", "/api/v1/keys?cursor=".to_string()),
        ("GET", "/api/v1/keys/Zg==".to_string()),
        ("GET", format!("/api/v1/modules/{upper}")),
        ("DELETE", "/api/v1/modules/abc".to_string()),
        ("POST", "/api/v1/modules/%FF/runs".to_string()),
    ] {
        let reply = call(&control, method, &uri, None, b"");
        assert_eq!(reply.status, 400, "{uri}");
        assert_eq!(
            reply.body,
            b"{\"error\":{\"code\":\"invalid_request\",\"message\":\"invalid request\"}}".to_vec()
        );
    }
    let untyped = call(&control, "POST", "/api/v1/modules", None, b"wasm");
    assert_eq!(untyped.status, 415);
    assert_eq!(
        untyped.body,
        b"{\"error\":{\"code\":\"unsupported_media_type\",\"message\":\"content type must be application/wasm\"}}"
            .to_vec()
    );
    assert!(control.asked().is_empty());
}

#[test]
fn the_node_is_asked_for_what_the_request_names() {
    let control = TestControl::default();
    let id = "0123456789abcdef".repeat(4);
    let cursor = URL_SAFE_NO_PAD.encode(&id);
    call(&control, "GET", "/api/v1/modules", None, b"");
    call(&control, "GET", &format!("/api/v1/modules?cursor={cursor}&limit=100"), None, b"");
    call(&control, "GET", "/api/v1/peers?cursor=YQ&limit=7", None, b"");
    call(&control, "GET", "/api/v1/keys", None, b"");
    call(&control, "GET", "/api/v1/keys?prefix=~&cursor=~", None, b"");
    call(&control, "GET", "/api/v1/keys?prefix=YQ&cursor=YWI&limit=1", None, b"");
    call(&control, "GET", "/api/v1/keys/~", None, b"");
    call(&control, "DELETE", &format!("/api/v1/modules/{id}"), None, b"");
    call(&control, "POST", "/api/v1/modules", Some(" APPLICATION/wasm ;x"), b"four");
    assert_eq!(
        control.asked(),
        vec![
            "list_modules None 50".to_string(),
            format!("list_modules {:?} 100", Some(id.as_bytes().to_vec())),
            format!("list_peers {:?} 7", Some(b"a".to_vec())),
            "list_keys [] None 50".to_string(),
            "list_keys [] Some([]) 50".to_string(),
            "list_keys [97] Some([97, 98]) 1".to_string(),
            "get_value []".to_string(),
            format!("delete_module {id}"),
            "register_module 4".to_string(),
        ]
    );
}

#[test]
fn uploads_are_refused_for_type_then_size_then_content() {
    let control = TestControl::default();
    let wasm: Option<&[u8]> = Some(b"application/wasm");
    let text: Option<&[u8]> = Some(b"text/plain");

    assert_eq!(routes::register_module(&control, text, Upload::TooLarge).status, 415);
    assert_eq!(routes::register_module(&control, None, Upload::Unreadable).status, 415);
    let too_large = routes::register_module(&control, wasm, Upload::TooLarge);
    assert_eq!(too_large.status, 413);
    assert_eq!(
        too_large.body,
        b"{\"error\":{\"code\":\"payload_too_large\",\"message\":\"request body too large\"}}".to_vec()
    );
    assert_eq!(routes::register_module(&control, wasm, Upload::Unreadable).status, 400);
    let over = Upload::Received(vec![0; MAX_UPLOAD_SIZE + 1]);
    assert_eq!(routes::register_module(&control, wasm, over).status, 413);
    assert!(control.asked().is_empty());
    let full = Upload::Received(vec![0; MAX_UPLOAD_SIZE]);
    assert_eq!(routes::register_module(&control, wasm, full).status, 201);
}

#[test]
fn the_empty_key_is_read_under_its_marker() {
    let control = TestControl::default();
    let reply = call(&control, "GET", "/api/v1/keys/~", None, b"");
    assert_eq!(reply.status, 200);
    assert_eq!(header(&reply, "x-numax-key"), Some("~"));
    assert_eq!(reply.body, b"of the empty key".to_vec());
}

#[test]
fn values_are_limited_in_size() {
    let control = TestControl::default();
    let full = call(&control, "GET", &format!("/api/v1/keys/{}", URL_SAFE_NO_PAD.encode("full")), None, b"");
    assert_eq!(full.status, 200);
    assert_eq!(full.body.len(), MAX_RESPONSE_BODY_SIZE);
    let over = call(&control, "GET", &format!("/api/v1/keys/{}", URL_SAFE_NO_PAD.encode("over")), None, b"");
    assert_eq!(over.status, 500);
    assert_eq!(json(&over)["error"]["code"], "internal_error");
}

#[test]
fn following_the_cursors_shows_every_item_once() {
    let control = TestControl::default();
    for size in 1..6 {
        let bytes = vec![b'w'; size];
        let reply = call(&control, "POST", "/api/v1/modules", Some("application/wasm"), &bytes);
        assert_eq!(reply.status, 201);
    }
    let mut ids: Vec<String> = Vec::new();
    let mut cursor = String::new();
    loop {
        let page = json(&call(&control, "GET", &format!("/api/v1/modules?limit=2{cursor}"), None, b""));
        for item in page["items"].as_array().unwrap() {
            ids.push(item["id"].as_str().unwrap().to_string());
        }
        match page["next_cursor"].as_str() {
            Some(next) => cursor = format!("&cursor={next}"),
            None => break,
        }
    }
    let expected: Vec<String> = (1..6).map(|size| format!("{size:064x}")).collect();
    assert_eq!(ids, expected);

    let mut nodes: Vec<String> = Vec::new();
    let mut cursor = String::new();
    loop {
        let page = json(&call(&control, "GET", &format!("/api/v1/peers?limit=1{cursor}"), None, b""));
        for item in page["items"].as_array().unwrap() {
            nodes.push(item["node_id"].as_str().unwrap().to_string());
        }
        match page["next_cursor"].as_str() {
            Some(next) => cursor = format!("&cursor={next}"),
            None => break,
        }
    }
    assert_eq!(nodes, vec!["node-a".to_string(), "node-b".to_string()]);
}

#[test]
fn each_request_asks_its_question_once() {
    let id = "a".repeat(64);
    let asked = std::cell::RefCell::new(Vec::new());
    let note = |question: String| asked.borrow_mut().push(question);

    let run = routes::run_module_asking(Ok(id.clone()), |id| {
        note(format!("run {id}"));
        Ok(())
    });
    assert_eq!(run.status, 204);
    let deleted = routes::delete_module_asking(Ok(id.clone()), |id| {
        note(format!("delete {id}"));
        Err(ControlError::Storage("disk full".to_string()))
    });
    assert_eq!(deleted.status, 500);
    let shown = routes::get_module_asking(Ok(id.clone()), |id| {
        note(format!("get {id}"));
        Ok(ModuleInfo { id, size_bytes: 1 })
    });
    assert_eq!(shown.status, 200);
    let registered = routes::register_module_asking(
        Some(b"application/wasm"),
        Upload::Received(b"wasm".to_vec()),
        |bytes| {
            note(format!("register {bytes:?}"));
            Err(ControlError::InvalidModule("no".to_string()))
        },
    );
    assert_eq!(registered.status, 422);
    let modules = routes::list_modules_asking(page_query("limit=2"), |after, limit| {
        note(format!("modules {after:?} {limit}"));
        Ok(ControlPage { items: Vec::new(), next_cursor: None })
    });
    assert_eq!(modules.status, 200);
    let peers = routes::list_peers_asking(page_query("cursor=YQ"), |after, limit| {
        note(format!("peers {after:?} {limit}"));
        Ok(ControlPage { items: Vec::new(), next_cursor: None })
    });
    assert_eq!(peers.status, 200);
    let keys = routes::list_keys_asking(key_page_query("prefix=YQ"), |under, after, limit| {
        note(format!("keys {under:?} {after:?} {limit}"));
        Err(ControlError::InvalidCursor)
    });
    assert_eq!(keys.status, 400);
    let value = routes::get_value_asking(Ok("YQ".to_string()), |key| {
        note(format!("value {key:?}"));
        Ok(vec![1])
    });
    assert_eq!(value.body, vec![1]);
    assert_eq!(routes::health_asking(|| false).status, 500);
    assert_eq!(routes::ready_asking(|| true).status, 200);
    assert_eq!(
        asked.borrow().clone(),
        vec![
            format!("run {id}"),
            format!("delete {id}"),
            format!("get {id}"),
            "register [119, 97, 115, 109]".to_string(),
            "modules None 2".to_string(),
            "peers Some([97]) 50".to_string(),
            "keys [97] None 50".to_string(),
            "value [97]".to_string(),
        ]
    );

    let refused = routes::run_module_asking(Ok("a".to_string()), |_| {
        note("run".to_string());
        Ok(())
    });
    assert_eq!(refused.status, 400);
    assert_eq!(asked.borrow().len(), 8);
}
