//! Texts, documents and replies on concrete values.

use numax_control::bytes::{bytes_equal, bytes_from, bytes_less, starts_with};
use numax_control::control::{ControlError, ControlPage, ModuleInfo, ModuleRegistration, PeerInfo};
use numax_control::reply::{
    bounded_key_page, bounded_module_page, bounded_peer_page, control_error_response, done_reply,
    error_response, health_reply, internal_error, invalid_request, key_list_reply,
    method_not_allowed, module_list_reply, module_reply, not_found, payload_too_large_response,
    peer_list_reply, ready_reply, registration_reply, unsupported_media_type_response, value_reply,
    Reply, MAX_RESPONSE_BODY_SIZE,
};
use numax_control::request::{
    decode_cursor, decode_key, encode_cursor, encode_key, is_module_id, is_module_id_bytes,
    is_wasm_content_type, page_size, parse_key_query, parse_page_query, CursorKind, InvalidRequest,
    KeyPageQuery, PageQuery, MAX_KEY_SIZE,
};
use numax_control::text::{from_big_endian, text_concat, to_big_endian};

fn body(reply: &Reply) -> &str {
    std::str::from_utf8(&reply.body).unwrap()
}

fn json_headers() -> Vec<(String, String)> {
    vec![("content-type".to_string(), "application/json".to_string())]
}

#[test]
fn keys_are_written_as_unpadded_base64url() {
    assert_eq!(encode_key(b"counter"), "Y291bnRlcg");
    assert_eq!(encode_key(b"f"), "Zg");
    assert_eq!(encode_key(b"fo"), "Zm8");
    assert_eq!(encode_key(b"foo"), "Zm9v");
    assert_eq!(encode_key(b"foobar"), "Zm9vYmFy");
    assert_eq!(encode_key(&[251, 255]), "-_8");
    assert_eq!(encode_key(&[0, 255, b'k']), "AP9r");
    assert_eq!(encode_key(b""), "~");
}

#[test]
fn keys_are_read_back_and_nothing_else_is() {
    for key in [&b""[..], b"f", b"fo", b"foo", &[0, 255, b'k'], &[7; MAX_KEY_SIZE]] {
        let text = encode_key(key);
        assert_eq!(decode_key(Some(&text), false), Ok(key.to_vec()));
    }
    for text in ["", "Z", "Zg==", "Zh", "Zm9", "+_8", "/w", "Zg ", "~~", "%%%", "é"] {
        assert_eq!(decode_key(Some(text), true), Err(InvalidRequest), "{text}");
    }
    let long = encode_key(&[7; MAX_KEY_SIZE + 1]);
    assert_eq!(decode_key(Some(&long), false), Err(InvalidRequest));
    assert_eq!(decode_key(None, true), Ok(Vec::new()));
    assert_eq!(decode_key(None, false), Err(InvalidRequest));
}

#[test]
fn cursors_are_limited_in_length() {
    assert_eq!(decode_cursor(""), Err(InvalidRequest));
    assert_eq!(decode_cursor(&"A".repeat(16384)), Ok(vec![0; 12288]));
    assert_eq!(decode_cursor(&"A".repeat(16386)), Err(InvalidRequest));
    assert_eq!(decode_cursor("~"), Err(InvalidRequest));
    assert_eq!(encode_cursor(Some(b"127.0.0.1:9001".to_vec())), Some("MTI3LjAuMC4xOjkwMDE".to_string()));
    assert_eq!(encode_cursor(None), None);
}

#[test]
fn page_sizes_are_one_to_a_hundred() {
    assert_eq!(page_size(None), Ok(50));
    assert_eq!(page_size(Some(1)), Ok(1));
    assert_eq!(page_size(Some(100)), Ok(100));
    assert_eq!(page_size(Some(0)), Err(InvalidRequest));
    assert_eq!(page_size(Some(101)), Err(InvalidRequest));
    assert_eq!(page_size(Some(usize::MAX)), Err(InvalidRequest));
}

#[test]
fn module_identifiers_are_lowercase_digests() {
    assert!(is_module_id(&"0123456789abcdef".repeat(4)));
    assert!(!is_module_id(&"0123456789ABCDEF".repeat(4)));
    assert!(!is_module_id(&"a".repeat(63)));
    assert!(!is_module_id(&"a".repeat(65)));
    assert!(!is_module_id(&"g".repeat(64)));
    assert!(!is_module_id_bytes(&[255; 64]));
    assert!(!is_module_id(""));
}

#[test]
fn the_media_type_of_an_upload_is_read_without_case_and_parameters() {
    for value in [
        "application/wasm",
        "Application/WASM",
        "application/wasm; charset=binary",
        "\tapplication/wasm \t;",
    ] {
        assert!(is_wasm_content_type(Some(value.as_bytes())), "{value}");
    }
    for value in ["", ";application/wasm", "application/wasm+x", "application / wasm", "wasm"] {
        assert!(!is_wasm_content_type(Some(value.as_bytes())), "{value}");
    }
    assert!(!is_wasm_content_type(Some(b"application/wasm; x=\xff")));
    assert!(!is_wasm_content_type(None));
}

#[test]
fn cursors_of_listings_are_checked_by_their_kind() {
    let id = "0123456789abcdef".repeat(4);
    let text = encode_cursor(Some(id.clone().into_bytes()));
    let query = |cursor: Option<String>| Ok(PageQuery { cursor, limit: Some(3) });

    let parsed = parse_page_query(query(text.clone()), CursorKind::Module).unwrap();
    assert_eq!(parsed.cursor, Some(id.clone().into_bytes()));
    assert_eq!(parsed.limit, 3);
    let parsed = parse_page_query(query(text), CursorKind::Peer).unwrap();
    assert_eq!(parsed.cursor, Some(id.into_bytes()));
    let parsed = parse_page_query(query(None), CursorKind::Peer).unwrap();
    assert_eq!(parsed.cursor, None);

    let address = encode_cursor(Some(b"127.0.0.1:9001".to_vec()));
    assert_eq!(parse_page_query(query(address), CursorKind::Module), Err(InvalidRequest));
    let binary = encode_cursor(Some(vec![255]));
    assert_eq!(parse_page_query(query(binary), CursorKind::Peer), Err(InvalidRequest));
    assert_eq!(parse_page_query(Err(InvalidRequest), CursorKind::Peer), Err(InvalidRequest));
    let unlimited = Ok(PageQuery { cursor: None, limit: Some(0) });
    assert_eq!(parse_page_query(unlimited, CursorKind::Module), Err(InvalidRequest));
}

#[test]
fn key_queries_take_the_empty_key_as_prefix_and_cursor() {
    let query = |prefix: Option<&str>, cursor: Option<&str>| {
        Ok(KeyPageQuery {
            prefix: prefix.map(|text| text.to_string()),
            cursor: cursor.map(|text| text.to_string()),
            limit: None,
        })
    };
    let absent = parse_key_query(query(None, None)).unwrap();
    let marked = parse_key_query(query(Some("~"), None)).unwrap();
    assert_eq!(absent, marked);
    assert_eq!(absent.prefix, Vec::<u8>::new());
    assert_eq!(absent.cursor, None);
    assert_eq!(absent.limit, 50);
    let resumed = parse_key_query(query(Some("YQ"), Some("~"))).unwrap();
    assert_eq!(resumed.prefix, b"a".to_vec());
    assert_eq!(resumed.cursor, Some(Vec::new()));
    assert_eq!(parse_key_query(query(Some(""), None)), Err(InvalidRequest));
    assert_eq!(parse_key_query(query(None, Some(""))), Err(InvalidRequest));
    assert_eq!(parse_key_query(Err(InvalidRequest)), Err(InvalidRequest));
}

#[test]
fn errors_are_put_in_words() {
    let text = || "why".to_string();
    assert_eq!(ControlError::InvalidCursor.to_string(), "invalid cursor");
    assert_eq!(ControlError::ModuleNotFound.to_string(), "module not found");
    assert_eq!(ControlError::KeyNotFound.to_string(), "key not found");
    assert_eq!(ControlError::InvalidModule(text()).to_string(), "invalid module: why");
    assert_eq!(
        ControlError::ModuleExecutionFailed(text()).to_string(),
        "module execution failed: why"
    );
    assert_eq!(ControlError::Storage(text()).to_string(), "storage error: why");
    assert_eq!(ControlError::Internal(text()).to_string(), "internal control error: why");
}

#[test]
fn errors_are_answered_without_their_details() {
    let text = || "secret path".to_string();
    for (error, status, document) in [
        (ControlError::InvalidCursor, 400, "{\"error\":{\"code\":\"invalid_request\",\"message\":\"invalid request\"}}"),
        (ControlError::ModuleNotFound, 404, "{\"error\":{\"code\":\"not_found\",\"message\":\"module not found\"}}"),
        (ControlError::KeyNotFound, 404, "{\"error\":{\"code\":\"not_found\",\"message\":\"key not found\"}}"),
        (ControlError::InvalidModule(text()), 422, "{\"error\":{\"code\":\"module_invalid\",\"message\":\"invalid WebAssembly module\"}}"),
        (ControlError::ModuleExecutionFailed(text()), 422, "{\"error\":{\"code\":\"module_execution_failed\",\"message\":\"module execution failed\"}}"),
        (ControlError::Storage(text()), 500, "{\"error\":{\"code\":\"internal_error\",\"message\":\"internal server error\"}}"),
        (ControlError::Internal(text()), 500, "{\"error\":{\"code\":\"internal_error\",\"message\":\"internal server error\"}}"),
    ] {
        let reply = control_error_response(error.clone());
        assert_eq!(reply.status, status);
        assert_eq!(reply.headers, json_headers());
        assert_eq!(body(&reply), document);
        assert_eq!(done_reply(Err(error.clone())), reply);
        assert_eq!(module_reply(Err(error.clone())), reply);
        assert_eq!(module_list_reply(Err(error.clone())), reply);
        assert_eq!(peer_list_reply(Err(error.clone())), reply);
        assert_eq!(key_list_reply(Err(error.clone())), reply);
        assert_eq!(value_reply("~", Err(error.clone())), reply);
        assert_eq!(registration_reply(Err(error)), reply);
    }
}

#[test]
fn fixed_replies_have_their_documents() {
    assert_eq!(body(&health_reply(true)), "{\"status\":\"healthy\"}");
    assert_eq!(health_reply(false), internal_error());
    assert_eq!(body(&ready_reply(true)), "{\"status\":\"ready\"}");
    let waiting = ready_reply(false);
    assert_eq!(waiting.status, 503);
    assert_eq!(body(&waiting), "{\"error\":{\"code\":\"not_ready\",\"message\":\"node is not ready\"}}");
    assert_eq!(waiting.headers[1], ("retry-after".to_string(), "1".to_string()));
    assert_eq!(not_found().status, 404);
    assert_eq!(body(&not_found()), "{\"error\":{\"code\":\"not_found\",\"message\":\"resource not found\"}}");
    assert_eq!(method_not_allowed().status, 405);
    assert_eq!(
        body(&method_not_allowed()),
        "{\"error\":{\"code\":\"invalid_request\",\"message\":\"method not allowed\"}}"
    );
    assert_eq!(invalid_request().status, 400);
    assert_eq!(unsupported_media_type_response().status, 415);
    assert_eq!(payload_too_large_response().status, 413);
    assert_eq!(
        body(&error_response(418, "a\"b", "tab\tand é")),
        "{\"error\":{\"code\":\"a\\\"b\",\"message\":\"tab\\tand é\"}}"
    );
    let done = done_reply(Ok(()));
    assert_eq!(done.status, 204);
    assert!(done.headers.is_empty());
    assert!(done.body.is_empty());
}

#[test]
fn modules_are_written_with_their_whole_size() {
    let module = ModuleInfo { id: "ab".to_string(), size_bytes: u64::MAX };
    let document = "{\"id\":\"ab\",\"size_bytes\":18446744073709551615}";
    let shown = module_reply(Ok(module.clone()));
    assert_eq!(shown.status, 200);
    assert_eq!(shown.headers, json_headers());
    assert_eq!(body(&shown), document);

    let created = registration_reply(Ok(ModuleRegistration { module: module.clone(), created: true }));
    assert_eq!(created.status, 201);
    assert_eq!(
        created.headers[1],
        ("location".to_string(), "/api/v1/modules/ab".to_string())
    );
    assert_eq!(body(&created), document);
    let repeated = registration_reply(Ok(ModuleRegistration { module, created: false }));
    assert_eq!(repeated.status, 200);
    assert_eq!(repeated.headers, json_headers());
    assert_eq!(body(&repeated), document);

    let huge = ModuleInfo { id: "a".repeat(MAX_RESPONSE_BODY_SIZE), size_bytes: 0 };
    assert_eq!(module_reply(Ok(huge.clone())), internal_error());
    assert_eq!(
        registration_reply(Ok(ModuleRegistration { module: huge, created: true })),
        internal_error()
    );
}

#[test]
fn pages_are_written_with_their_cursor_or_null() {
    let modules = vec![
        ModuleInfo { id: "a".to_string(), size_bytes: 0 },
        ModuleInfo { id: "b".to_string(), size_bytes: 10 },
    ];
    assert_eq!(
        body(&bounded_module_page(modules, Some(b"b".to_vec()))),
        "{\"items\":[{\"id\":\"a\",\"size_bytes\":0},{\"id\":\"b\",\"size_bytes\":10}],\"next_cursor\":\"Yg\"}"
    );
    assert_eq!(body(&bounded_module_page(Vec::new(), None)), "{\"items\":[],\"next_cursor\":null}");
    assert_eq!(body(&bounded_peer_page(Vec::new(), None)), "{\"items\":[],\"next_cursor\":null}");
    assert_eq!(body(&bounded_key_page(Vec::new(), None)), "{\"items\":[],\"next_cursor\":null}");
    assert_eq!(
        body(&bounded_key_page(vec![Vec::new(), b"a".to_vec()], Some(Vec::new()))),
        "{\"items\":[\"~\",\"YQ\"],\"next_cursor\":\"~\"}"
    );
    let page = ControlPage { items: vec![b"k".to_vec()], next_cursor: None };
    assert_eq!(body(&key_list_reply(Ok(page))), "{\"items\":[\"aw\"],\"next_cursor\":null}");
}

#[test]
fn documents_escape_what_json_asks_for() {
    let peer = PeerInfo {
        address: "a\"b\\c\u{8}\t\n\u{c}\r\u{1}\u{1f}".to_string(),
        node_id: "/é\u{7f}\u{1f600}".to_string(),
    };
    let reply = bounded_peer_page(vec![peer], None);
    assert_eq!(
        body(&reply),
        "{\"items\":[{\"address\":\"a\\\"b\\\\c\\b\\t\\n\\f\\r\\u0001\\u001f\",\"node_id\":\"/é\u{7f}\u{1f600}\"}],\"next_cursor\":null}"
    );
}

#[test]
fn peer_pages_are_cut_short_to_fit() {
    let peers: Vec<PeerInfo> = (0..5)
        .map(|index| PeerInfo {
            address: format!("10.0.0.{index}:9000"),
            node_id: "n".repeat(400_000),
        })
        .collect();
    let reply = bounded_peer_page(peers.clone(), None);
    assert_eq!(reply.status, 200);
    assert!(reply.body.len() <= MAX_RESPONSE_BODY_SIZE);
    let page: serde_json::Value = serde_json::from_slice(&reply.body).unwrap();
    assert_eq!(page["items"].as_array().unwrap().len(), 2);
    let resume = encode_cursor(Some(b"10.0.0.1:9000".to_vec())).unwrap();
    assert_eq!(page["next_cursor"], resume);

    let alone = bounded_peer_page(peers[..1].to_vec(), Some(b"x".to_vec()));
    let page: serde_json::Value = serde_json::from_slice(&alone.body).unwrap();
    assert_eq!(page["next_cursor"], "eA");
}

#[test]
fn a_peer_that_does_not_fit_is_a_failure() {
    let huge = PeerInfo {
        address: "10.0.0.1:9000".to_string(),
        node_id: "n".repeat(MAX_RESPONSE_BODY_SIZE),
    };
    let small = PeerInfo {
        address: "10.0.0.2:9000".to_string(),
        node_id: "n".to_string(),
    };
    let reply = bounded_peer_page(vec![huge.clone(), small.clone()], None);
    assert_eq!(reply, internal_error());
    let reply = bounded_peer_page(vec![small, huge], None);
    assert_eq!(reply.status, 200);
    let page: serde_json::Value = serde_json::from_slice(&reply.body).unwrap();
    assert_eq!(page["items"].as_array().unwrap().len(), 1);
}

#[test]
fn a_key_that_is_too_long_is_a_failure() {
    let keys = vec![b"a".to_vec(), vec![0; MAX_KEY_SIZE + 1]];
    assert_eq!(bounded_key_page(keys, None), internal_error());
    assert_eq!(bounded_key_page(vec![vec![0; MAX_KEY_SIZE]], None).status, 200);
}

#[test]
fn a_full_module_page_is_shown_whole() {
    let modules: Vec<ModuleInfo> = (0..100)
        .map(|index| ModuleInfo { id: format!("{index:064x}"), size_bytes: u64::MAX })
        .collect();
    let reply = bounded_module_page(modules.clone(), Some(modules[99].id.clone().into_bytes()));
    assert_eq!(reply.status, 200);
    let page: serde_json::Value = serde_json::from_slice(&reply.body).unwrap();
    assert_eq!(page["items"].as_array().unwrap().len(), 100);
}

#[test]
fn values_are_answered_raw() {
    let reply = value_reply("AP8", Ok(vec![0, 255]));
    assert_eq!(reply.status, 200);
    assert_eq!(
        reply.headers,
        vec![
            ("content-type".to_string(), "application/octet-stream".to_string()),
            ("x-numax-key".to_string(), "AP8".to_string()),
        ]
    );
    assert_eq!(reply.body, vec![0, 255]);
    assert_eq!(value_reply("AP8", Ok(vec![0; MAX_RESPONSE_BODY_SIZE + 1])), internal_error());
}

#[test]
fn numbers_are_written_big_endian() {
    assert_eq!(to_big_endian(258, 8), vec![0, 0, 0, 0, 0, 0, 1, 2]);
    assert_eq!(to_big_endian(u64::MAX, 8), vec![255; 8]);
    assert_eq!(from_big_endian(&[0, 0, 0, 0, 0, 0, 1, 2]), Some(258));
    assert_eq!(from_big_endian(&[255; 8]), Some(u64::MAX));
    assert_eq!(from_big_endian(&[0; 7]), None);
    assert_eq!(from_big_endian(&[0; 9]), None);
    assert_eq!(text_concat("a", "bé"), "abé");
}

#[test]
fn byte_strings_are_ordered_as_keys_are() {
    assert!(bytes_less(b"", b"a"));
    assert!(bytes_less(b"a", b"ab"));
    assert!(bytes_less(b"ab", b"b"));
    assert!(bytes_less(&[127], &[128]));
    assert!(!bytes_less(b"a", b"a"));
    assert!(!bytes_less(b"b", b"ab"));
    assert!(starts_with(b"abc", b"ab"));
    assert!(starts_with(b"abc", b""));
    assert!(!starts_with(b"ab", b"abc"));
    assert!(!starts_with(b"abc", b"b"));
    assert!(bytes_equal(b"ab", b"ab"));
    assert!(!bytes_equal(b"ab", b"a"));
    assert_eq!(bytes_from(b"abc", 1), b"bc".to_vec());
}
