//! The registry and the control handle over services that are held in memory.

use std::collections::BTreeMap;
use std::sync::{Arc, Mutex};

use numax_control::control::{
    ControlError, ControlPage, ModuleInfo, ModuleRegistration, PeerInfo, RuntimeControl,
    RuntimeIntrospection, RuntimeManagement,
};
use numax_control::node;
use numax_control::registry::{
    self, bytes_key, decode_module_info, info_key, list_page, list_scan, module_key, scan_limit,
    PageScan, RegisterStep, MODULE_DATA_PREFIX, MODULE_META_PREFIX, RESERVED_PREFIX,
};
use numax_control::reply::{Reply, MAX_RESPONSE_BODY_SIZE};
use numax_control::request::{encode_key, KeyPageQuery, PageQuery, MAX_KEY_SIZE};

#[derive(Default)]
struct MemoryStore {
    rows: Mutex<BTreeMap<Vec<u8>, Vec<u8>>>,
}

impl MemoryStore {
    fn get(&self, key: &[u8]) -> Result<Option<Vec<u8>>, String> {
        Ok(self.rows.lock().unwrap().get(key).cloned())
    }

    fn set(&self, key: &[u8], value: &[u8]) {
        self.rows.lock().unwrap().insert(key.to_vec(), value.to_vec());
    }

    fn apply(&self, puts: &[(Vec<u8>, Vec<u8>)], deletes: &[Vec<u8>]) -> Result<(), String> {
        let mut rows = self.rows.lock().unwrap();
        for (key, value) in puts {
            rows.insert(key.clone(), value.clone());
        }
        for key in deletes {
            rows.remove(key);
        }
        Ok(())
    }

    fn flush(&self) -> Result<(), String> {
        Ok(())
    }

    fn scan(&self, scan: &PageScan) -> Result<Vec<(Vec<u8>, Vec<u8>)>, String> {
        Ok(self
            .rows
            .lock()
            .unwrap()
            .iter()
            .filter(|(key, _)| key.starts_with(&scan.prefix))
            .filter(|(key, _)| scan.start_after.as_ref().map_or(true, |after| *key > after))
            .filter(|(key, _)| scan.exclude.as_ref().map_or(true, |own| !key.starts_with(own)))
            .take(scan.limit as usize)
            .map(|(key, value)| (key.clone(), value.clone()))
            .collect())
    }

    fn rows(&self) -> BTreeMap<Vec<u8>, Vec<u8>> {
        self.rows.lock().unwrap().clone()
    }
}

struct ModuleRegistry {
    store: Arc<MemoryStore>,
    mutation_lock: Mutex<()>,
}

impl ModuleRegistry {
    fn new(store: Arc<MemoryStore>) -> Self {
        Self { store, mutation_lock: Mutex::new(()) }
    }

    fn carry_out(
        &self,
        plan: registry::RegisterPlan,
    ) -> Result<ModuleRegistration, ControlError> {
        let guard = self.mutation_lock.lock();
        let lookup = plan.locked(guard.is_ok())?;
        let existing = self.store.get(&lookup.data_key());
        match lookup.found(existing) {
            RegisterStep::Finished(outcome) => outcome,
            RegisterStep::Write(write) => {
                let written = self.store.apply(write.puts(), &[]);
                write.written(written)?.flushed(self.store.flush())
            }
        }
    }

    fn register(&self, bytes: &[u8]) -> Result<ModuleRegistration, ControlError> {
        self.carry_out(registry::register(bytes.to_vec()))
    }

    fn list(&self, cursor: Option<&[u8]>, limit: usize) -> Result<ControlPage<ModuleInfo>, ControlError> {
        list_page(self.store.scan(&list_scan(cursor, limit)), limit)
    }

    fn info(&self, id: &str) -> Result<Option<ModuleInfo>, ControlError> {
        registry::info(id, self.store.get(&info_key(id)))
    }

    fn bytes(&self, id: &str) -> Result<Option<Vec<u8>>, ControlError> {
        registry::bytes(self.store.get(&bytes_key(id)))
    }

    fn delete(&self, id: &str) -> Result<(), ControlError> {
        let plan = registry::delete(id.to_string());
        let guard = self.mutation_lock.lock();
        let write = plan.locked(guard.is_ok())?;
        let removed = self.store.apply(&[], write.deletes());
        write.written(removed)?.flushed(self.store.flush())
    }
}

fn new_registry() -> ModuleRegistry {
    ModuleRegistry::new(Arc::new(MemoryStore::default()))
}

struct Node {
    modules: ModuleRegistry,
    store: Arc<MemoryStore>,
    peers: Option<Vec<(String, String)>>,
}

impl Node {
    fn start(store: Arc<MemoryStore>) -> Self {
        Self { modules: ModuleRegistry::new(store.clone()), store, peers: None }
    }

    fn validate(bytes: &[u8]) -> Result<(), String> {
        if bytes.starts_with(b"\0asm") {
            Ok(())
        } else {
            Err("no header".to_string())
        }
    }
}

impl RuntimeIntrospection for Node {
    fn list_modules(
        &self,
        cursor: Option<Vec<u8>>,
        limit: usize,
    ) -> Result<ControlPage<ModuleInfo>, ControlError> {
        self.modules.list(cursor.as_deref(), limit)
    }

    fn get_module(&self, id: String) -> Result<ModuleInfo, ControlError> {
        node::get_module(self.modules.info(&id))
    }

    fn list_peers(
        &self,
        cursor: Option<Vec<u8>>,
        limit: usize,
    ) -> Result<ControlPage<PeerInfo>, ControlError> {
        node::list_peers(node::peer_cursor(cursor)?, self.peers.clone(), limit)
    }

    fn list_keys(
        &self,
        prefix: Vec<u8>,
        cursor: Option<Vec<u8>>,
        limit: usize,
    ) -> Result<ControlPage<Vec<u8>>, ControlError> {
        let scan = node::list_keys_scan(prefix, cursor, limit)?;
        let keys = self
            .store
            .scan(&scan)
            .map(|rows| rows.into_iter().map(|row| row.0).collect());
        node::list_keys_page(keys, limit)
    }

    fn get_value(&self, key: Vec<u8>) -> Result<Vec<u8>, ControlError> {
        let key = node::get_value_key(key)?;
        node::get_value(self.store.get(&key))
    }

    fn is_healthy(&self) -> bool {
        true
    }

    fn is_ready(&self) -> bool {
        true
    }
}

impl RuntimeManagement for Node {
    fn register_module(&self, bytes: Vec<u8>) -> Result<ModuleRegistration, ControlError> {
        let validation = Node::validate(&bytes);
        self.modules.carry_out(node::register_module(bytes, validation)?)
    }

    fn delete_module(&self, id: String) -> Result<(), ControlError> {
        self.modules.delete(&id)
    }

    fn run_module(&self, id: String) -> Result<(), ControlError> {
        let bytes = node::run_module(self.modules.bytes(&id))?;
        let executed = if bytes.ends_with(b"trap") {
            Err("trap".to_string())
        } else {
            Ok(())
        };
        node::run_finished(executed)
    }
}

fn minimal_run_module() -> Vec<u8> {
    vec![
        0x00, 0x61, 0x73, 0x6d, 0x01, 0x00, 0x00, 0x00, // header
        0x01, 0x04, 0x01, 0x60, 0x00, 0x00, // type: () -> ()
        0x03, 0x02, 0x01, 0x00, // function section
        0x07, 0x07, 0x01, 0x03, b'r', b'u', b'n', 0x00, 0x00, // export run
        0x0a, 0x04, 0x01, 0x02, 0x00, 0x0b, // body
    ]
}

#[test]
fn registry_is_content_idempotent_and_paginates() {
    let registry = new_registry();
    let first = registry.register(b"first").unwrap();
    let duplicate = registry.register(b"first").unwrap();
    let second = registry.register(b"second").unwrap();

    assert!(first.created);
    assert!(!duplicate.created);
    assert_eq!(first.module, duplicate.module);

    let page = registry.list(None, 1).unwrap();
    assert_eq!(page.items.len(), 1);
    let next = page.next_cursor.unwrap();
    let page = registry.list(Some(&next), 1).unwrap();
    assert_eq!(page.items.len(), 1);
    assert!(page.next_cursor.is_none());
    assert!(page.items == vec![first.module] || page.items == vec![second.module]);
}

#[test]
fn registry_delete_is_idempotent() {
    let registry = new_registry();
    let registered = registry.register(b"module").unwrap();

    registry.delete(&registered.module.id).unwrap();
    registry.delete(&registered.module.id).unwrap();

    assert!(registry.info(&registered.module.id).unwrap().is_none());
    assert!(registry.bytes(&registered.module.id).unwrap().is_none());
}

#[test]
fn control_validates_registers_runs_and_deletes_modules() {
    let control = Node::start(Arc::new(MemoryStore::default()));

    assert!(matches!(
        control.register_module(b"not wasm".to_vec()),
        Err(ControlError::InvalidModule(_))
    ));
    assert!(control.list_modules(None, 50).unwrap().items.is_empty());

    let wasm = minimal_run_module();
    let first = control.register_module(wasm.clone()).unwrap();
    let duplicate = control.register_module(wasm).unwrap();
    assert!(first.created);
    assert!(!duplicate.created);
    assert_eq!(first.module, duplicate.module);
    assert_eq!(control.get_module(first.module.id.clone()).unwrap(), first.module);

    control.run_module(first.module.id.clone()).unwrap();
    control.delete_module(first.module.id.clone()).unwrap();
    control.delete_module(first.module.id.clone()).unwrap();
    assert!(matches!(
        control.run_module(first.module.id),
        Err(ControlError::ModuleNotFound)
    ));
}

#[test]
fn registered_modules_survive_runtime_restart() {
    let store = Arc::new(MemoryStore::default());
    let module = {
        let control = Node::start(store.clone());
        control.register_module(minimal_run_module()).unwrap().module
    };

    let control = Node::start(store);
    let persisted = control.get_module(module.id.clone()).unwrap();
    assert_eq!(persisted, module);
}

#[test]
fn datastore_introspection_is_binary_safe_and_hides_internal_keys() {
    let store = Arc::new(MemoryStore::default());
    store.set(&[0, 255, b'k'], &[0, 1, 255]);
    store.set(b"app:visible", b"value");
    store.set(b"__nx/private", b"secret");
    let control = Node::start(store);

    let page = control.list_keys(Vec::new(), None, 50).unwrap();
    assert_eq!(page.items, vec![vec![0, 255, b'k'], b"app:visible".to_vec()]);
    assert_eq!(control.get_value(vec![0, 255, b'k']).unwrap(), vec![0, 1, 255]);
    assert_eq!(
        control.list_keys(b"app:".to_vec(), None, 50).unwrap().items,
        vec![b"app:visible".to_vec()]
    );
    assert!(matches!(
        control.list_keys(b"app:".to_vec(), Some(b"other:key".to_vec()), 50),
        Err(ControlError::InvalidCursor)
    ));
    assert!(matches!(
        control.get_value(b"__nx/private".to_vec()),
        Err(ControlError::KeyNotFound)
    ));
    assert!(control.list_peers(None, 50).unwrap().items.is_empty());
    assert!(control.is_healthy());
    assert!(control.is_ready());
}

#[test]
fn modules_are_named_by_their_digest() {
    let registry = new_registry();
    let id = registry.register(b"").unwrap().module.id;
    assert_eq!(id, "af1349b9f5f9a1a6a0404dea36dcc9499bcb25c9adc112b7cc9a93cae41f3262");
    assert_eq!(
        registry::register(Vec::new()).locked(true).unwrap().data_key(),
        b"__nx/modules/data/af1349b9f5f9a1a6a0404dea36dcc9499bcb25c9adc112b7cc9a93cae41f3262".to_vec()
    );
    assert_ne!(
        registry.register(b"a").unwrap().module.id,
        registry.register(b"b").unwrap().module.id
    );
}

#[test]
fn a_registration_writes_the_artifact_and_its_size() {
    let registry = new_registry();
    registry.store.set(b"app", b"1");
    let before = registry.store.rows();
    let id = registry.register(b"module").unwrap().module.id;
    let mut expected = before.clone();
    expected.insert(format!("__nx/modules/data/{id}").into_bytes(), b"module".to_vec());
    expected.insert(format!("__nx/modules/meta/{id}").into_bytes(), vec![0, 0, 0, 0, 0, 0, 0, 6]);
    assert_eq!(registry.store.rows(), expected);
    assert_eq!(registry.info(&id).unwrap(), Some(ModuleInfo { id: id.clone(), size_bytes: 6 }));
    assert_eq!(registry.bytes(&id).unwrap(), Some(b"module".to_vec()));

    registry.register(b"module").unwrap();
    assert_eq!(registry.store.rows(), expected);

    registry.delete(&id).unwrap();
    assert_eq!(registry.store.rows(), before);
}

#[test]
fn a_digest_collision_is_reported_and_changes_nothing() {
    let registry = new_registry();
    let id = new_registry().register(b"module").unwrap().module.id;
    registry.store.set(&bytes_key(&id), b"other");
    let before = registry.store.rows();
    assert_eq!(
        registry.register(b"module"),
        Err(ControlError::Internal("module digest collision detected".to_string()))
    );
    assert_eq!(registry.store.rows(), before);
}

#[test]
fn a_poisoned_lock_stops_registration_and_deletion() {
    let poisoned = ControlError::Internal("module registry lock poisoned".to_string());
    assert_eq!(registry::register(b"m".to_vec()).locked(false), Err(poisoned.clone()));
    assert_eq!(registry::delete("m".to_string()).locked(false), Err(poisoned));
}

#[test]
fn storage_errors_surface_at_every_stage() {
    let down = || "disk full".to_string();
    let failed = ControlError::Storage(down());
    let lookup = || registry::register(b"m".to_vec()).locked(true).unwrap();
    assert_eq!(lookup().found(Err(down())), RegisterStep::Finished(Err(failed.clone())));
    let write = || match lookup().found(Ok(None)) {
        RegisterStep::Write(write) => write,
        RegisterStep::Finished(_) => panic!("nothing was stored"),
    };
    assert_eq!(write().written(Err(down())), Err(failed.clone()));
    assert_eq!(write().written(Ok(())).unwrap().flushed(Err(down())), Err(failed.clone()));
    assert!(write().written(Ok(())).unwrap().flushed(Ok(())).unwrap().created);

    let removal = || registry::delete("m".to_string()).locked(true).unwrap();
    assert_eq!(
        *removal().deletes(),
        vec![b"__nx/modules/data/m".to_vec(), b"__nx/modules/meta/m".to_vec()]
    );
    assert_eq!(removal().written(Err(down())), Err(failed.clone()));
    assert_eq!(removal().written(Ok(())).unwrap().flushed(Err(down())), Err(failed.clone()));
    assert_eq!(removal().written(Ok(())).unwrap().flushed(Ok(())), Ok(()));

    assert_eq!(registry::info("m", Err(down())), Err(failed.clone()));
    assert_eq!(registry::bytes(Err(down())), Err(failed.clone()));
    assert_eq!(list_page(Err(down()), 1), Err(failed.clone()));
    assert_eq!(node::list_keys_page(Err(down()), 1), Err(failed.clone()));
    assert_eq!(node::get_value(Err(down())), Err(failed.clone()));
    assert_eq!(node::get_module(Err(failed.clone())), Err(failed.clone()));
    assert_eq!(node::run_module(Err(failed.clone())), Err(failed));
}

#[test]
fn bad_metadata_rows_are_reported() {
    let internal = |reason: &str| ControlError::Internal(reason.to_string());
    assert_eq!(
        decode_module_info(b"__nx/modules/data/m", &[0; 8]),
        Err(internal("invalid module metadata key"))
    );
    assert_eq!(
        decode_module_info(b"__nx/modules/meta/\xff", &[0; 8]),
        Err(internal("module ID is not valid UTF-8"))
    );
    assert_eq!(
        decode_module_info(b"__nx/modules/meta/m", &[0; 7]),
        Err(internal("invalid module size metadata"))
    );
    assert_eq!(
        decode_module_info("__nx/modules/meta/é".as_bytes(), &[0, 0, 0, 0, 0, 0, 1, 0]),
        Ok(ModuleInfo { id: "é".to_string(), size_bytes: 256 })
    );
    let rows = vec![
        (b"__nx/modules/meta/a".to_vec(), vec![0; 8]),
        (b"__nx/modules/meta/b".to_vec(), vec![0; 3]),
        (b"elsewhere".to_vec(), vec![0; 8]),
    ];
    assert_eq!(list_page(Ok(rows), 1), Err(internal("invalid module size metadata")));
}

#[test]
fn page_reads_ask_for_one_row_more() {
    assert_eq!(scan_limit(0), 1);
    assert_eq!(scan_limit(50), 51);
    assert_eq!(scan_limit(u32::MAX as usize - 1), u32::MAX);
    assert_eq!(scan_limit(u32::MAX as usize), u32::MAX);
    assert_eq!(scan_limit(usize::MAX), u32::MAX);
    assert_eq!(
        list_scan(Some(b"id"), 50),
        PageScan {
            prefix: MODULE_META_PREFIX.as_bytes().to_vec(),
            start_after: Some(b"__nx/modules/meta/id".to_vec()),
            limit: 51,
            exclude: None,
        }
    );
    assert_eq!(
        node::list_keys_scan(b"a".to_vec(), Some(b"ab".to_vec()), 2),
        Ok(PageScan {
            prefix: b"a".to_vec(),
            start_after: Some(b"ab".to_vec()),
            limit: 3,
            exclude: Some(RESERVED_PREFIX.as_bytes().to_vec()),
        })
    );
    assert_eq!(module_key(MODULE_DATA_PREFIX.as_bytes(), b"x"), b"__nx/modules/data/x".to_vec());
}

#[test]
fn key_cursors_outside_their_listing_are_refused() {
    let refused = Err(ControlError::InvalidCursor);
    assert_eq!(
        node::list_keys_scan(Vec::new(), Some(b"__nx/modules".to_vec()), 1),
        refused.clone()
    );
    assert_eq!(node::list_keys_scan(b"b".to_vec(), Some(b"a".to_vec()), 1), refused);
    assert!(node::list_keys_scan(Vec::new(), Some(Vec::new()), 1).is_ok());
    assert!(node::list_keys_scan(b"__nx/".to_vec(), None, 1).is_ok());
}

#[test]
fn walking_the_keys_shows_the_application_ones_once() {
    let store = Arc::new(MemoryStore::default());
    let control = Node::start(store.clone());
    control.register_module(minimal_run_module()).unwrap();
    let keys: Vec<Vec<u8>> = vec![b"".to_vec(), vec![0], b"__nw".to_vec(), b"__ny".to_vec(), b"a".to_vec(), vec![255]];
    for key in &keys {
        store.set(key, b"v");
    }
    for limit in 1..8 {
        let mut seen = Vec::new();
        let mut cursor = None;
        loop {
            let page = control.list_keys(Vec::new(), cursor, limit).unwrap();
            assert!(page.items.len() <= limit);
            seen.extend(page.items);
            match page.next_cursor {
                Some(next) => cursor = Some(next),
                None => break,
            }
        }
        assert_eq!(seen, keys);
    }
    assert!(control.list_keys(b"__nx/".to_vec(), None, 50).unwrap().items.is_empty());
    assert_eq!(control.get_value(Vec::new()).unwrap(), b"v".to_vec());
}

#[test]
fn walking_the_modules_shows_the_known_ones_once() {
    let registry = new_registry();
    let mut modules: Vec<ModuleInfo> = (0..7)
        .map(|size| registry.register(&vec![1; size]).unwrap().module)
        .collect();
    modules.sort_by_key(|module| module.id.clone());
    registry.delete(&modules[3].id).unwrap();
    modules.remove(3);
    for limit in 1..8 {
        let mut seen = Vec::new();
        let mut cursor: Option<Vec<u8>> = None;
        loop {
            let page = registry.list(cursor.as_deref(), limit).unwrap();
            seen.extend(page.items);
            match page.next_cursor {
                Some(next) => cursor = Some(next),
                None => break,
            }
        }
        assert_eq!(seen, modules);
    }
}

#[test]
fn peers_are_paged_by_address() {
    let connected: Vec<(String, String)> = ["a:1", "a:2", "b:1"]
        .iter()
        .map(|address| (address.to_string(), format!("node at {address}")))
        .collect();
    let page = node::list_peers(None, Some(connected.clone()), 2).unwrap();
    assert_eq!(page.items.len(), 2);
    assert_eq!(page.items[1].node_id, "node at a:2");
    assert_eq!(page.next_cursor, Some(b"a:2".to_vec()));
    let page = node::list_peers(page.next_cursor, Some(connected.clone()), 2).unwrap();
    assert_eq!(
        page.items,
        vec![PeerInfo { address: "b:1".to_string(), node_id: "node at b:1".to_string() }]
    );
    assert_eq!(page.next_cursor, None);
    assert_eq!(
        node::list_peers(Some(vec![255]), Some(connected), 2),
        Err(ControlError::InvalidCursor)
    );
    assert_eq!(node::peer_cursor(Some(vec![255])), Err(ControlError::InvalidCursor));
    assert_eq!(node::peer_cursor(Some(b"a".to_vec())), Ok(Some(b"a".to_vec())));
    assert_eq!(node::peer_cursor(None), Ok(None));
    assert!(node::list_peers(None, None, 0).unwrap().items.is_empty());
}

#[test]
fn running_reports_missing_modules_and_failures() {
    let control = Node::start(Arc::new(MemoryStore::default()));
    assert_eq!(control.run_module("a".repeat(64)), Err(ControlError::ModuleNotFound));
    assert_eq!(control.get_module("a".repeat(64)), Err(ControlError::ModuleNotFound));
    let id = control.register_module(b"\0asm trap".to_vec()).unwrap().module.id;
    assert_eq!(
        control.run_module(id),
        Err(ControlError::ModuleExecutionFailed("trap".to_string()))
    );
    assert_eq!(
        control.register_module(b"x".to_vec()),
        Err(ControlError::InvalidModule("no header".to_string()))
    );
}

#[test]
fn a_node_can_be_shared_as_a_control_interface() {
    let shared: Arc<dyn RuntimeControl> = Arc::new(Node::start(Arc::new(MemoryStore::default())));
    let reply = numax_control::routes::health(&*shared);
    assert_eq!(reply.status, 200);
}

fn page(reply: Reply) -> (Vec<serde_json::Value>, Option<String>) {
    assert_eq!(reply.status, 200);
    assert!(reply.body.len() <= MAX_RESPONSE_BODY_SIZE);
    let document: serde_json::Value = serde_json::from_slice(&reply.body).unwrap();
    let next = document["next_cursor"].as_str().map(|text| text.to_string());
    (document["items"].as_array().unwrap().clone(), next)
}

#[test]
fn following_replies_that_are_cut_short_shows_everything_once() {
    let store = Arc::new(MemoryStore::default());
    let mut control = Node::start(store.clone());
    let mut keys: Vec<Vec<u8>> = vec![Vec::new()];
    for first in 100..230 {
        keys.push(vec![first; MAX_KEY_SIZE]);
    }
    for key in &keys {
        store.set(key, b"v");
    }
    let peers: Vec<(String, String)> = (10..17)
        .map(|port| (format!("10.0.0.1:{port}"), "n".repeat(300_000)))
        .collect();
    control.peers = Some(peers.clone());

    let mut seen: Vec<String> = Vec::new();
    let mut cursor = None;
    let mut pages = 0;
    loop {
        let query = KeyPageQuery { prefix: None, cursor, limit: Some(100) };
        let (items, next) = page(numax_control::routes::list_keys(&control, Ok(query)));
        seen.extend(items.iter().map(|item| item.as_str().unwrap().to_string()));
        pages += 1;
        match next {
            Some(text) => cursor = Some(text),
            None => break,
        }
    }
    let expected: Vec<String> = keys.iter().map(|key| encode_key(key)).collect();
    assert_eq!(seen, expected);
    assert_eq!(pages, 2);

    let mut seen: Vec<String> = Vec::new();
    let mut cursor = None;
    let mut pages = 0;
    loop {
        let query = PageQuery { cursor, limit: Some(5) };
        let (items, next) = page(numax_control::routes::list_peers(&control, Ok(query)));
        seen.extend(items.iter().map(|item| item["address"].as_str().unwrap().to_string()));
        pages += 1;
        match next {
            Some(text) => cursor = Some(text),
            None => break,
        }
    }
    let expected: Vec<String> = peers.iter().map(|peer| peer.0.clone()).collect();
    assert_eq!(seen, expected);
    assert_eq!(pages, 3);
}
