//! The module registry: content-addressed artifacts kept in the node's datastore.
//!
//! A registry operation alternates between deciding and calling the datastore. Each stage of an
//! operation is a value that says which call comes next and takes the call's result to the next
//! stage. A stage is made only by the one before it, so an operation goes through its stages in
//! order; that the results handed in are those of the calls is up to the caller.

use crate::bytes::{bytes_copy, bytes_equal, bytes_from, starts_with};
use crate::control::{
    lookup_view, outcome_view, page_of, storage_error, ControlError, ControlErrorView, ControlPage,
    ControlPageView, ModuleInfo, ModuleInfoView, ModuleRegistration, ModuleRegistrationView,
};
use crate::request::{lower_hex_digit, module_id_form};
use crate::text::{be_digits, big_endian, from_big_endian, to_big_endian, utf8_text};
use crate::views::{option_view, seq_view};
use vstd::prelude::*;
use vstd::string::*;
use vstd::utf8::*;

verus! {

/// Every key that begins with this text is the node's own.
pub const RESERVED_PREFIX: &'static str = "__nx/";

/// A module's artifact is stored under this text and the module's identifier.
pub const MODULE_DATA_PREFIX: &'static str = "__nx/modules/data/";

/// The size of a module's artifact is stored under this text and the module's identifier.
pub const MODULE_META_PREFIX: &'static str = "__nx/modules/meta/";

/// The bytes of [`RESERVED_PREFIX`].
pub open spec fn reserved_prefix() -> Seq<u8> {
    encode_utf8(RESERVED_PREFIX@)
}

/// The bytes of [`MODULE_DATA_PREFIX`].
pub open spec fn data_prefix() -> Seq<u8> {
    encode_utf8(MODULE_DATA_PREFIX@)
}

/// The bytes of [`MODULE_META_PREFIX`].
pub open spec fn meta_prefix() -> Seq<u8> {
    encode_utf8(MODULE_META_PREFIX@)
}

/// Key of the artifact of module `id`.
pub open spec fn data_key(id: Seq<char>) -> Seq<u8> {
    data_prefix() + encode_utf8(id)
}

/// Key of the size of module `id`.
pub open spec fn meta_key(id: Seq<char>) -> Seq<u8> {
    meta_prefix() + encode_utf8(id)
}

/// The key made of `prefix` and `id`.
pub fn module_key(prefix: &[u8], id: &[u8]) -> (key: Vec<u8>)
    ensures
        key@ == prefix@ + id@,
{
    let mut key = bytes_copy(prefix);
    key.extend_from_slice(id);
    assert(key@ =~= prefix@ + id@);
    key
}

/// What a metadata row says: the identifier that its key ends in, and its value as a number.
pub open spec fn decoded_module(key: Seq<u8>, value: Seq<u8>) -> Result<
    ModuleInfoView,
    ControlErrorView,
> {
    let id = key.skip(meta_prefix().len() as int);
    if !meta_prefix().is_prefix_of(key) {
        Err(ControlErrorView::Internal("invalid module metadata key"@))
    } else if !valid_utf8(id) {
        Err(ControlErrorView::Internal("module ID is not valid UTF-8"@))
    } else if value.len() != 8 {
        Err(ControlErrorView::Internal("invalid module size metadata"@))
    } else {
        Ok(ModuleInfoView { id: decode_utf8(id), size_bytes: big_endian(value) as u64 })
    }
}

/// The module that a metadata row describes.
pub fn decode_module_info(key: &[u8], value: &[u8]) -> (module: Result<ModuleInfo, ControlError>)
    ensures
        outcome_view(module) == decoded_module(key@, value@),
{
    let prefix = MODULE_META_PREFIX.as_bytes();
    if !starts_with(key, prefix) {
        return Err(ControlError::Internal("invalid module metadata key".to_owned()));
    }
    let id = bytes_from(key, prefix.len());
    let id = match utf8_text(id.as_slice()) {
        Some(id) => id.to_owned(),
        None => {
            return Err(ControlError::Internal("module ID is not valid UTF-8".to_owned()));
        },
    };
    match from_big_endian(value) {
        Some(size_bytes) => Ok(ModuleInfo { id, size_bytes }),
        None => Err(ControlError::Internal("invalid module size metadata".to_owned())),
    }
}

/// What the metadata rows `rows` say, in their order, or what is wrong with the first bad one.
pub open spec fn decoded_modules(rows: Seq<(Seq<u8>, Seq<u8>)>) -> Result<
    Seq<ModuleInfoView>,
    ControlErrorView,
>
    decreases rows.len(),
{
    if rows.len() == 0 {
        Ok(Seq::empty())
    } else {
        match decoded_modules(rows.drop_last()) {
            Ok(modules) => match decoded_module(rows.last().0, rows.last().1) {
                Ok(module) => Ok(modules.push(module)),
                Err(error) => Err(error),
            },
            Err(error) => Err(error),
        }
    }
}

proof fn lemma_bad_row_decides(rows: Seq<(Seq<u8>, Seq<u8>)>, count: int)
    requires
        0 <= count <= rows.len(),
        decoded_modules(rows.take(count)) is Err,
    ensures
        decoded_modules(rows) == decoded_modules(rows.take(count)),
    decreases rows.len(),
{
    if count == rows.len() {
        assert(rows.take(count) =~= rows);
    } else {
        assert(rows.drop_last().take(count) =~= rows.take(count));
        lemma_bad_row_decides(rows.drop_last(), count);
    }
}

/// What a page read of the datastore asks for: at most `limit` of the rows whose keys begin with
/// `prefix`, come after `start_after` and do not begin with `exclude`, in key order.
#[derive(Debug, Clone, PartialEq, Eq)]
pub struct PageScan {
    pub prefix: Vec<u8>,
    pub start_after: Option<Vec<u8>>,
    pub limit: u32,
    pub exclude: Option<Vec<u8>>,
}

/// What a [`PageScan`] stands for.
#[verifier::ext_equal]
pub struct PageScanView {
    pub prefix: Seq<u8>,
    pub start_after: Option<Seq<u8>>,
    pub limit: u32,
    pub exclude: Option<Seq<u8>>,
}

impl View for PageScan {
    type V = PageScanView;

    open spec fn view(&self) -> PageScanView {
        PageScanView {
            prefix: self.prefix@,
            start_after: option_view(self.start_after),
            limit: self.limit,
            exclude: option_view(self.exclude),
        }
    }
}

/// Rows to read for a page of `limit` items: one more than the page holds, to see whether there are
/// more, as far as a 32-bit count goes.
pub open spec fn rows_to_read(limit: usize) -> u32 {
    if limit < u32::MAX {
        (limit + 1) as u32
    } else {
        u32::MAX
    }
}

/// Rows to read for a page of `limit` items.
pub fn scan_limit(limit: usize) -> (rows: u32)
    ensures
        rows == rows_to_read(limit),
{
    if limit < u32::MAX as usize {
        (limit + 1) as u32
    } else {
        u32::MAX
    }
}

/// The page read behind a module listing.
pub open spec fn module_scan(cursor: Option<Seq<u8>>, limit: usize) -> PageScanView {
    PageScanView {
        prefix: meta_prefix(),
        start_after: match cursor {
            Some(id) => Some(meta_prefix() + id),
            None => None,
        },
        limit: rows_to_read(limit),
        exclude: None,
    }
}

/// The page read behind a module listing.
pub fn list_scan(cursor: Option<&[u8]>, limit: usize) -> (scan: PageScan)
    ensures
        scan@ == module_scan(option_view(cursor), limit),
{
    let prefix = MODULE_META_PREFIX.as_bytes();
    let start_after = match cursor {
        Some(cursor) => Some(module_key(prefix, cursor)),
        None => None,
    };
    PageScan {
        prefix: bytes_copy(prefix),
        start_after,
        limit: scan_limit(limit),
        exclude: None,
    }
}

/// The page that a module listing makes of the rows read for it.
pub open spec fn module_page(
    rows: Result<Seq<(Seq<u8>, Seq<u8>)>, Seq<char>>,
    limit: usize,
) -> Result<ControlPageView<ModuleInfoView>, ControlErrorView> {
    match rows {
        Ok(rows) => match decoded_modules(rows) {
            Ok(modules) => Ok(
                page_of(modules, limit as nat, |module: ModuleInfoView| encode_utf8(module.id)),
            ),
            Err(error) => Err(error),
        },
        Err(error) => Err(ControlErrorView::Storage(error)),
    }
}

/// What the rows of a page read stand for, or its error.
pub open spec fn rows_view(rows: Result<Vec<(Vec<u8>, Vec<u8>)>, String>) -> Result<
    Seq<(Seq<u8>, Seq<u8>)>,
    Seq<char>,
> {
    match rows {
        Ok(rows) => Ok(seq_view(rows@)),
        Err(error) => Err(error@),
    }
}

/// The page that a module listing makes of the rows read for it.
pub fn list_page(rows: Result<Vec<(Vec<u8>, Vec<u8>)>, String>, limit: usize) -> (page: Result<
    ControlPage<ModuleInfo>,
    ControlError,
>)
    requires
        limit == 0 ==> match rows_view(rows) {
            Ok(rows) => rows.len() == 0 || decoded_modules(rows) is Err,
            Err(_) => true,
        },
    ensures
        outcome_view(page) == module_page(rows_view(rows), limit),
{
    let ghost given = rows_view(rows);
    let table = match rows {
        Ok(table) => table,
        Err(error) => {
            return Err(storage_error(error));
        },
    };
    let ghost all = seq_view(table@);
    let mut items: Vec<ModuleInfo> = Vec::new();
    let mut i: usize = 0;
    assert(seq_view(items@) =~= Seq::<ModuleInfoView>::empty());
    while i < table.len()
        invariant
            i <= table@.len(),
            all == seq_view(table@),
            given == Ok::<_, Seq<char>>(all),
            given == rows_view(rows),
            decoded_modules(all.take(i as int)) == Ok::<_, ControlErrorView>(seq_view(items@)),
        decreases table@.len() - i,
    {
        assert(all.take(i + 1).drop_last() =~= all.take(i as int));
        match decode_module_info(table[i].0.as_slice(), table[i].1.as_slice()) {
            Ok(module) => {
                assert(seq_view(items@.push(module)) =~= seq_view(items@).push(module@));
                items.push(module);
            },
            Err(error) => {
                proof {
                    lemma_bad_row_decides(all, i + 1);
                }
                return Err(error);
            },
        }
        i += 1;
    }
    assert(all.take(all.len() as int) =~= all);
    let ghost modules = seq_view(items@);
    let has_more = items.len() > limit;
    items.truncate(limit);
    assert(decoded_modules(all) == Ok::<_, ControlErrorView>(modules));
    if !has_more {
        assert(seq_view(items@) =~= modules);
        return Ok(ControlPage { items, next_cursor: None });
    }
    assert(seq_view(items@) =~= modules.take(limit as int));
    assert(items@[limit - 1]@ == modules[limit - 1]);
    let next_cursor = bytes_copy(items[limit - 1].id.as_str().as_bytes());
    Ok(ControlPage { items, next_cursor: Some(next_cursor) })
}

/// What reading one key of the datastore gave: a value where the key is present, or an error.
pub open spec fn read_view(value: Result<Option<Vec<u8>>, String>) -> Result<
    Option<Seq<u8>>,
    Seq<char>,
> {
    match value {
        Ok(value) => Ok(option_view(value)),
        Err(error) => Err(error@),
    }
}

/// Key of the size of module `id`.
pub fn info_key(id: &str) -> (key: Vec<u8>)
    ensures
        key@ == meta_key(id@),
{
    module_key(MODULE_META_PREFIX.as_bytes(), id.as_bytes())
}

/// Key of the artifact of module `id`.
pub fn bytes_key(id: &str) -> (key: Vec<u8>)
    ensures
        key@ == data_key(id@),
{
    module_key(MODULE_DATA_PREFIX.as_bytes(), id.as_bytes())
}

/// What is known of module `id`, where what was read under its metadata key is `value`.
pub open spec fn module_known(id: Seq<char>, value: Result<Option<Seq<u8>>, Seq<char>>) -> Result<
    Option<ModuleInfoView>,
    ControlErrorView,
> {
    match value {
        Ok(Some(size)) => match decoded_module(meta_key(id), size) {
            Ok(module) => Ok(Some(module)),
            Err(error) => Err(error),
        },
        Ok(None) => Ok(None),
        Err(error) => Err(ControlErrorView::Storage(error)),
    }
}

/// What is known of module `id`, where what was read under its metadata key is `value`.
pub fn info(id: &str, value: Result<Option<Vec<u8>>, String>) -> (module: Result<
    Option<ModuleInfo>,
    ControlError,
>)
    ensures
        lookup_view(module) == module_known(id@, read_view(value)),
{
    match value {
        Ok(Some(size)) => match decode_module_info(info_key(id).as_slice(), size.as_slice()) {
            Ok(module) => Ok(Some(module)),
            Err(error) => Err(error),
        },
        Ok(None) => Ok(None),
        Err(error) => Err(storage_error(error)),
    }
}

/// The artifact of a module, where what was read under its data key is `value`.
pub open spec fn artifact_stored(value: Result<Option<Seq<u8>>, Seq<char>>) -> Result<
    Option<Seq<u8>>,
    ControlErrorView,
> {
    match value {
        Ok(found) => Ok(found),
        Err(error) => Err(ControlErrorView::Storage(error)),
    }
}

/// The artifact of a module, where what was read under its data key is `value`.
pub fn bytes(value: Result<Option<Vec<u8>>, String>) -> (artifact: Result<
    Option<Vec<u8>>,
    ControlError,
>)
    ensures
        lookup_view(artifact) == artifact_stored(read_view(value)),
{
    match value {
        Ok(found) => Ok(found),
        Err(error) => Err(storage_error(error)),
    }
}

/// Lowercase hexadecimal BLAKE3 digest of `bytes`.
pub uninterp spec fn blake3_hex(bytes: Seq<u8>) -> Seq<char>;

/// `text` is 64 lowercase hexadecimal digits.
pub open spec fn digest_form(text: Seq<char>) -> bool {
    text.len() == 64 && forall|i: int|
        0 <= i < text.len() ==> ('0' <= #[trigger] text[i] <= '9' || 'a' <= text[i] <= 'f')
}

/// Lowercase hexadecimal BLAKE3 digest of `bytes`.
///
/// Calls `blake3::hash` and `blake3::Hash::to_hex`. The digest depends on the bytes alone, and its
/// 32 bytes make 64 digits.
#[verifier::external_body]
fn content_digest(bytes: &[u8]) -> (digest: String)
    ensures
        digest@ == blake3_hex(bytes@),
        digest_form(digest@),
{
    blake3::hash(bytes).to_hex().to_string()
}

/// A digest has the form of a module identifier.
pub proof fn lemma_digest_is_module_id(digest: Seq<char>)
    requires
        digest_form(digest),
    ensures
        module_id_form(encode_utf8(digest)),
{
    is_ascii_chars_encode_utf8(digest);
    let bytes = encode_utf8(digest);
    assert forall|i: int| 0 <= i < bytes.len() implies lower_hex_digit(#[trigger] bytes[i]) by {
        assert('0' <= digest[i] <= '9' || 'a' <= digest[i] <= 'f');
    }
}

/// A registration that takes the registry's lock next.
#[derive(Debug, PartialEq, Eq)]
pub struct RegisterPlan {
    id: String,
    bytes: Vec<u8>,
}

/// A registration that holds the lock and reads its data key next.
#[derive(Debug, PartialEq, Eq)]
pub struct RegisterLookup {
    id: String,
    bytes: Vec<u8>,
}

/// A registration that writes its rows, all or none, next.
#[derive(Debug, PartialEq, Eq)]
pub struct RegisterWrite {
    puts: Vec<(Vec<u8>, Vec<u8>)>,
    registration: ModuleRegistration,
}

/// A registration that makes what it wrote durable next.
#[derive(Debug, PartialEq, Eq)]
pub struct RegisterFlush {
    registration: ModuleRegistration,
}

/// What a registration is about before its rows are made: the artifact, and the module's
/// identifier.
#[verifier::ext_equal]
pub struct ArtifactView {
    pub id: Seq<char>,
    pub bytes: Seq<u8>,
}

/// What a [`RegisterWrite`] stands for.
#[verifier::ext_equal]
pub struct RegisterWriteView {
    pub puts: Seq<(Seq<u8>, Seq<u8>)>,
    pub registration: ModuleRegistrationView,
}

impl View for RegisterPlan {
    type V = ArtifactView;

    closed spec fn view(&self) -> ArtifactView {
        ArtifactView { id: self.id@, bytes: self.bytes@ }
    }
}

impl View for RegisterLookup {
    type V = ArtifactView;

    closed spec fn view(&self) -> ArtifactView {
        ArtifactView { id: self.id@, bytes: self.bytes@ }
    }
}

impl View for RegisterWrite {
    type V = RegisterWriteView;

    closed spec fn view(&self) -> RegisterWriteView {
        RegisterWriteView { puts: seq_view(self.puts@), registration: self.registration@ }
    }
}

impl View for RegisterFlush {
    type V = ModuleRegistrationView;

    closed spec fn view(&self) -> ModuleRegistrationView {
        self.registration@
    }
}

/// A registration after its lookup: over, or with rows to write.
#[derive(Debug, PartialEq, Eq)]
pub enum RegisterStep {
    Finished(Result<ModuleRegistration, ControlError>),
    Write(RegisterWrite),
}

/// What a [`RegisterStep`] stands for.
pub enum RegisterStepView {
    Finished(Result<ModuleRegistrationView, ControlErrorView>),
    Write(RegisterWriteView),
}

impl View for RegisterStep {
    type V = RegisterStepView;

    open spec fn view(&self) -> RegisterStepView {
        match self {
            RegisterStep::Finished(outcome) => RegisterStepView::Finished(outcome_view(*outcome)),
            RegisterStep::Write(write) => RegisterStepView::Write(write@),
        }
    }
}

/// The registration of artifact `bytes`, the module's `id` being its digest.
pub open spec fn registration_of(
    id: Seq<char>,
    bytes: Seq<u8>,
    created: bool,
) -> ModuleRegistrationView {
    ModuleRegistrationView {
        module: ModuleInfoView { id, size_bytes: bytes.len() as u64 },
        created,
    }
}

/// The rows that keep artifact `bytes` as module `id`: the artifact and its size.
pub open spec fn module_rows(id: Seq<char>, bytes: Seq<u8>) -> Seq<(Seq<u8>, Seq<u8>)> {
    seq![(data_key(id), bytes), (meta_key(id), be_digits(bytes.len(), 8))]
}

/// What becomes of the registration of `bytes` as module `id`, where what was read under the data
/// key is `existing`: a module with these bytes is there already, one with other bytes is a digest
/// collision, and an absent one is written.
pub open spec fn registration_step(
    id: Seq<char>,
    bytes: Seq<u8>,
    existing: Result<Option<Seq<u8>>, Seq<char>>,
) -> RegisterStepView {
    match existing {
        Ok(Some(stored)) => if stored == bytes {
            RegisterStepView::Finished(Ok(registration_of(id, bytes, false)))
        } else {
            RegisterStepView::Finished(
                Err(ControlErrorView::Internal("module digest collision detected"@)),
            )
        },
        Ok(None) => RegisterStepView::Write(
            RegisterWriteView {
                puts: module_rows(id, bytes),
                registration: registration_of(id, bytes, true),
            },
        ),
        Err(error) => RegisterStepView::Finished(Err(ControlErrorView::Storage(error))),
    }
}

/// Begins the registration of artifact `bytes` under its digest.
pub fn register(bytes: Vec<u8>) -> (plan: RegisterPlan)
    ensures
        plan@ == (ArtifactView { id: blake3_hex(bytes@), bytes: bytes@ }),
        module_id_form(encode_utf8(plan@.id)),
{
    let id = content_digest(bytes.as_slice());
    proof {
        lemma_digest_is_module_id(id@);
    }
    RegisterPlan { id, bytes }
}

/// What the registry reports where its lock is poisoned.
fn lock_poisoned() -> (error: ControlError)
    ensures
        error@ == ControlErrorView::Internal("module registry lock poisoned"@),
{
    ControlError::Internal("module registry lock poisoned".to_owned())
}

impl RegisterPlan {
    /// Goes on after the attempt to take the lock, which fails where the lock is poisoned.
    pub fn locked(self, acquired: bool) -> (next: Result<RegisterLookup, ControlError>)
        ensures
            match next {
                Ok(lookup) => acquired && lookup@ == self@,
                Err(error) => !acquired && error@ == ControlErrorView::Internal(
                    "module registry lock poisoned"@,
                ),
            },
    {
        if acquired {
            Ok(RegisterLookup { id: self.id, bytes: self.bytes })
        } else {
            Err(lock_poisoned())
        }
    }
}

impl RegisterLookup {
    /// The key to read.
    pub fn data_key(&self) -> (key: Vec<u8>)
        ensures
            key@ == data_key(self@.id),
    {
        bytes_key(self.id.as_str())
    }

    /// Goes on with what was read under the data key.
    pub fn found(self, existing: Result<Option<Vec<u8>>, String>) -> (step: RegisterStep)
        ensures
            step@ == registration_step(self@.id, self@.bytes, read_view(existing)),
    {
        let size_bytes = self.bytes.len() as u64;
        match existing {
            Ok(Some(stored)) => if bytes_equal(stored.as_slice(), self.bytes.as_slice()) {
                RegisterStep::Finished(
                    Ok(
                        ModuleRegistration {
                            module: ModuleInfo { id: self.id, size_bytes },
                            created: false,
                        },
                    ),
                )
            } else {
                RegisterStep::Finished(
                    Err(ControlError::Internal("module digest collision detected".to_owned())),
                )
            },
            Ok(None) => {
                let mut puts: Vec<(Vec<u8>, Vec<u8>)> = Vec::new();
                let data_key = bytes_key(self.id.as_str());
                let meta_key = info_key(self.id.as_str());
                puts.push((data_key, self.bytes));
                puts.push((meta_key, to_big_endian(size_bytes, 8)));
                assert(seq_view(puts@) =~= module_rows(self.id@, self.bytes@));
                RegisterStep::Write(
                    RegisterWrite {
                        puts,
                        registration: ModuleRegistration {
                            module: ModuleInfo { id: self.id, size_bytes },
                            created: true,
                        },
                    },
                )
            },
            Err(error) => RegisterStep::Finished(Err(storage_error(error))),
        }
    }
}

impl RegisterWrite {
    /// The rows to write.
    pub fn puts(&self) -> (puts: &Vec<(Vec<u8>, Vec<u8>)>)
        ensures
            seq_view(puts@) == self@.puts,
    {
        &self.puts
    }

    /// Goes on after the write.
    pub fn written(self, outcome: Result<(), String>) -> (next: Result<RegisterFlush, ControlError>)
        ensures
            match next {
                Ok(flush) => outcome is Ok && flush@ == self@.registration,
                Err(error) => outcome matches Err(reason) && error@ == ControlErrorView::Storage(
                    reason@,
                ),
            },
    {
        match outcome {
            Ok(()) => Ok(RegisterFlush { registration: self.registration }),
            Err(error) => Err(storage_error(error)),
        }
    }
}

impl RegisterFlush {
    /// The outcome of the registration, after the rows were made durable.
    pub fn flushed(self, outcome: Result<(), String>) -> (registration: Result<
        ModuleRegistration,
        ControlError,
    >)
        ensures
            match registration {
                Ok(registered) => outcome is Ok && registered@ == self@,
                Err(error) => outcome matches Err(reason) && error@ == ControlErrorView::Storage(
                    reason@,
                ),
            },
    {
        match outcome {
            Ok(()) => Ok(self.registration),
            Err(error) => Err(storage_error(error)),
        }
    }
}

/// A deletion that takes the registry's lock next.
#[derive(Debug, PartialEq, Eq)]
pub struct DeletePlan {
    id: String,
}

/// A deletion that holds the lock and removes these keys, all or none, next. A key that is absent
/// is no error.
#[derive(Debug, PartialEq, Eq)]
pub struct DeleteWrite {
    deletes: Vec<Vec<u8>>,
}

/// A deletion that makes the removal durable next.
#[derive(Debug, PartialEq, Eq)]
pub struct DeleteFlush {
    removed: (),
}

impl View for DeletePlan {
    type V = Seq<char>;

    closed spec fn view(&self) -> Seq<char> {
        self.id@
    }
}

impl View for DeleteWrite {
    type V = Seq<Seq<u8>>;

    closed spec fn view(&self) -> Seq<Seq<u8>> {
        seq_view(self.deletes@)
    }
}

/// The keys that keep module `id`.
pub open spec fn module_keys(id: Seq<char>) -> Seq<Seq<u8>> {
    seq![data_key(id), meta_key(id)]
}

/// Begins the deletion of module `id`.
pub fn delete(id: String) -> (plan: DeletePlan)
    ensures
        plan@ == id@,
{
    DeletePlan { id }
}

impl DeletePlan {
    /// Goes on after the attempt to take the lock, which fails where the lock is poisoned.
    pub fn locked(self, acquired: bool) -> (next: Result<DeleteWrite, ControlError>)
        ensures
            match next {
                Ok(write) => acquired && write@ == module_keys(self@),
                Err(error) => !acquired && error@ == ControlErrorView::Internal(
                    "module registry lock poisoned"@,
                ),
            },
    {
        if !acquired {
            return Err(lock_poisoned());
        }
        let mut deletes: Vec<Vec<u8>> = Vec::new();
        deletes.push(bytes_key(self.id.as_str()));
        deletes.push(info_key(self.id.as_str()));
        assert(seq_view(deletes@) =~= module_keys(self.id@));
        Ok(DeleteWrite { deletes })
    }
}

impl DeleteWrite {
    /// The keys to remove.
    pub fn deletes(&self) -> (deletes: &Vec<Vec<u8>>)
        ensures
            seq_view(deletes@) == self@,
    {
        &self.deletes
    }

    /// Goes on after the removal.
    pub fn written(self, outcome: Result<(), String>) -> (next: Result<DeleteFlush, ControlError>)
        ensures
            match next {
                Ok(_) => outcome is Ok,
                Err(error) => outcome matches Err(reason) && error@ == ControlErrorView::Storage(
                    reason@,
                ),
            },
    {
        match outcome {
            Ok(()) => Ok(DeleteFlush { removed: () }),
            Err(error) => Err(storage_error(error)),
        }
    }
}

impl DeleteFlush {
    /// The outcome of the deletion, after the removal was made durable.
    pub fn flushed(self, outcome: Result<(), String>) -> (deleted: Result<(), ControlError>)
        ensures
            match deleted {
                Ok(()) => outcome is Ok,
                Err(error) => outcome matches Err(reason) && error@ == ControlErrorView::Storage(
                    reason@,
                ),
            },
    {
        match outcome {
            Ok(()) => Ok(()),
            Err(error) => Err(storage_error(error)),
        }
    }
}

} // verus!
