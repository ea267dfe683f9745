//! What a datastore holds, and what registrations and deletions make of it where it does as it is
//! asked.

use crate::control::{ControlErrorView, ModuleInfoView, ModuleRegistrationView};
use crate::registry::{
    blake3_hex, data_key, data_prefix, decoded_module, meta_key, meta_prefix, module_keys,
    module_known, module_rows, registration_of, registration_step, reserved_prefix,
    RegisterStepView, MODULE_DATA_PREFIX, MODULE_META_PREFIX, RESERVED_PREFIX,
};
use crate::text::{be_digits, lemma_big_endian_round_trip, lemma_encode_concat};
use vstd::prelude::*;
use vstd::utf8::*;

verus! {

/// What a datastore holds: a value under each key that is present.
pub type Stored = Map<Seq<u8>, Seq<u8>>;

/// The value under `key`, where it is present.
pub open spec fn value_at(store: Stored, key: Seq<u8>) -> Option<Seq<u8>> {
    if store.contains_key(key) {
        Some(store[key])
    } else {
        None
    }
}

/// The datastore with the rows `puts` written, one after the other.
pub open spec fn with_rows(store: Stored, puts: Seq<(Seq<u8>, Seq<u8>)>) -> Stored
    decreases puts.len(),
{
    if puts.len() == 0 {
        store
    } else {
        with_rows(store, puts.drop_last()).insert(puts.last().0, puts.last().1)
    }
}

/// The datastore with the keys `deletes` removed.
pub open spec fn without_keys(store: Stored, deletes: Seq<Seq<u8>>) -> Stored
    decreases deletes.len(),
{
    if deletes.len() == 0 {
        store
    } else {
        without_keys(store, deletes.drop_last()).remove(deletes.last())
    }
}

/// What the registration of artifact `bytes` leaves in the datastore, and its outcome.
pub open spec fn registered(store: Stored, bytes: Seq<u8>) -> (
    Stored,
    Result<ModuleRegistrationView, ControlErrorView>,
) {
    let id = blake3_hex(bytes);
    match registration_step(id, bytes, Ok(value_at(store, data_key(id)))) {
        RegisterStepView::Finished(outcome) => (store, outcome),
        RegisterStepView::Write(write) => (with_rows(store, write.puts), Ok(write.registration)),
    }
}

/// What the deletion of module `id` leaves in the datastore.
pub open spec fn deleted(store: Stored, id: Seq<char>) -> Stored {
    without_keys(store, module_keys(id))
}

/// What the datastore's registry says of module `id`.
pub open spec fn known(store: Stored, id: Seq<char>) -> Result<
    Option<ModuleInfoView>,
    ControlErrorView,
> {
    module_known(id, Ok(value_at(store, meta_key(id))))
}

/// The registry in the datastore is sound: every artifact is kept under its own digest, a module
/// has an artifact exactly where it has a size, the size is that of the artifact, and every size
/// belongs to a module.
pub open spec fn registry_sound(store: Stored) -> bool {
    &&& forall|id: Seq<char>|
        #![trigger data_key(id)]
        #![trigger meta_key(id)]
        match value_at(store, data_key(id)) {
            Some(bytes) => blake3_hex(bytes) == id && value_at(store, meta_key(id)) == Some(
                be_digits(bytes.len(), 8),
            ),
            None => value_at(store, meta_key(id)) is None,
        }
    &&& forall|key: Seq<u8>| #[trigger]
        store.contains_key(key) && meta_prefix().is_prefix_of(key) ==> exists|id: Seq<char>|
            key == #[trigger] meta_key(id)
}

/// The keys of the registry are the node's own: they begin with the reserved prefix.
pub proof fn law_module_keys_are_reserved(id: Seq<char>)
    ensures
        reserved_prefix().is_prefix_of(data_key(id)),
        reserved_prefix().is_prefix_of(meta_key(id)),
{
    reveal_strlit("__nx/");
    reveal_strlit("__nx/modules/data/");
    reveal_strlit("__nx/modules/meta/");
    reveal_strlit("modules/data/");
    reveal_strlit("modules/meta/");
    assert(MODULE_DATA_PREFIX@ =~= RESERVED_PREFIX@ + "modules/data/"@);
    assert(MODULE_META_PREFIX@ =~= RESERVED_PREFIX@ + "modules/meta/"@);
    lemma_encode_concat(RESERVED_PREFIX@, "modules/data/"@);
    lemma_encode_concat(RESERVED_PREFIX@, "modules/meta/"@);
    assert(reserved_prefix() =~= data_key(id).subrange(0, reserved_prefix().len() as int));
    assert(reserved_prefix() =~= meta_key(id).subrange(0, reserved_prefix().len() as int));
}

/// Artifacts and sizes have different keys, and so have different modules.
proof fn lemma_module_keys_differ(a: Seq<char>, b: Seq<char>)
    ensures
        data_key(a) != meta_key(b),
        data_key(a) == data_key(b) ==> a == b,
        meta_key(a) == meta_key(b) ==> a == b,
{
    reveal_strlit("__nx/modules/data/");
    reveal_strlit("__nx/modules/meta/");
    is_ascii_chars_encode_utf8(MODULE_DATA_PREFIX@);
    is_ascii_chars_encode_utf8(MODULE_META_PREFIX@);
    assert(data_prefix()[13] == 'd' as u8);
    assert(meta_prefix()[13] == 'm' as u8);
    assert(data_key(a)[13] != meta_key(b)[13]);
    encode_utf8_decode_utf8(a);
    encode_utf8_decode_utf8(b);
    if data_key(a) == data_key(b) {
        assert(data_key(a).skip(18) =~= encode_utf8(a));
        assert(data_key(b).skip(18) =~= encode_utf8(b));
    }
    if meta_key(a) == meta_key(b) {
        assert(meta_key(a).skip(18) =~= encode_utf8(a));
        assert(meta_key(b).skip(18) =~= encode_utf8(b));
    }
}

/// The key of an artifact is not among the keys of sizes.
proof fn lemma_data_key_is_no_meta_key(id: Seq<char>)
    ensures
        !meta_prefix().is_prefix_of(data_key(id)),
{
    reveal_strlit("__nx/modules/data/");
    reveal_strlit("__nx/modules/meta/");
    is_ascii_chars_encode_utf8(MODULE_DATA_PREFIX@);
    is_ascii_chars_encode_utf8(MODULE_META_PREFIX@);
    assert(data_key(id)[13] == 'd' as u8);
    assert(meta_prefix()[13] == 'm' as u8);
    if meta_prefix().is_prefix_of(data_key(id)) {
        assert(meta_prefix()[13] == data_key(id).subrange(0, meta_prefix().len() as int)[13]);
    }
}

/// What writing the rows of a module changes: its two keys.
proof fn lemma_module_rows_written(store: Stored, id: Seq<char>, bytes: Seq<u8>)
    ensures
        with_rows(store, module_rows(id, bytes)) == store.insert(data_key(id), bytes).insert(
            meta_key(id),
            be_digits(bytes.len(), 8),
        ),
{
    let puts = module_rows(id, bytes);
    let first = puts.drop_last();
    assert(first =~= seq![(data_key(id), bytes)]);
    assert(first.drop_last() =~= Seq::empty());
    reveal_with_fuel(with_rows, 3);
}

/// What removing the keys of a module changes: its two keys.
proof fn lemma_module_keys_removed(store: Stored, id: Seq<char>)
    ensures
        deleted(store, id) == store.remove(data_key(id)).remove(meta_key(id)),
{
    let deletes = module_keys(id);
    let first = deletes.drop_last();
    assert(first =~= seq![data_key(id)]);
    assert(first.drop_last() =~= Seq::empty());
    reveal_with_fuel(without_keys, 3);
}

/// Registering the same bytes again changes nothing: the outcome is the same module, not new, and
/// the datastore stays as it is.
pub proof fn law_registration_is_idempotent(store: Stored, bytes: Seq<u8>)
    requires
        registered(store, bytes).1 is Ok,
    ensures
        registered(registered(store, bytes).0, bytes).0 == registered(store, bytes).0,
        registered(registered(store, bytes).0, bytes).1 == Ok::<_, ControlErrorView>(
            ModuleRegistrationView {
                module: registered(store, bytes).1->Ok_0.module,
                created: false,
            },
        ),
{
    let id = blake3_hex(bytes);
    lemma_module_rows_written(store, id, bytes);
    lemma_module_keys_differ(id, id);
}

/// A registration succeeds unless other bytes are stored under the digest, and it is new exactly
/// where nothing is; it names the module by its digest and its length, and changes the datastore
/// only where it is new.
pub proof fn law_registration_outcome(store: Stored, bytes: Seq<u8>)
    ensures
        registered(store, bytes).1 == match value_at(store, data_key(blake3_hex(bytes))) {
            Some(stored) => if stored == bytes {
                Ok(registration_of(blake3_hex(bytes), bytes, false))
            } else {
                Err(ControlErrorView::Internal("module digest collision detected"@))
            },
            None => Ok(registration_of(blake3_hex(bytes), bytes, true)),
        },
        registered(store, bytes).1 is Ok ==> {
            let registration = registered(store, bytes).1->Ok_0;
            &&& registration.created <==> !store.contains_key(data_key(blake3_hex(bytes)))
            &&& registration.module.id == blake3_hex(bytes)
            &&& bytes.len() <= u64::MAX ==> registration.module.size_bytes == bytes.len()
        },
        registered(store, bytes).1 is Err <==> store.contains_key(data_key(blake3_hex(bytes)))
            && store[data_key(blake3_hex(bytes))] != bytes,
        store.contains_key(data_key(blake3_hex(bytes))) ==> registered(store, bytes).0 == store,
        !store.contains_key(data_key(blake3_hex(bytes))) ==> registered(store, bytes).0
            == store.insert(data_key(blake3_hex(bytes)), bytes).insert(
            meta_key(blake3_hex(bytes)),
            be_digits(bytes.len(), 8),
        ),
{
    lemma_module_rows_written(store, blake3_hex(bytes), bytes);
}

/// The metadata row of a module says its identifier and its size.
proof fn lemma_module_row_decodes(id: Seq<char>, size: u64)
    ensures
        decoded_module(meta_key(id), be_digits(size as nat, 8)) == Ok::<_, ControlErrorView>(
            ModuleInfoView { id, size_bytes: size },
        ),
{
    assert(meta_prefix() =~= meta_key(id).subrange(0, meta_prefix().len() as int));
    assert(meta_key(id).skip(meta_prefix().len() as int) =~= encode_utf8(id));
    encode_utf8_valid_utf8(id);
    encode_utf8_decode_utf8(id);
    lemma_big_endian_round_trip(size);
}

/// A registered module is known, with its size, and its artifact is what was registered.
pub proof fn law_registered_module_is_known(store: Stored, bytes: Seq<u8>)
    requires
        registry_sound(store),
        bytes.len() <= u64::MAX,
        registered(store, bytes).1 is Ok,
    ensures
        known(registered(store, bytes).0, blake3_hex(bytes)) == Ok::<_, ControlErrorView>(
            Some(ModuleInfoView { id: blake3_hex(bytes), size_bytes: bytes.len() as u64 }),
        ),
        registered(store, bytes).1->Ok_0.module == (ModuleInfoView {
            id: blake3_hex(bytes),
            size_bytes: bytes.len() as u64,
        }),
        value_at(registered(store, bytes).0, data_key(blake3_hex(bytes))) == Some(bytes),
{
    let id = blake3_hex(bytes);
    lemma_module_rows_written(store, id, bytes);
    lemma_module_keys_differ(id, id);
    lemma_module_row_decodes(id, bytes.len() as u64);
}

/// Registration and deletion keep the registry sound: what is stored as a module is, for good, the
/// artifact that the module's identifier is the digest of.
pub proof fn law_registry_stays_sound(store: Stored, bytes: Seq<u8>, id: Seq<char>)
    requires
        registry_sound(store),
    ensures
        registry_sound(registered(store, bytes).0),
        registry_sound(deleted(store, id)),
{
    let digest = blake3_hex(bytes);
    lemma_module_rows_written(store, digest, bytes);
    lemma_module_keys_removed(store, id);
    assert forall|other: Seq<char>|
        #![trigger data_key(other)]
        #![trigger meta_key(other)]
        match value_at(registered(store, bytes).0, data_key(other)) {
            Some(kept) => blake3_hex(kept) == other && value_at(
                registered(store, bytes).0,
                meta_key(other),
            ) == Some(be_digits(kept.len(), 8)),
            None => value_at(registered(store, bytes).0, meta_key(other)) is None,
        } by {
        lemma_module_keys_differ(other, digest);
        lemma_module_keys_differ(digest, other);
        lemma_module_keys_differ(other, other);
    }
    assert forall|other: Seq<char>|
        #![trigger data_key(other)]
        #![trigger meta_key(other)]
        match value_at(deleted(store, id), data_key(other)) {
            Some(kept) => blake3_hex(kept) == other && value_at(
                deleted(store, id),
                meta_key(other),
            ) == Some(be_digits(kept.len(), 8)),
            None => value_at(deleted(store, id), meta_key(other)) is None,
        } by {
        lemma_module_keys_differ(other, id);
        lemma_module_keys_differ(id, other);
        lemma_module_keys_differ(other, other);
    }
    assert forall|key: Seq<u8>| #[trigger]
        registered(store, bytes).0.contains_key(key) && meta_prefix().is_prefix_of(
            key,
        ) implies exists|other: Seq<char>| key == #[trigger] meta_key(other) by {
        if key != meta_key(digest) {
            lemma_data_key_is_no_meta_key(digest);
            assert(store.contains_key(key));
        }
    }
    assert forall|key: Seq<u8>| #[trigger]
        deleted(store, id).contains_key(key) && meta_prefix().is_prefix_of(
            key,
        ) implies exists|other: Seq<char>| key == #[trigger] meta_key(other) by {
        assert(store.contains_key(key));
    }
}

/// An empty datastore holds a sound registry.
pub proof fn law_empty_registry_is_sound()
    ensures
        registry_sound(Map::empty()),
{
}

/// A deleted module is not known and has no artifact.
pub proof fn law_deleted_module_is_unknown(store: Stored, id: Seq<char>)
    ensures
        known(deleted(store, id), id) == Ok::<Option<ModuleInfoView>, ControlErrorView>(None),
        value_at(deleted(store, id), data_key(id)) is None,
{
    lemma_module_keys_removed(store, id);
}

/// Deleting a module again, or one that is not there, changes nothing.
pub proof fn law_deletion_is_idempotent(store: Stored, id: Seq<char>)
    ensures
        deleted(deleted(store, id), id) == deleted(store, id),
        !store.contains_key(data_key(id)) && !store.contains_key(meta_key(id)) ==> deleted(
            store,
            id,
        ) == store,
{
    lemma_module_keys_removed(store, id);
    lemma_module_keys_removed(deleted(store, id), id);
    assert(deleted(deleted(store, id), id) =~= deleted(store, id));
    if !store.contains_key(data_key(id)) && !store.contains_key(meta_key(id)) {
        assert(deleted(store, id) =~= store);
    }
}

/// Deletion undoes the registration of a module that was new.
pub proof fn law_deletion_undoes_registration(store: Stored, bytes: Seq<u8>)
    requires
        !store.contains_key(data_key(blake3_hex(bytes))),
        !store.contains_key(meta_key(blake3_hex(bytes))),
    ensures
        deleted(registered(store, bytes).0, blake3_hex(bytes)) == store,
{
    let id = blake3_hex(bytes);
    lemma_module_rows_written(store, id, bytes);
    lemma_module_keys_removed(registered(store, bytes).0, id);
    assert(deleted(registered(store, bytes).0, id) =~= store);
}

/// Registration and deletion of a module leave every other key as it is: those of other modules,
/// and every key of an application.
pub proof fn law_other_keys_stay(store: Stored, bytes: Seq<u8>, id: Seq<char>, key: Seq<u8>)
    ensures
        key != data_key(blake3_hex(bytes)) && key != meta_key(blake3_hex(bytes)) ==> value_at(
            registered(store, bytes).0,
            key,
        ) == value_at(store, key),
        key != data_key(id) && key != meta_key(id) ==> value_at(deleted(store, id), key)
            == value_at(store, key),
        !reserved_prefix().is_prefix_of(key) ==> value_at(registered(store, bytes).0, key)
            == value_at(store, key) && value_at(deleted(store, id), key) == value_at(store, key),
{
    lemma_module_rows_written(store, blake3_hex(bytes), bytes);
    lemma_module_keys_removed(store, id);
    law_module_keys_are_reserved(blake3_hex(bytes));
    law_module_keys_are_reserved(id);
}

} // verus!
