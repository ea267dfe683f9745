//! What a client is answered over time, where the datastore does as it is asked.

use crate::control::{ControlErrorView, ModuleInfoView};
use crate::json::{lemma_module_text_len, module_text};
use crate::node::{module_found, value_found};
use crate::registry::{artifact_stored, blake3_hex, data_key, reserved_prefix};
use crate::reply::{
    error_view, json_view, module_location, module_view, registration_view, value_view, ReplyView,
};
use crate::request::module_id_form;
use crate::store::{
    deleted, known, law_deleted_module_is_unknown, law_other_keys_stay,
    law_registered_module_is_known, law_registration_is_idempotent, registered, registry_sound,
    value_at, Stored,
};
use crate::text::{lemma_encode_at_least, lemma_encode_len};
use vstd::prelude::*;
use vstd::utf8::*;

verus! {

/// The document of a module with an identifier of the form that registration gives fits in a reply.
proof fn lemma_module_fits(module: ModuleInfoView)
    requires
        module_id_form(encode_utf8(module.id)),
    ensures
        encode_utf8(module_text(module)).len() <= 10000,
{
    lemma_encode_at_least(module.id);
    lemma_module_text_len(module);
    lemma_encode_len(module_text(module));
}

/// An artifact that is new to the node is answered as created, with its location; uploading the
/// same bytes again is answered with the same module, and without a location.
pub proof fn law_repeated_upload_is_answered_with_the_same_module(store: Stored, bytes: Seq<u8>)
    requires
        !store.contains_key(data_key(blake3_hex(bytes))),
        module_id_form(encode_utf8(blake3_hex(bytes))),
    ensures
        registration_view(registered(store, bytes).1) == json_view(
            201,
            seq![("location"@, module_location(blake3_hex(bytes)))],
            encode_utf8(module_text(registered(store, bytes).1->Ok_0.module)),
        ),
        registration_view(registered(registered(store, bytes).0, bytes).1) == json_view(
            200,
            Seq::empty(),
            encode_utf8(module_text(registered(store, bytes).1->Ok_0.module)),
        ),
        registered(store, bytes).1->Ok_0.module.id == blake3_hex(bytes),
{
    law_registration_is_idempotent(store, bytes);
    lemma_module_fits(registered(store, bytes).1->Ok_0.module);
}

/// A registered module is shown with its identifier and its size, and the artifact that a run
/// executes is what was uploaded.
pub proof fn law_registered_module_is_answered(store: Stored, bytes: Seq<u8>)
    requires
        registry_sound(store),
        bytes.len() <= u64::MAX,
        registered(store, bytes).1 is Ok,
        module_id_form(encode_utf8(blake3_hex(bytes))),
    ensures
        module_view(module_found(known(registered(store, bytes).0, blake3_hex(bytes))))
            == json_view(
            200,
            Seq::empty(),
            encode_utf8(
                module_text(
                    ModuleInfoView { id: blake3_hex(bytes), size_bytes: bytes.len() as u64 },
                ),
            ),
        ),
        module_found(
            artifact_stored(
                Ok(value_at(registered(store, bytes).0, data_key(blake3_hex(bytes)))),
            ),
        ) == Ok::<_, ControlErrorView>(bytes),
{
    law_registered_module_is_known(store, bytes);
    lemma_module_fits(
        ModuleInfoView { id: blake3_hex(bytes), size_bytes: bytes.len() as u64 },
    );
}

/// After its deletion a module is answered as not found, and a run of it has no artifact to
/// execute.
pub proof fn law_deleted_module_is_answered_not_found(store: Stored, id: Seq<char>)
    ensures
        module_view(module_found(known(deleted(store, id), id))) == error_view(
            404,
            "not_found"@,
            "module not found"@,
        ),
        module_found(artifact_stored(Ok(value_at(deleted(store, id), data_key(id))))) == Err::<
            Seq<u8>,
            _,
        >(ControlErrorView::ModuleNotFound),
{
    law_deleted_module_is_unknown(store, id);
}

/// A key of the application that is in the datastore is answered with exactly the bytes stored
/// under it, where they are not more than 1048576, and one that is not there as not found.
pub proof fn law_stored_value_is_answered(store: Stored, key: Seq<u8>, text: Seq<char>)
    requires
        !encode_utf8("__nx/"@).is_prefix_of(key),
    ensures
        store.contains_key(key) && store[key].len() <= 1048576 ==> value_view(
            text,
            value_found(Ok(value_at(store, key))),
        ) == (ReplyView {
            status: 200,
            headers: seq![
                ("content-type"@, "application/octet-stream"@),
                ("x-numax-key"@, text),
            ],
            body: store[key],
        }),
        !store.contains_key(key) ==> value_view(text, value_found(Ok(value_at(store, key))))
            == error_view(404, "not_found"@, "key not found"@),
{
}

/// What a client reads of an application's key does not depend on which modules were registered or
/// deleted meanwhile.
pub proof fn law_application_data_is_answered_alike(
    store: Stored,
    bytes: Seq<u8>,
    id: Seq<char>,
    key: Seq<u8>,
    text: Seq<char>,
)
    requires
        !reserved_prefix().is_prefix_of(key),
    ensures
        value_view(text, value_found(Ok(value_at(registered(store, bytes).0, key)))) == value_view(
            text,
            value_found(Ok(value_at(store, key))),
        ),
        value_view(text, value_found(Ok(value_at(deleted(store, id), key)))) == value_view(
            text,
            value_found(Ok(value_at(store, key))),
        ),
{
    law_other_keys_stay(store, bytes, id, key);
}

} // verus!
