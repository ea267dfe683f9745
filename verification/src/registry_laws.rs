//! What the registry's operations come to, in terms of the keys and bytes that the datastore is
//! handed and gives.

use crate::control::{
    lookup_view, outcome_view, page_of, ControlError, ControlErrorView, ControlPage, ModuleInfo,
    ModuleInfoView, ModuleRegistration,
};
use crate::format_laws::{law_eight_bytes_are_a_number, law_number_has_its_eight_bytes};
use crate::paging::{law_page_keeps_to_its_limit, lesser};
use crate::registry::{
    blake3_hex, bytes, bytes_key, data_key, decode_module_info, decoded_module, decoded_modules,
    delete, info, info_key, list_page, list_scan, meta_key, meta_prefix, module_rows, register,
    DeleteFlush, DeletePlan, DeleteWrite, PageScan, RegisterFlush, RegisterLookup, RegisterPlan,
    RegisterStep, RegisterWrite, MODULE_DATA_PREFIX, MODULE_META_PREFIX,
};
use crate::text::{big_endian, lemma_encode_concat};
use crate::views::{option_view, seq_view};
use vstd::prelude::*;
use vstd::utf8::*;

verus! {

/// The key under which the artifact of module `id` is kept.
pub open spec fn artifact_key(id: Seq<char>) -> Seq<u8> {
    encode_utf8("__nx/modules/data/"@ + id)
}

/// The key under which the size of module `id` is kept.
pub open spec fn size_key(id: Seq<char>) -> Seq<u8> {
    encode_utf8("__nx/modules/meta/"@ + id)
}

proof fn lemma_keys(id: Seq<char>)
    ensures
        data_key(id) == artifact_key(id),
        meta_key(id) == size_key(id),
{
    lemma_encode_concat(MODULE_DATA_PREFIX@, id);
    lemma_encode_concat(MODULE_META_PREFIX@, id);
}

/// A module's artifact and size are read under its two keys.
pub proof fn law_module_is_read_under_its_keys(id: &str, artifact: Vec<u8>, size: Vec<u8>)
    requires
        call_ensures(bytes_key, (id,), artifact),
        call_ensures(info_key, (id,), size),
    ensures
        artifact@ == artifact_key(id@),
        size@ == size_key(id@),
{
    lemma_keys(id@);
}

/// A module listing reads the rows of sizes, after the one of the module that its cursor names, and
/// one more than its limit.
pub proof fn law_module_listing_reads_the_sizes(
    cursor: Option<&[u8]>,
    limit: usize,
    scan: PageScan,
)
    requires
        call_ensures(list_scan, (cursor, limit), scan),
    ensures
        scan.prefix@ == encode_utf8("__nx/modules/meta/"@),
        scan.start_after is Some <==> cursor is Some,
        cursor is Some ==> scan.start_after->0@ == encode_utf8("__nx/modules/meta/"@) + cursor->0@,
        scan.limit == lesser((limit + 1) as nat, 0xffff_ffff),
        scan.exclude is None,
{
    assert(scan@.prefix == scan.prefix@);
    assert(scan@.start_after == option_view(scan.start_after));
    assert(scan@.exclude == option_view(scan.exclude));
}

/// A row can be read as that of a module's size: its key is that of some module, and its value
/// takes eight bytes.
pub open spec fn readable(key: Seq<u8>, value: Seq<u8>) -> bool {
    &&& value.len() == 8
    &&& exists|id: Seq<char>| key == #[trigger] size_key(id)
}

/// A row of a module's size is read as the module whose key it has and as the number that its value
/// stands for; a row that is no such row is reported for what is wrong with it.
pub proof fn law_size_row_is_read(
    key: &[u8],
    value: &[u8],
    module: Result<ModuleInfo, ControlError>,
)
    requires
        call_ensures(decode_module_info, (key, value), module),
    ensures
        module is Ok <==> readable(key@, value@),
        module is Ok ==> key@ == size_key(module->Ok_0.id@) && big_endian(value@)
            == module->Ok_0.size_bytes,
        module is Err ==> module->Err_0 is Internal,
        module is Err ==> module->Err_0->Internal_0@ == (if !encode_utf8(
            "__nx/modules/meta/"@,
        ).is_prefix_of(key@) {
            "invalid module metadata key"@
        } else if !exists|id: Seq<char>| key@ == #[trigger] size_key(id) {
            "module ID is not valid UTF-8"@
        } else {
            "invalid module size metadata"@
        }),
{
    lemma_row(key@, value@);
    assert(outcome_view(module) == decoded_module(key@, value@));
    if module is Ok {
        assert(module->Ok_0@ == decoded_module(key@, value@)->Ok_0);
        lemma_keys(module->Ok_0.id@);
    } else {
        assert(module->Err_0@ == decoded_module(key@, value@)->Err_0);
        assert(module->Err_0@ is Internal);
    }
}

/// What a row is read as.
proof fn lemma_row(key: Seq<u8>, value: Seq<u8>)
    ensures
        decoded_module(key, value) is Ok <==> readable(key, value),
        decoded_module(key, value) is Ok ==> key == size_key(decoded_module(key, value)->Ok_0.id)
            && big_endian(value) == decoded_module(key, value)->Ok_0.size_bytes,
        decoded_module(key, value) is Err ==> decoded_module(key, value)->Err_0
            == ControlErrorView::Internal(
            if !encode_utf8("__nx/modules/meta/"@).is_prefix_of(key) {
                "invalid module metadata key"@
            } else if !exists|id: Seq<char>| key == #[trigger] size_key(id) {
                "module ID is not valid UTF-8"@
            } else {
                "invalid module size metadata"@
            },
        ),
{
    let prefix = meta_prefix();
    let rest = key.skip(prefix.len() as int);
    if exists|id: Seq<char>| key == #[trigger] size_key(id) {
        let id = choose|id: Seq<char>| key == #[trigger] size_key(id);
        lemma_keys(id);
        assert(key == prefix + encode_utf8(id));
        assert(prefix =~= key.subrange(0, prefix.len() as int));
        assert(rest =~= encode_utf8(id));
        encode_utf8_valid_utf8(id);
        encode_utf8_decode_utf8(id);
    }
    if prefix.is_prefix_of(key) && valid_utf8(rest) {
        let id = decode_utf8(rest);
        decode_utf8_encode_utf8(rest);
        lemma_keys(id);
        assert(key =~= prefix + rest);
        assert(key == size_key(id));
    }
    if value.len() == 8 {
        lemma_eight_bytes_fit(value);
    }
}

proof fn lemma_eight_bytes_fit(value: Seq<u8>)
    requires
        value.len() == 8,
    ensures
        big_endian(value) <= u64::MAX,
{
    law_eight_bytes_are_a_number(value);
}

proof fn lemma_rows(rows: Seq<(Seq<u8>, Seq<u8>)>)
    ensures
        decoded_modules(rows) is Ok <==> forall|i: int|
            0 <= i < rows.len() ==> readable((#[trigger] rows[i]).0, rows[i].1),
        decoded_modules(rows) is Ok ==> decoded_modules(rows)->Ok_0.len() == rows.len(),
        decoded_modules(rows) is Ok ==> forall|i: int|
            0 <= i < rows.len() ==> (#[trigger] rows[i]).0 == size_key(
                decoded_modules(rows)->Ok_0[i].id,
            ) && big_endian(rows[i].1) == decoded_modules(rows)->Ok_0[i].size_bytes,
        decoded_modules(rows) is Err ==> exists|i: int|
            0 <= i < rows.len() && (forall|j: int|
                0 <= j < i ==> readable((#[trigger] rows[j]).0, rows[j].1)) && (
            #[trigger] decoded_module(rows[i].0, rows[i].1)) is Err && decoded_module(
                rows[i].0,
                rows[i].1,
            )->Err_0 == decoded_modules(rows)->Err_0,
    decreases rows.len(),
{
    if rows.len() > 0 {
        let rest = rows.drop_last();
        let last = rows.len() - 1;
        lemma_rows(rest);
        lemma_row(rows[last].0, rows[last].1);
        if decoded_modules(rest) is Ok {
            assert forall|i: int| 0 <= i < last implies readable(
                (#[trigger] rows[i]).0,
                rows[i].1,
            ) by {
                assert(rest[i] == rows[i]);
            }
            if decoded_modules(rows) is Ok {
                assert forall|i: int| 0 <= i < rows.len() implies (#[trigger] rows[i]).0 == size_key(
                    decoded_modules(rows)->Ok_0[i].id,
                ) && big_endian(rows[i].1) == decoded_modules(rows)->Ok_0[i].size_bytes by {
                    if i < last {
                        assert(rest[i] == rows[i]);
                    }
                }
            } else {
                assert(decoded_module(rows[last].0, rows[last].1) is Err);
            }
        } else {
            let bad = choose|i: int|
                0 <= i < rest.len() && (forall|j: int|
                    0 <= j < i ==> readable((#[trigger] rest[j]).0, rest[j].1)) && (
                #[trigger] decoded_module(rest[i].0, rest[i].1)) is Err && decoded_module(
                    rest[i].0,
                    rest[i].1,
                )->Err_0 == decoded_modules(rest)->Err_0;
            assert(rest[bad] == rows[bad]);
            assert forall|j: int| 0 <= j < bad implies readable(
                (#[trigger] rows[j]).0,
                rows[j].1,
            ) by {
                assert(rest[j] == rows[j]);
            }
            lemma_row(rows[bad].0, rows[bad].1);
            assert(!readable(rows[bad].0, rows[bad].1));
        }
    }
}

/// A module page shows the modules of the rows that were read, in their order and as many as the
/// limit allows; its cursor is the identifier of the last one shown, and is there exactly where
/// more were read. It fails exactly where a row is not that of a module's size.
pub proof fn law_module_page_shows_the_rows_read(
    rows: Vec<(Vec<u8>, Vec<u8>)>,
    limit: usize,
    page: Result<ControlPage<ModuleInfo>, ControlError>,
)
    requires
        call_ensures(list_page, (Ok(rows), limit), page),
    ensures
        page is Ok <==> forall|i: int|
            0 <= i < rows@.len() ==> readable((#[trigger] rows@[i]).0@, rows@[i].1@),
        page is Err ==> page->Err_0 is Internal,
        page is Ok ==> {
            let items = page->Ok_0.items@;
            let next = page->Ok_0.next_cursor;
            &&& items.len() == lesser(rows@.len(), limit as nat)
            &&& forall|i: int|
                0 <= i < items.len() ==> rows@[i].0@ == size_key((#[trigger] items[i]).id@)
                    && big_endian(rows@[i].1@) == items[i].size_bytes
            &&& next is Some <==> rows@.len() > limit
            &&& rows@.len() > limit > 0 ==> encode_utf8("__nx/modules/meta/"@) + next->0@
                == rows@[limit - 1].0@
        },
{
    let table = seq_view(rows@);
    assert forall|i: int| 0 <= i < rows@.len() implies #[trigger] table[i] == (
        rows@[i].0@,
        rows@[i].1@,
    ) by {}
    lemma_rows(table);
    assert((forall|i: int|
        0 <= i < rows@.len() ==> readable((#[trigger] rows@[i]).0@, rows@[i].1@)) <==> (forall|i: int|
        0 <= i < table.len() ==> readable((#[trigger] table[i]).0, table[i].1))) by {
        if forall|i: int| 0 <= i < table.len() ==> readable((#[trigger] table[i]).0, table[i].1) {
            assert forall|i: int| 0 <= i < rows@.len() implies readable(
                (#[trigger] rows@[i]).0@,
                rows@[i].1@,
            ) by {
                assert(readable(table[i].0, table[i].1));
            }
        }
        if forall|i: int| 0 <= i < rows@.len() ==> readable((#[trigger] rows@[i]).0@, rows@[i].1@) {
            assert forall|i: int| 0 <= i < table.len() implies readable(
                (#[trigger] table[i]).0,
                table[i].1,
            ) by {
                assert(readable(rows@[i].0@, rows@[i].1@));
            }
        }
    }
    if page is Err {
        assert(outcome_view(page)->Err_0 == decoded_modules(table)->Err_0);
        let bad = choose|i: int|
            0 <= i < table.len() && (#[trigger] decoded_module(table[i].0, table[i].1)) is Err
                && decoded_module(table[i].0, table[i].1)->Err_0 == decoded_modules(table)->Err_0;
        lemma_row(table[bad].0, table[bad].1);
        assert(page->Err_0@ is Internal);
    } else {
        let p = page->Ok_0;
        let modules = decoded_modules(table)->Ok_0;
        let cursor_of = |module: ModuleInfoView| encode_utf8(module.id);
        assert(outcome_view(page) == Ok::<_, ControlErrorView>(
            page_of(modules, limit as nat, cursor_of),
        ));
        assert(p@ == page_of(modules, limit as nat, cursor_of));
        law_page_keeps_to_its_limit(modules, limit as nat, cursor_of);
        assert forall|i: int| 0 <= i < p.items@.len() implies rows@[i].0@ == size_key(
            (#[trigger] p.items@[i]).id@,
        ) && big_endian(rows@[i].1@) == p.items@[i].size_bytes by {
            assert(p@.items[i] == p.items@[i]@);
            assert(table[i].0 == size_key(modules[i].id));
        }
        if rows@.len() > limit && limit > 0 {
            assert(table[limit - 1].0 == size_key(modules[limit - 1].id));
            lemma_keys(modules[limit - 1].id);
        }
    }
}

/// Where reading fails, so does what was read for, for the datastore's reason.
pub proof fn law_failed_registry_reads_are_storage_errors(
    error: String,
    id: &str,
    limit: usize,
    page: Result<ControlPage<ModuleInfo>, ControlError>,
    module: Result<Option<ModuleInfo>, ControlError>,
    artifact: Result<Option<Vec<u8>>, ControlError>,
)
    requires
        call_ensures(list_page, (Err(error), limit), page),
        call_ensures(info, (id, Err(error)), module),
        call_ensures(bytes, (Err(error),), artifact),
    ensures
        page matches Err(ControlError::Storage(reason)) && reason@ == error@,
        module matches Err(ControlError::Storage(reason)) && reason@ == error@,
        artifact matches Err(ControlError::Storage(reason)) && reason@ == error@,
{
    assert(outcome_view(page) is Err);
    assert(lookup_view(module) is Err);
    assert(lookup_view(artifact) is Err);
    assert(page->Err_0@ is Storage);
    assert(module->Err_0@ is Storage);
    assert(artifact->Err_0@ is Storage);
}

/// What is known of a module is its identifier and the number that was read under its key; a module
/// of which nothing was read is not known, and a size that does not take eight bytes is reported.
pub proof fn law_module_is_known_by_its_size(
    id: &str,
    value: Option<Vec<u8>>,
    module: Result<Option<ModuleInfo>, ControlError>,
)
    requires
        call_ensures(info, (id, Ok(value)), module),
    ensures
        value is None ==> module is Ok && module->Ok_0 is None,
        value is Some && value->0@.len() == 8 ==> module is Ok && module->Ok_0 is Some
            && module->Ok_0->0.id@ == id@ && module->Ok_0->0.size_bytes == big_endian(value->0@),
        value is Some && value->0@.len() != 8 ==> module is Err && module->Err_0 is Internal
            && module->Err_0->Internal_0@ == "invalid module size metadata"@,
{
    if value is None {
        assert(lookup_view(module) is Ok);
        assert(lookup_view(module)->Ok_0 is None);
    } else {
        let size = value->0@;
        let key = meta_key(id@);
        lemma_keys(id@);
        lemma_row(key, size);
        assert(key == size_key(id@));
        assert(meta_prefix() =~= key.subrange(0, meta_prefix().len() as int));
        if size.len() == 8 {
            let read = decoded_module(key, size)->Ok_0;
            assert(lookup_view(module)->Ok_0 == Some(read));
            assert(module->Ok_0->0@ == read);
            lemma_size_key_injective(read.id, id@);
        } else {
            assert(module->Err_0@ == decoded_module(key, size)->Err_0);
            assert(module->Err_0@ is Internal);
        }
    }
}

proof fn lemma_size_key_injective(a: Seq<char>, b: Seq<char>)
    requires
        size_key(a) == size_key(b),
    ensures
        a == b,
{
    encode_utf8_decode_utf8("__nx/modules/meta/"@ + a);
    encode_utf8_decode_utf8("__nx/modules/meta/"@ + b);
    let prefix = "__nx/modules/meta/"@;
    assert((prefix + a).skip(prefix.len() as int) =~= a);
    assert((prefix + b).skip(prefix.len() as int) =~= b);
}

/// The artifact of a module is what was read under its key, byte for byte, if anything was.
pub proof fn law_artifact_is_what_was_read(
    value: Option<Vec<u8>>,
    artifact: Result<Option<Vec<u8>>, ControlError>,
)
    requires
        call_ensures(bytes, (Ok(value),), artifact),
    ensures
        artifact is Ok,
        artifact->Ok_0 is Some <==> value is Some,
        value is Some ==> artifact->Ok_0->0@ == value->0@,
{
    assert(lookup_view(artifact) is Ok);
    assert(lookup_view(artifact)->Ok_0 == option_view(value));
}

/// A registration whose lock is taken looks its artifact up under the key of its digest; one whose
/// lock is poisoned fails.
pub proof fn law_registration_looks_its_digest_up(
    artifact: Vec<u8>,
    plan: RegisterPlan,
    acquired: bool,
    next: Result<RegisterLookup, ControlError>,
    lookup: RegisterLookup,
    key: Vec<u8>,
)
    requires
        call_ensures(register, (artifact,), plan),
        call_ensures(RegisterPlan::locked, (plan, acquired), next),
        next is Ok ==> next->Ok_0 == lookup,
        call_ensures(RegisterLookup::data_key, (&lookup,), key),
    ensures
        next is Ok <==> acquired,
        next is Ok ==> key@ == artifact_key(blake3_hex(artifact@)),
        next is Err ==> (next->Err_0 matches ControlError::Internal(reason) && reason@
            == "module registry lock poisoned"@),
{
    lemma_keys(blake3_hex(artifact@));
    if next is Err {
        assert(next->Err_0@ is Internal);
    }
}

/// A registration that finds nothing under its key writes the artifact, byte for byte, and the
/// eight bytes of its length, each under its key and nothing else; and once both the write and the
/// flush are done, and only then, it reports the new module by its digest and its length.
pub proof fn law_new_artifact_is_written_whole(
    artifact: Vec<u8>,
    plan: RegisterPlan,
    lookup: RegisterLookup,
    write: RegisterWrite,
    puts: &Vec<(Vec<u8>, Vec<u8>)>,
    written: Result<(), String>,
    next: Result<RegisterFlush, ControlError>,
    flush: RegisterFlush,
    flushed: Result<(), String>,
    outcome: Result<ModuleRegistration, ControlError>,
)
    requires
        call_ensures(register, (artifact,), plan),
        call_ensures(RegisterPlan::locked, (plan, true), Ok(lookup)),
        call_ensures(RegisterLookup::found, (lookup, Ok(None)), RegisterStep::Write(write)),
        call_ensures(RegisterWrite::puts, (&write,), puts),
        call_ensures(RegisterWrite::written, (write, written), next),
        next is Ok ==> next->Ok_0 == flush,
        call_ensures(RegisterFlush::flushed, (flush, flushed), outcome),
        artifact@.len() <= u64::MAX,
    ensures
        puts@.len() == 2,
        puts@[0].0@ == artifact_key(blake3_hex(artifact@)),
        puts@[0].1@ == artifact@,
        puts@[1].0@ == size_key(blake3_hex(artifact@)),
        puts@[1].1@.len() == 8,
        big_endian(puts@[1].1@) == artifact@.len(),
        next is Ok <==> written is Ok,
        next is Err ==> (next->Err_0 matches ControlError::Storage(reason) && reason@
            == written->Err_0@),
        next is Ok ==> (outcome is Ok <==> flushed is Ok),
        next is Ok && outcome is Ok ==> outcome->Ok_0.created && outcome->Ok_0.module.id@
            == blake3_hex(artifact@) && outcome->Ok_0.module.size_bytes == artifact@.len(),
        next is Ok && outcome is Err ==> (outcome->Err_0 matches ControlError::Storage(reason)
            && reason@ == flushed->Err_0@),
{
    let id = blake3_hex(artifact@);
    lemma_keys(id);
    assert(RegisterStep::Write(write)@ is Write);
    let rows = module_rows(id, artifact@);
    assert(write@.puts == rows);
    let shown = seq_view(puts@);
    assert(shown == rows);
    assert(shown[0] == (puts@[0].0@, puts@[0].1@));
    assert(shown[1] == (puts@[1].0@, puts@[1].1@));
    law_number_has_its_eight_bytes(artifact@.len() as u64, puts@[1].1@);
    if next is Ok && outcome is Ok {
        let registered = outcome->Ok_0;
        assert(registered@ == write@.registration);
        assert(registered@.module == registered.module@);
    }
    if next is Err {
        assert(next->Err_0@ is Storage);
    }
    if next is Ok && outcome is Err {
        assert(outcome->Err_0@ is Storage);
    }
}

/// A registration that finds its own artifact reports the module as known and writes nothing; one
/// that finds other bytes reports a collision; one whose lookup fails, the datastore's reason; and
/// one that finds nothing goes on to write.
pub proof fn law_stored_artifact_is_registered_once(
    artifact: Vec<u8>,
    plan: RegisterPlan,
    lookup: RegisterLookup,
    existing: Result<Option<Vec<u8>>, String>,
    step: RegisterStep,
)
    requires
        call_ensures(register, (artifact,), plan),
        call_ensures(RegisterPlan::locked, (plan, true), Ok(lookup)),
        call_ensures(RegisterLookup::found, (lookup, existing), step),
        artifact@.len() <= u64::MAX,
    ensures
        step is Write <==> existing is Ok && existing->Ok_0 is None,
        existing is Ok && existing->Ok_0 is Some && existing->Ok_0->0@ == artifact@ ==> (
        step matches RegisterStep::Finished(Ok(registration)) && !registration.created
            && registration.module.id@ == blake3_hex(artifact@) && registration.module.size_bytes
            == artifact@.len()),
        existing is Ok && existing->Ok_0 is Some && existing->Ok_0->0@ != artifact@ ==> (
        step matches RegisterStep::Finished(Err(ControlError::Internal(reason))) && reason@
            == "module digest collision detected"@),
        existing is Err ==> (step matches RegisterStep::Finished(
            Err(ControlError::Storage(reason)),
        ) && reason@ == existing->Err_0@),
{
    if step is Finished {
        let outcome = step->Finished_0;
        assert(step@ is Finished);
        assert(step@->Finished_0 == outcome_view(outcome));
        if outcome is Ok {
            let registration = outcome->Ok_0;
            assert(outcome_view(outcome)->Ok_0 == registration@);
            assert(registration@.module == registration.module@);
        } else {
            let error = outcome->Err_0;
            assert(outcome_view(outcome)->Err_0 == error@);
            if existing is Err {
                assert(error@ is Storage);
            } else {
                assert(error@ is Internal);
            }
        }
    } else {
        assert(step@ is Write);
    }
}

/// A deletion whose lock is taken removes the module's two keys and nothing else, whether they are
/// there or not; and it is done exactly where both the removal and the flush are.
pub proof fn law_deletion_removes_both_keys(
    id: String,
    plan: DeletePlan,
    acquired: bool,
    next: Result<DeleteWrite, ControlError>,
    write: DeleteWrite,
    deletes: &Vec<Vec<u8>>,
    removed: Result<(), String>,
    after: Result<DeleteFlush, ControlError>,
    flush: DeleteFlush,
    flushed: Result<(), String>,
    outcome: Result<(), ControlError>,
)
    requires
        call_ensures(delete, (id,), plan),
        call_ensures(DeletePlan::locked, (plan, acquired), next),
        next is Ok ==> next->Ok_0 == write,
        call_ensures(DeleteWrite::deletes, (&write,), deletes),
        call_ensures(DeleteWrite::written, (write, removed), after),
        call_ensures(DeleteFlush::flushed, (flush, flushed), outcome),
    ensures
        next is Ok <==> acquired,
        next is Err ==> (next->Err_0 matches ControlError::Internal(reason) && reason@
            == "module registry lock poisoned"@),
        next is Ok ==> deletes@.len() == 2 && deletes@[0]@ == artifact_key(id@) && deletes@[1]@
            == size_key(id@),
        after is Ok <==> removed is Ok,
        after is Err ==> (after->Err_0 matches ControlError::Storage(reason) && reason@
            == removed->Err_0@),
        outcome is Ok <==> flushed is Ok,
        outcome is Err ==> (outcome->Err_0 matches ControlError::Storage(reason) && reason@
            == flushed->Err_0@),
{
    lemma_keys(id@);
    if next is Ok {
        let shown = seq_view(deletes@);
        assert(shown.len() == 2);
        assert(shown[0] == deletes@[0]@);
        assert(shown[1] == deletes@[1]@);
    } else {
        assert(next->Err_0@ is Internal);
    }
    if after is Err {
        assert(after->Err_0@ is Storage);
    }
    if outcome is Err {
        assert(outcome->Err_0@ is Storage);
    }
}

} // verus!
