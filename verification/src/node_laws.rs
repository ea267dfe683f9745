//! What the decisions of a node's control handle come to, in terms of what the services give.

use crate::bytes::lex_less;
use crate::control::{
    outcome_view, page_of, ControlError, ControlErrorView, ControlPage, ModuleInfo, PeerInfo,
    PeerInfoView,
};
use crate::node::{
    get_module, get_value, get_value_key, list_keys_page, list_keys_scan, list_peers, peer_after,
    peer_cursor, peers_after, peers_of, register_module, run_finished, run_module,
};
use crate::paging::{law_page_keeps_to_its_limit, lesser};
use crate::registry::{blake3_hex, PageScan, RegisterPlan};
use crate::views::{option_view, seq_view};
use vstd::prelude::*;
use vstd::utf8::*;

verus! {

/// The peers that a listing draws from are the connected ones: as many as there are connections,
/// each with the address and the node identifier of its connection, and none without
/// synchronisation.
pub proof fn law_peers_are_the_connections(connected: Option<Vec<(String, String)>>)
    ensures
        match connected {
            Some(connections) => peers_of(connected).len() == connections@.len() && forall|i: int|
                0 <= i < connections@.len() ==> (#[trigger] peers_of(connected)[i]).address
                    == connections@[i].0@ && peers_of(connected)[i].node_id == connections@[i].1@,
            None => peers_of(connected).len() == 0,
        },
{
}

/// A peer page shows the connections whose addresses come after the cursor, in their order and as
/// many as the limit allows; its cursor is the address of the last one shown, and is there exactly
/// where more follow. Only a cursor that is no UTF-8 is refused.
pub proof fn law_peer_page_shows_the_connections(
    cursor: Option<Vec<u8>>,
    connections: Vec<(String, String)>,
    limit: usize,
    page: Result<ControlPage<PeerInfo>, ControlError>,
)
    requires
        call_ensures(list_peers, (cursor, Some(connections), limit), page),
    ensures
        page is Err <==> cursor is Some && !valid_utf8(cursor->0@),
        page is Err ==> page->Err_0 is InvalidCursor,
        page is Ok ==> {
            let wanted = Seq::new(
                connections@.len(),
                |i: int| PeerInfoView {
                    address: connections@[i].0@,
                    node_id: connections@[i].1@,
                },
            ).filter(
                |peer: PeerInfoView|
                    cursor is Some ==> lex_less(cursor->0@, encode_utf8(peer.address)),
            );
            let items = page->Ok_0.items@;
            let next = page->Ok_0.next_cursor;
            &&& items.len() == lesser(wanted.len(), limit as nat)
            &&& forall|i: int|
                0 <= i < items.len() ==> (#[trigger] items[i]).address@ == wanted[i].address
                    && items[i].node_id@ == wanted[i].node_id
            &&& next is Some <==> wanted.len() > limit
            &&& next is Some && limit > 0 ==> next->0@ == encode_utf8(wanted[limit - 1].address)
        },
{
    if let Ok(p) = page {
        let all = Seq::new(
            connections@.len(),
            |i: int| PeerInfoView { address: connections@[i].0@, node_id: connections@[i].1@ },
        );
        assert(all =~= peers_of(Some(connections)));
        let after = option_view(cursor);
        let wanted = |peer: PeerInfoView|
            cursor is Some ==> lex_less(cursor->0@, encode_utf8(peer.address));
        assert(wanted =~= (|peer: PeerInfoView| peer_after(after, peer)));
        let rows = all.filter(wanted);
        assert(rows == peers_after(peers_of(Some(connections)), after));
        let cursor_of = |peer: PeerInfoView| encode_utf8(peer.address);
        assert(outcome_view(page) == Ok::<_, ControlErrorView>(
            page_of(rows, limit as nat, cursor_of),
        ));
        assert(p@ == page_of(rows, limit as nat, cursor_of));
        law_page_keeps_to_its_limit(rows, limit as nat, cursor_of);
        assert forall|i: int| 0 <= i < p.items@.len() implies (#[trigger] p.items@[i]).address@
            == rows[i].address && p.items@[i].node_id@ == rows[i].node_id by {
            assert(p@.items[i] == p.items@[i]@);
        }
    }
}

/// Without synchronisation a peer page is empty and the last one.
pub proof fn law_peer_page_without_synchronisation(
    cursor: Option<Vec<u8>>,
    limit: usize,
    page: Result<ControlPage<PeerInfo>, ControlError>,
)
    requires
        call_ensures(list_peers, (cursor, None, limit), page),
    ensures
        page is Err <==> cursor is Some && !valid_utf8(cursor->0@),
        page is Err ==> page->Err_0 is InvalidCursor,
        page is Ok ==> page->Ok_0.items@.len() == 0 && page->Ok_0.next_cursor is None,
{
    if let Ok(p) = page {
        let none = peers_of(None);
        assert(none =~= Seq::empty());
        lemma_filter_of_nothing(|peer: PeerInfoView| peer_after(option_view(cursor), peer));
        let cursor_of = |peer: PeerInfoView| encode_utf8(peer.address);
        assert(outcome_view(page) == Ok::<_, ControlErrorView>(
            page_of(peers_after(none, option_view(cursor)), limit as nat, cursor_of),
        ));
        assert(p@.items.len() == 0);
    }
}

proof fn lemma_filter_of_nothing<V>(wanted: spec_fn(V) -> bool)
    ensures
        Seq::<V>::empty().filter(wanted).len() == 0,
{
    reveal(Seq::filter);
}

/// A cursor of a peer listing is taken as it is, and refused only where it is no UTF-8.
pub proof fn law_peer_cursor_is_kept(
    cursor: Option<Vec<u8>>,
    kept: Result<Option<Vec<u8>>, ControlError>,
)
    requires
        call_ensures(peer_cursor, (cursor,), kept),
    ensures
        kept is Err <==> cursor is Some && !valid_utf8(cursor->0@),
        kept is Err ==> kept->Err_0 is InvalidCursor,
        kept is Ok ==> (kept->Ok_0 is Some <==> cursor is Some),
        kept is Ok && cursor is Some ==> kept->Ok_0->0@ == cursor->0@,
{
}

/// A key listing reads the rows under its prefix that come after its cursor and are not the node's
/// own, one more than its limit. Only a cursor that is the node's own or not under the prefix is
/// refused.
pub proof fn law_key_listing_reads_its_prefix(
    prefix: Vec<u8>,
    cursor: Option<Vec<u8>>,
    limit: usize,
    scan: Result<PageScan, ControlError>,
)
    requires
        call_ensures(list_keys_scan, (prefix, cursor, limit), scan),
    ensures
        scan is Err <==> cursor is Some && (encode_utf8("__nx/"@).is_prefix_of(cursor->0@)
            || !prefix@.is_prefix_of(cursor->0@)),
        scan is Err ==> scan->Err_0 is InvalidCursor,
        scan is Ok ==> {
            let read = scan->Ok_0;
            &&& read.prefix@ == prefix@
            &&& read.start_after is Some <==> cursor is Some
            &&& cursor is Some ==> read.start_after->0@ == cursor->0@
            &&& read.limit == lesser((limit + 1) as nat, 0xffff_ffff)
            &&& read.exclude is Some
            &&& read.exclude->0@ == encode_utf8("__nx/"@)
        },
{
    if let Ok(read) = scan {
        assert(read@.prefix == read.prefix@);
        assert(read@.start_after == option_view(read.start_after));
        assert(read@.exclude == option_view(read.exclude));
    }
}

/// A key page shows the keys that were read, in their order and as many as the limit allows; its
/// cursor is the last key shown, and is there exactly where more were read.
pub proof fn law_key_page_shows_the_keys_read(
    keys: Vec<Vec<u8>>,
    limit: usize,
    page: Result<ControlPage<Vec<u8>>, ControlError>,
)
    requires
        call_ensures(list_keys_page, (Ok(keys), limit), page),
    ensures
        page is Ok,
        page->Ok_0.items@.len() == lesser(keys@.len(), limit as nat),
        forall|i: int|
            0 <= i < page->Ok_0.items@.len() ==> (#[trigger] page->Ok_0.items@[i])@ == keys@[i]@,
        page->Ok_0.next_cursor is Some <==> keys@.len() > limit,
        keys@.len() > limit > 0 ==> page->Ok_0.next_cursor->0@ == keys@[limit - 1]@,
{
    let rows = seq_view(keys@);
    let cursor_of = |key: Seq<u8>| key;
    assert(outcome_view(page) == Ok::<_, ControlErrorView>(
        page_of(rows, limit as nat, cursor_of),
    ));
    let p = page->Ok_0;
    assert(p@ == page_of(rows, limit as nat, cursor_of));
    law_page_keeps_to_its_limit(rows, limit as nat, cursor_of);
    assert forall|i: int| 0 <= i < p.items@.len() implies (#[trigger] p.items@[i])@ == keys@[i]@ by {
        assert(p@.items[i] == p.items@[i]@);
        assert(rows[i] == keys@[i]@);
    }
    if keys@.len() > limit && limit > 0 {
        assert(rows[limit - 1] == keys@[limit - 1]@);
    }
}

/// What a datastore says of a failed read is what the listing or the reading fails with.
pub proof fn law_failed_reads_are_storage_errors(
    error: String,
    limit: usize,
    page: Result<ControlPage<Vec<u8>>, ControlError>,
    found: Result<Vec<u8>, ControlError>,
)
    requires
        call_ensures(list_keys_page, (Err(error), limit), page),
        call_ensures(get_value, (Err(error),), found),
    ensures
        page matches Err(ControlError::Storage(reason)) && reason@ == error@,
        found matches Err(ControlError::Storage(reason)) && reason@ == error@,
{
    assert(outcome_view(page) is Err);
    assert(outcome_view(found) is Err);
    assert(page->Err_0@ is Storage);
    assert(found->Err_0@ is Storage);
}

/// A key is read as it is named, and one that begins with `__nx/` is answered as missing.
pub proof fn law_own_keys_are_not_read(key: Vec<u8>, readable: Result<Vec<u8>, ControlError>)
    requires
        call_ensures(get_value_key, (key,), readable),
    ensures
        readable is Err <==> encode_utf8("__nx/"@).is_prefix_of(key@),
        readable is Err ==> readable->Err_0 is KeyNotFound,
        readable is Ok ==> readable->Ok_0@ == key@,
{
}

/// The value of a key is what was read under it, byte for byte; a key under which nothing was read
/// is missing.
pub proof fn law_value_is_what_was_read(
    value: Option<Vec<u8>>,
    found: Result<Vec<u8>, ControlError>,
)
    requires
        call_ensures(get_value, (Ok(value),), found),
    ensures
        found is Ok <==> value is Some,
        found is Ok ==> found->Ok_0@ == value->0@,
        found is Err ==> found->Err_0 is KeyNotFound,
{
    assert(outcome_view(found) is Ok <==> value is Some);
    if found is Err {
        assert(found->Err_0@ is KeyNotFound);
    }
}

/// A module that is known is answered as it is known, one that is not is missing, and a failed
/// lookup stays the failure that it was.
pub proof fn law_known_module_is_answered(
    known: Result<Option<ModuleInfo>, ControlError>,
    module: Result<ModuleInfo, ControlError>,
)
    requires
        call_ensures(get_module, (known,), module),
    ensures
        module is Ok <==> known is Ok && known->Ok_0 is Some,
        module is Ok ==> module->Ok_0.id@ == known->Ok_0->0.id@ && module->Ok_0.size_bytes
            == known->Ok_0->0.size_bytes,
        module is Err && known is Ok ==> module->Err_0 is ModuleNotFound,
        known is Err ==> module->Err_0@ == known->Err_0@,
{
    if known is Ok && known->Ok_0 is Some {
        assert(module->Ok_0@ == known->Ok_0->0@);
    } else if known is Ok {
        assert(module->Err_0@ is ModuleNotFound);
    }
}

/// What a run executes is the stored artifact, byte for byte; a module without one is missing, and
/// a failed lookup stays the failure that it was.
pub proof fn law_stored_artifact_is_run(
    artifact: Result<Option<Vec<u8>>, ControlError>,
    run: Result<Vec<u8>, ControlError>,
)
    requires
        call_ensures(run_module, (artifact,), run),
    ensures
        run is Ok <==> artifact is Ok && artifact->Ok_0 is Some,
        run is Ok ==> run->Ok_0@ == artifact->Ok_0->0@,
        run is Err && artifact is Ok ==> run->Err_0 is ModuleNotFound,
        artifact is Err ==> run->Err_0@ == artifact->Err_0@,
{
    if artifact is Ok && artifact->Ok_0 is None {
        assert(run->Err_0@ is ModuleNotFound);
    }
}

/// A run ends as the executor says: done, or failed for the executor's reason.
pub proof fn law_run_ends_as_executed(executed: Result<(), String>, run: Result<(), ControlError>)
    requires
        call_ensures(run_finished, (executed,), run),
    ensures
        run is Ok <==> executed is Ok,
        run is Err ==> (run->Err_0 matches ControlError::ModuleExecutionFailed(reason) && reason@
            == executed->Err_0@),
{
    if run is Err {
        assert(run->Err_0@ is ModuleExecutionFailed);
    }
}

/// A registration goes on exactly where the executor accepts the artifact, with the artifact as it
/// came and under its digest; a refused one fails for the executor's reason.
pub proof fn law_only_valid_modules_are_registered(
    bytes: Vec<u8>,
    validation: Result<(), String>,
    plan: Result<RegisterPlan, ControlError>,
)
    requires
        call_ensures(register_module, (bytes, validation), plan),
    ensures
        plan is Ok <==> validation is Ok,
        plan is Ok ==> plan->Ok_0@.bytes == bytes@ && plan->Ok_0@.id == blake3_hex(bytes@),
        plan is Err ==> (plan->Err_0 matches ControlError::InvalidModule(reason) && reason@
            == validation->Err_0@),
{
    if plan is Err {
        assert(plan->Err_0@ is InvalidModule);
    }
}

} // verus!
