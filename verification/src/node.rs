//! The decisions of a node's control handle.
//!
//! The handle sits between the control interface and the node's services: its datastore, its module
//! executor and its connections. It calls them, and what it hands to them and makes of what they
//! give back is decided here.

use crate::bytes::{bytes_copy, bytes_less, lex_less, starts_with};
use crate::control::{
    lookup_view, outcome_view, page_of, storage_error, ControlError, ControlErrorView, ControlPage,
    ControlPageView, ModuleInfo, PeerInfo, PeerInfoView,
};
use crate::registry::{
    blake3_hex, read_view, register, reserved_prefix, rows_to_read, scan_limit, ArtifactView,
    PageScan, PageScanView, RegisterPlan, RESERVED_PREFIX,
};
use crate::request::module_id_form;
use crate::text::utf8_text;
use crate::views::{option_view, seq_view};
use vstd::prelude::*;
use vstd::string::*;
use vstd::utf8::*;

verus! {

/// The peers of `connected`, each with its address and its node's identifier; none where the node
/// does not synchronise.
pub open spec fn peers_of(connected: Option<Vec<(String, String)>>) -> Seq<PeerInfoView> {
    match connected {
        Some(peers) => peers@.map_values(
            |peer: (String, String)| PeerInfoView { address: peer.0@, node_id: peer.1@ },
        ),
        None => Seq::empty(),
    }
}

/// `peer` comes after `cursor` in the byte order of addresses.
pub open spec fn peer_after(cursor: Option<Seq<u8>>, peer: PeerInfoView) -> bool {
    match cursor {
        Some(cursor) => lex_less(cursor, encode_utf8(peer.address)),
        None => true,
    }
}

/// Those of `peers` that come after `cursor`, in their order.
pub open spec fn peers_after(peers: Seq<PeerInfoView>, cursor: Option<Seq<u8>>) -> Seq<
    PeerInfoView,
> {
    peers.filter(|peer: PeerInfoView| peer_after(cursor, peer))
}

/// `cursor` can be the cursor of a peer listing: it is UTF-8, as addresses are.
pub open spec fn peer_cursor_form(cursor: Option<Seq<u8>>) -> bool {
    match cursor {
        Some(bytes) => valid_utf8(bytes),
        None => true,
    }
}

/// The page of a peer listing.
pub open spec fn peer_page(
    cursor: Option<Seq<u8>>,
    peers: Seq<PeerInfoView>,
    limit: usize,
) -> Result<ControlPageView<PeerInfoView>, ControlErrorView> {
    if peer_cursor_form(cursor) {
        Ok(
            page_of(
                peers_after(peers, cursor),
                limit as nat,
                |peer: PeerInfoView| encode_utf8(peer.address),
            ),
        )
    } else {
        Err(ControlErrorView::InvalidCursor)
    }
}

/// The cursor of a peer listing, or its refusal, which needs no peers.
pub fn peer_cursor(cursor: Option<Vec<u8>>) -> (accepted: Result<Option<Vec<u8>>, ControlError>)
    ensures
        match accepted {
            Ok(kept) => peer_cursor_form(option_view(cursor)) && option_view(kept) == option_view(
                cursor,
            ),
            Err(error) => !peer_cursor_form(option_view(cursor)) && error@
                == ControlErrorView::InvalidCursor,
        },
{
    if let Some(bytes) = &cursor {
        if utf8_text(bytes.as_slice()).is_none() {
            return Err(ControlError::InvalidCursor);
        }
    }
    Ok(cursor)
}

/// The page of a peer listing. `connected` is absent where the node does not synchronise.
pub fn list_peers(
    cursor: Option<Vec<u8>>,
    connected: Option<Vec<(String, String)>>,
    limit: usize,
) -> (page: Result<ControlPage<PeerInfo>, ControlError>)
    requires
        limit == 0 && peer_cursor_form(option_view(cursor)) ==> peers_after(
            peers_of(connected),
            option_view(cursor),
        ).len() == 0,
    ensures
        outcome_view(page) == peer_page(option_view(cursor), peers_of(connected), limit),
{
    let cursor = match peer_cursor(cursor) {
        Ok(cursor) => cursor,
        Err(error) => {
            return Err(error);
        },
    };
    let ghost all = peers_of(connected);
    let ghost after = option_view(cursor);
    let ghost wanted = |peer: PeerInfoView| peer_after(after, peer);
    let peers = match connected {
        Some(peers) => peers,
        None => Vec::new(),
    };
    let mut items: Vec<PeerInfo> = Vec::new();
    let mut i: usize = 0;
    assert(all.len() == peers@.len());
    proof {
        reveal(Seq::filter);
        assert(seq_view(items@) =~= all.take(0).filter(wanted));
    }
    while i < peers.len()
        invariant
            i <= peers@.len(),
            all.len() == peers@.len(),
            after == option_view(cursor),
            wanted == (|peer: PeerInfoView| peer_after(after, peer)),
            forall|j: int|
                #![trigger all[j]]
                0 <= j < all.len() ==> all[j].address == peers@[j].0@ && all[j].node_id
                    == peers@[j].1@,
            seq_view(items@) == all.take(i as int).filter(wanted),
        decreases peers@.len() - i,
    {
        let address = peers[i].0.as_str();
        let included = match &cursor {
            Some(cursor) => bytes_less(cursor.as_slice(), address.as_bytes()),
            None => true,
        };
        proof {
            reveal(Seq::filter);
            assert(all.take(i + 1).drop_last() =~= all.take(i as int));
            assert(included == wanted(all[i as int]));
        }
        if included {
            let peer = PeerInfo { address: address.to_owned(), node_id: peers[i].1.clone() };
            assert(peer@ == all[i as int]);
            assert(seq_view(items@.push(peer)) =~= seq_view(items@).push(peer@));
            items.push(peer);
        }
        i += 1;
    }
    assert(all.take(all.len() as int) =~= all);
    let ghost rows = seq_view(items@);
    let has_more = items.len() > limit;
    items.truncate(limit);
    if !has_more {
        assert(seq_view(items@) =~= rows);
        return Ok(ControlPage { items, next_cursor: None });
    }
    assert(seq_view(items@) =~= rows.take(limit as int));
    assert(items@[limit - 1]@ == rows[limit - 1]);
    let next_cursor = bytes_copy(items[limit - 1].address.as_str().as_bytes());
    Ok(ControlPage { items, next_cursor: Some(next_cursor) })
}

/// `cursor` cannot resume a listing of the keys under `prefix`: it is the node's own, or not under
/// the prefix.
pub open spec fn key_cursor_refused(prefix: Seq<u8>, cursor: Option<Seq<u8>>) -> bool {
    match cursor {
        Some(key) => reserved_prefix().is_prefix_of(key) || !prefix.is_prefix_of(key),
        None => false,
    }
}

/// The page read behind a key listing, which passes over the node's own keys.
pub open spec fn key_scan(
    prefix: Seq<u8>,
    cursor: Option<Seq<u8>>,
    limit: usize,
) -> PageScanView {
    PageScanView {
        prefix,
        start_after: cursor,
        limit: rows_to_read(limit),
        exclude: Some(reserved_prefix()),
    }
}

/// The page read behind a key listing.
pub fn list_keys_scan(prefix: Vec<u8>, cursor: Option<Vec<u8>>, limit: usize) -> (scan: Result<
    PageScan,
    ControlError,
>)
    ensures
        match scan {
            Ok(scan) => !key_cursor_refused(prefix@, option_view(cursor)) && scan@ == key_scan(
                prefix@,
                option_view(cursor),
                limit,
            ),
            Err(error) => key_cursor_refused(prefix@, option_view(cursor)) && error@
                == ControlErrorView::InvalidCursor,
        },
{
    let reserved = RESERVED_PREFIX.as_bytes();
    if let Some(key) = &cursor {
        let key = key.as_slice();
        if starts_with(key, reserved) || !starts_with(key, prefix.as_slice()) {
            return Err(ControlError::InvalidCursor);
        }
    }
    Ok(
        PageScan {
            prefix,
            start_after: cursor,
            limit: scan_limit(limit),
            exclude: Some(bytes_copy(reserved)),
        },
    )
}

/// What a page read of keys gave.
pub open spec fn keys_view(keys: Result<Vec<Vec<u8>>, String>) -> Result<Seq<Seq<u8>>, Seq<char>> {
    match keys {
        Ok(keys) => Ok(seq_view(keys@)),
        Err(error) => Err(error@),
    }
}

/// The page that a key listing makes of the keys read for it.
pub open spec fn key_page(keys: Result<Seq<Seq<u8>>, Seq<char>>, limit: usize) -> Result<
    ControlPageView<Seq<u8>>,
    ControlErrorView,
> {
    match keys {
        Ok(keys) => Ok(page_of(keys, limit as nat, |key: Seq<u8>| key)),
        Err(error) => Err(ControlErrorView::Storage(error)),
    }
}

/// The page that a key listing makes of the keys read for it.
pub fn list_keys_page(keys: Result<Vec<Vec<u8>>, String>, limit: usize) -> (page: Result<
    ControlPage<Vec<u8>>,
    ControlError,
>)
    requires
        limit == 0 ==> match keys_view(keys) {
            Ok(keys) => keys.len() == 0,
            Err(_) => true,
        },
    ensures
        outcome_view(page) == key_page(keys_view(keys), limit),
{
    let mut items = match keys {
        Ok(items) => items,
        Err(error) => {
            return Err(storage_error(error));
        },
    };
    let ghost rows = seq_view(items@);
    let has_more = items.len() > limit;
    items.truncate(limit);
    if !has_more {
        assert(seq_view(items@) =~= rows);
        return Ok(ControlPage { items, next_cursor: None });
    }
    assert(seq_view(items@) =~= rows.take(limit as int));
    assert(items@[limit - 1]@ == rows[limit - 1]);
    let next_cursor = bytes_copy(items[limit - 1].as_slice());
    Ok(ControlPage { items, next_cursor: Some(next_cursor) })
}

/// The key to read for a request for the value of `key`. The node's own keys behave as missing.
pub fn get_value_key(key: Vec<u8>) -> (readable: Result<Vec<u8>, ControlError>)
    ensures
        match readable {
            Ok(read) => !reserved_prefix().is_prefix_of(key@) && read@ == key@,
            Err(error) => reserved_prefix().is_prefix_of(key@) && error@
                == ControlErrorView::KeyNotFound,
        },
{
    if starts_with(key.as_slice(), RESERVED_PREFIX.as_bytes()) {
        return Err(ControlError::KeyNotFound);
    }
    Ok(key)
}

/// The value of a key, where what was read under it is `value`.
pub open spec fn value_found(value: Result<Option<Seq<u8>>, Seq<char>>) -> Result<
    Seq<u8>,
    ControlErrorView,
> {
    match value {
        Ok(Some(found)) => Ok(found),
        Ok(None) => Err(ControlErrorView::KeyNotFound),
        Err(error) => Err(ControlErrorView::Storage(error)),
    }
}

/// The value of a key, where what was read under it is `value`.
pub fn get_value(value: Result<Option<Vec<u8>>, String>) -> (found: Result<Vec<u8>, ControlError>)
    ensures
        outcome_view(found) == value_found(read_view(value)),
{
    match value {
        Ok(Some(found)) => Ok(found),
        Ok(None) => Err(ControlError::KeyNotFound),
        Err(error) => Err(storage_error(error)),
    }
}

/// What was found of a module: a module of which nothing is found is missing.
pub open spec fn module_found<V>(lookup: Result<Option<V>, ControlErrorView>) -> Result<
    V,
    ControlErrorView,
> {
    match lookup {
        Ok(Some(found)) => Ok(found),
        Ok(None) => Err(ControlErrorView::ModuleNotFound),
        Err(error) => Err(error),
    }
}

/// The module that was asked for, where what is known of it is `known`.
pub fn get_module(known: Result<Option<ModuleInfo>, ControlError>) -> (module: Result<
    ModuleInfo,
    ControlError,
>)
    ensures
        outcome_view(module) == module_found(lookup_view(known)),
{
    match known {
        Ok(Some(module)) => Ok(module),
        Ok(None) => Err(ControlError::ModuleNotFound),
        Err(error) => Err(error),
    }
}

/// Begins the registration of an artifact that the executor was asked to validate, or refuses it.
pub fn register_module(bytes: Vec<u8>, validation: Result<(), String>) -> (plan: Result<
    RegisterPlan,
    ControlError,
>)
    ensures
        match plan {
            Ok(plan) => validation is Ok && plan@ == (ArtifactView {
                id: blake3_hex(bytes@),
                bytes: bytes@,
            }) && module_id_form(encode_utf8(plan@.id)),
            Err(error) => validation matches Err(reason) && error@
                == ControlErrorView::InvalidModule(reason@),
        },
{
    match validation {
        Ok(()) => Ok(register(bytes)),
        Err(reason) => Err(ControlError::InvalidModule(reason)),
    }
}

/// The artifact to run, where what is stored of the module is `artifact`.
pub fn run_module(artifact: Result<Option<Vec<u8>>, ControlError>) -> (run: Result<
    Vec<u8>,
    ControlError,
>)
    ensures
        outcome_view(run) == module_found(lookup_view(artifact)),
{
    match artifact {
        Ok(Some(bytes)) => Ok(bytes),
        Ok(None) => Err(ControlError::ModuleNotFound),
        Err(error) => Err(error),
    }
}

/// The outcome of a run, where that of the executor is `executed`.
pub fn run_finished(executed: Result<(), String>) -> (run: Result<(), ControlError>)
    ensures
        match run {
            Ok(()) => executed is Ok,
            Err(error) => executed matches Err(reason) && error@
                == ControlErrorView::ModuleExecutionFailed(reason@),
        },
{
    match executed {
        Ok(()) => Ok(()),
        Err(reason) => Err(ControlError::ModuleExecutionFailed(reason)),
    }
}

} // verus!
