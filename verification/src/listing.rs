//! What the listings of a node show of a datastore that answers page reads, and of its peers.

use crate::base64url::base64url;
use crate::bytes::lex_less;
use crate::control::{page_of, ControlErrorView, ControlPageView, ModuleInfoView, PeerInfoView};
use crate::json::{module_page_text, peer_page_text};
use crate::limits::{
    keys_shown, law_key_pages_make_progress, law_module_pages_are_whole,
    law_peer_pages_make_progress, lemma_empty_pages_fit, lemma_replies_show_something, peers_shown,
};
use crate::node::{key_cursor_refused, key_page, key_scan, peer_after, peer_page};
use crate::paging::{
    ascending_by, comes_after, first_of, law_walk_shows_everything_once, lemma_one_more_row_decides,
    lemma_remaining_is_a_tail, remaining, walk, whole,
};
use crate::passing_back::{
    law_key_text_names_its_key, law_module_cursor_is_understood, lemma_cursor_text_stands_for_it,
};
use crate::registry::{
    data_key, decoded_module, decoded_modules, meta_key, meta_prefix, module_page, module_scan,
    reserved_prefix, PageScanView,
};
use crate::reply::{
    json_view, key_cursor_text, key_page_document, key_page_view, key_texts, module_page_view,
    oversized_key, peer_cursor_text, peer_page_document, peer_page_view, MAX_RESPONSE_BODY_SIZE,
};
use crate::request::{
    cursor_bytes, cursor_text, key_bytes, key_text, listing_asked, module_id_form, CursorKind,
    MAX_KEY_SIZE, MAX_PAGE_SIZE,
};
use crate::store::{known, registry_sound, value_at, Stored};
use crate::text::{be_digits, lemma_be_digits_len};
use vstd::prelude::*;
use vstd::utf8::*;

verus! {

/// A row of the datastore with key `key` is among those that `scan` asks for.
pub open spec fn asked_for(scan: PageScanView, key: Seq<u8>) -> bool {
    &&& scan.prefix.is_prefix_of(key)
    &&& comes_after(scan.start_after, key)
    &&& match scan.exclude {
        Some(excluded) => !excluded.is_prefix_of(key),
        None => true,
    }
}

/// What a datastore whose rows, in key order, are `table` answers to `scan`.
pub open spec fn rows_read(table: Seq<(Seq<u8>, Seq<u8>)>, scan: PageScanView) -> Seq<
    (Seq<u8>, Seq<u8>),
> {
    first_of(table.filter(|row: (Seq<u8>, Seq<u8>)| asked_for(scan, row.0)), scan.limit as nat)
}

/// The keys that a datastore whose keys, in order, are `keys` answers to `scan`.
pub open spec fn keys_read(keys: Seq<Seq<u8>>, scan: PageScanView) -> Seq<Seq<u8>> {
    first_of(keys.filter(|key: Seq<u8>| asked_for(scan, key)), scan.limit as nat)
}

/// The cursor of a module.
pub open spec fn module_cursor() -> spec_fn(ModuleInfoView) -> Seq<u8> {
    |module: ModuleInfoView| encode_utf8(module.id)
}

/// The cursor of a peer.
pub open spec fn peer_cursor() -> spec_fn(PeerInfoView) -> Seq<u8> {
    |peer: PeerInfoView| encode_utf8(peer.address)
}

/// The cursor of a key: the key itself.
pub open spec fn key_cursor() -> spec_fn(Seq<u8>) -> Seq<u8> {
    |key: Seq<u8>| key
}

/// Filtering by two conditions is filtering by one and then by the other.
proof fn lemma_filter_in_turn<V>(
    rows: Seq<V>,
    first: spec_fn(V) -> bool,
    second: spec_fn(V) -> bool,
    both: spec_fn(V) -> bool,
)
    requires
        forall|row: V| #[trigger] both(row) <==> first(row) && second(row),
    ensures
        rows.filter(first).filter(second) == rows.filter(both),
    decreases rows.len(),
{
    reveal(Seq::filter);
    if rows.len() != 0 {
        lemma_filter_in_turn(rows.drop_last(), first, second, both);
        if first(rows.last()) {
            let kept = rows.drop_last().filter(first);
            assert(kept.push(rows.last()).drop_last() =~= kept);
        }
    }
}

/// What is kept of ascending rows is ascending.
proof fn lemma_filter_keeps_order<V>(
    rows: Seq<V>,
    wanted: spec_fn(V) -> bool,
    cursor_of: spec_fn(V) -> Seq<u8>,
)
    requires
        ascending_by(rows, cursor_of),
    ensures
        ascending_by(rows.filter(wanted), cursor_of),
        forall|i: int|
            0 <= i < rows.filter(wanted).len() ==> wanted(#[trigger] rows.filter(wanted)[i]),
        forall|row: V| #[trigger]
            rows.filter(wanted).contains(row) <==> rows.contains(row) && wanted(row),
    decreases rows.len(),
{
    reveal(Seq::filter);
    if rows.len() != 0 {
        let rest = rows.drop_last();
        lemma_filter_keeps_order(rest, wanted, cursor_of);
        let kept = rest.filter(wanted);
        if wanted(rows.last()) {
            assert forall|i: int, j: int| 0 <= i < j < rows.filter(wanted).len() implies lex_less(
                cursor_of(#[trigger] rows.filter(wanted)[i]),
                cursor_of(#[trigger] rows.filter(wanted)[j]),
            ) by {
                if j == kept.len() {
                    assert(kept.contains(kept[i]));
                    assert(rest.contains(kept[i]));
                    let at = choose|at: int| 0 <= at < rest.len() && rest[at] == kept[i];
                    assert(rows[at] == kept[i]);
                }
            }
        }
        assert forall|row: V| #[trigger]
            rows.filter(wanted).contains(row) <==> rows.contains(row) && wanted(row) by {
            if rows.filter(wanted).contains(row) {
                let at = choose|at: int|
                    0 <= at < rows.filter(wanted).len() && rows.filter(wanted)[at] == row;
                if at < kept.len() {
                    assert(kept.contains(row));
                    let from = choose|from: int| 0 <= from < rest.len() && rest[from] == row;
                    assert(rows[from] == row);
                } else {
                    assert(rows[rows.len() - 1] == row);
                }
            }
            if rows.contains(row) && wanted(row) {
                let at = choose|at: int| 0 <= at < rows.len() && rows[at] == row;
                if at < rest.len() {
                    assert(rest[at] == row);
                    assert(kept.contains(row));
                    let to = choose|to: int| 0 <= to < kept.len() && kept[to] == row;
                    assert(rows.filter(wanted)[to] == row);
                } else {
                    assert(rows.filter(wanted)[kept.len() as int] == row);
                }
            }
        }
    }
}

/// Every key of an application under `prefix`, of all the keys `keys`.
pub open spec fn visible_keys(keys: Seq<Seq<u8>>, prefix: Seq<u8>) -> Seq<Seq<u8>> {
    keys.filter(
        |key: Seq<u8>| prefix.is_prefix_of(key) && !reserved_prefix().is_prefix_of(key),
    )
}

/// The page of a listing of `rows` that follows `cursor`.
pub open spec fn page_after<V>(
    rows: Seq<V>,
    cursor: Option<Seq<u8>>,
    limit: usize,
    cursor_of: spec_fn(V) -> Seq<u8>,
) -> ControlPageView<V> {
    page_of(remaining(rows, cursor, cursor_of), limit as nat, cursor_of)
}

/// A page of a key listing holds the first of the application's keys under the prefix that come
/// after the cursor.
pub proof fn law_key_page_is_of_visible_keys(
    keys: Seq<Seq<u8>>,
    prefix: Seq<u8>,
    cursor: Option<Seq<u8>>,
    limit: usize,
)
    requires
        ascending_by(keys, key_cursor()),
        0 < limit,
        limit < u32::MAX || remaining(visible_keys(keys, prefix), cursor, key_cursor()).len()
            <= u32::MAX,
    ensures
        key_page(Ok(keys_read(keys, key_scan(prefix, cursor, limit))), limit) == Ok::<
            _,
            ControlErrorView,
        >(page_after(visible_keys(keys, prefix), cursor, limit, key_cursor())),
        ascending_by(visible_keys(keys, prefix), key_cursor()),
{
    let scan = key_scan(prefix, cursor, limit);
    let visible = |key: Seq<u8>| prefix.is_prefix_of(key) && !reserved_prefix().is_prefix_of(key);
    let later = |key: Seq<u8>| comes_after(cursor, key_cursor()(key));
    let both = |key: Seq<u8>| asked_for(scan, key);
    lemma_filter_in_turn(keys, visible, later, both);
    lemma_filter_keeps_order(keys, visible, key_cursor());
    lemma_one_more_row_decides(
        remaining(visible_keys(keys, prefix), cursor, key_cursor()),
        limit as nat,
        scan.limit as nat,
        key_cursor(),
    );
    assert((|key: Seq<u8>| key) =~= key_cursor());
}

/// The node's own keys are in no key listing, and every other key under the prefix is in the
/// listing once, in order: following the cursors of the node's pages shows exactly the
/// application's keys.
pub proof fn law_key_listing_shows_the_visible_keys(
    keys: Seq<Seq<u8>>,
    prefix: Seq<u8>,
    limit: usize,
)
    requires
        ascending_by(keys, key_cursor()),
        0 < limit,
    ensures
        walk(visible_keys(keys, prefix), None, limit as nat, whole(), key_cursor()) == visible_keys(
            keys,
            prefix,
        ),
        forall|key: Seq<u8>| #[trigger]
            visible_keys(keys, prefix).contains(key) <==> keys.contains(key)
                && prefix.is_prefix_of(key) && !reserved_prefix().is_prefix_of(key),
{
    let visible = |key: Seq<u8>| prefix.is_prefix_of(key) && !reserved_prefix().is_prefix_of(key);
    lemma_filter_keeps_order(keys, visible, key_cursor());
    law_walk_shows_everything_once(
        visible_keys(keys, prefix),
        None,
        limit as nat,
        whole(),
        key_cursor(),
    );
}

/// Where no key of the application is longer than a key may be, following the cursors of the
/// replies shows exactly the application's keys, though a reply may be cut short for its length:
/// every page on the way is answered with as many keys as fit, and the text of every key names it
/// again.
pub proof fn law_key_replies_show_the_visible_keys(
    keys: Seq<Seq<u8>>,
    prefix: Seq<u8>,
    cursor: Option<Seq<u8>>,
    limit: usize,
)
    requires
        ascending_by(keys, key_cursor()),
        !oversized_key(visible_keys(keys, prefix)),
        0 < limit,
    ensures
        walk(visible_keys(keys, prefix), None, limit as nat, keys_shown(), key_cursor())
            == visible_keys(keys, prefix),
        ({
            let page = page_after(visible_keys(keys, prefix), cursor, limit, key_cursor());
            key_page_view(page.items, page.next_cursor) == json_view(
                200,
                Seq::empty(),
                key_page_document(
                    key_texts(page.items),
                    key_cursor_text(page.next_cursor),
                    keys_shown()(page),
                ),
            )
        }),
        forall|i: int|
            0 <= i < visible_keys(keys, prefix).len() ==> key_bytes(
                key_text(#[trigger] visible_keys(keys, prefix)[i]),
            ) == Some(visible_keys(keys, prefix)[i]),
{
    let all = visible_keys(keys, prefix);
    let visible = |key: Seq<u8>| prefix.is_prefix_of(key) && !reserved_prefix().is_prefix_of(key);
    lemma_filter_keeps_order(keys, visible, key_cursor());
    lemma_replies_show_something();
    law_walk_shows_everything_once(all, None, limit as nat, keys_shown(), key_cursor());
    let start = lemma_remaining_is_a_tail(all, cursor, key_cursor());
    let page = page_after(all, cursor, limit, key_cursor());
    assert forall|i: int| 0 <= i < page.items.len() implies (#[trigger] page.items[i]).len()
        <= MAX_KEY_SIZE by {
        assert(page.items[i] == all[start + i]);
    }
    if page.items.len() > 0 {
        law_key_pages_make_progress(page);
    } else {
        assert(page.items =~= Seq::empty());
        assert(key_texts(page.items) =~= Seq::empty());
        lemma_empty_pages_fit();
    }
    assert forall|i: int| 0 <= i < all.len() implies key_bytes(key_text(#[trigger] all[i])) == Some(
        all[i],
    ) by {
        law_key_text_names_its_key(all[i]);
    }
}

/// The cursor of a key page is accepted to resume the listing that it came from.
pub proof fn law_key_cursor_resumes_its_listing(keys: Seq<Seq<u8>>, prefix: Seq<u8>, key: Seq<u8>)
    requires
        ascending_by(keys, key_cursor()),
        visible_keys(keys, prefix).contains(key),
    ensures
        !key_cursor_refused(prefix, Some(key)),
{
    let visible = |key: Seq<u8>| prefix.is_prefix_of(key) && !reserved_prefix().is_prefix_of(key);
    lemma_filter_keeps_order(keys, visible, key_cursor());
}

/// A page of a peer listing holds the first of the peers that come after the cursor; the node
/// accepts the cursor of a peer; and following the cursors of the node's pages shows every peer
/// once, in order, where the node hands its peers out in the order of their addresses.
pub proof fn law_peer_listing_shows_every_peer(
    peers: Seq<PeerInfoView>,
    cursor: Option<Seq<u8>>,
    limit: usize,
)
    requires
        ascending_by(peers, peer_cursor()),
        cursor matches Some(bytes) ==> valid_utf8(bytes),
        0 < limit,
    ensures
        peer_page(cursor, peers, limit) == Ok::<_, ControlErrorView>(
            page_after(peers, cursor, limit, peer_cursor()),
        ),
        forall|peer: PeerInfoView| valid_utf8(#[trigger] peer_cursor()(peer)),
        walk(peers, None, limit as nat, whole(), peer_cursor()) == peers,
{
    assert((|peer: PeerInfoView| peer_after(cursor, peer)) =~= (|peer: PeerInfoView|
        comes_after(cursor, peer_cursor()(peer))));
    assert((|peer: PeerInfoView| encode_utf8(peer.address)) =~= peer_cursor());
    assert forall|peer: PeerInfoView| valid_utf8(#[trigger] peer_cursor()(peer)) by {
        encode_utf8_valid_utf8(peer.address);
    }
    law_walk_shows_everything_once(peers, None, limit as nat, whole(), peer_cursor());
}

/// A reply can show the peer at `i` of `peers` alone, with the cursor after it where more peers
/// follow.
pub open spec fn peer_fits(peers: Seq<PeerInfoView>, i: int) -> bool {
    encode_utf8(
        peer_page_text(
            seq![peers[i]],
            if i + 1 < peers.len() {
                Some(peer_cursor_text(peers[i]))
            } else {
                None
            },
        ),
    ).len() <= MAX_RESPONSE_BODY_SIZE
}

/// A page of peers each of which fits alone is answered with as many as fit.
proof fn lemma_peer_page_is_answered(
    peers: Seq<PeerInfoView>,
    cursor: Option<Seq<u8>>,
    limit: usize,
    page: ControlPageView<PeerInfoView>,
)
    requires
        ascending_by(peers, peer_cursor()),
        forall|i: int| 0 <= i < peers.len() ==> #[trigger] peer_fits(peers, i),
        0 < limit,
        page == page_after(peers, cursor, limit, peer_cursor()),
    ensures
        peer_page_view(page.items, page.next_cursor) == json_view(
            200,
            Seq::empty(),
            peer_page_document(page.items, cursor_text(page.next_cursor), peers_shown()(page)),
        ),
{
    let start = lemma_remaining_is_a_tail(peers, cursor, peer_cursor());
    if page.items.len() > 0 {
        assert(page.items[0] == peers[start]);
        assert(page.items.take(1) =~= seq![peers[start]]);
        assert(peer_fits(peers, start));
        law_peer_pages_make_progress(page);
    } else {
        assert(page.items =~= Seq::empty());
        lemma_empty_pages_fit();
    }
}

/// Where a reply can show each peer alone, and the address of each but the last takes from 1 to
/// 12288 bytes, following the cursors of the replies shows every peer once, in order, though a
/// reply may be cut short for its length: every page on the way is answered with as many peers as
/// fit, and the cursor after each peer is read back as that peer's.
pub proof fn law_peer_replies_show_every_peer(
    peers: Seq<PeerInfoView>,
    cursor: Option<Seq<u8>>,
    limit: usize,
)
    requires
        ascending_by(peers, peer_cursor()),
        forall|i: int| 0 <= i < peers.len() ==> #[trigger] peer_fits(peers, i),
        forall|i: int|
            0 <= i < peers.len() - 1 ==> 1 <= encode_utf8((#[trigger] peers[i]).address).len()
                <= 12288,
        0 < limit,
    ensures
        walk(peers, None, limit as nat, peers_shown(), peer_cursor()) == peers,
        ({
            let page = page_after(peers, cursor, limit, peer_cursor());
            peer_page_view(page.items, page.next_cursor) == json_view(
                200,
                Seq::empty(),
                peer_page_document(page.items, cursor_text(page.next_cursor), peers_shown()(page)),
            )
        }),
        forall|i: int|
            0 <= i < peers.len() - 1 ==> cursor_bytes(peer_cursor_text(#[trigger] peers[i])) == Some(
                peer_cursor()(peers[i]),
            ) && valid_utf8(peer_cursor()(peers[i])),
{
    lemma_replies_show_something();
    law_walk_shows_everything_once(peers, None, limit as nat, peers_shown(), peer_cursor());
    lemma_peer_page_is_answered(
        peers,
        cursor,
        limit,
        page_after(peers, cursor, limit, peer_cursor()),
    );
    assert forall|i: int| 0 <= i < peers.len() - 1 implies cursor_bytes(
        peer_cursor_text(#[trigger] peers[i]),
    ) == Some(peer_cursor()(peers[i])) && valid_utf8(peer_cursor()(peers[i])) by {
        encode_utf8_valid_utf8(peers[i].address);
        lemma_cursor_text_stands_for_it(encode_utf8(peers[i].address));
    }
}

/// The key of a row.
pub open spec fn row_key() -> spec_fn((Seq<u8>, Seq<u8>)) -> Seq<u8> {
    |row: (Seq<u8>, Seq<u8>)| row.0
}

/// The metadata rows of `table`.
pub open spec fn metadata_rows(table: Seq<(Seq<u8>, Seq<u8>)>) -> Seq<(Seq<u8>, Seq<u8>)> {
    table.filter(|row: (Seq<u8>, Seq<u8>)| meta_prefix().is_prefix_of(row.0))
}

/// A common beginning does not matter to the byte order.
proof fn lemma_lex_common_prefix(prefix: Seq<u8>, a: Seq<u8>, b: Seq<u8>)
    ensures
        lex_less(prefix + a, prefix + b) == lex_less(a, b),
    decreases prefix.len(),
{
    if prefix.len() == 0 {
        assert(prefix + a =~= a);
        assert(prefix + b =~= b);
    } else {
        lemma_lex_common_prefix(prefix.drop_first(), a, b);
        assert((prefix + a).drop_first() =~= prefix.drop_first() + a);
        assert((prefix + b).drop_first() =~= prefix.drop_first() + b);
    }
}

/// The key of a metadata row that can be read is the metadata prefix and the module's cursor.
proof fn lemma_metadata_key(row: (Seq<u8>, Seq<u8>))
    requires
        decoded_module(row.0, row.1) is Ok,
    ensures
        row.0 == meta_prefix() + module_cursor()(decoded_module(row.0, row.1)->Ok_0),
{
    let id = row.0.skip(meta_prefix().len() as int);
    decode_utf8_encode_utf8(id);
    assert(row.0 =~= row.0.subrange(0, meta_prefix().len() as int) + id);
}

/// The modules that readable rows describe, row by row.
proof fn lemma_decoded_row_by_row(rows: Seq<(Seq<u8>, Seq<u8>)>)
    requires
        decoded_modules(rows) is Ok,
    ensures
        decoded_modules(rows)->Ok_0.len() == rows.len(),
        forall|i: int|
            0 <= i < rows.len() ==> decoded_module((#[trigger] rows[i]).0, rows[i].1) == Ok::<
                _,
                ControlErrorView,
            >(decoded_modules(rows)->Ok_0[i]),
    decreases rows.len(),
{
    if rows.len() != 0 {
        let rest = rows.drop_last();
        lemma_decoded_row_by_row(rest);
        assert forall|i: int| 0 <= i < rows.len() implies decoded_module(
            (#[trigger] rows[i]).0,
            rows[i].1,
        ) == Ok::<_, ControlErrorView>(decoded_modules(rows)->Ok_0[i]) by {
            if i < rest.len() {
                assert(rest[i] == rows[i]);
            }
        }
    }
}

/// Reading some of the rows gives some of the modules: those that come after the cursor.
proof fn lemma_decoded_remaining(rows: Seq<(Seq<u8>, Seq<u8>)>, cursor: Option<Seq<u8>>)
    requires
        decoded_modules(rows) is Ok,
    ensures
        decoded_modules(
            rows.filter(
                |row: (Seq<u8>, Seq<u8>)|
                    comes_after(module_scan(cursor, 1).start_after, row.0),
            ),
        ) == Ok::<_, ControlErrorView>(
            remaining(decoded_modules(rows)->Ok_0, cursor, module_cursor()),
        ),
    decreases rows.len(),
{
    reveal(Seq::filter);
    let start_after = module_scan(cursor, 1).start_after;
    let later_row = |row: (Seq<u8>, Seq<u8>)| comes_after(start_after, row.0);
    let later = |module: ModuleInfoView| comes_after(cursor, module_cursor()(module));
    if rows.len() != 0 {
        let rest = rows.drop_last();
        lemma_decoded_remaining(rest, cursor);
        let modules = decoded_modules(rows)->Ok_0;
        assert(modules.drop_last() =~= decoded_modules(rest)->Ok_0);
        lemma_metadata_key(rows.last());
        if let Some(id) = cursor {
            lemma_lex_common_prefix(meta_prefix(), id, module_cursor()(modules.last()));
        }
        assert(later_row(rows.last()) == later(modules.last()));
        let kept = rest.filter(later_row);
        if later_row(rows.last()) {
            assert(kept.push(rows.last()).drop_last() =~= kept);
        }
    }
}

/// Reading the first of the rows gives the first of the modules.
proof fn lemma_decoded_first(rows: Seq<(Seq<u8>, Seq<u8>)>, count: nat)
    requires
        decoded_modules(rows) is Ok,
    ensures
        decoded_modules(first_of(rows, count)) == Ok::<_, ControlErrorView>(
            first_of(decoded_modules(rows)->Ok_0, count),
        ),
    decreases rows.len(),
{
    lemma_decoded_row_by_row(rows);
    if rows.len() > count {
        let rest = rows.drop_last();
        let modules = decoded_modules(rows)->Ok_0;
        lemma_decoded_row_by_row(rest);
        lemma_decoded_first(rest, count);
        assert(modules.drop_last() =~= decoded_modules(rest)->Ok_0);
        assert(first_of(rest, count) =~= first_of(rows, count));
        assert(first_of(modules.drop_last(), count) =~= first_of(modules, count));
    }
}

/// The registered modules, in the order of their identifiers.
pub open spec fn modules_of(table: Seq<(Seq<u8>, Seq<u8>)>) -> Seq<ModuleInfoView> {
    decoded_modules(metadata_rows(table))->Ok_0
}

/// The modules that the readable metadata rows of an ordered table describe are in the order of
/// their identifiers.
proof fn lemma_modules_ascend(table: Seq<(Seq<u8>, Seq<u8>)>)
    requires
        ascending_by(table, row_key()),
        decoded_modules(metadata_rows(table)) is Ok,
    ensures
        ascending_by(modules_of(table), module_cursor()),
{
    let rows = metadata_rows(table);
    let under = |row: (Seq<u8>, Seq<u8>)| meta_prefix().is_prefix_of(row.0);
    lemma_filter_keeps_order(table, under, row_key());
    lemma_decoded_row_by_row(rows);
    let modules = modules_of(table);
    assert forall|i: int, j: int| 0 <= i < j < modules.len() implies lex_less(
        module_cursor()(#[trigger] modules[i]),
        module_cursor()(#[trigger] modules[j]),
    ) by {
        assert(lex_less(row_key()(rows[i]), row_key()(rows[j])));
        lemma_metadata_key(rows[i]);
        lemma_metadata_key(rows[j]);
        lemma_lex_common_prefix(
            meta_prefix(),
            module_cursor()(modules[i]),
            module_cursor()(modules[j]),
        );
    }
}

/// A page of a module listing holds the first of the registered modules, in the order of their
/// identifiers, that come after the cursor.
pub proof fn law_module_page_is_of_registered_modules(
    table: Seq<(Seq<u8>, Seq<u8>)>,
    cursor: Option<Seq<u8>>,
    limit: usize,
)
    requires
        ascending_by(table, row_key()),
        decoded_modules(metadata_rows(table)) is Ok,
        0 < limit,
        limit < u32::MAX || remaining(modules_of(table), cursor, module_cursor()).len()
            <= u32::MAX,
    ensures
        module_page(Ok(rows_read(table, module_scan(cursor, limit))), limit) == Ok::<
            _,
            ControlErrorView,
        >(page_after(modules_of(table), cursor, limit, module_cursor())),
        ascending_by(modules_of(table), module_cursor()),
{
    lemma_modules_ascend(table);
    let scan = module_scan(cursor, limit);
    let rows = metadata_rows(table);
    let modules = modules_of(table);
    let under = |row: (Seq<u8>, Seq<u8>)| meta_prefix().is_prefix_of(row.0);
    let later = |row: (Seq<u8>, Seq<u8>)| comes_after(module_scan(cursor, 1).start_after, row.0);
    let both = |row: (Seq<u8>, Seq<u8>)| asked_for(scan, row.0);
    lemma_filter_in_turn(table, under, later, both);
    lemma_decoded_remaining(rows, cursor);
    lemma_decoded_first(rows.filter(later), scan.limit as nat);
    lemma_one_more_row_decides(
        remaining(modules, cursor, module_cursor()),
        limit as nat,
        scan.limit as nat,
        module_cursor(),
    );
    assert((|module: ModuleInfoView| encode_utf8(module.id)) =~= module_cursor());
}

/// `table` holds the rows of the datastore `store`, in key order.
pub open spec fn table_of(table: Seq<(Seq<u8>, Seq<u8>)>, store: Stored) -> bool {
    &&& ascending_by(table, row_key())
    &&& forall|key: Seq<u8>, value: Seq<u8>| #[trigger]
        table.contains((key, value)) <==> value_at(store, key) == Some(value)
}

/// All rows can be read where each can.
proof fn lemma_all_rows_decode(rows: Seq<(Seq<u8>, Seq<u8>)>)
    requires
        forall|i: int|
            0 <= i < rows.len() ==> decoded_module((#[trigger] rows[i]).0, rows[i].1) is Ok,
    ensures
        decoded_modules(rows) is Ok,
    decreases rows.len(),
{
    if rows.len() != 0 {
        let rest = rows.drop_last();
        assert forall|i: int| 0 <= i < rest.len() implies decoded_module(
            (#[trigger] rest[i]).0,
            rest[i].1,
        ) is Ok by {
            assert(rest[i] == rows[i]);
        }
        lemma_all_rows_decode(rest);
        assert(rows.last() == rows[rows.len() - 1]);
    }
}

/// The metadata row of a module of a sound registry can be read.
proof fn lemma_sound_row_decodes(store: Stored, key: Seq<u8>)
    requires
        registry_sound(store),
        store.contains_key(key),
        meta_prefix().is_prefix_of(key),
    ensures
        decoded_module(key, store[key]) is Ok,
        exists|id: Seq<char>|
            key == #[trigger] meta_key(id) && decoded_module(key, store[key])->Ok_0.id == id,
{
    let id = choose|id: Seq<char>| key == #[trigger] meta_key(id);
    assert(key.skip(meta_prefix().len() as int) =~= encode_utf8(id));
    encode_utf8_valid_utf8(id);
    encode_utf8_decode_utf8(id);
    assert(value_at(store, data_key(id)) is Some);
    let size = value_at(store, data_key(id))->0.len();
    assert(store[key] == be_digits(size, 8));
    lemma_be_digits_len(size, 8);
}

/// A module listing of a datastore with a sound registry never fails, and following the cursors of
/// the node's pages shows exactly the modules that are known, each once, in the order of their
/// identifiers.
pub proof fn law_module_listing_shows_the_known_modules(
    table: Seq<(Seq<u8>, Seq<u8>)>,
    store: Stored,
    limit: usize,
)
    requires
        table_of(table, store),
        registry_sound(store),
        0 < limit,
    ensures
        decoded_modules(metadata_rows(table)) is Ok,
        ascending_by(modules_of(table), module_cursor()),
        walk(modules_of(table), None, limit as nat, whole(), module_cursor()) == modules_of(table),
        forall|module: ModuleInfoView| #[trigger]
            modules_of(table).contains(module) <==> known(store, module.id) == Ok::<
                _,
                ControlErrorView,
            >(Some(module)),
{
    let rows = metadata_rows(table);
    let under = |row: (Seq<u8>, Seq<u8>)| meta_prefix().is_prefix_of(row.0);
    lemma_filter_keeps_order(table, under, row_key());
    assert forall|i: int| 0 <= i < rows.len() implies decoded_module(
        (#[trigger] rows[i]).0,
        rows[i].1,
    ) is Ok && store.contains_key(rows[i].0) && store[rows[i].0] == rows[i].1 by {
        assert(rows.contains(rows[i]));
        assert(table.contains((rows[i].0, rows[i].1)));
        lemma_sound_row_decodes(store, rows[i].0);
    }
    lemma_all_rows_decode(rows);
    lemma_decoded_row_by_row(rows);
    let modules = modules_of(table);
    lemma_modules_ascend(table);
    law_walk_shows_everything_once(modules, None, limit as nat, whole(), module_cursor());
    assert forall|module: ModuleInfoView| #[trigger] modules.contains(module) <==> known(
        store,
        module.id,
    ) == Ok::<_, ControlErrorView>(Some(module)) by {
        if modules.contains(module) {
            let at = choose|at: int| 0 <= at < modules.len() && modules[at] == module;
            lemma_metadata_key(rows[at]);
            assert(rows[at].0 == meta_key(module.id));
        }
        if known(store, module.id) == Ok::<_, ControlErrorView>(Some(module)) {
            let key = meta_key(module.id);
            assert(store.contains_key(key));
            assert(meta_prefix() =~= key.subrange(0, meta_prefix().len() as int));
            assert(table.contains((key, store[key])));
            assert(rows.contains((key, store[key])));
            let at = choose|at: int| 0 <= at < rows.len() && rows[at] == (key, store[key]);
            assert(decoded_module(rows[at].0, rows[at].1) == Ok::<_, ControlErrorView>(module));
            assert(modules[at] == module);
        }
    }
}

/// Where every module has an identifier of the form that registration gives, following the cursors
/// of the replies shows exactly the known modules: every page on the way is answered whole, and the
/// cursor after each module asks for what follows it.
pub proof fn law_module_replies_show_the_known_modules(
    table: Seq<(Seq<u8>, Seq<u8>)>,
    store: Stored,
    cursor: Option<Seq<u8>>,
    limit: usize,
)
    requires
        table_of(table, store),
        registry_sound(store),
        forall|i: int|
            0 <= i < modules_of(table).len() ==> module_id_form(
                encode_utf8((#[trigger] modules_of(table)[i]).id),
            ),
        0 < limit <= MAX_PAGE_SIZE,
    ensures
        walk(modules_of(table), None, limit as nat, whole(), module_cursor()) == modules_of(table),
        ({
            let page = page_after(modules_of(table), cursor, limit, module_cursor());
            module_page_view(page.items, page.next_cursor) == json_view(
                200,
                Seq::empty(),
                encode_utf8(module_page_text(page.items, cursor_text(page.next_cursor))),
            )
        }),
        forall|i: int|
            0 <= i < modules_of(table).len() ==> listing_asked(
                Some(base64url(module_cursor()(#[trigger] modules_of(table)[i]))),
                Some(limit),
                CursorKind::Module,
            ) == Some((Some(module_cursor()(modules_of(table)[i])), limit)),
{
    law_module_listing_shows_the_known_modules(table, store, limit);
    let modules = modules_of(table);
    let start = lemma_remaining_is_a_tail(modules, cursor, module_cursor());
    let page = page_after(modules, cursor, limit, module_cursor());
    assert forall|i: int| 0 <= i < page.items.len() implies module_id_form(
        encode_utf8((#[trigger] page.items[i]).id),
    ) by {
        assert(page.items[i] == modules[start + i]);
    }
    law_module_pages_are_whole(page.items, page.next_cursor);
    assert forall|i: int| 0 <= i < modules.len() implies listing_asked(
        Some(base64url(module_cursor()(#[trigger] modules[i]))),
        Some(limit),
        CursorKind::Module,
    ) == Some((Some(module_cursor()(modules[i])), limit)) by {
        law_module_cursor_is_understood(encode_utf8(modules[i].id), Some(limit));
    }
}

} // verus!
