//! Listings by pages: where each page takes up, and that following the cursors shows everything.

use crate::bytes::{lemma_lex_irreflexive, lemma_lex_transitive, lex_less};
use crate::control::{page_of, ControlPageView};
use vstd::prelude::*;

verus! {

/// The cursors of `rows` are in strictly ascending byte order.
pub open spec fn ascending_by<V>(rows: Seq<V>, cursor_of: spec_fn(V) -> Seq<u8>) -> bool {
    forall|i: int, j: int|
        0 <= i < j < rows.len() ==> lex_less(
            cursor_of(#[trigger] rows[i]),
            cursor_of(#[trigger] rows[j]),
        )
}

/// `own` comes after `cursor`, where there is one.
pub open spec fn comes_after(cursor: Option<Seq<u8>>, own: Seq<u8>) -> bool {
    match cursor {
        Some(passed) => lex_less(passed, own),
        None => true,
    }
}

/// Those of `rows` whose cursors come after `cursor`.
pub open spec fn remaining<V>(
    rows: Seq<V>,
    cursor: Option<Seq<u8>>,
    cursor_of: spec_fn(V) -> Seq<u8>,
) -> Seq<V> {
    rows.filter(|row: V| comes_after(cursor, cursor_of(row)))
}

/// The first `count` of `rows`, or all where there are fewer.
pub open spec fn first_of<V>(rows: Seq<V>, count: nat) -> Seq<V> {
    if rows.len() > count {
        rows.take(count as int)
    } else {
        rows
    }
}

/// What remains of ascending rows is a tail of them: all from the first row after the cursor.
pub proof fn lemma_remaining_is_a_tail<V>(
    rows: Seq<V>,
    cursor: Option<Seq<u8>>,
    cursor_of: spec_fn(V) -> Seq<u8>,
) -> (start: int)
    requires
        ascending_by(rows, cursor_of),
    ensures
        0 <= start <= rows.len(),
        remaining(rows, cursor, cursor_of) == rows.skip(start),
        forall|i: int|
            0 <= i < rows.len() ==> (comes_after(cursor, cursor_of(#[trigger] rows[i])) <==> start
                <= i),
    decreases rows.len(),
{
    reveal(Seq::filter);
    if rows.len() == 0 {
        assert(remaining(rows, cursor, cursor_of) =~= rows.skip(0));
        0
    } else {
        let rest = rows.drop_last();
        let start = lemma_remaining_is_a_tail(rest, cursor, cursor_of);
        let last = rows.len() - 1;
        assert forall|i: int| 0 <= i < last implies (comes_after(
            cursor,
            cursor_of(#[trigger] rows[i]),
        ) <==> start <= i) by {
            assert(rest[i] == rows[i]);
        }
        if comes_after(cursor, cursor_of(rows[last])) {
            assert(remaining(rows, cursor, cursor_of) =~= rows.skip(start));
            start
        } else {
            if start < last {
                assert(comes_after(cursor, cursor_of(rows[start])));
                lemma_lex_transitive(cursor->0, cursor_of(rows[start]), cursor_of(rows[last]));
            }
            assert(remaining(rows, cursor, cursor_of) =~= rows.skip(rows.len() as int));
            rows.len() as int
        }
    }
}

/// A listing resumed after a row that it has shown goes on with the next row: nothing is shown
/// twice, and nothing is passed over.
pub proof fn law_resuming_goes_on<V>(
    rows: Seq<V>,
    cursor: Option<Seq<u8>>,
    cursor_of: spec_fn(V) -> Seq<u8>,
    shown: nat,
)
    requires
        ascending_by(rows, cursor_of),
        1 <= shown <= remaining(rows, cursor, cursor_of).len(),
    ensures
        remaining(
            rows,
            Some(cursor_of(remaining(rows, cursor, cursor_of)[shown - 1])),
            cursor_of,
        ) == remaining(rows, cursor, cursor_of).skip(shown as int),
{
    let start = lemma_remaining_is_a_tail(rows, cursor, cursor_of);
    let at = start + shown - 1;
    let passed = Some(cursor_of(rows[at]));
    assert(remaining(rows, cursor, cursor_of)[shown - 1] == rows[at]);
    let next = lemma_remaining_is_a_tail(rows, passed, cursor_of);
    lemma_lex_irreflexive(cursor_of(rows[at]));
    assert(!comes_after(passed, cursor_of(rows[at])));
    assert(next > at);
    if at + 1 < rows.len() {
        assert(comes_after(passed, cursor_of(rows[at + 1])));
    }
    assert(next == at + 1);
    assert(rows.skip(start).skip(shown as int) =~= rows.skip(next));
}

/// A page of the rows read for it is the page of all of them, where one more row than the page
/// holds is read, or all are.
pub proof fn lemma_one_more_row_decides<V>(
    rows: Seq<V>,
    limit: nat,
    read: nat,
    cursor_of: spec_fn(V) -> Seq<u8>,
)
    requires
        0 < limit,
        limit < read || rows.len() <= read,
    ensures
        page_of(first_of(rows, read), limit, cursor_of) == page_of(rows, limit, cursor_of),
{
    if rows.len() > read {
        assert(rows.take(read as int).take(limit as int) =~= rows.take(limit as int));
    }
}

/// The lesser of the two.
pub open spec fn lesser(a: nat, b: nat) -> nat {
    if a <= b {
        a
    } else {
        b
    }
}

/// A page holds the first rows, in their order: as many as asked for, or all where there are fewer.
/// It has a cursor exactly where rows are left over, and the cursor is that of its last item.
pub proof fn law_page_keeps_to_its_limit<V>(
    rows: Seq<V>,
    limit: nat,
    cursor_of: spec_fn(V) -> Seq<u8>,
)
    ensures
        page_of(rows, limit, cursor_of).items.len() == lesser(rows.len(), limit),
        forall|i: int|
            0 <= i < lesser(rows.len(), limit) ==> #[trigger] page_of(
                rows,
                limit,
                cursor_of,
            ).items[i] == rows[i],
        page_of(rows, limit, cursor_of).items.is_prefix_of(rows),
        page_of(rows, limit, cursor_of).next_cursor is Some <==> rows.len() > limit,
        rows.len() > limit > 0 ==> page_of(rows, limit, cursor_of).next_cursor == Some(
            cursor_of(rows[limit - 1]),
        ),
{
    let items = page_of(rows, limit, cursor_of).items;
    assert(items =~= rows.subrange(0, items.len() as int));
}

/// `shown` leaves at least one item on a page that has any.
pub open spec fn shows_something<V>(shown: spec_fn(ControlPageView<V>) -> nat) -> bool {
    forall|page: ControlPageView<V>|
        page.items.len() > 0 ==> 1 <= #[trigger] shown(page) <= page.items.len()
}

/// Pages are shown whole.
pub open spec fn whole<V>() -> spec_fn(ControlPageView<V>) -> nat {
    |page: ControlPageView<V>| page.items.len()
}

/// All that following the cursors shows, from `cursor` on. Of each page the first `shown` items are
/// shown. A page that is cut short resumes after the last item shown, and a whole one where its own
/// cursor says, if it has one.
pub open spec fn walk<V>(
    rows: Seq<V>,
    cursor: Option<Seq<u8>>,
    limit: nat,
    shown: spec_fn(ControlPageView<V>) -> nat,
    cursor_of: spec_fn(V) -> Seq<u8>,
) -> Seq<V>
    decreases remaining(rows, cursor, cursor_of).len(),
    when limit > 0 && ascending_by(rows, cursor_of) && shows_something(shown)
{
    let page = page_of(remaining(rows, cursor, cursor_of), limit, cursor_of);
    let count = shown(page);
    proof {
        if 1 <= count <= page.items.len() {
            law_resuming_goes_on(rows, cursor, cursor_of, count);
        }
    }
    if page.items.len() == 0 {
        page.items
    } else if count < page.items.len() {
        page.items.take(count as int) + walk(
            rows,
            Some(cursor_of(page.items[count - 1])),
            limit,
            shown,
            cursor_of,
        )
    } else {
        match page.next_cursor {
            Some(next) => page.items + walk(rows, Some(next), limit, shown, cursor_of),
            None => page.items,
        }
    }
}

/// Following the cursors until there is none shows every row after the first cursor once, in order,
/// however short the pages are cut.
pub proof fn law_walk_shows_everything_once<V>(
    rows: Seq<V>,
    cursor: Option<Seq<u8>>,
    limit: nat,
    shown: spec_fn(ControlPageView<V>) -> nat,
    cursor_of: spec_fn(V) -> Seq<u8>,
)
    requires
        limit > 0,
        ascending_by(rows, cursor_of),
        shows_something(shown),
    ensures
        walk(rows, cursor, limit, shown, cursor_of) == remaining(rows, cursor, cursor_of),
        cursor is None ==> walk(rows, cursor, limit, shown, cursor_of) == rows,
    decreases remaining(rows, cursor, cursor_of).len(),
{
    let rest = remaining(rows, cursor, cursor_of);
    let page = page_of(rest, limit, cursor_of);
    let count = shown(page);
    if page.items.len() > 0 {
        assert(page.items =~= first_of(rest, limit));
        law_resuming_goes_on(rows, cursor, cursor_of, count);
        let next = Some(cursor_of(rest[count - 1]));
        assert(page.items[count - 1] == rest[count - 1]);
        assert(page.items.take(count as int) =~= rest.take(count as int));
        if count < rest.len() {
            law_walk_shows_everything_once(rows, next, limit, shown, cursor_of);
        }
        assert(rest.take(count as int) + rest.skip(count as int) =~= rest);
    }
    if cursor is None {
        let start = lemma_remaining_is_a_tail(rows, cursor, cursor_of);
        if rows.len() > 0 {
            assert(comes_after(cursor, cursor_of(rows[0])));
        }
        assert(rows.skip(0) =~= rows);
    }
}

} // verus!
