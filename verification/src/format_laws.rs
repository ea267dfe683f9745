//! What byte order, numbers, texts and views come to, position by position.

use crate::base64url::{
    base64url, base64url_bytes, lemma_base64url_round_trip, lemma_base64url_shape, symbol,
};
use crate::bytes::{bytes_copy, bytes_equal, bytes_from, bytes_less, lex_less, starts_with};
use crate::control::{
    lookup_view, outcome_view, ControlError, ControlErrorView, ControlPage, ModuleInfo,
    ModuleRegistration, PeerInfo,
};
use crate::registry::PageScan;
use crate::reply::Reply;
use crate::text::{be_digits, big_endian, lemma_big_endian_round_trip};
use crate::views::{option_view, seq_view};
use vstd::prelude::*;

verus! {

/// The two byte strings agree before position `at`, where the one ends or has the lesser byte.
pub open spec fn parts_at(a: Seq<u8>, b: Seq<u8>, at: int) -> bool {
    &&& 0 <= at <= a.len()
    &&& at < b.len()
    &&& forall|i: int| 0 <= i < at ==> a[i] == b[i]
    &&& at == a.len() || a[at] < b[at]
}

/// A byte string comes before another exactly where, at the first position at which they part, it
/// ends or has the lesser byte.
pub proof fn law_first_difference_orders(a: Seq<u8>, b: Seq<u8>)
    ensures
        lex_less(a, b) <==> exists|at: int| parts_at(a, b, at),
    decreases a.len(),
{
    if b.len() == 0 {
    } else if a.len() == 0 {
        assert(parts_at(a, b, 0));
    } else {
        let (c, d) = (a.drop_first(), b.drop_first());
        law_first_difference_orders(c, d);
        if a[0] < b[0] {
            assert(parts_at(a, b, 0));
        } else if lex_less(a, b) {
            let at = choose|at: int| parts_at(c, d, at);
            assert forall|i: int| 0 <= i < at + 1 implies a[i] == b[i] by {
                if i > 0 {
                    assert(c[i - 1] == d[i - 1]);
                }
            }
            assert(parts_at(a, b, at + 1));
        }
        if exists|at: int| parts_at(a, b, at) {
            let at = choose|at: int| parts_at(a, b, at);
            if at > 0 {
                assert(a[0] == b[0]);
                assert forall|i: int| 0 <= i < at - 1 implies c[i] == d[i] by {
                    assert(a[i + 1] == b[i + 1]);
                }
                assert(parts_at(c, d, at - 1));
            }
        }
    }
}

/// Eight bytes stand for the number whose digits in base 256 they are, the first the highest.
pub proof fn law_eight_bytes_are_a_number(bytes: Seq<u8>)
    requires
        bytes.len() == 8,
    ensures
        big_endian(bytes) == bytes[0] * 0x100_0000_0000_0000 + bytes[1] * 0x1_0000_0000_0000
            + bytes[2] * 0x100_0000_0000 + bytes[3] * 0x1_0000_0000 + bytes[4] * 0x100_0000
            + bytes[5] * 0x1_0000 + bytes[6] * 0x100 + bytes[7],
{
    lemma_last_digit(bytes);
    lemma_last_digit(bytes.take(7));
    lemma_last_digit(bytes.take(6));
    lemma_last_digit(bytes.take(5));
    lemma_last_digit(bytes.take(4));
    lemma_last_digit(bytes.take(3));
    lemma_last_digit(bytes.take(2));
    lemma_last_digit(bytes.take(1));
    assert(bytes.take(7).take(6) =~= bytes.take(6));
    assert(bytes.take(6).take(5) =~= bytes.take(5));
    assert(bytes.take(5).take(4) =~= bytes.take(4));
    assert(bytes.take(4).take(3) =~= bytes.take(3));
    assert(bytes.take(3).take(2) =~= bytes.take(2));
    assert(bytes.take(2).take(1) =~= bytes.take(1));
    assert(big_endian(bytes.take(1).take(0)) == 0);
}

proof fn lemma_last_digit(bytes: Seq<u8>)
    requires
        bytes.len() > 0,
    ensures
        big_endian(bytes) == big_endian(bytes.take(bytes.len() - 1)) * 256 + bytes.last(),
{
    assert(bytes.drop_last() =~= bytes.take(bytes.len() - 1));
}

/// The eight bytes of a number stand for that number, and no other eight bytes do.
pub proof fn law_number_has_its_eight_bytes(n: u64, bytes: Seq<u8>)
    ensures
        be_digits(n as nat, 8).len() == 8,
        big_endian(be_digits(n as nat, 8)) == n,
        bytes.len() == 8 && big_endian(bytes) == n ==> bytes == be_digits(n as nat, 8),
{
    lemma_big_endian_round_trip(n);
    if bytes.len() == 8 && big_endian(bytes) == n {
        let digits = be_digits(n as nat, 8);
        lemma_digits_are_unique(bytes, digits);
    }
}

proof fn lemma_digits_are_unique(a: Seq<u8>, b: Seq<u8>)
    requires
        a.len() == b.len(),
        big_endian(a) == big_endian(b),
    ensures
        a == b,
    decreases a.len(),
{
    if a.len() > 0 {
        lemma_last_digit(a);
        lemma_last_digit(b);
        assert(a.drop_last() =~= a.take(a.len() - 1));
        assert(b.drop_last() =~= b.take(b.len() - 1));
        lemma_digits_are_unique(a.drop_last(), b.drop_last());
        assert(a =~= a.drop_last().push(a.last()));
        assert(b =~= b.drop_last().push(b.last()));
    }
    assert(a =~= b);
}

/// The byte at `i`, or zero behind the end.
pub open spec fn byte_or_zero(bytes: Seq<u8>, i: int) -> int {
    if 0 <= i < bytes.len() {
        bytes[i] as int
    } else {
        0
    }
}

/// The six bits that begin with bit `6 * i` of `bytes`, taken as a number.
pub open spec fn six_bits(bytes: Seq<u8>, i: int) -> int {
    let pair = byte_or_zero(bytes, 6 * i / 8) * 256 + byte_or_zero(bytes, 6 * i / 8 + 1);
    if i % 4 == 0 {
        pair / 1024
    } else if i % 4 == 1 {
        pair / 16 % 64
    } else if i % 4 == 2 {
        pair / 64 % 64
    } else {
        pair / 256 % 64
    }
}

/// The groups of six bits in two bytes.
proof fn lemma_groups_of_a_pair(p: u32, q: u32)
    requires
        p < 256,
        q < 256,
    ensures
        (p * 256 + q) / 1024 == p / 4,
        (p * 256 + q) / 16 % 64 == p % 4 * 16 + q / 16,
        (p * 256 + q) / 64 % 64 == p % 16 * 4 + q / 64,
        (p * 256 + q) / 256 % 64 == p % 64,
{
    assert((p * 256 + q) / 1024 == p / 4) by (bit_vector)
        requires
            p < 256,
            q < 256,
    ;
    assert((p * 256 + q) / 16 % 64 == p % 4 * 16 + q / 16) by (bit_vector)
        requires
            p < 256,
            q < 256,
    ;
    assert((p * 256 + q) / 64 % 64 == p % 16 * 4 + q / 64) by (bit_vector)
        requires
            p < 256,
            q < 256,
    ;
    assert((p * 256 + q) / 256 % 64 == p % 64) by (bit_vector)
        requires
            p < 256,
            q < 256,
    ;
}

/// The first four groups of six bits.
proof fn lemma_first_groups(bytes: Seq<u8>)
    ensures
        ({
            let (p, q, r) = (
                byte_or_zero(bytes, 0),
                byte_or_zero(bytes, 1),
                byte_or_zero(bytes, 2),
            );
            &&& six_bits(bytes, 0) == p / 4
            &&& six_bits(bytes, 1) == p % 4 * 16 + q / 16
            &&& six_bits(bytes, 2) == q % 16 * 4 + r / 64
            &&& six_bits(bytes, 3) == r % 64
        }),
{
    let (p, q, r, s) = (
        byte_or_zero(bytes, 0),
        byte_or_zero(bytes, 1),
        byte_or_zero(bytes, 2),
        byte_or_zero(bytes, 3),
    );
    lemma_groups_of_a_pair(p as u32, q as u32);
    lemma_groups_of_a_pair(q as u32, r as u32);
    lemma_groups_of_a_pair(r as u32, s as u32);
}

/// Behind three bytes the groups are those of the rest.
proof fn lemma_later_groups(bytes: Seq<u8>, i: int)
    requires
        bytes.len() >= 3,
        i >= 4,
    ensures
        six_bits(bytes, i) == six_bits(bytes.skip(3), i - 4),
{
    let rest = bytes.skip(3);
    let at = 6 * i / 8;
    assert(6 * (i - 4) / 8 == at - 3);
    assert(byte_or_zero(bytes, at) == byte_or_zero(rest, at - 3));
    assert(byte_or_zero(bytes, at + 1) == byte_or_zero(rest, at - 2));
}

/// A group of six bits is a six-bit number.
proof fn lemma_group_range(bytes: Seq<u8>, i: int)
    ensures
        0 <= six_bits(bytes, i) < 64,
{
    let pair = byte_or_zero(bytes, 6 * i / 8) * 256 + byte_or_zero(bytes, 6 * i / 8 + 1);
    assert(0 <= pair < 65536);
}

/// The symbol at `i` of the Base64URL form is that of the group of six bits at `i`.
proof fn lemma_symbol_of_group(bytes: Seq<u8>, i: int)
    requires
        0 <= i < base64url(bytes).len(),
    ensures
        base64url(bytes)[i] == symbol(six_bits(bytes, i)),
    decreases bytes.len(),
{
    lemma_base64url_shape(bytes);
    lemma_first_groups(bytes);
    if bytes.len() >= 3 && i >= 4 {
        lemma_later_groups(bytes, i);
        assert(base64url(bytes)[i] == base64url(bytes.skip(3))[i - 4]);
        lemma_symbol_of_group(bytes.skip(3), i - 4);
    }
}

/// The Base64URL form of a byte string cuts its bits into groups of six, the last one filled up
/// with zeros, and writes each group as its symbol of the URL-safe alphabet.
pub proof fn law_base64url_writes_six_bits_a_symbol(bytes: Seq<u8>)
    ensures
        base64url(bytes).len() == (8 * bytes.len() + 5) / 6,
        forall|i: int|
            0 <= i < base64url(bytes).len() ==> #[trigger] base64url(bytes)[i]
                == url_safe_symbols()[six_bits(bytes, i)],
{
    lemma_base64url_shape(bytes);
    law_url_safe_symbols();
    assert forall|i: int| 0 <= i < base64url(bytes).len() implies #[trigger] base64url(bytes)[i]
        == url_safe_symbols()[six_bits(bytes, i)] by {
        lemma_symbol_of_group(bytes, i);
        lemma_group_range(bytes, i);
    }
}

/// The symbols of the URL-safe alphabet, in the order of their values.
pub open spec fn url_safe_symbols() -> Seq<char> {
    "ABCDEFGHIJKLMNOPQRSTUVWXYZabcdefghijklmnopqrstuvwxyz0123456789-_"@
}

/// A six-bit value has the symbol at its place in the URL-safe alphabet.
pub proof fn law_url_safe_symbols()
    ensures
        url_safe_symbols().len() == 64,
        forall|value: int| 0 <= value < 64 ==> #[trigger] symbol(value) == url_safe_symbols()[value],
{
    reveal_strlit("ABCDEFGHIJKLMNOPQRSTUVWXYZabcdefghijklmnopqrstuvwxyz0123456789-_");
}

/// A text is read as a byte string exactly where it is the Base64URL form of one, and then as that
/// one.
pub proof fn law_base64url_is_read_back(text: Seq<char>, bytes: Seq<u8>)
    ensures
        base64url_bytes(text) == Some(bytes) <==> base64url(bytes) == text,
{
    if base64url(bytes) == text {
        lemma_base64url_round_trip(bytes);
    }
}

/// The views leave nothing out: a view holds every field, and that of a collection every element.
pub proof fn law_views_are_faithful(
    module: ModuleInfo,
    registration: ModuleRegistration,
    peer: PeerInfo,
    page: ControlPage<Vec<u8>>,
    scan: PageScan,
    reply: Reply,
)
    ensures
        module@.id == module.id@ && module@.size_bytes == module.size_bytes,
        registration@.module == registration.module@ && registration@.created
            == registration.created,
        peer@.address == peer.address@ && peer@.node_id == peer.node_id@,
        page@.items == seq_view(page.items@) && page@.next_cursor == option_view(page.next_cursor),
        scan@.prefix == scan.prefix@ && scan@.start_after == option_view(scan.start_after)
            && scan@.limit == scan.limit && scan@.exclude == option_view(scan.exclude),
        reply@.status == reply.status && reply@.headers == seq_view(reply.headers@) && reply@.body
            == reply.body@,
{
}

/// The view of a collection holds the view of each element at its place; that of an optional value,
/// the view of the value.
pub proof fn law_collections_are_viewed_whole<T: View>(values: Seq<T>, value: T)
    ensures
        seq_view(values).len() == values.len(),
        forall|i: int| 0 <= i < values.len() ==> #[trigger] seq_view(values)[i] == values[i]@,
        option_view(Some(value)) == Some(value@),
        option_view(None::<T>) is None,
{
}

/// The view of an outcome tells success and failure apart and holds what there is of either.
pub proof fn law_outcomes_are_viewed_whole<T: View>(value: T, error: ControlError)
    ensures
        outcome_view(Ok::<T, ControlError>(value)) is Ok,
        outcome_view(Ok::<T, ControlError>(value))->Ok_0 == value@,
        outcome_view(Err::<T, ControlError>(error)) is Err,
        outcome_view(Err::<T, ControlError>(error))->Err_0 == error@,
        lookup_view(Ok::<Option<T>, ControlError>(Some(value))) is Ok,
        lookup_view(Ok::<Option<T>, ControlError>(Some(value)))->Ok_0 == Some(value@),
        lookup_view(Ok::<Option<T>, ControlError>(None)) is Ok,
        lookup_view(Ok::<Option<T>, ControlError>(None))->Ok_0 is None,
        lookup_view(Err::<Option<T>, ControlError>(error)) is Err,
        lookup_view(Err::<Option<T>, ControlError>(error))->Err_0 == error@,
{
}

/// The view of an error names its kind and holds its reason, and its words say both.
pub proof fn law_errors_say_their_reason(reason: String)
    ensures
        ControlError::InvalidCursor@.words() == "invalid cursor"@,
        ControlError::ModuleNotFound@.words() == "module not found"@,
        ControlError::KeyNotFound@.words() == "key not found"@,
        ControlError::InvalidModule(reason)@.words() == "invalid module: "@ + reason@,
        ControlError::ModuleExecutionFailed(reason)@.words() == "module execution failed: "@
            + reason@,
        ControlError::Storage(reason)@.words() == "storage error: "@ + reason@,
        ControlError::Internal(reason)@.words() == "internal control error: "@ + reason@,
        ControlError::InvalidCursor@ is InvalidCursor,
        ControlError::ModuleNotFound@ is ModuleNotFound,
        ControlError::KeyNotFound@ is KeyNotFound,
        ControlError::InvalidModule(reason)@ == ControlErrorView::InvalidModule(reason@),
        ControlError::ModuleExecutionFailed(reason)@ == ControlErrorView::ModuleExecutionFailed(
            reason@,
        ),
        ControlError::Storage(reason)@ == ControlErrorView::Storage(reason@),
        ControlError::Internal(reason)@ == ControlErrorView::Internal(reason@),
{
}

/// An error is put in words by its kind and, where it has one, its reason.
pub proof fn law_error_is_put_in_words(error: ControlError, words: String)
    requires
        call_ensures(ControlError::to_string, (&error,), words),
    ensures
        words@ == match error {
            ControlError::InvalidCursor => "invalid cursor"@,
            ControlError::ModuleNotFound => "module not found"@,
            ControlError::KeyNotFound => "key not found"@,
            ControlError::InvalidModule(reason) => "invalid module: "@ + reason@,
            ControlError::ModuleExecutionFailed(reason) => "module execution failed: "@ + reason@,
            ControlError::Storage(reason) => "storage error: "@ + reason@,
            ControlError::Internal(reason) => "internal control error: "@ + reason@,
        },
{
}

/// One more digit is put behind those of the number without it.
pub proof fn law_digits_are_put_behind(n: nat, width: nat)
    ensures
        be_digits(n, 0).len() == 0,
        be_digits(n, width + 1) == be_digits(n / 256, width).push((n % 256) as u8),
{
}

/// Byte strings are told apart, ordered and cut by their bytes alone.
pub proof fn law_byte_strings_are_handled_by_their_bytes(
    a: &[u8],
    b: &[u8],
    start: usize,
    less: bool,
    prefixed: bool,
    equal: bool,
    tail: Vec<u8>,
    copy: Vec<u8>,
)
    requires
        call_ensures(bytes_less, (a, b), less),
        call_ensures(starts_with, (a, b), prefixed),
        call_ensures(bytes_equal, (a, b), equal),
        start <= a@.len(),
        call_ensures(bytes_from, (a, start), tail),
        call_ensures(bytes_copy, (a,), copy),
    ensures
        less <==> exists|at: int| parts_at(a@, b@, at),
        prefixed <==> b@.len() <= a@.len() && forall|i: int|
            0 <= i < b@.len() ==> #[trigger] b@[i] == a@[i],
        equal <==> a@.len() == b@.len() && forall|i: int|
            0 <= i < a@.len() ==> #[trigger] a@[i] == b@[i],
        tail@.len() == a@.len() - start,
        forall|i: int| 0 <= i < tail@.len() ==> #[trigger] tail@[i] == a@[start + i],
        copy@ == a@,
{
    law_first_difference_orders(a@, b@);
    if b@.len() <= a@.len() {
        let front = a@.subrange(0, b@.len() as int);
        if prefixed {
            assert forall|i: int| 0 <= i < b@.len() implies #[trigger] b@[i] == a@[i] by {
                assert(front[i] == a@[i]);
            }
        } else if forall|i: int| 0 <= i < b@.len() ==> #[trigger] b@[i] == a@[i] {
            assert(b@ =~= front);
        }
    }
    if a@.len() == b@.len() && forall|i: int|
        0 <= i < a@.len() ==> #[trigger] a@[i] == b@[i] {
        assert(a@ =~= b@);
    }
}

} // verus!
