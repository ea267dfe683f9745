//! Byte strings: prefixes, equality and the order in which keys are listed.

use vstd::prelude::*;

verus! {

/// `a` comes strictly before `b` in lexicographic byte order.
pub open spec fn lex_less(a: Seq<u8>, b: Seq<u8>) -> bool
    decreases a.len(),
{
    if b.len() == 0 {
        false
    } else if a.len() == 0 {
        true
    } else {
        a[0] < b[0] || (a[0] == b[0] && lex_less(a.drop_first(), b.drop_first()))
    }
}

/// No byte string comes before itself.
pub proof fn lemma_lex_irreflexive(a: Seq<u8>)
    ensures
        !lex_less(a, a),
    decreases a.len(),
{
    if a.len() != 0 {
        lemma_lex_irreflexive(a.drop_first());
    }
}

/// The byte order is transitive.
pub proof fn lemma_lex_transitive(a: Seq<u8>, b: Seq<u8>, c: Seq<u8>)
    requires
        lex_less(a, b),
        lex_less(b, c),
    ensures
        lex_less(a, c),
    decreases a.len(),
{
    if a.len() != 0 && a[0] == b[0] && b[0] == c[0] {
        lemma_lex_transitive(a.drop_first(), b.drop_first(), c.drop_first());
    }
}

/// Whether `a` comes strictly before `b` in lexicographic byte order.
pub fn bytes_less(a: &[u8], b: &[u8]) -> (less: bool)
    ensures
        less == lex_less(a@, b@),
{
    let mut i: usize = 0;
    assert(a@.skip(0) =~= a@ && b@.skip(0) =~= b@);
    while i < a.len() && i < b.len() && a[i] == b[i]
        invariant
            i <= a@.len(),
            i <= b@.len(),
            lex_less(a@, b@) == lex_less(a@.skip(i as int), b@.skip(i as int)),
        decreases a@.len() - i,
    {
        proof {
            assert(a@.skip(i as int).drop_first() =~= a@.skip(i + 1));
            assert(b@.skip(i as int).drop_first() =~= b@.skip(i + 1));
        }
        i += 1;
    }
    if i == b.len() {
        false
    } else if i == a.len() {
        true
    } else {
        a[i] < b[i]
    }
}

/// Whether `bytes` begins with `prefix`.
pub fn starts_with(bytes: &[u8], prefix: &[u8]) -> (found: bool)
    ensures
        found == prefix@.is_prefix_of(bytes@),
{
    if bytes.len() < prefix.len() {
        return false;
    }
    let mut i: usize = 0;
    while i < prefix.len()
        invariant
            i <= prefix@.len() <= bytes@.len(),
            forall|j: int| 0 <= j < i ==> prefix@[j] == bytes@[j],
        decreases prefix@.len() - i,
    {
        if prefix[i] != bytes[i] {
            assert(prefix@[i as int] != bytes@.subrange(0, prefix@.len() as int)[i as int]);
            return false;
        }
        i += 1;
    }
    assert(prefix@ =~= bytes@.subrange(0, prefix@.len() as int));
    true
}

/// Whether the two byte strings are equal.
pub fn bytes_equal(a: &[u8], b: &[u8]) -> (equal: bool)
    ensures
        equal == (a@ == b@),
{
    let equal = a.len() == b.len() && starts_with(a, b);
    assert(a@.len() == b@.len() ==> a@.subrange(0, b@.len() as int) =~= a@);
    equal
}

/// The bytes of `slice` from position `start` on.
pub fn bytes_from(slice: &[u8], start: usize) -> (tail: Vec<u8>)
    requires
        start <= slice@.len(),
    ensures
        tail@ == slice@.skip(start as int),
{
    let mut tail: Vec<u8> = Vec::with_capacity(slice.len() - start);
    let mut i: usize = start;
    while i < slice.len()
        invariant
            start <= i <= slice@.len(),
            tail@ == slice@.subrange(start as int, i as int),
        decreases slice@.len() - i,
    {
        tail.push(slice[i]);
        i += 1;
        assert(tail@ =~= slice@.subrange(start as int, i as int));
    }
    assert(tail@ =~= slice@.skip(start as int));
    tail
}

/// A copy of `slice`.
pub fn bytes_copy(slice: &[u8]) -> (copy: Vec<u8>)
    ensures
        copy@ == slice@,
{
    let copy = bytes_from(slice, 0);
    assert(copy@ =~= slice@);
    copy
}

} // verus!
