//! Byte strings: equality, order and fixed-size keys.

use vstd::prelude::*;

verus! {

/// The lexicographic order on byte strings, a proper prefix being smaller.
pub open spec fn lex_less(a: Seq<u8>, b: Seq<u8>) -> bool
    decreases a.len(),
{
    if b.len() == 0 {
        false
    } else if a.len() == 0 {
        true
    } else if a[0] != b[0] {
        a[0] < b[0]
    } else {
        lex_less(a.drop_first(), b.drop_first())
    }
}

/// No byte string is smaller than itself.
pub proof fn lemma_lex_irreflexive(a: Seq<u8>)
    ensures
        !lex_less(a, a),
    decreases a.len(),
{
    if a.len() > 0 {
        lemma_lex_irreflexive(a.drop_first());
    }
}

/// Of two distinct byte strings one is the smaller.
pub proof fn lemma_lex_total(a: Seq<u8>, b: Seq<u8>)
    ensures
        a == b || lex_less(a, b) || lex_less(b, a),
    decreases a.len(),
{
    if a.len() == 0 || b.len() == 0 {
        if a.len() == 0 && b.len() == 0 {
            assert(a =~= b);
        }
    } else if a[0] == b[0] {
        lemma_lex_total(a.drop_first(), b.drop_first());
        if a.drop_first() == b.drop_first() {
            assert(a =~= seq![a[0]] + a.drop_first());
            assert(b =~= seq![b[0]] + b.drop_first());
        }
    }
}

/// The order on byte strings is transitive.
pub proof fn lemma_lex_transitive(a: Seq<u8>, b: Seq<u8>, c: Seq<u8>)
    requires
        lex_less(a, b),
        lex_less(b, c),
    ensures
        lex_less(a, c),
    decreases a.len(),
{
    if a.len() > 0 && a[0] == b[0] && b[0] == c[0] {
        lemma_lex_transitive(a.drop_first(), b.drop_first(), c.drop_first());
    }
}

/// Whether two byte strings hold the same bytes.
pub fn same_bytes(a: &[u8], b: &[u8]) -> (same: bool)
    ensures
        same == (a@ == b@),
{
    if a.len() != b.len() {
        return false;
    }
    let mut i: usize = 0;
    while i < a.len()
        invariant
            i <= a.len(),
            a.len() == b.len(),
            forall|j: int| 0 <= j < i ==> a[j] == b[j],
        decreases a.len() - i,
    {
        if a[i] != b[i] {
            assert(a@[i as int] != b@[i as int]);
            return false;
        }
        i += 1;
    }
    assert(a@ =~= b@);
    true
}

/// Whether `a` comes before `b` in the lexicographic order.
pub fn bytes_less(a: &[u8], b: &[u8]) -> (less: bool)
    ensures
        less == lex_less(a@, b@),
{
    let mut i: usize = 0;
    assert(a@.skip(0) =~= a@);
    assert(b@.skip(0) =~= b@);
    while i < a.len() && i < b.len()
        invariant
            i <= a.len(),
            i <= b.len(),
            lex_less(a@, b@) == lex_less(a@.skip(i as int), b@.skip(i as int)),
        decreases a.len() - i,
    {
        assert(a@.skip(i as int)[0] == a[i as int]);
        assert(b@.skip(i as int)[0] == b[i as int]);
        if a[i] != b[i] {
            return a[i] < b[i];
        }
        assert(a@.skip(i as int).drop_first() =~= a@.skip(i + 1));
        assert(b@.skip(i as int).drop_first() =~= b@.skip(i + 1));
        i += 1;
    }
    i < b.len()
}

/// The 32-byte key that a byte string holds, if it is that long.
pub fn key_from_slice(bytes: &[u8]) -> (key: Option<[u8; 32]>)
    ensures
        key is Some <==> bytes@.len() == 32,
        key matches Some(k) ==> k@ == bytes@,
{
    if bytes.len() != 32 {
        return None;
    }
    let mut out: [u8; 32] = [0u8; 32];
    let mut i: usize = 0;
    while i < 32
        invariant
            i <= 32,
            bytes@.len() == 32,
            forall|j: int| 0 <= j < i ==> out@[j] == bytes@[j],
        decreases 32 - i,
    {
        out[i] = bytes[i];
        i += 1;
    }
    assert(out@ =~= bytes@);
    Some(out)
}

/// Whether two keys are the same.
pub fn same_key(a: &[u8; 32], b: &[u8; 32]) -> (same: bool)
    ensures
        same == (a@ == b@),
        same == (*a == *b),
{
    let same: bool = same_bytes(a.as_slice(), b.as_slice());
    proof {
        if a@ == b@ {
            assert forall|i: int| 0 <= i < 32 implies a[i] == b[i] by {
                assert(a@[i] == b@[i]);
            }
            assert(*a =~= *b);
        }
    }
    same
}

/// Of two byte strings that are the same up to a place, the one with the
/// smaller byte there is the smaller, and so is the one that ends there.
pub proof fn law_the_first_difference_decides(a: Seq<u8>, b: Seq<u8>, n: int)
    requires
        0 <= n <= a.len(),
        n < b.len(),
        forall|i: int| 0 <= i < n ==> a[i] == b[i],
        n == a.len() || a[n] < b[n],
    ensures
        lex_less(a, b),
        !lex_less(b, a),
    decreases n,
{
    if n > 0 {
        law_the_first_difference_decides(a.drop_first(), b.drop_first(), n - 1);
    }
}

} // verus!
