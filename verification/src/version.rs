//! Applet versions: the byte strings a PIV applet reports, ordered the way
//! std orders byte slices (`[] < [5, 7] < [5, 7, 0] < [5, 8]`).

use vstd::prelude::*;

verus! {

/// `a <= b` in the lexicographic order on byte strings: the first position at
/// which they differ decides, and a proper prefix is smaller than the string it
/// begins.
pub open spec fn lex_le(a: Seq<u8>, b: Seq<u8>) -> bool
    decreases a.len(),
{
    if a.len() == 0 {
        true
    } else if b.len() == 0 {
        false
    } else if a[0] != b[0] {
        a[0] < b[0]
    } else {
        lex_le(a.drop_first(), b.drop_first())
    }
}

/// `a < b` in the same order.
pub open spec fn lex_lt(a: Seq<u8>, b: Seq<u8>) -> bool {
    lex_le(a, b) && a != b
}

/// Every version is at or below itself.
pub proof fn lemma_lex_le_reflexive(a: Seq<u8>)
    ensures
        lex_le(a, a),
    decreases a.len(),
{
    if a.len() > 0 {
        lemma_lex_le_reflexive(a.drop_first());
    }
}

/// Two versions each at or below the other are the same version.
pub proof fn lemma_lex_le_antisymmetric(a: Seq<u8>, b: Seq<u8>)
    requires
        lex_le(a, b),
        lex_le(b, a),
    ensures
        a == b,
    decreases a.len(),
{
    if a.len() == 0 {
        assert(a =~= b);
    } else {
        lemma_lex_le_antisymmetric(a.drop_first(), b.drop_first());
        assert forall|i: int| 0 <= i < a.len() implies a[i] == b[i] by {
            if i > 0 {
                assert(a.drop_first()[i - 1] == b.drop_first()[i - 1]);
            }
        }
        assert(a =~= b);
    }
}

/// The order is transitive.
pub proof fn lemma_lex_le_transitive(a: Seq<u8>, b: Seq<u8>, c: Seq<u8>)
    requires
        lex_le(a, b),
        lex_le(b, c),
    ensures
        lex_le(a, c),
    decreases a.len(),
{
    if a.len() > 0 && b.len() > 0 && c.len() > 0 && a[0] == b[0] && b[0] == c[0] {
        lemma_lex_le_transitive(a.drop_first(), b.drop_first(), c.drop_first());
    }
}

/// `a` and `b` first differ at position `i`, where `a` has the smaller byte.
pub open spec fn smaller_at_first_difference(a: Seq<u8>, b: Seq<u8>, i: int) -> bool {
    &&& 0 <= i < a.len()
    &&& i < b.len()
    &&& a.take(i) == b.take(i)
    &&& a[i] < b[i]
}

/// The version order is std's order on byte slices: `a` is at or below `b`
/// exactly when `a` is a prefix of `b`, or at the first position where they
/// differ the byte of `a` is numerically smaller.
pub proof fn law_lex_le_is_byte_slice_order(a: Seq<u8>, b: Seq<u8>)
    ensures
        lex_le(a, b) == (a.is_prefix_of(b) || exists|i: int|
            #[trigger] smaller_at_first_difference(a, b, i)),
    decreases a.len(),
{
    if a.len() == 0 {
        assert(a =~= b.subrange(0, 0));
    } else if b.len() == 0 {
        assert(!exists|i: int| #[trigger] smaller_at_first_difference(a, b, i));
    } else if a[0] != b[0] {
        assert(!a.is_prefix_of(b)) by {
            if a.is_prefix_of(b) {
                assert(b.subrange(0, a.len() as int)[0] == b[0]);
            }
        }
        if a[0] < b[0] {
            assert(a.take(0) =~= b.take(0));
            assert(smaller_at_first_difference(a, b, 0));
        } else {
            assert forall|i: int| !#[trigger] smaller_at_first_difference(a, b, i) by {
                if 0 < i < a.len() && i < b.len() && a.take(i) == b.take(i) {
                    assert(a.take(i)[0] == b.take(i)[0]);
                }
            }
        }
    } else {
        let a1 = a.drop_first();
        let b1 = b.drop_first();
        law_lex_le_is_byte_slice_order(a1, b1);
        if a.is_prefix_of(b) {
            assert forall|k: int| 0 <= k < a1.len() implies a1[k] == b1.subrange(
                0,
                a1.len() as int,
            )[k] by {
                assert(a[k + 1] == b.subrange(0, a.len() as int)[k + 1]);
            }
            assert(a1 =~= b1.subrange(0, a1.len() as int));
        }
        if a1.is_prefix_of(b1) {
            assert forall|k: int| 0 <= k < a.len() implies a[k] == b.subrange(
                0,
                a.len() as int,
            )[k] by {
                if k > 0 {
                    assert(a1[k - 1] == b1.subrange(0, a1.len() as int)[k - 1]);
                }
            }
            assert(a =~= b.subrange(0, a.len() as int));
        }
        if exists|i: int| #[trigger] smaller_at_first_difference(a, b, i) {
            let i = choose|i: int| #[trigger] smaller_at_first_difference(a, b, i);
            assert(i > 0);
            let ta = a1.take(i - 1);
            let tb = b1.take(i - 1);
            assert forall|k: int| 0 <= k < i - 1 implies #[trigger] ta[k] == tb[k] by {
                assert(a.take(i)[k + 1] == b.take(i)[k + 1]);
            }
            assert(ta =~= tb);
            assert(smaller_at_first_difference(a1, b1, i - 1));
        }
        if exists|j: int| #[trigger] smaller_at_first_difference(a1, b1, j) {
            let j = choose|j: int| #[trigger] smaller_at_first_difference(a1, b1, j);
            let ta = a.take(j + 1);
            let tb = b.take(j + 1);
            assert forall|k: int| 0 <= k < j + 1 implies #[trigger] ta[k] == tb[k] by {
                if k > 0 {
                    assert(a1.take(j)[k - 1] == b1.take(j)[k - 1]);
                }
            }
            assert(ta =~= tb);
            assert(smaller_at_first_difference(a, b, j + 1));
        }
    }
}

/// After a common prefix, the numerically smaller byte decides the order,
/// whatever follows it.
pub proof fn law_smaller_byte_after_common_prefix_is_lower(
    prefix: Seq<u8>,
    x: u8,
    y: u8,
    rest_x: Seq<u8>,
    rest_y: Seq<u8>,
)
    requires
        x < y,
    ensures
        lex_le(prefix + seq![x] + rest_x, prefix + seq![y] + rest_y),
        !lex_le(prefix + seq![y] + rest_y, prefix + seq![x] + rest_x),
{
    let a = prefix + seq![x] + rest_x;
    let b = prefix + seq![y] + rest_y;
    let i = prefix.len() as int;
    assert(a.take(i) =~= prefix);
    assert(b.take(i) =~= prefix);
    assert(a[i] == x && b[i] == y);
    assert(smaller_at_first_difference(a, b, i));
    law_lex_le_is_byte_slice_order(a, b);
    law_lex_le_is_byte_slice_order(b, a);
    assert(!b.is_prefix_of(a)) by {
        if b.is_prefix_of(a) {
            assert(a.subrange(0, b.len() as int)[i] == a[i]);
        }
    }
    assert forall|j: int| !#[trigger] smaller_at_first_difference(b, a, j) by {
        if 0 <= j < b.len() && j < a.len() && b.take(j) == a.take(j) && b[j] < a[j] {
            if j < i {
                assert(a[j] == prefix[j] && b[j] == prefix[j]);
            } else if j > i {
                assert(b.take(j)[i] == a.take(j)[i]);
            }
        }
    }
}

/// Two one-byte versions compare as their bytes do.
pub proof fn law_single_byte_versions_compare_numerically(x: u8, y: u8)
    ensures
        lex_le(seq![x], seq![y]) == (x <= y),
{
    let a = seq![x];
    let b = seq![y];
    assert(a.drop_first() =~= Seq::<u8>::empty());
    assert(b.drop_first() =~= Seq::<u8>::empty());
    assert(lex_le(a.drop_first(), b.drop_first()));
}

/// Whether version `a` is at or below version `b`.
pub fn version_le(a: &[u8], b: &[u8]) -> (le: bool)
    ensures
        le == lex_le(a@, b@),
{
    let mut i: usize = 0;
    proof {
        assert(a@.skip(0) =~= a@);
        assert(b@.skip(0) =~= b@);
    }
    while i < a.len() && i < b.len()
        invariant
            i <= a.len(),
            i <= b.len(),
            lex_le(a@, b@) == lex_le(a@.skip(i as int), b@.skip(i as int)),
        decreases a.len() - i,
    {
        if a[i] != b[i] {
            return a[i] < b[i];
        }
        proof {
            assert(a@.skip(i as int).drop_first() =~= a@.skip(i + 1));
            assert(b@.skip(i as int).drop_first() =~= b@.skip(i + 1));
        }
        i = i + 1;
    }
    i == a.len()
}

/// Whether versions `a` and `b` are the same byte string.
pub fn version_eq(a: &[u8], b: &[u8]) -> (eq: bool)
    ensures
        eq == (a@ == b@),
{
    if a.len() != b.len() {
        return false;
    }
    let mut i: usize = 0;
    while i < a.len()
        invariant
            i <= a.len(),
            a.len() == b.len(),
            forall|k: int| 0 <= k < i ==> a@[k] == b@[k],
        decreases a.len() - i,
    {
        if a[i] != b[i] {
            return false;
        }
        i = i + 1;
    }
    proof {
        assert(a@ =~= b@);
    }
    true
}

} // verus!
