//! The metric laws of the edit distance: identity, the length bounds, the
//! empty-sequence values, symmetry, and the triangle inequality.

use crate::distance::edit_distance;
use crate::distance::lemma_le_max;
use crate::distance::subst_cost;
use vstd::prelude::*;

verus! {

/// A sequence is at edit distance zero from itself.
pub proof fn lemma_identity(s: Seq<char>)
    ensures
        edit_distance(s, s) == 0,
    decreases s.len(),
{
    if s.len() > 0 {
        lemma_identity(s.drop_last());
    }
}

/// Distance zero is equivalent to character-for-character equality.
pub proof fn lemma_zero_iff_eq(a: Seq<char>, b: Seq<char>)
    ensures
        edit_distance(a, b) == 0 <==> a == b,
    decreases a.len() + b.len(),
{
    if a.len() == 0 {
        if b.len() == 0 {
            assert(a =~= b);
        }
    } else if b.len() == 0 {
    } else {
        lemma_zero_iff_eq(a.drop_last(), b.drop_last());
        if a == b {
            assert(a.drop_last() =~= b.drop_last());
        }
        if edit_distance(a, b) == 0 {
            assert(edit_distance(a.drop_last(), b.drop_last()) == 0);
            assert(subst_cost(a.last(), b.last()) == 0);
            assert(a =~= a.drop_last().push(a.last()));
            assert(b =~= b.drop_last().push(b.last()));
        }
    }
}

/// Against the empty sequence, the distance is the other sequence's length.
pub proof fn lemma_empty(s: Seq<char>)
    ensures
        edit_distance(Seq::<char>::empty(), s) == s.len(),
        edit_distance(s, Seq::<char>::empty()) == s.len(),
{
}

/// The distance is symmetric in its two arguments.
pub proof fn lemma_symmetry(a: Seq<char>, b: Seq<char>)
    ensures
        edit_distance(a, b) == edit_distance(b, a),
    decreases a.len() + b.len(),
{
    if a.len() > 0 && b.len() > 0 {
        lemma_symmetry(a.drop_last(), b);
        lemma_symmetry(a, b.drop_last());
        lemma_symmetry(a.drop_last(), b.drop_last());
    }
}

/// The distance is at least the difference of the two lengths: a single edit
/// changes a sequence's length by at most one.
pub proof fn lemma_ge_len_diff(a: Seq<char>, b: Seq<char>)
    ensures
        edit_distance(a, b) + a.len() >= b.len(),
        edit_distance(a, b) + b.len() >= a.len(),
    decreases a.len() + b.len(),
{
    if a.len() > 0 && b.len() > 0 {
        lemma_ge_len_diff(a.drop_last(), b);
        lemma_ge_len_diff(a, b.drop_last());
        lemma_ge_len_diff(a.drop_last(), b.drop_last());
    }
}

/// The triangle inequality: the direct distance between `a` and `c` never
/// exceeds the cost of a route through any midpoint `b`.
pub proof fn lemma_triangle(a: Seq<char>, b: Seq<char>, c: Seq<char>)
    ensures
        edit_distance(a, c) <= edit_distance(a, b) + edit_distance(b, c),
    decreases a.len() + b.len() + c.len(),
{
    if a.len() == 0 {
        lemma_ge_len_diff(b, c);
    } else if c.len() == 0 {
        lemma_ge_len_diff(a, b);
    } else if b.len() == 0 {
        lemma_le_max(a, c);
    } else {
        lemma_triangle(a.drop_last(), b, c);
        lemma_triangle(a, b, c.drop_last());
        lemma_triangle(a, b.drop_last(), c);
        lemma_triangle(a, b.drop_last(), c.drop_last());
        lemma_triangle(a.drop_last(), b.drop_last(), c);
        lemma_triangle(a.drop_last(), b.drop_last(), c.drop_last());
        assert(edit_distance(a, c) <= edit_distance(a.drop_last(), c) + 1);
        assert(edit_distance(a, c) <= edit_distance(a, c.drop_last()) + 1);
        assert(edit_distance(a, c) <= edit_distance(a.drop_last(), c.drop_last()) + subst_cost(
            a.last(),
            c.last(),
        ));
        assert(subst_cost(a.last(), c.last()) <= subst_cost(a.last(), b.last()) + subst_cost(
            b.last(),
            c.last(),
        ));
    }
}

} // verus!
