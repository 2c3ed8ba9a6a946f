//! The distance engine: a recursive specification of the Levenshtein edit
//! distance over character sequences, and an implementation that keeps only
//! two rows of the dynamic-programming table.

use vstd::pervasive::VecAdditionalExecFns;
use vstd::prelude::*;
use vstd::string::StrSliceExecFns;

verus! {

/// The least of three natural numbers.
pub open spec fn min3(x: nat, y: nat, z: nat) -> nat {
    if x <= y && x <= z {
        x
    } else if y <= z {
        y
    } else {
        z
    }
}

/// Cost of aligning the characters `x` and `y` with each other: a match is
/// free, a substitution costs one edit.
pub open spec fn subst_cost(x: char, y: char) -> nat {
    if x == y {
        0
    } else {
        1
    }
}

/// The Levenshtein edit distance: the least number of single-character
/// insertions, deletions and substitutions that turn `a` into `b`.
///
/// Against an empty sequence, every character of the other sequence must be
/// inserted or deleted. Otherwise the last characters are aligned by
/// deleting the last of `a`, inserting the last of `b`, or substituting one
/// for the other, and the cheapest choice wins.
pub open spec fn edit_distance(a: Seq<char>, b: Seq<char>) -> nat
    decreases a.len() + b.len(),
{
    if a.len() == 0 {
        b.len()
    } else if b.len() == 0 {
        a.len()
    } else {
        min3(
            edit_distance(a.drop_last(), b) + 1,
            edit_distance(a, b.drop_last()) + 1,
            edit_distance(a.drop_last(), b.drop_last()) + subst_cost(a.last(), b.last()),
        )
    }
}

/// The distance never exceeds the longer sequence's length: substituting
/// along the shorter sequence and inserting the rest is always an option.
pub proof fn lemma_le_max(a: Seq<char>, b: Seq<char>)
    ensures
        edit_distance(a, b) <= vstd::math::max(a.len() as int, b.len() as int),
    decreases a.len() + b.len(),
{
    if a.len() > 0 && b.len() > 0 {
        lemma_le_max(a.drop_last(), b.drop_last());
    }
}

/// A prefix of `a` against the empty prefix of `b` costs the prefix's length.
proof fn lemma_prefix_base(a: Seq<char>, b: Seq<char>, i: int)
    requires
        0 <= i <= a.len(),
    ensures
        edit_distance(a.take(i), b.take(0)) == i,
{
}

/// One cell of the dynamic-programming table: the distance between the
/// prefixes `a.take(i)` and `b.take(j)` obeys the three-way recurrence on
/// their last characters.
proof fn lemma_prefix_step(a: Seq<char>, b: Seq<char>, i: int, j: int)
    requires
        1 <= i <= a.len(),
        1 <= j <= b.len(),
    ensures
        edit_distance(a.take(i), b.take(j)) == min3(
            edit_distance(a.take(i - 1), b.take(j)) + 1,
            edit_distance(a.take(i), b.take(j - 1)) + 1,
            edit_distance(a.take(i - 1), b.take(j - 1)) + subst_cost(a[i - 1], b[j - 1]),
        ),
{
    assert(a.take(i).drop_last() =~= a.take(i - 1));
    assert(b.take(j).drop_last() =~= b.take(j - 1));
    assert(a.take(i).last() == a[i - 1]);
    assert(b.take(j).last() == b[j - 1]);
}

/// Collects the code points of `s` in order, so that the distance is
/// computed over characters rather than encoded bytes.
fn chars_of(s: &str) -> (v: Vec<char>)
    ensures
        v@ == s@,
{
    let n = s.unicode_len();
    let mut v: Vec<char> = Vec::new();
    let mut i: usize = 0;
    while i < n
        invariant
            n == s@.len(),
            i <= n,
            v@ == s@.take(i as int),
        decreases n - i,
    {
        let c = s.get_char(i);
        v.push(c);
        i = i + 1;
    }
    v
}

/// The smaller of two machine integers.
fn min_usize(x: usize, y: usize) -> (m: usize)
    ensures
        m == if x <= y {
            x
        } else {
            y
        },
{
    if x <= y {
        x
    } else {
        y
    }
}

/// Count the minimum number of single-character edits (insertions,
/// deletions, substitutions) needed to turn one string into another.
/// Unicode-safe: the unit of comparison is the code point, never the byte.
///
/// The computation keeps two rows of the dynamic-programming table, each of
/// length `a@.len() + 1`: `previous_row` holds the distances from the
/// prefixes of `a` to the previous prefix of `b`, `current_row` those to the
/// current prefix of `b`.
#[verifier::loop_isolation(false)]
pub fn levenshtein_dist(a: &str, b: &str) -> (d: usize)
    requires
        a@.len() < usize::MAX,
        b@.len() < usize::MAX,
    ensures
        d == edit_distance(a@, b@),
{
    let achars = chars_of(a);
    let bchars = chars_of(b);
    let an = achars.len();
    let bn = bchars.len();
    let ghost aseq = a@;
    let ghost bseq = b@;

    // Degenerate cases: against an empty sequence, the distance is the other
    // sequence's length.
    if an == 0 {
        return bn;
    }
    if bn == 0 {
        return an;
    }

    // Two reusable rows; entry `i` starts as `i`, the cost of building the
    // first `i` characters of `a` from the empty prefix of `b`.
    let mut previous_row: Vec<usize> = Vec::new();
    let mut current_row: Vec<usize> = Vec::new();
    let mut i: usize = 0;
    while i <= an
        invariant
            i <= an + 1,
            previous_row@.len() == i,
            current_row@.len() == i,
            forall|k: int| 0 <= k < i ==> previous_row@[k] == k,
            forall|k: int| 0 <= k < i ==> current_row@[k] == k,
        decreases an + 1 - i,
    {
        previous_row.push(i);
        current_row.push(i);
        i = i + 1;
    }

    proof {
        assert forall|k: int| 0 <= k <= an implies edit_distance(
            aseq.take(k),
            bseq.take(0),
        ) == k by {
            lemma_prefix_base(aseq, bseq, k);
        }
    }

    let mut row: usize = 1;
    while row <= bn
        invariant
            1 <= row <= bn + 1,
            previous_row@.len() == an + 1,
            current_row@.len() == an + 1,
            forall|k: int|
                0 <= k <= an ==> current_row@[k] == edit_distance(
                    aseq.take(k),
                    bseq.take(row - 1),
                ),
        decreases bn + 1 - row,
    {
        // Snapshot the prior row before this iteration overwrites it.
        let mut j: usize = 0;
        while j <= an
            invariant
                j <= an + 1,
                previous_row@.len() == an + 1,
                forall|k: int| 0 <= k < j ==> previous_row@[k] == current_row@[k],
            decreases an + 1 - j,
        {
            let v = current_row[j];
            previous_row.set(j, v);
            j = j + 1;
        }

        // The empty prefix of `a` is built from `row` characters of `b` by
        // `row` insertions.
        current_row.set(0, row);

        let mut col: usize = 1;
        while col <= an
            invariant
                1 <= col <= an + 1,
                previous_row@.len() == an + 1,
                current_row@.len() == an + 1,
                forall|k: int|
                    0 <= k <= an ==> previous_row@[k] == edit_distance(
                        aseq.take(k),
                        bseq.take(row - 1),
                    ),
                forall|k: int|
                    0 <= k < col ==> current_row@[k] == edit_distance(
                        aseq.take(k),
                        bseq.take(row as int),
                    ),
            decreases an + 1 - col,
        {
            let cost: usize = if achars[col - 1] == bchars[row - 1] {
                0
            } else {
                1
            };
            proof {
                lemma_le_max(aseq.take(col - 1), bseq.take(row as int));
                lemma_le_max(aseq.take(col as int), bseq.take(row - 1));
                lemma_le_max(aseq.take(col - 1), bseq.take(row - 1));
            }
            let del = current_row[col - 1] + 1;
            let ins = previous_row[col] + 1;
            let sub = previous_row[col - 1] + cost;
            let best = min_usize(del, min_usize(ins, sub));
            proof {
                lemma_prefix_step(aseq, bseq, col as int, row as int);
            }
            current_row.set(col, best);
            col = col + 1;
        }

        row = row + 1;
    }

    proof {
        assert(aseq.take(an as int) =~= aseq);
        assert(bseq.take(bn as int) =~= bseq);
    }
    current_row[an]
}

} // verus!
