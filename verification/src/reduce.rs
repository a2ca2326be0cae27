//! The result reducer: from the raw match stream to the caller's result.
//!
//! The join kernel hands back match records in whatever order its threads
//! won the atomic counter, so the stream's order is nondeterministic and
//! carries no meaning.  The reducer keeps, for each distinct left index
//! appearing in the stream, its first occurrence, and drops any index that
//! lies outside the left array — the latter never happens under the kernel
//! contract, but a malformed kernel must not crash the host.  The caller
//! then selects the original rectangles by the kept indices.

use vstd::prelude::*;

use vstd::relations::injective;
use vstd::set_lib::{lemma_int_range, lemma_len_subset, set_int_range};

use crate::layout::MatchRecord;

verus! {

/// Whether some record of the match stream refers to left index `i`.
pub open spec fn matched_left(pairs: Seq<MatchRecord>, i: int) -> bool {
    exists|k: int| 0 <= k < pairs.len() && pairs[k].left_index == i
}

/// The left indices the reducer keeps, in order of first occurrence: each
/// distinct left index below `left_len` that the match stream mentions
/// appears exactly once, when it is first seen.
pub open spec fn reduced_indices(pairs: Seq<MatchRecord>, left_len: nat) -> Seq<usize>
    decreases pairs.len(),
{
    if pairs.len() == 0 {
        Seq::empty()
    } else {
        let prefix = reduced_indices(pairs.drop_last(), left_len);
        let i = pairs.last().left_index as usize;
        if i < left_len && !prefix.contains(i) {
            prefix.push(i)
        } else {
            prefix
        }
    }
}

/// What the reducer keeps: exactly the in-bounds left indices the stream
/// mentions, each at most once, and never more entries than the stream has.
pub proof fn lemma_reduced_indices_props(pairs: Seq<MatchRecord>, left_len: nat)
    ensures
        forall|k: int|
            0 <= k < reduced_indices(pairs, left_len).len() ==> (
            #[trigger] reduced_indices(pairs, left_len)[k] as nat) < left_len,
        reduced_indices(pairs, left_len).no_duplicates(),
        forall|i: usize|
            #[trigger] reduced_indices(pairs, left_len).contains(i) <==> ((i as nat) < left_len
                && matched_left(pairs, i as int)),
        reduced_indices(pairs, left_len).len() <= pairs.len(),
    decreases pairs.len(),
{
    let r = reduced_indices(pairs, left_len);
    if pairs.len() == 0 {
        assert(forall|i: usize| !r.contains(i));
        assert(forall|i: int| !matched_left(pairs, i));
    } else {
        let rest = pairs.drop_last();
        let rp = reduced_indices(rest, left_len);
        let last = pairs.last();
        let li = last.left_index as usize;
        lemma_reduced_indices_props(rest, left_len);

        assert forall|i: int| matched_left(pairs, i) implies (matched_left(rest, i)
            || last.left_index == i) by {
            let k = choose|k: int| 0 <= k < pairs.len() && pairs[k].left_index == i;
            if k < pairs.len() - 1 {
                assert(rest[k].left_index == i);
            }
        }
        assert forall|i: int| matched_left(rest, i) implies matched_left(pairs, i) by {
            let k = choose|k: int| 0 <= k < rest.len() && rest[k].left_index == i;
            assert(pairs[k].left_index == i);
        }
        assert(pairs[pairs.len() - 1].left_index == last.left_index);
        assert(matched_left(pairs, last.left_index as int));

        if li < left_len && !rp.contains(li) {
            assert(r == rp.push(li));
            assert forall|i: usize| r.contains(i) implies ((i as nat) < left_len
                && matched_left(pairs, i as int)) by {
                let k = choose|k: int| 0 <= k < r.len() && r[k] == i;
                if k < rp.len() {
                    assert(rp.contains(i));
                }
            }
            assert forall|i: usize| ((i as nat) < left_len && matched_left(pairs, i as int))
                implies r.contains(i) by {
                if matched_left(rest, i as int) {
                    assert(rp.contains(i));
                    let k = choose|k: int| 0 <= k < rp.len() && rp[k] == i;
                    assert(r[k] == i);
                } else {
                    assert(i == li);
                    assert(r[r.len() - 1] == i);
                }
            }
            assert forall|a: int, b: int|
                0 <= a < r.len() && 0 <= b < r.len() && a != b implies r[a] != r[b] by {
                if a < rp.len() && b < rp.len() {
                } else if a == rp.len() {
                    assert(rp.contains(rp[b]));
                } else if b == rp.len() {
                    assert(rp.contains(rp[a]));
                }
            }
        } else {
            assert(r == rp);
            assert forall|i: usize| ((i as nat) < left_len && matched_left(pairs, i as int))
                implies r.contains(i) by {
                if matched_left(rest, i as int) {
                } else {
                    assert(i == li);
                }
            }
        }
    }
}

/// The result is never longer than the left array: its entries are
/// distinct indices into it, so there is at most one per left entry.
pub proof fn lemma_reduced_indices_len_le_left(pairs: Seq<MatchRecord>, left_len: nat)
    ensures
        reduced_indices(pairs, left_len).len() <= left_len,
{
    broadcast use vstd::set::group_set_axioms;

    let r = reduced_indices(pairs, left_len);
    lemma_reduced_indices_props(pairs, left_len);
    let f = (|x: usize| x as int);
    let ri = r.map_values(f);
    assert(injective(f)) by {
        assert(forall|x1: usize, x2: usize| #[trigger] f(x1) == #[trigger] f(x2) ==> x1 == x2);
    }
    r.lemma_no_duplicates_injective(f);
    ri.unique_seq_to_set();
    assert(ri.to_set().subset_of(set_int_range(0, left_len as int))) by {
        assert forall|e: int| ri.to_set().contains(e) implies set_int_range(
            0,
            left_len as int,
        ).contains(e) by {
            let w = choose|w: int| 0 <= w < ri.len() && ri[w] == e;
            assert((r[w] as nat) < left_len);
        }
    }
    lemma_int_range(0, left_len as int);
    lemma_len_subset(ri.to_set(), set_int_range(0, left_len as int));
}

/// Reduce the match stream to the caller-facing index list: the first
/// occurrence of each distinct in-bounds left index, in stream order.  The
/// result references every left entry the kernel matched, references each
/// at most once, and is never longer than either the left array or the
/// match stream.
pub fn reduce_matches(pairs: &Vec<MatchRecord>, left_len: usize) -> (kept: Vec<usize>)
    ensures
        kept@ == reduced_indices(pairs@, left_len as nat),
        forall|k: int| 0 <= k < kept@.len() ==> #[trigger] kept@[k] < left_len,
        kept@.no_duplicates(),
        forall|i: usize|
            #[trigger] kept@.contains(i) <==> (i < left_len && matched_left(pairs@, i as int)),
        kept@.len() <= pairs@.len(),
        kept@.len() <= left_len,
{
    proof {
        lemma_reduced_indices_props(pairs@, left_len as nat);
        lemma_reduced_indices_len_le_left(pairs@, left_len as nat);
    }
    let mut seen: Vec<bool> = Vec::new();
    let mut j: usize = 0;
    while j < left_len
        invariant
            j <= left_len,
            seen@.len() == j,
            forall|i: int| 0 <= i < j ==> !seen@[i],
        decreases left_len - j,
    {
        seen.push(false);
        j += 1;
    }
    let mut kept: Vec<usize> = Vec::new();
    let mut k: usize = 0;
    let n = pairs.len();
    while k < n
        invariant
            n == pairs.len(),
            k <= n,
            seen@.len() == left_len,
            kept@ == reduced_indices(pairs@.take(k as int), left_len as nat),
            forall|i: int| 0 <= i < left_len ==> (seen@[i] <==> kept@.contains(i as usize)),
        decreases n - k,
    {
        proof {
            assert(pairs@.take(k + 1).drop_last() =~= pairs@.take(k as int));
            assert(pairs@.take(k + 1).last() == pairs@[k as int]);
        }
        let p = pairs[k];
        let i = p.left_index as usize;
        if i < left_len && !seen[i] {
            let ghost old_seen = seen@;
            let ghost old_kept = kept@;
            seen.set(i, true);
            kept.push(i);
            proof {
                assert(kept@ == old_kept.push(i));
                assert forall|x: int| 0 <= x < left_len implies (seen@[x] <==> kept@.contains(
                    x as usize)) by {
                    if x == i {
                        assert(kept@[kept@.len() - 1] == i);
                        assert(kept@.contains(i));
                    } else {
                        assert(seen@[x] == old_seen[x]);
                        if old_kept.contains(x as usize) {
                            let w = choose|w: int|
                                0 <= w < old_kept.len() && old_kept[w] == x as usize;
                            assert(kept@[w] == x as usize);
                            assert(kept@.contains(x as usize));
                        }
                        if kept@.contains(x as usize) {
                            let w = choose|w: int|
                                0 <= w < kept@.len() && kept@[w] == x as usize;
                            assert(w < old_kept.len());
                            assert(old_kept.contains(x as usize));
                        }
                    }
                }
            }
        }
        k += 1;
    }
    proof {
        assert(pairs@.take(n as int) =~= pairs@);
    }
    kept
}

/// Reduce the match stream and select the matched originals: the caller's
/// filtered collection, holding the first-occurrence original item for each
/// distinct in-bounds left index of the stream.  Out-of-range indices from
/// a malformed kernel are silently dropped, never fatal.
pub fn reduce_to_items<T: Copy>(items: &Vec<T>, pairs: &Vec<MatchRecord>) -> (out: Vec<T>)
    ensures
        out@.len() == reduced_indices(pairs@, items@.len()).len(),
        forall|k: int|
            0 <= k < out@.len() ==> #[trigger] out@[k] == items@[reduced_indices(
                pairs@,
                items@.len(),
            )[k] as int],
        out@.len() <= items@.len(),
        out@.len() <= pairs@.len(),
{
    let kept = reduce_matches(pairs, items.len());
    let mut out: Vec<T> = Vec::new();
    let mut k: usize = 0;
    let n = kept.len();
    while k < n
        invariant
            n == kept.len(),
            k <= n,
            kept@ == reduced_indices(pairs@, items@.len()),
            forall|j: int| 0 <= j < kept@.len() ==> #[trigger] kept@[j] < items@.len(),
            out@.len() == k,
            forall|j: int| 0 <= j < k ==> #[trigger] out@[j] == items@[kept@[j] as int],
        decreases n - k,
    {
        out.push(items[kept[k]]);
        k += 1;
    }
    out
}

/// Whether some record of the match stream pairs left index `i` with right
/// index `j`.
pub open spec fn has_pair(pairs: Seq<MatchRecord>, i: int, j: int) -> bool {
    exists|k: int|
        0 <= k < pairs.len() && pairs[k].left_index == i && pairs[k].right_index == j
}

proof fn lemma_matched_left_has_pair(pairs: Seq<MatchRecord>, i: int)
    ensures
        matched_left(pairs, i) <==> exists|j: int| has_pair(pairs, i, j),
{
    if matched_left(pairs, i) {
        let k = choose|k: int| 0 <= k < pairs.len() && pairs[k].left_index == i;
        assert(has_pair(pairs, i, pairs[k].right_index as int));
    }
    if exists|j: int| has_pair(pairs, i, j) {
        let j = choose|j: int| has_pair(pairs, i, j);
        let k = choose|k: int|
            0 <= k < pairs.len() && pairs[k].left_index == i && pairs[k].right_index == j;
        assert(pairs[k].left_index == i);
    }
}

/// The join's caller-facing guarantee.  `p` stands for the kernel's
/// intersection predicate on an index pair; the kernel contract makes the
/// match stream list exactly the in-range pairs satisfying it.  Under that
/// contract the reduction keeps a left index exactly when some right entry
/// satisfies the predicate with it — the result is a subset of the left
/// side, and membership is decided by the predicate alone.
pub proof fn lemma_join_membership(
    pairs: Seq<MatchRecord>,
    left_len: nat,
    right_len: nat,
    p: spec_fn(int, int) -> bool,
)
    requires
        forall|i: int, j: int|
            #[trigger] has_pair(pairs, i, j) <==> (0 <= i < left_len && 0 <= j < right_len
                && p(i, j)),
    ensures
        forall|i: usize|
            #[trigger] reduced_indices(pairs, left_len).contains(i) <==> ((i as nat) < left_len
                && exists|j: int| 0 <= j < right_len && #[trigger] p(i as int, j)),
{
    let r = reduced_indices(pairs, left_len);
    lemma_reduced_indices_props(pairs, left_len);
    assert forall|i: usize| r.contains(i) implies ((i as nat) < left_len && exists|j: int|
        0 <= j < right_len && #[trigger] p(i as int, j)) by {
        lemma_matched_left_has_pair(pairs, i as int);
        let j = choose|j: int| has_pair(pairs, i as int, j);
        assert(0 <= j < right_len && p(i as int, j));
    }
    assert forall|i: usize| ((i as nat) < left_len && exists|j: int|
        0 <= j < right_len && #[trigger] p(i as int, j)) implies r.contains(i) by {
        let j = choose|j: int| 0 <= j < right_len && #[trigger] p(i as int, j);
        assert(has_pair(pairs, i as int, j));
        lemma_matched_left_has_pair(pairs, i as int);
    }
}

/// Re-running the join with the result as the new left side, against the
/// same right side, changes nothing.  Every row of the new left side
/// matched some right rectangle in the first run, so it matches again:
/// the second reduction keeps every row exactly once, and selecting rows
/// of the first result by it yields the same set of original indices.
/// `pairs2` stands for the second run's match stream, which the kernel
/// contract ties to the first: row `k` of the new left side pairs with `j`
/// exactly when the first stream paired original index `result[k]` with
/// `j`.
pub proof fn lemma_join_idempotent(
    pairs: Seq<MatchRecord>,
    left_len: nat,
    pairs2: Seq<MatchRecord>,
)
    requires
        left_len <= usize::MAX,
        forall|i: int, j: int|
            #[trigger] has_pair(pairs2, i, j) <==> (0 <= i < reduced_indices(
                pairs,
                left_len,
            ).len() && has_pair(pairs, reduced_indices(pairs, left_len)[i] as int, j)),
    ensures
        ({
            let result = reduced_indices(pairs, left_len);
            let result2 = reduced_indices(pairs2, result.len() as nat);
            &&& result2.len() == result.len()
            &&& result2.no_duplicates()
            &&& forall|k: usize| #[trigger] result2.contains(k) <==> (k as int) < result.len()
            &&& forall|x: usize|
                (exists|k: int| 0 <= k < result2.len() && result[#[trigger] result2[k] as int]
                    == x) <==> result.to_set().contains(x)
        }),
{
    broadcast use vstd::set::group_set_axioms;

    let result = reduced_indices(pairs, left_len);
    let n = result.len();
    let result2 = reduced_indices(pairs2, n);
    lemma_reduced_indices_props(pairs, left_len);
    lemma_reduced_indices_props(pairs2, n);
    lemma_reduced_indices_len_le_left(pairs, left_len);
    assert(n <= usize::MAX);

    assert forall|k: usize| (k as int) < n implies #[trigger] result2.contains(k) by {
        assert(result.contains(result[k as int]));
        lemma_matched_left_has_pair(pairs, result[k as int] as int);
        let j = choose|j: int| has_pair(pairs, result[k as int] as int, j);
        assert(has_pair(pairs2, k as int, j));
        lemma_matched_left_has_pair(pairs2, k as int);
    }

    // result2 lists each of 0, .., n - 1 exactly once, so its length is n.
    let f = (|x: usize| x as int);
    let ri2 = result2.map_values(f);
    assert(injective(f)) by {
        assert(forall|x1: usize, x2: usize| #[trigger] f(x1) == #[trigger] f(x2) ==> x1 == x2);
    }
    result2.lemma_no_duplicates_injective(f);
    ri2.unique_seq_to_set();
    assert(ri2.to_set() =~= set_int_range(0, n as int)) by {
        assert forall|e: int| ri2.to_set().contains(e) implies set_int_range(
            0,
            n as int,
        ).contains(e) by {
            let w = choose|w: int| 0 <= w < ri2.len() && ri2[w] == e;
            assert(result2.contains(result2[w]));
        }
        assert forall|e: int| set_int_range(0, n as int).contains(e) implies ri2.to_set()
            .contains(e) by {
            assert(result2.contains(e as usize));
            let w = choose|w: int| 0 <= w < result2.len() && result2[w] == e as usize;
            assert(ri2[w] == e);
        }
    }
    lemma_int_range(0, n as int);
    assert(result2.len() == n);

    assert forall|x: usize|
        (exists|k: int| 0 <= k < result2.len() && result[#[trigger] result2[k] as int] == x)
            implies result.to_set().contains(x) by {
        let k = choose|k: int|
            0 <= k < result2.len() && result[#[trigger] result2[k] as int] == x;
        assert(result2.contains(result2[k]));
        assert(result.contains(result[result2[k] as int]));
    }
    assert forall|x: usize| result.to_set().contains(x) implies (exists|k: int|
        0 <= k < result2.len() && result[#[trigger] result2[k] as int] == x) by {
        let w = choose|w: int| 0 <= w < result.len() && result[w] == x;
        assert(result2.contains(w as usize));
        let k = choose|k: int| 0 <= k < result2.len() && result2[k] == w as usize;
        assert(result[result2[k] as int] == x);
    }
}

} // verus!
