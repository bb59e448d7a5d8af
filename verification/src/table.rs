//! Rows of a table and the rows that a deletion leaves.

use vstd::prelude::*;

verus! {

/// The indices below `n` that `keep` flags, in rising order.
pub open spec fn kept_indices(keep: Seq<bool>, n: int) -> Seq<int>
    decreases n,
{
    if n <= 0 {
        Seq::empty()
    } else {
        let before = kept_indices(keep, n - 1);
        if keep[n - 1] {
            before.push(n - 1)
        } else {
            before
        }
    }
}

/// The rows that `keep` flags, in the order of `rows`.
pub open spec fn select<T>(rows: Seq<T>, keep: Seq<bool>) -> Seq<T> {
    select_upto(rows, keep, rows.len() as int)
}

/// Those of the first `n` rows that `keep` flags.
pub open spec fn select_upto<T>(rows: Seq<T>, keep: Seq<bool>, n: int) -> Seq<T> {
    let indices = kept_indices(keep, n);
    Seq::new(indices.len(), |j: int| rows[indices[j]])
}

/// The indices kept are indices of flagged rows, in rising order, and every
/// flagged row is among them.
pub proof fn lemma_kept_indices(keep: Seq<bool>, n: int)
    requires
        0 <= n <= keep.len(),
    ensures
        kept_indices(keep, n).len() <= n,
        forall|j: int|
            0 <= j < kept_indices(keep, n).len() ==> 0 <= (#[trigger] kept_indices(keep, n)[j]) < n
                && keep[kept_indices(keep, n)[j]],
        forall|a: int, b: int|
            0 <= a < b < kept_indices(keep, n).len() ==> kept_indices(keep, n)[a] < kept_indices(
                keep,
                n,
            )[b],
        forall|i: int| 0 <= i < n && #[trigger] keep[i] ==> kept_indices(keep, n).contains(i),
    decreases n,
{
    if n > 0 {
        lemma_kept_indices(keep, n - 1);
        let before = kept_indices(keep, n - 1);
        let now = kept_indices(keep, n);
        assert forall|i: int| 0 <= i < n && #[trigger] keep[i] implies now.contains(i) by {
            if i < n - 1 {
                let j = choose|j: int| 0 <= j < before.len() && before[j] == i;
                assert(now[j] == i);
            } else {
                assert(now[now.len() - 1] == i);
            }
        }
    }
}

/// A row more adds itself to the selection where it is flagged, and nothing
/// where it is not.
pub proof fn lemma_select_upto_step<T>(rows: Seq<T>, keep: Seq<bool>, n: int)
    requires
        0 < n <= rows.len(),
        rows.len() == keep.len(),
    ensures
        select_upto(rows, keep, n) == if keep[n - 1] {
            select_upto(rows, keep, n - 1).push(rows[n - 1])
        } else {
            select_upto(rows, keep, n - 1)
        },
{
    if keep[n - 1] {
        assert(select_upto(rows, keep, n) =~= select_upto(rows, keep, n - 1).push(rows[n - 1]));
    }
}

/// Every row that is left was flagged, and every flagged row is left:
/// row `j` of the selection is the row whose index is the `j`-th kept
/// index.
pub proof fn lemma_select_members<T>(rows: Seq<T>, keep: Seq<bool>)
    requires
        rows.len() == keep.len(),
    ensures
        select(rows, keep).len() == kept_indices(keep, rows.len() as int).len(),
        select(rows, keep).len() <= rows.len(),
        forall|j: int|
            0 <= j < select(rows, keep).len() ==> (#[trigger] select(rows, keep)[j]) == rows[kept_indices(
                keep,
                rows.len() as int,
            )[j]],
        forall|i: int|
            0 <= i < rows.len() && #[trigger] keep[i] ==> select(rows, keep).contains(rows[i]),
{
    let n = rows.len() as int;
    lemma_kept_indices(keep, n);
    let indices = kept_indices(keep, n);
    let s = select(rows, keep);
    assert forall|i: int| 0 <= i < rows.len() && #[trigger] keep[i] implies s.contains(
        rows[i],
    ) by {
        let j = choose|j: int| 0 <= j < indices.len() && indices[j] == i;
        assert(s[j] == rows[i]);
    }
}

/// Where every row is flagged, all rows are left.
pub proof fn lemma_select_all<T>(rows: Seq<T>, keep: Seq<bool>)
    requires
        rows.len() == keep.len(),
        forall|i: int| 0 <= i < keep.len() ==> #[trigger] keep[i],
    ensures
        select(rows, keep) == rows,
{
    lemma_select_all_upto(rows, keep, rows.len() as int);
    assert(rows.take(rows.len() as int) =~= rows);
}

/// Where every row is flagged, the first `n` rows are selected whole.
proof fn lemma_select_all_upto<T>(rows: Seq<T>, keep: Seq<bool>, n: int)
    requires
        rows.len() == keep.len(),
        0 <= n <= rows.len(),
        forall|i: int| 0 <= i < keep.len() ==> #[trigger] keep[i],
    ensures
        select_upto(rows, keep, n) == rows.take(n),
    decreases n,
{
    if n > 0 {
        lemma_select_all_upto(rows, keep, n - 1);
        lemma_select_upto_step(rows, keep, n);
        assert(rows.take(n - 1).push(rows[n - 1]) =~= rows.take(n));
    } else {
        assert(select_upto(rows, keep, n) =~= rows.take(n));
    }
}

/// Leaves in `rows` the rows that `keep` flags, in their order, and says
/// how many rows went.
pub fn retain_flagged<T>(rows: &mut Vec<T>, keep: &Vec<bool>) -> (removed: usize)
    requires
        old(rows)@.len() == keep@.len(),
    ensures
        final(rows)@ == select(old(rows)@, keep@),
        removed == old(rows)@.len() - final(rows)@.len(),
{
    let mut source: Vec<T> = Vec::new();
    core::mem::swap(rows, &mut source);
    let ghost all = source@;
    let total = source.len();
    let mut i: usize = 0;
    assert(rows@ =~= select_upto(all, keep@, 0));
    for x in it: source
        invariant
            it.seq() == all,
            i == it.index(),
            all.len() == keep@.len(),
            all.len() == total,
            rows@ == select_upto(all, keep@, i as int),
    {
        proof {
            lemma_select_upto_step(all, keep@, i + 1);
        }
        if keep[i] {
            rows.push(x);
        }
        i += 1;
    }
    proof {
        lemma_kept_indices(keep@, all.len() as int);
    }
    total - rows.len()
}

} // verus!
