//! Rankings: rows in the order of their ranks, the highest first.
//!
//! The ranking of a sequence takes the row with the highest rank first,
//! and of rows with one rank the one that stood first. It is stated by
//! selection: the leader of the rows, then the ranking of the rest.

use vstd::prelude::*;

verus! {

/// A row with a rank.
pub trait Ranked: Sized {
    /// True when the row ranks above the other.
    spec fn above(&self, other: &Self) -> bool;

    /// Says whether the row ranks above another.
    fn outranks(&self, other: &Self) -> (r: bool)
        ensures
            r == self.above(other),
    ;
}

/// True when the ranks of the rows of a type are an order: of two rows at
/// most one ranks above the other, and a row that ranks above another
/// ranks above every third row that the other does not rank below.
pub open spec fn ranks_are_ordered<T: Ranked>() -> bool {
    &&& forall|a: T, b: T| #[trigger] a.above(&b) ==> !b.above(&a)
    &&& forall|a: T, b: T, c: T|
        #![trigger a.above(&b), a.above(&c)]
        #![trigger a.above(&b), c.above(&b)]
        a.above(&b) ==> a.above(&c) || c.above(&b)
}

/// The place of the leader among the first `n` rows: the first of the rows
/// above which none ranks. Zero where there are no rows.
pub open spec fn leader_upto<T: Ranked>(rows: Seq<T>, n: int) -> int
    decreases n,
{
    if n <= 1 {
        0
    } else {
        let before = leader_upto(rows, n - 1);
        if rows[n - 1].above(&rows[before]) {
            n - 1
        } else {
            before
        }
    }
}

/// The place of the leader of the rows.
pub open spec fn leader<T: Ranked>(rows: Seq<T>) -> int {
    leader_upto(rows, rows.len() as int)
}

/// The rows in the order of their ranks, the highest first; rows with one
/// rank keep their order.
pub open spec fn ranked<T: Ranked>(rows: Seq<T>) -> Seq<T>
    decreases rows.len(),
{
    let at = leader(rows);
    if 0 <= at < rows.len() {
        seq![rows[at]] + ranked(rows.remove(at))
    } else {
        Seq::empty()
    }
}

/// The first `limit` rows of the ranking.
pub open spec fn leaders<T: Ranked>(rows: Seq<T>, limit: int) -> Seq<T> {
    if limit >= ranked(rows).len() {
        ranked(rows)
    } else {
        ranked(rows).take(limit)
    }
}

/// The leader is one of the rows.
pub proof fn lemma_leader_in_range<T: Ranked>(rows: Seq<T>, n: int)
    requires
        0 < n <= rows.len(),
    ensures
        0 <= leader_upto(rows, n) < n,
    decreases n,
{
    if n > 1 {
        lemma_leader_in_range(rows, n - 1);
    }
}

/// Where the ranks are an order, no row ranks above the leader.
pub proof fn lemma_leader<T: Ranked>(rows: Seq<T>, n: int)
    requires
        0 < n <= rows.len(),
        ranks_are_ordered::<T>(),
    ensures
        0 <= leader_upto(rows, n) < n,
        forall|i: int| 0 <= i < n ==> !(#[trigger] rows[i]).above(&rows[leader_upto(rows, n)]),
    decreases n,
{
    if n > 1 {
        lemma_leader(rows, n - 1);
        let before = leader_upto(rows, n - 1);
        let last = rows[n - 1];
        if last.above(&rows[before]) {
            assert forall|i: int| 0 <= i < n implies !(#[trigger] rows[i]).above(&last) by {
                if rows[i].above(&last) {
                    assert(rows[i].above(&rows[before]) || rows[before].above(&last));
                }
            }
        }
    }
}

/// A ranking holds as many rows as it was made of.
pub proof fn lemma_ranked_len<T: Ranked>(rows: Seq<T>)
    ensures
        ranked(rows).len() == rows.len(),
    decreases rows.len(),
{
    if rows.len() > 0 {
        lemma_leader_in_range(rows, rows.len() as int);
        lemma_ranked_len(rows.remove(leader(rows)));
    }
}

/// Every row of a ranking is one of the rows that it was made of.
pub proof fn lemma_ranked_rows<T: Ranked>(rows: Seq<T>)
    ensures
        forall|i: int|
            0 <= i < ranked(rows).len() ==> exists|k: int|
                0 <= k < rows.len() && rows[k] == #[trigger] ranked(rows)[i],
    decreases rows.len(),
{
    if rows.len() > 0 {
        let at = leader(rows);
        let rest = rows.remove(at);
        lemma_leader_in_range(rows, rows.len() as int);
        lemma_ranked_rows(rest);
        lemma_ranked_len(rest);
        let out = ranked(rows);
        assert forall|i: int| 0 <= i < out.len() implies exists|k: int|
            0 <= k < rows.len() && rows[k] == #[trigger] out[i] by {
            if i == 0 {
                assert(rows[at] == out[0]);
            } else {
                let k = choose|k: int| 0 <= k < rest.len() && rest[k] == ranked(rest)[i - 1];
                if k < at {
                    assert(rows[k] == out[i]);
                } else {
                    assert(rows[k + 1] == out[i]);
                }
            }
        }
    }
}

/// Where the ranks are an order, no row of a ranking ranks above a row
/// that stands before it.
pub proof fn lemma_ranked_descends<T: Ranked>(rows: Seq<T>)
    requires
        ranks_are_ordered::<T>(),
    ensures
        forall|i: int, j: int|
            #![trigger ranked(rows)[j], ranked(rows)[i]]
            0 <= i <= j < ranked(rows).len() ==> !ranked(rows)[j].above(&ranked(rows)[i]),
    decreases rows.len(),
{
    if rows.len() > 0 {
        let at = leader(rows);
        let rest = rows.remove(at);
        lemma_leader(rows, rows.len() as int);
        lemma_ranked_descends(rest);
        lemma_ranked_len(rest);
        lemma_ranked_rows(rows);
        let out = ranked(rows);
        assert forall|i: int, j: int|
            #![trigger out[j], out[i]]
            0 <= i <= j < out.len() implies !out[j].above(&out[i]) by {
            if i == 0 {
                let k = choose|k: int| 0 <= k < rows.len() && rows[k] == out[j];
                assert(!rows[k].above(&rows[at]));
            } else {
                assert(out[i] == ranked(rest)[i - 1]);
                assert(out[j] == ranked(rest)[j - 1]);
            }
        }
    }
}

/// Finds the leader of the rows.
fn find_leader<T: Ranked>(rows: &Vec<T>) -> (at: usize)
    requires
        rows@.len() > 0,
    ensures
        at == leader(rows@),
        at < rows@.len(),
{
    let mut at: usize = 0;
    let mut i: usize = 1;
    while i < rows.len()
        invariant
            1 <= i <= rows.len(),
            at == leader_upto(rows@, i as int),
            at < i,
        decreases rows.len() - i,
    {
        if rows[i].outranks(&rows[at]) {
            at = i;
        }
        i += 1;
    }
    at
}

/// The first `limit` rows of the ranking of the rows.
pub fn take_leaders<T: Ranked>(rows: Vec<T>, limit: usize) -> (out: Vec<T>)
    ensures
        out@ == leaders(rows@, limit as int),
{
    let ghost all = rows@;
    let mut rest = rows;
    let mut out: Vec<T> = Vec::new();
    proof {
        lemma_ranked_len(all);
        assert(out@ + ranked(rest@) =~= ranked(all));
    }
    while rest.len() > 0 && out.len() < limit
        invariant
            out@ + ranked(rest@) == ranked(all),
            ranked(rest@).len() == rest@.len(),
            out@.len() <= limit,
        decreases rest.len(),
    {
        let at = find_leader(&rest);
        let ghost before = rest@;
        let row = rest.remove(at);
        proof {
            lemma_ranked_len(rest@);
            assert(ranked(before) == seq![before[at as int]] + ranked(before.remove(at as int)));
            assert(out@.push(row) + ranked(rest@) =~= out@ + ranked(before));
        }
        out.push(row);
    }
    proof {
        if rest@.len() == 0 {
            assert(out@ =~= ranked(all));
        } else {
            assert(out@ =~= ranked(all).take(limit as int));
        }
    }
    out
}

/// The ranking of the rows.
pub fn rank_all<T: Ranked>(rows: Vec<T>) -> (out: Vec<T>)
    ensures
        out@ == ranked(rows@),
{
    proof {
        lemma_ranked_len(rows@);
    }
    let limit = rows.len();
    take_leaders(rows, limit)
}

} // verus!
