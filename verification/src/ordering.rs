//! Ordering by time.
//!
//! Telemetry is emitted and served in non-decreasing order of time. Where
//! two samples share a time, the one that came first stays first.

use vstd::prelude::*;
use vstd::seq_lib::{to_multiset_build, to_multiset_insert};
use crate::models::{TelemetryPoint, TelemetryRecord};

verus! {

/// A value with a time: of a sample of telemetry, the time within its
/// flight in milliseconds.
pub trait Timed {
    /// The time of the value.
    spec fn time(&self) -> i64;

    /// The time of the value.
    fn timestamp(&self) -> (t: i64)
        ensures
            t == self.time(),
    ;
}

impl Timed for TelemetryPoint {
    open spec fn time(&self) -> i64 {
        self.timestamp_ms
    }

    fn timestamp(&self) -> (t: i64) {
        self.timestamp_ms
    }
}

impl Timed for TelemetryRecord {
    open spec fn time(&self) -> i64 {
        self.timestamp_ms
    }

    fn timestamp(&self) -> (t: i64) {
        self.timestamp_ms
    }
}

/// True when no element comes before one of an earlier time.
pub open spec fn is_ordered<T: Timed>(s: Seq<T>) -> bool {
    forall|i: int, j: int| 0 <= i <= j < s.len() ==> s[i].time() <= s[j].time()
}

/// The number of elements of `s` whose time is `t` or earlier.
pub open spec fn count_at_most<T: Timed>(s: Seq<T>, t: i64) -> nat
    decreases s.len(),
{
    if s.len() == 0 {
        0
    } else {
        count_at_most(s.drop_last(), t) + if s.last().time() <= t {
            1nat
        } else {
            0nat
        }
    }
}

/// `x` put into the ordered `s` behind every element of its time or earlier.
pub open spec fn insert_ordered<T: Timed>(s: Seq<T>, x: T) -> Seq<T> {
    s.insert(count_at_most(s, x.time()) as int, x)
}

/// The elements of `s` in order of time; elements of one time keep the
/// order that they have in `s`.
pub open spec fn stable_sorted<T: Timed>(s: Seq<T>) -> Seq<T>
    decreases s.len(),
{
    if s.len() == 0 {
        s
    } else {
        insert_ordered(stable_sorted(s.drop_last()), s.last())
    }
}

/// No more elements are counted than there are.
pub proof fn lemma_count_at_most_bound<T: Timed>(s: Seq<T>, t: i64)
    ensures
        count_at_most(s, t) <= s.len(),
    decreases s.len(),
{
    if s.len() > 0 {
        lemma_count_at_most_bound(s.drop_last(), t);
    }
}

/// Where the elements up to `pos` are of time `t` or earlier and the
/// others are later, `pos` is the count.
pub proof fn lemma_count_at_most_is<T: Timed>(s: Seq<T>, t: i64, pos: int)
    requires
        0 <= pos <= s.len(),
        forall|j: int| 0 <= j < pos ==> (#[trigger] s[j]).time() <= t,
        forall|j: int| pos <= j < s.len() ==> (#[trigger] s[j]).time() > t,
    ensures
        count_at_most(s, t) == pos,
    decreases s.len(),
{
    if s.len() > 0 {
        let r = s.drop_last();
        if pos == s.len() {
            assert(s[s.len() - 1].time() <= t);
            lemma_count_at_most_is(r, t, pos - 1);
        } else {
            assert(s[s.len() - 1].time() > t);
            lemma_count_at_most_is(r, t, pos);
        }
    }
}

/// In an ordered sequence the count cuts the elements of time `t` or
/// earlier from the later ones.
pub proof fn lemma_count_at_most_cuts<T: Timed>(s: Seq<T>, t: i64)
    requires
        is_ordered(s),
    ensures
        count_at_most(s, t) <= s.len(),
        forall|j: int| 0 <= j < count_at_most(s, t) ==> (#[trigger] s[j]).time() <= t,
        forall|j: int| count_at_most(s, t) <= j < s.len() ==> (#[trigger] s[j]).time() > t,
    decreases s.len(),
{
    if s.len() > 0 {
        let r = s.drop_last();
        assert(is_ordered(r)) by {
            assert forall|i: int, j: int| 0 <= i <= j < r.len() implies r[i].time()
                <= r[j].time() by {
                assert(r[i] == s[i] && r[j] == s[j]);
            }
        }
        lemma_count_at_most_cuts(r, t);
        let c = count_at_most(r, t);
        if s.last().time() <= t {
            if c < r.len() {
                assert(r[c as int].time() > t);
                assert(r[c as int] == s[c as int]);
                assert(s[c as int].time() <= s[s.len() - 1].time());
            }
            assert forall|j: int| 0 <= j < count_at_most(s, t) implies (#[trigger] s[j]).time()
                <= t by {
                if j < r.len() {
                    assert(s[j] == r[j]);
                }
            }
        } else {
            assert forall|j: int| 0 <= j < count_at_most(s, t) implies (#[trigger] s[j]).time()
                <= t by {
                assert(s[j] == r[j]);
            }
            assert forall|j: int| count_at_most(s, t) <= j < s.len() implies (#[trigger] s[j]).time()
                > t by {
                if j < r.len() {
                    assert(s[j] == r[j]);
                }
            }
        }
    }
}

/// An element put into an ordered sequence leaves it ordered, and longer by
/// one.
pub proof fn lemma_insert_ordered_is_ordered<T: Timed>(s: Seq<T>, x: T)
    requires
        is_ordered(s),
    ensures
        is_ordered(insert_ordered(s, x)),
        insert_ordered(s, x).len() == s.len() + 1,
{
    lemma_count_at_most_cuts(s, x.time());
    let c = count_at_most(s, x.time()) as int;
    let r = s.insert(c, x);
    assert forall|i: int, j: int| 0 <= i <= j < r.len() implies r[i].time() <= r[j].time() by {
        if i < c {
            assert(r[i] == s[i]);
        } else if i > c {
            assert(r[i] == s[i - 1]);
        }
        if j < c {
            assert(r[j] == s[j]);
        } else if j > c {
            assert(r[j] == s[j - 1]);
        }
    }
}

/// The sorted sequence is ordered and as long as the sequence given.
pub proof fn lemma_stable_sorted_is_ordered<T: Timed>(s: Seq<T>)
    ensures
        is_ordered(stable_sorted(s)),
        stable_sorted(s).len() == s.len(),
    decreases s.len(),
{
    if s.len() > 0 {
        lemma_stable_sorted_is_ordered(s.drop_last());
        lemma_insert_ordered_is_ordered(stable_sorted(s.drop_last()), s.last());
    }
}

/// The sorted sequence holds the elements of the sequence given, each as
/// often.
pub proof fn lemma_stable_sorted_is_permutation<T: Timed>(s: Seq<T>)
    ensures
        stable_sorted(s).to_multiset() == s.to_multiset(),
    decreases s.len(),
{
    if s.len() > 0 {
        let r = s.drop_last();
        lemma_stable_sorted_is_permutation(r);
        let sorted = stable_sorted(r);
        lemma_count_at_most_bound(sorted, s.last().time());
        to_multiset_insert(sorted, count_at_most(sorted, s.last().time()) as int, s.last());
        to_multiset_build(r, s.last());
        assert(r.push(s.last()) =~= s);
    } else {
        assert(stable_sorted(s) =~= s);
    }
}

/// Sorting leaves an ordered sequence as it is.
pub proof fn lemma_stable_sorted_of_ordered<T: Timed>(s: Seq<T>)
    requires
        is_ordered(s),
    ensures
        stable_sorted(s) == s,
    decreases s.len(),
{
    if s.len() > 0 {
        let r = s.drop_last();
        assert(is_ordered(r)) by {
            assert forall|i: int, j: int| 0 <= i <= j < r.len() implies r[i].time()
                <= r[j].time() by {
                assert(r[i] == s[i] && r[j] == s[j]);
            }
        }
        lemma_stable_sorted_of_ordered(r);
        assert forall|j: int| 0 <= j < r.len() implies (#[trigger] r[j]).time()
            <= s.last().time() by {
            assert(r[j] == s[j]);
        }
        lemma_count_at_most_is(r, s.last().time(), r.len() as int);
        assert(r.insert(r.len() as int, s.last()) =~= s);
    }
}

/// True when every element is of a later time than the one before.
pub open spec fn is_strictly_ordered<T: Timed>(s: Seq<T>) -> bool {
    forall|i: int, j: int| 0 <= i < j < s.len() ==> s[i].time() < s[j].time()
}

/// True when no two elements are of one time.
pub open spec fn times_distinct<T: Timed>(s: Seq<T>) -> bool {
    forall|i: int, j: int| 0 <= i < j < s.len() ==> s[i].time() != s[j].time()
}

/// Every time of the sorted sequence is a time of the sequence given.
pub proof fn lemma_stable_sorted_times<T: Timed>(s: Seq<T>, k: int) -> (i: int)
    requires
        0 <= k < stable_sorted(s).len(),
    ensures
        0 <= i < s.len(),
        s[i].time() == stable_sorted(s)[k].time(),
    decreases s.len(),
{
    lemma_stable_sorted_is_ordered(s);
    let r = s.drop_last();
    let sorted = stable_sorted(r);
    lemma_stable_sorted_is_ordered(r);
    lemma_count_at_most_bound(sorted, s.last().time());
    let c = count_at_most(sorted, s.last().time()) as int;
    if k == c {
        s.len() - 1
    } else if k < c {
        assert(stable_sorted(s)[k] == sorted[k]);
        let i = lemma_stable_sorted_times(r, k);
        assert(r[i] == s[i]);
        i
    } else {
        assert(stable_sorted(s)[k] == sorted[k - 1]);
        let i = lemma_stable_sorted_times(r, k - 1);
        assert(r[i] == s[i]);
        i
    }
}

/// Elements of which no two are of one time come out of the sort with
/// every element later than the one before.
pub proof fn lemma_stable_sorted_is_strict<T: Timed>(s: Seq<T>)
    requires
        times_distinct(s),
    ensures
        is_strictly_ordered(stable_sorted(s)),
    decreases s.len(),
{
    if s.len() > 0 {
        let r = s.drop_last();
        let z = s.last();
        assert(times_distinct(r)) by {
            assert forall|i: int, j: int| 0 <= i < j < r.len() implies r[i].time()
                != r[j].time() by {
                assert(r[i] == s[i] && r[j] == s[j]);
            }
        }
        lemma_stable_sorted_is_strict(r);
        lemma_stable_sorted_is_ordered(r);
        let sorted = stable_sorted(r);
        lemma_count_at_most_cuts(sorted, z.time());
        let c = count_at_most(sorted, z.time()) as int;
        let now = stable_sorted(s);
        assert forall|k: int| 0 <= k < sorted.len() implies (#[trigger] sorted[k]).time()
            != z.time() by {
            let i = lemma_stable_sorted_times(r, k);
            assert(r[i] == s[i]);
            assert(s[i].time() != s[s.len() - 1].time());
        }
        assert forall|i: int, j: int| 0 <= i < j < now.len() implies now[i].time()
            < now[j].time() by {
            if i < c {
                assert(now[i] == sorted[i]);
            } else if i > c {
                assert(now[i] == sorted[i - 1]);
            }
            if j < c {
                assert(now[j] == sorted[j]);
            } else if j > c {
                assert(now[j] == sorted[j - 1]);
            }
        }
    }
}

/// Taking one element out before sorting takes the same element out of the
/// sorted sequence and leaves the others where they are.
pub proof fn lemma_stable_sorted_remove<T: Timed>(s: Seq<T>, k: int) -> (pos: int)
    requires
        0 <= k < s.len(),
    ensures
        0 <= pos < stable_sorted(s).len(),
        stable_sorted(s)[pos] == s[k],
        stable_sorted(s.remove(k)) == stable_sorted(s).remove(pos),
    decreases s.len(),
{
    let r = s.drop_last();
    let z = s.last();
    let a = stable_sorted(r);
    lemma_stable_sorted_is_ordered(r);
    lemma_count_at_most_cuts(a, z.time());
    let c = count_at_most(a, z.time()) as int;
    if k == s.len() - 1 {
        assert(s.remove(k) =~= r);
        assert(a.insert(c, z).remove(c) =~= a);
        c
    } else {
        let p = lemma_stable_sorted_remove(r, k);
        assert(s.remove(k) =~= r.remove(k).push(z));
        assert(s.remove(k).drop_last() =~= r.remove(k));
        let b = a.remove(p);
        assert(stable_sorted(s.remove(k)) == insert_ordered(b, z));
        if a[p].time() <= z.time() {
            assert(p < c);
            assert forall|j: int| 0 <= j < c - 1 implies (#[trigger] b[j]).time() <= z.time() by {
                if j < p {
                    assert(b[j] == a[j]);
                } else {
                    assert(b[j] == a[j + 1]);
                }
            }
            assert forall|j: int| c - 1 <= j < b.len() implies (#[trigger] b[j]).time()
                > z.time() by {
                assert(b[j] == a[j + 1]);
            }
            lemma_count_at_most_is(b, z.time(), c - 1);
            assert(b.insert(c - 1, z) =~= a.insert(c, z).remove(p));
            assert(a.insert(c, z)[p] == a[p]);
            p
        } else {
            assert(p >= c);
            assert forall|j: int| 0 <= j < c implies (#[trigger] b[j]).time() <= z.time() by {
                assert(b[j] == a[j]);
            }
            assert forall|j: int| c <= j < b.len() implies (#[trigger] b[j]).time() > z.time() by {
                if j < p {
                    assert(b[j] == a[j]);
                } else {
                    assert(b[j] == a[j + 1]);
                }
            }
            lemma_count_at_most_is(b, z.time(), c);
            assert(b.insert(c, z) =~= a.insert(c, z).remove(p + 1));
            assert(a.insert(c, z)[p + 1] == a[p]);
            p + 1
        }
    }
}

/// Puts the elements in order of time. Elements of one time keep their
/// order; a sequence that is in order already is left as it is.
pub fn order_by_time<T: Timed>(items: Vec<T>) -> (r: Vec<T>)
    ensures
        r@ == stable_sorted(items@),
        is_ordered(r@),
        r@.len() == items@.len(),
        r@.to_multiset() == items@.to_multiset(),
{
    let mut v = items;
    let mut i: usize = 0;
    assert(v@.take(0) =~= stable_sorted(items@.take(0)));
    assert(v@.skip(0) =~= items@.skip(0));
    while i < v.len()
        invariant
            i <= v.len(),
            v@.len() == items@.len(),
            v@.take(i as int) == stable_sorted(items@.take(i as int)),
            v@.skip(i as int) == items@.skip(i as int),
        decreases v.len() - i,
    {
        let ghost prefix = v@.take(i as int);
        let ghost before = v@;
        proof {
            lemma_stable_sorted_is_ordered(items@.take(i as int));
            assert(v@[i as int] == v@.skip(i as int)[0]);
            assert(items@.take(i + 1).drop_last() =~= items@.take(i as int));
            assert(items@.take(i + 1).last() == items@[i as int]);
        }
        let t = v[i].timestamp();
        let mut pos: usize = i;
        while pos > 0 && v[pos - 1].timestamp() > t
            invariant
                pos <= i < v.len(),
                v@ == before,
                forall|j: int| pos <= j < i ==> (#[trigger] v@[j]).time() > t,
            decreases pos,
        {
            pos -= 1;
        }
        proof {
            assert forall|j: int| 0 <= j < pos implies (#[trigger] prefix[j]).time() <= t by {
                assert(prefix[j] == v@[j]);
                assert(prefix[pos - 1] == v@[pos - 1]);
            }
            assert forall|j: int| pos <= j < prefix.len() implies (#[trigger] prefix[j]).time()
                > t by {
                assert(prefix[j] == v@[j]);
            }
            lemma_count_at_most_is(prefix, t, pos as int);
        }
        if pos < i {
            let x = v.remove(i);
            v.insert(pos, x);
        }
        proof {
            assert(v@.take(i + 1) =~= prefix.insert(pos as int, before[i as int]));
            assert(v@.skip(i + 1) =~= before.skip(i as int).skip(1));
            assert(items@.skip(i + 1) =~= items@.skip(i as int).skip(1));
        }
        i += 1;
    }
    proof {
        assert(v@.take(v@.len() as int) =~= v@);
        assert(items@.take(items@.len() as int) =~= items@);
        lemma_stable_sorted_is_ordered(items@);
        lemma_stable_sorted_is_permutation(items@);
    }
    v
}

/// Decides whether the elements are in order of time.
pub fn check_ordered<T: Timed>(items: &Vec<T>) -> (r: bool)
    ensures
        r == is_ordered(items@),
{
    if items.len() < 2 {
        return true;
    }
    let mut i: usize = 1;
    while i < items.len()
        invariant
            1 <= i <= items.len(),
            forall|a: int, b: int| 0 <= a <= b < i ==> items@[a].time() <= items@[b].time(),
        decreases items.len() - i,
    {
        if items[i - 1].timestamp() > items[i].timestamp() {
            return false;
        }
        i += 1;
    }
    true
}

} // verus!
