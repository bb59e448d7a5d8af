//! Duplicate flights.
//!
//! Two flights are duplicates where they were read from the same bytes
//! (their content hashes match) or where they are the same flight read from
//! different exports (the serial of the aircraft, the serial of the battery
//! and the start time match). Of duplicates the one with the most points
//! stays, and of those with as many points the one with the lowest id.

use vstd::prelude::*;
use crate::models::FlightMetadata;
use crate::table::{
    kept_indices, lemma_kept_indices, lemma_select_all, lemma_select_members, retain_flagged,
    select,
};

verus! {

/// True when the text is there and is not empty.
pub open spec fn is_stated(text: Option<String>) -> bool {
    text is Some && text->0@.len() > 0
}

/// True when both flights state a content hash, and the same one.
pub open spec fn same_hash(a: FlightMetadata, b: FlightMetadata) -> bool {
    is_stated(a.file_hash) && is_stated(b.file_hash) && a.file_hash->0@ == b.file_hash->0@
}

/// True when both flights state the serial of the aircraft, the serial of
/// the battery and the start time, and the same ones.
pub open spec fn same_signature(a: FlightMetadata, b: FlightMetadata) -> bool {
    &&& is_stated(a.drone_serial) && is_stated(b.drone_serial)
    &&& a.drone_serial->0@ == b.drone_serial->0@
    &&& is_stated(a.battery_serial) && is_stated(b.battery_serial)
    &&& a.battery_serial->0@ == b.battery_serial->0@
    &&& a.start_time is Some && b.start_time is Some
    &&& a.start_time->0 == b.start_time->0
}

/// True when `a` is to stay rather than `b`: it has more points, or as many
/// and the lower id.
pub open spec fn outranks(a: FlightMetadata, b: FlightMetadata) -> bool {
    a.point_count > b.point_count || (a.point_count == b.point_count && a.id < b.id)
}

/// True when no two flights have one id.
pub open spec fn ids_unique(flights: Seq<FlightMetadata>) -> bool {
    forall|i: int, j: int|
        0 <= i < flights.len() && 0 <= j < flights.len() && i != j ==> (#[trigger] flights[i]).id
            != (#[trigger] flights[j]).id
}

/// True when flight `i` has no duplicate by hash that is to stay rather
/// than it.
pub open spec fn survives_hash(flights: Seq<FlightMetadata>, i: int) -> bool {
    forall|j: int|
        0 <= j < flights.len() && same_hash(#[trigger] flights[j], flights[i]) ==> !outranks(
            flights[j],
            flights[i],
        )
}

/// True when flight `i` has no duplicate by signature that is to stay
/// rather than it.
pub open spec fn survives_signature(flights: Seq<FlightMetadata>, i: int) -> bool {
    forall|j: int|
        0 <= j < flights.len() && same_signature(#[trigger] flights[j], flights[i]) ==> !outranks(
            flights[j],
            flights[i],
        )
}

/// Which flights survive the pass over content hashes.
pub open spec fn hash_flags(flights: Seq<FlightMetadata>) -> Seq<bool> {
    Seq::new(flights.len(), |i: int| survives_hash(flights, i))
}

/// Which flights survive the pass over signatures.
pub open spec fn signature_flags(flights: Seq<FlightMetadata>) -> Seq<bool> {
    Seq::new(flights.len(), |i: int| survives_signature(flights, i))
}

/// The flights that the pass by content hash leaves.
pub open spec fn hash_pass(flights: Seq<FlightMetadata>) -> Seq<FlightMetadata> {
    select(flights, hash_flags(flights))
}

/// The flights that the pass by signature leaves.
pub open spec fn signature_pass(flights: Seq<FlightMetadata>) -> Seq<FlightMetadata> {
    select(flights, signature_flags(flights))
}

/// The flights that deduplication leaves: first the pass by content hash,
/// then the pass by signature.
pub open spec fn deduplicated(flights: Seq<FlightMetadata>) -> Seq<FlightMetadata> {
    signature_pass(hash_pass(flights))
}

/// True when no two flights are duplicates by hash.
pub open spec fn hash_unique(flights: Seq<FlightMetadata>) -> bool {
    forall|i: int, j: int|
        0 <= i < flights.len() && 0 <= j < flights.len() && i != j ==> !same_hash(
            #[trigger] flights[i],
            #[trigger] flights[j],
        )
}

/// True when no two flights are duplicates by signature.
pub open spec fn signature_unique(flights: Seq<FlightMetadata>) -> bool {
    forall|i: int, j: int|
        0 <= i < flights.len() && 0 <= j < flights.len() && i != j ==> !same_signature(
            #[trigger] flights[i],
            #[trigger] flights[j],
        )
}

/// True when some flight has the id.
pub open spec fn has_id(flights: Seq<FlightMetadata>, id: i64) -> bool {
    exists|i: int| 0 <= i < flights.len() && (#[trigger] flights[i]).id == id
}

// ---------------------------------------------------------------------------
// Laws
// ---------------------------------------------------------------------------

/// A selection of flights with unique ids has unique ids.
pub proof fn lemma_select_keeps_ids_unique(flights: Seq<FlightMetadata>, keep: Seq<bool>)
    requires
        flights.len() == keep.len(),
        ids_unique(flights),
    ensures
        ids_unique(select(flights, keep)),
{
    lemma_select_members(flights, keep);
    lemma_kept_indices(keep, flights.len() as int);
    let s = select(flights, keep);
    let indices = kept_indices(keep, flights.len() as int);
    assert forall|i: int, j: int| 0 <= i < s.len() && 0 <= j < s.len() && i != j implies (
    #[trigger] s[i]).id != (#[trigger] s[j]).id by {
        if i < j {
            assert(indices[i] < indices[j]);
        } else {
            assert(indices[j] < indices[i]);
        }
        assert(s[i] == flights[indices[i]]);
        assert(s[j] == flights[indices[j]]);
    }
}

/// A selection of flights without duplicates by hash has none.
pub proof fn lemma_select_keeps_hash_unique(flights: Seq<FlightMetadata>, keep: Seq<bool>)
    requires
        flights.len() == keep.len(),
        hash_unique(flights),
    ensures
        hash_unique(select(flights, keep)),
{
    lemma_select_members(flights, keep);
    lemma_kept_indices(keep, flights.len() as int);
    let s = select(flights, keep);
    let indices = kept_indices(keep, flights.len() as int);
    assert forall|i: int, j: int| 0 <= i < s.len() && 0 <= j < s.len() && i != j implies !same_hash(
        #[trigger] s[i],
        #[trigger] s[j],
    ) by {
        if i < j {
            assert(indices[i] < indices[j]);
        } else {
            assert(indices[j] < indices[i]);
        }
        assert(s[i] == flights[indices[i]]);
        assert(s[j] == flights[indices[j]]);
    }
}

/// The pass by hash leaves no duplicates by hash.
pub proof fn lemma_hash_pass_is_unique(flights: Seq<FlightMetadata>)
    requires
        ids_unique(flights),
    ensures
        hash_unique(hash_pass(flights)),
        ids_unique(hash_pass(flights)),
{
    let keep = hash_flags(flights);
    lemma_select_members(flights, keep);
    lemma_kept_indices(keep, flights.len() as int);
    lemma_select_keeps_ids_unique(flights, keep);
    let s = hash_pass(flights);
    let indices = kept_indices(keep, flights.len() as int);
    assert forall|i: int, j: int| 0 <= i < s.len() && 0 <= j < s.len() && i != j implies !same_hash(
        #[trigger] s[i],
        #[trigger] s[j],
    ) by {
        let a = indices[i];
        let b = indices[j];
        if i < j {
            assert(indices[i] < indices[j]);
        } else {
            assert(indices[j] < indices[i]);
        }
        assert(s[i] == flights[a] && s[j] == flights[b]);
        assert(keep[a] && keep[b]);
        assert(survives_hash(flights, a) && survives_hash(flights, b));
        if same_hash(flights[a], flights[b]) {
            assert(flights[a].id != flights[b].id);
            assert(outranks(flights[a], flights[b]) || outranks(flights[b], flights[a]));
        }
    }
}

/// The pass by signature leaves no duplicates by signature.
pub proof fn lemma_signature_pass_is_unique(flights: Seq<FlightMetadata>)
    requires
        ids_unique(flights),
    ensures
        signature_unique(signature_pass(flights)),
        ids_unique(signature_pass(flights)),
{
    let keep = signature_flags(flights);
    lemma_select_members(flights, keep);
    lemma_kept_indices(keep, flights.len() as int);
    lemma_select_keeps_ids_unique(flights, keep);
    let s = signature_pass(flights);
    let indices = kept_indices(keep, flights.len() as int);
    assert forall|i: int, j: int|
        0 <= i < s.len() && 0 <= j < s.len() && i != j implies !same_signature(
        #[trigger] s[i],
        #[trigger] s[j],
    ) by {
        let a = indices[i];
        let b = indices[j];
        if i < j {
            assert(indices[i] < indices[j]);
        } else {
            assert(indices[j] < indices[i]);
        }
        assert(s[i] == flights[a] && s[j] == flights[b]);
        assert(keep[a] && keep[b]);
        assert(survives_signature(flights, a) && survives_signature(flights, b));
        if same_signature(flights[a], flights[b]) {
            assert(flights[a].id != flights[b].id);
            assert(outranks(flights[a], flights[b]) || outranks(flights[b], flights[a]));
        }
    }
}

/// The pass by hash takes nothing from flights without duplicates by hash.
pub proof fn lemma_hash_pass_of_unique(flights: Seq<FlightMetadata>)
    requires
        hash_unique(flights),
    ensures
        hash_pass(flights) == flights,
{
    let keep = hash_flags(flights);
    assert forall|i: int| 0 <= i < keep.len() implies #[trigger] keep[i] by {
        assert forall|j: int|
            0 <= j < flights.len() && same_hash(#[trigger] flights[j], flights[i]) implies !outranks(
            flights[j],
            flights[i],
        ) by {
            if j != i {
                assert(!same_hash(flights[j], flights[i]));
            }
        }
    }
    lemma_select_all(flights, keep);
}

/// The pass by signature takes nothing from flights without duplicates by
/// signature.
pub proof fn lemma_signature_pass_of_unique(flights: Seq<FlightMetadata>)
    requires
        signature_unique(flights),
    ensures
        signature_pass(flights) == flights,
{
    let keep = signature_flags(flights);
    assert forall|i: int| 0 <= i < keep.len() implies #[trigger] keep[i] by {
        assert forall|j: int|
            0 <= j < flights.len() && same_signature(
                #[trigger] flights[j],
                flights[i],
            ) implies !outranks(flights[j], flights[i]) by {
            if j != i {
                assert(!same_signature(flights[j], flights[i]));
            }
        }
    }
    lemma_select_all(flights, keep);
}

/// Deduplication is idempotent: what it leaves, it leaves as it is.
pub proof fn lemma_deduplication_is_idempotent(flights: Seq<FlightMetadata>)
    requires
        ids_unique(flights),
    ensures
        deduplicated(deduplicated(flights)) == deduplicated(flights),
        hash_unique(deduplicated(flights)),
        signature_unique(deduplicated(flights)),
        ids_unique(deduplicated(flights)),
{
    let h = hash_pass(flights);
    lemma_hash_pass_is_unique(flights);
    let d = signature_pass(h);
    lemma_signature_pass_is_unique(h);
    lemma_select_keeps_hash_unique(h, signature_flags(h));
    lemma_hash_pass_of_unique(d);
    lemma_signature_pass_of_unique(d);
}


/// Among the flights with the hash of flight `j`, one is to stay: a flight
/// that none of the first `n` flights with that hash outranks, and that is
/// flight `j` itself or outranks it.
proof fn lemma_group_top(flights: Seq<FlightMetadata>, j: int, n: int) -> (t: int)
    requires
        0 <= j < flights.len(),
        0 <= n <= flights.len(),
    ensures
        0 <= t < flights.len(),
        t == j || (same_hash(flights[t], flights[j]) && outranks(flights[t], flights[j])),
        forall|k: int|
            0 <= k < n && same_hash(#[trigger] flights[k], flights[t]) ==> !outranks(
                flights[k],
                flights[t],
            ),
    decreases n,
{
    if n == 0 {
        j
    } else {
        let t0 = lemma_group_top(flights, j, n - 1);
        if same_hash(flights[n - 1], flights[t0]) && outranks(flights[n - 1], flights[t0]) {
            n - 1
        } else {
            t0
        }
    }
}

/// Of two flights with one signature the one with fewer points goes,
/// whichever was stored first: after deduplication no flight has its id.
/// The flight with more points must be no duplicate by hash of a flight
/// with another signature; where it is, it may go in the pass by hash and
/// leave nothing to compare with.
pub proof fn lemma_fewer_points_is_removed(flights: Seq<FlightMetadata>, i: int, j: int)
    requires
        ids_unique(flights),
        0 <= i < flights.len(),
        0 <= j < flights.len(),
        same_signature(flights[i], flights[j]),
        flights[i].point_count < flights[j].point_count,
        forall|k: int|
            0 <= k < flights.len() && same_hash(#[trigger] flights[k], flights[j])
                ==> same_signature(flights[k], flights[j]),
    ensures
        !has_id(deduplicated(flights), flights[i].id),
{
    let t = lemma_group_top(flights, j, flights.len() as int);
    assert(survives_hash(flights, t));
    let h = hash_pass(flights);
    let hash_keep = hash_flags(flights);
    lemma_select_members(flights, hash_keep);
    lemma_kept_indices(hash_keep, flights.len() as int);
    assert(hash_keep[t]);
    assert(h.contains(flights[t]));
    let tt = choose|tt: int| 0 <= tt < h.len() && h[tt] == flights[t];
    assert(same_signature(flights[t], flights[i]) && outranks(flights[t], flights[i]));
    let d = deduplicated(flights);
    let sig_keep = signature_flags(h);
    lemma_select_members(h, sig_keep);
    lemma_kept_indices(sig_keep, h.len() as int);
    if has_id(d, flights[i].id) {
        let m = choose|m: int| 0 <= m < d.len() && (#[trigger] d[m]).id == flights[i].id;
        let hm = kept_indices(sig_keep, h.len() as int)[m];
        assert(d[m] == h[hm]);
        assert(sig_keep[hm]);
        assert(survives_signature(h, hm));
        let x = kept_indices(hash_keep, flights.len() as int)[hm];
        assert(h[hm] == flights[x]);
        assert(x == i);
        assert(same_signature(h[tt], h[hm]));
        assert(false);
    }
}

// ---------------------------------------------------------------------------
// The passes
// ---------------------------------------------------------------------------

/// Decides whether both texts are there, are not empty and are the same.
pub fn same_stated_text(a: &Option<String>, b: &Option<String>) -> (r: bool)
    ensures
        r == (is_stated(*a) && is_stated(*b) && a->0@ == b->0@),
{
    match (a, b) {
        (Some(x), Some(y)) => !x.as_str().is_empty() && *x == *y,
        _ => false,
    }
}

/// Decides whether two flights are duplicates by hash.
pub fn check_same_hash(a: &FlightMetadata, b: &FlightMetadata) -> (r: bool)
    ensures
        r == same_hash(*a, *b),
{
    same_stated_text(&a.file_hash, &b.file_hash)
}

/// Decides whether two flights are duplicates by signature.
pub fn check_same_signature(a: &FlightMetadata, b: &FlightMetadata) -> (r: bool)
    ensures
        r == same_signature(*a, *b),
{
    let times = match (a.start_time, b.start_time) {
        (Some(x), Some(y)) => x == y,
        _ => false,
    };
    times && same_stated_text(&a.drone_serial, &b.drone_serial) && same_stated_text(
        &a.battery_serial,
        &b.battery_serial,
    )
}

/// Decides whether `a` is to stay rather than `b`.
pub fn check_outranks(a: &FlightMetadata, b: &FlightMetadata) -> (r: bool)
    ensures
        r == outranks(*a, *b),
{
    a.point_count > b.point_count || (a.point_count == b.point_count && a.id < b.id)
}

/// For each flight, whether the pass by hash leaves it.
pub fn hash_survivors(flights: &Vec<FlightMetadata>) -> (keep: Vec<bool>)
    ensures
        keep@ == hash_flags(flights@),
{
    let mut keep: Vec<bool> = Vec::new();
    let mut i: usize = 0;
    while i < flights.len()
        invariant
            i <= flights.len(),
            keep@ =~= Seq::new(i as nat, |k: int| survives_hash(flights@, k)),
        decreases flights.len() - i,
    {
        let mut stays = true;
        let mut j: usize = 0;
        while j < flights.len()
            invariant
                j <= flights.len(),
                i < flights.len(),
                stays == (forall|k: int|
                    0 <= k < j && same_hash(#[trigger] flights@[k], flights@[i as int])
                        ==> !outranks(flights@[k], flights@[i as int])),
            decreases flights.len() - j,
        {
            if check_same_hash(&flights[j], &flights[i]) && check_outranks(
                &flights[j],
                &flights[i],
            ) {
                stays = false;
            }
            j += 1;
        }
        keep.push(stays);
        i += 1;
    }
    keep
}

/// For each flight, whether the pass by signature leaves it.
pub fn signature_survivors(flights: &Vec<FlightMetadata>) -> (keep: Vec<bool>)
    ensures
        keep@ == signature_flags(flights@),
{
    let mut keep: Vec<bool> = Vec::new();
    let mut i: usize = 0;
    while i < flights.len()
        invariant
            i <= flights.len(),
            keep@ =~= Seq::new(i as nat, |k: int| survives_signature(flights@, k)),
        decreases flights.len() - i,
    {
        let mut stays = true;
        let mut j: usize = 0;
        while j < flights.len()
            invariant
                j <= flights.len(),
                i < flights.len(),
                stays == (forall|k: int|
                    0 <= k < j && same_signature(#[trigger] flights@[k], flights@[i as int])
                        ==> !outranks(flights@[k], flights@[i as int])),
            decreases flights.len() - j,
        {
            if check_same_signature(&flights[j], &flights[i]) && check_outranks(
                &flights[j],
                &flights[i],
            ) {
                stays = false;
            }
            j += 1;
        }
        keep.push(stays);
        i += 1;
    }
    keep
}

/// Removes the duplicates among the flights, first by content hash, then by
/// signature, and says how many flights went.
pub fn remove_duplicates(flights: &mut Vec<FlightMetadata>) -> (removed: usize)
    ensures
        final(flights)@ == deduplicated(old(flights)@),
        removed == old(flights)@.len() - final(flights)@.len(),
{
    let before = flights.len();
    let by_hash = hash_survivors(flights);
    let first = retain_flagged(flights, &by_hash);
    let ghost middle = flights@;
    let by_signature = signature_survivors(flights);
    let second = retain_flagged(flights, &by_signature);
    proof {
        lemma_select_members(old(flights)@, hash_flags(old(flights)@));
        lemma_select_members(middle, signature_flags(middle));
        assert(first + second == before - flights@.len());
    }
    first + second
}

} // verus!
