//! Fresh identifiers: from a candidate on, the first identifier that no
//! bucket has yet.
use vstd::prelude::*;
use vstd::set_lib::lemma_len_subset;
use crate::catalog::model::has_uuid;
use crate::models::bucket::BucketView;

verus! {

/// The identifier after an identifier; after the last comes the first.
pub open spec fn next_id(c: u128) -> u128 {
    if c == u128::MAX {
        0u128
    } else {
        (c + 1) as u128
    }
}

/// The identifier that stands a number of steps after an identifier.
pub open spec fn nth_id(c: u128, k: nat) -> u128
    decreases k,
{
    if k == 0 {
        c
    } else {
        next_id(nth_id(c, (k - 1) as nat))
    }
}

/// From an identifier on, the first that no bucket has, looking no further
/// than a number of steps.
pub open spec fn probe(buckets: Seq<BucketView>, c: u128, fuel: nat) -> u128
    decreases fuel,
{
    if fuel == 0 || !has_uuid(buckets, c) {
        c
    } else {
        probe(buckets, next_id(c), (fuel - 1) as nat)
    }
}

/// From a candidate on, the first identifier that no bucket has.
pub open spec fn fresh_uuid(buckets: Seq<BucketView>, candidate: u128) -> u128 {
    probe(buckets, candidate, buckets.len())
}

/// The identifier a number of steps after `c`, as a number.
proof fn nth_id_value(c: u128, k: nat)
    ensures
        nth_id(c, k) == (c + k) % (u128::MAX + 1),
    decreases k,
{
    if k > 0 {
        nth_id_value(c, (k - 1) as nat);
        let m = (u128::MAX + 1);
        let a = c + k - 1;
        assert((a + 1) % m == (if a % m == m - 1 {
            0int
        } else {
            a % m + 1
        })) by (nonlinear_arith)
            requires
                a >= 0,
                m > 0,
        ;
    }
}

/// Fewer steps than there are identifiers lead to different identifiers.
proof fn nth_id_distinct(c: u128, i: nat, j: nat)
    requires
        i < j,
        j < (u128::MAX + 1),
    ensures
        nth_id(c, i) != nth_id(c, j),
{
    nth_id_value(c, i);
    nth_id_value(c, j);
    let m = (u128::MAX + 1);
    let a = c + i;
    let b = c + j;
    assert(a % m != b % m) by (nonlinear_arith)
        requires
            0 <= a < b,
            b - a < m,
            m > 0,
    ;
}

/// A run of identifiers that buckets have is no longer than the list of
/// buckets.
pub proof fn used_run_is_short(buckets: Seq<BucketView>, c: u128, k: nat)
    requires
        k < (u128::MAX + 1),
        forall|j: nat| j <= k ==> has_uuid(buckets, #[trigger] nth_id(c, j)),
    ensures
        k + 1 <= buckets.len(),
{
    let run = Seq::new(k + 1, |j: int| nth_id(c, j as nat));
    let used = Seq::new(buckets.len(), |i: int| buckets[i].uuid);
    assert(run.no_duplicates()) by {
        assert forall|x: int, y: int| 0 <= x < run.len() && 0 <= y < run.len() && x != y implies run[x]
            != run[y] by {
            if x < y {
                nth_id_distinct(c, x as nat, y as nat);
            } else {
                nth_id_distinct(c, y as nat, x as nat);
            }
        }
    }
    run.unique_seq_to_set();
    used.lemma_cardinality_of_set();
    vstd::seq_lib::seq_to_set_is_finite(used);
    assert(run.to_set().subset_of(used.to_set())) by {
        assert forall|id: u128| run.to_set().contains(id) implies used.to_set().contains(id) by {
            let j = choose|j: int| 0 <= j < run.len() && run[j] == id;
            assert(has_uuid(buckets, nth_id(c, j as nat)));
            let i = choose|i: int| 0 <= i < buckets.len() && (#[trigger] buckets[i]).uuid == id;
            assert(used[i] == id);
        }
    }
    lemma_len_subset(run.to_set(), used.to_set());
}

/// Looking on from a later step gives what looking on from the start
/// gives, where every step before is taken.
pub proof fn probe_from_step(buckets: Seq<BucketView>, c: u128, fuel: nat, k: nat)
    requires
        k <= fuel,
        forall|j: nat| j < k ==> has_uuid(buckets, #[trigger] nth_id(c, j)),
    ensures
        probe(buckets, c, fuel) == probe(buckets, nth_id(c, k), (fuel - k) as nat),
    decreases k,
{
    if k > 0 {
        probe_from_step(buckets, c, fuel, (k - 1) as nat);
        assert(has_uuid(buckets, nth_id(c, (k - 1) as nat)));
    }
}

/// The fresh identifier is one that no bucket has, where there are fewer
/// buckets than identifiers.
pub proof fn fresh_uuid_is_free(buckets: Seq<BucketView>, candidate: u128)
    requires
        buckets.len() < (u128::MAX + 1),
    ensures
        !has_uuid(buckets, fresh_uuid(buckets, candidate)),
{
    let n = buckets.len();
    if has_uuid(buckets, fresh_uuid(buckets, candidate)) {
        walk(buckets, candidate, n, n);
        used_run_is_short(buckets, candidate, n);
    }
}

/// Where the probe ends on an identifier that a bucket has, every step up
/// to the last was on one.
proof fn walk(buckets: Seq<BucketView>, c: u128, fuel: nat, k: nat)
    requires
        k <= fuel,
        has_uuid(buckets, probe(buckets, c, fuel)),
    ensures
        forall|j: nat| j <= k ==> has_uuid(buckets, #[trigger] nth_id(c, j)),
    decreases k,
{
    if k > 0 {
        walk(buckets, c, fuel, (k - 1) as nat);
        probe_from_step(buckets, c, fuel, k);
        // the probe went on from step k, or stopped there on a used identifier
        assert(has_uuid(buckets, nth_id(c, k))) by {
            if !has_uuid(buckets, nth_id(c, k)) {
                assert(probe(buckets, nth_id(c, k), (fuel - k) as nat) == nth_id(c, k));
            }
        }
    } else {
        if !has_uuid(buckets, c) {
            assert(probe(buckets, c, fuel) == c);
        }
    }
}

} // verus!
