//! Laws of the checkout and disposal protocol, proved over the model of
//! `slots`. The contracts of `ReuseCache::get` and `Item::dispose` are stated
//! with the same spec functions, so each law holds of the pool itself.

use crate::slots::after_checkout;
use crate::slots::after_disposal;
use crate::slots::exhausted;
use crate::slots::fully_available;
use crate::slots::is_first_present;
use crate::slots::on_loan;
use crate::slots::populated;
use crate::slots::vacant;
use vstd::prelude::*;

verus! {

/// The slots after the checkouts of `run`, which gives the slot taken by each
/// checkout in order, with no disposal in between.
pub open spec fn after_checkouts<T>(s: Seq<Option<T>>, run: Seq<int>) -> Seq<Option<T>>
    decreases run.len(),
{
    if run.len() == 0 {
        s
    } else {
        after_checkout(after_checkouts(s, run.drop_last()), run.last())
    }
}

/// Every entry of `run` is the slot that a checkout takes from the pool as the
/// entries before it left it: `run` is a sequence of successful checkouts that
/// starts at `s`.
pub open spec fn is_checkout_run<T>(s: Seq<Option<T>>, run: Seq<int>) -> bool
    decreases run.len(),
{
    run.len() == 0 || (is_checkout_run(s, run.drop_last()) && is_first_present(
        after_checkouts(s, run.drop_last()),
        run.last(),
    ))
}

/// The slots after one checkout of slot `i` followed by the disposal of the
/// value unchanged.
pub open spec fn after_round_trip<T>(s: Seq<Option<T>>, i: int) -> Seq<Option<T>> {
    after_disposal(after_checkout(s, i), i, s[i].unwrap())
}

/// The slots after the round trips of `trips`, which gives the slot taken by
/// each checkout in order; each value is disposed of unchanged before the next
/// checkout.
pub open spec fn after_round_trips<T>(s: Seq<Option<T>>, trips: Seq<int>) -> Seq<Option<T>>
    decreases trips.len(),
{
    if trips.len() == 0 {
        s
    } else {
        after_round_trip(after_round_trips(s, trips.drop_last()), trips.last())
    }
}

/// Every entry of `trips` is the slot that a checkout takes from the pool as
/// the round trips before it left it.
pub open spec fn is_round_trip_run<T>(s: Seq<Option<T>>, trips: Seq<int>) -> bool
    decreases trips.len(),
{
    trips.len() == 0 || (is_round_trip_run(s, trips.drop_last()) && is_first_present(
        after_round_trips(s, trips.drop_last()),
        trips.last(),
    ))
}

/// Writing slot `i` changes the number of empty slots by what slot `i` itself
/// contributes before and after.
proof fn lemma_on_loan_update<T>(s: Seq<Option<T>>, i: int, slot: Option<T>)
    requires
        0 <= i < s.len(),
    ensures
        on_loan(s.update(i, slot)) + (if s[i] is None {
            1nat
        } else {
            0nat
        }) == on_loan(s) + (if slot is None {
            1nat
        } else {
            0nat
        }),
    decreases s.len(),
{
    let t = s.update(i, slot);
    if i == s.len() - 1 {
        assert(t.drop_last() =~= s.drop_last());
    } else {
        assert(t.drop_last() =~= s.drop_last().update(i, slot));
        lemma_on_loan_update(s.drop_last(), i, slot);
    }
}

/// The number of values on loan never exceeds the number of slots. It equals
/// the number of slots exactly when the pool is exhausted, and is zero exactly
/// when the pool is fully available.
pub proof fn lemma_on_loan_bounds<T>(s: Seq<Option<T>>)
    ensures
        on_loan(s) <= s.len(),
        on_loan(s) == s.len() <==> exhausted(s),
        on_loan(s) == 0 <==> fully_available(s),
    decreases s.len(),
{
    if s.len() > 0 {
        let front = s.drop_last();
        lemma_on_loan_bounds(front);
        if exhausted(s) {
            assert(s.last() is None);
            assert forall|i: int| 0 <= i < front.len() implies front[i] is None by {
                assert(s[i] is None);
            }
        }
        if on_loan(s) == s.len() {
            assert forall|i: int| 0 <= i < s.len() implies s[i] is None by {
                if i < front.len() {
                    assert(front[i] is None);
                }
            }
        }
        if fully_available(s) {
            assert(s.last() is Some);
            assert forall|i: int| 0 <= i < front.len() implies front[i] is Some by {
                assert(s[i] is Some);
            }
        }
        if on_loan(s) == 0 {
            assert forall|i: int| 0 <= i < s.len() implies s[i] is Some by {
                if i < front.len() {
                    assert(front[i] is Some);
                }
            }
        }
    }
}

/// A checkout can take a slot exactly when the pool is not exhausted.
pub proof fn lemma_checkout_succeeds_unless_exhausted<T>(s: Seq<Option<T>>)
    ensures
        !exhausted(s) <==> exists|k: int| is_first_present(s, k),
{
    if !exhausted(s) {
        let k = lemma_lowest_populated(s, s.len() as int);
        assert(is_first_present(s, k));
    }
}

/// The slot that a checkout takes is determined by the slots alone: two slots
/// that both qualify are the same slot. In a fully available pool it is slot
/// 0.
pub proof fn lemma_checkout_is_deterministic<T>(s: Seq<Option<T>>, i: int, j: int)
    requires
        is_first_present(s, i),
    ensures
        is_first_present(s, j) ==> i == j,
        fully_available(s) ==> i == 0,
{
    if is_first_present(s, j) {
        if i < j {
            assert(s[i] is None);
        }
        if j < i {
            assert(s[j] is None);
        }
    }
    if fully_available(s) && i > 0 {
        assert(s[0] is None);
    }
}

/// Among the first `n` slots, either none is populated or there is a lowest
/// populated one.
proof fn lemma_lowest_populated<T>(s: Seq<Option<T>>, n: int) -> (k: int)
    requires
        0 <= n <= s.len(),
    ensures
        (forall|j: int| 0 <= j < n ==> s[j] is None) || (0 <= k < n && is_first_present(s, k)),
    decreases n,
{
    if n == 0 {
        0
    } else {
        let k = lemma_lowest_populated(s, n - 1);
        if 0 <= k < n - 1 && is_first_present(s, k) {
            k
        } else {
            n - 1
        }
    }
}

/// A pool of N slots never has more than N values on loan. Each successful
/// checkout puts exactly one more value on loan and leaves the number of slots
/// as it was; so a run of successful checkouts without a disposal is no longer
/// than the number of values that were available at its start, and once it is
/// that long the pool is exhausted and the next checkout returns nothing.
pub proof fn lemma_capacity_bounds_leases<T>(s: Seq<Option<T>>, run: Seq<int>)
    requires
        is_checkout_run(s, run),
    ensures
        after_checkouts(s, run).len() == s.len(),
        on_loan(after_checkouts(s, run)) == on_loan(s) + run.len(),
        on_loan(s) + run.len() <= s.len(),
        on_loan(s) + run.len() == s.len() <==> exhausted(after_checkouts(s, run)),
        fully_available(s) ==> run.len() <= s.len(),
        fully_available(s) && run.len() == s.len() ==> exhausted(after_checkouts(s, run)),
    decreases run.len(),
{
    if run.len() > 0 {
        let before = after_checkouts(s, run.drop_last());
        lemma_capacity_bounds_leases(s, run.drop_last());
        lemma_on_loan_update(before, run.last(), None::<T>);
    }
    lemma_on_loan_bounds(after_checkouts(s, run));
    lemma_on_loan_bounds(s);
}

/// Checkouts go by slot index: from a fully available pool, the first checkout
/// takes slot 0, the next slot 1, and so on, whatever the values are.
pub proof fn lemma_fresh_pool_leases_in_slot_order<T>(s: Seq<Option<T>>, run: Seq<int>)
    requires
        fully_available(s),
        is_checkout_run(s, run),
    ensures
        forall|k: int| 0 <= k < run.len() ==> run[k] == k,
        forall|j: int|
            0 <= j < s.len() ==> after_checkouts(s, run)[j] == if j < run.len() {
                None
            } else {
                s[j]
            },
    decreases run.len(),
{
    if run.len() > 0 {
        let front = run.drop_last();
        let before = after_checkouts(s, front);
        lemma_fresh_pool_leases_in_slot_order(s, front);
        lemma_capacity_bounds_leases(s, front);
        let taken = run.last();
        if taken < front.len() {
            assert(before[taken] is None);
        }
        if taken > front.len() {
            assert(before[front.len() as int] == s[front.len() as int]);
        }
        assert forall|k: int| 0 <= k < run.len() implies run[k] == k by {
            if k < front.len() {
                assert(front[k] == k);
            }
        }
    }
}

/// A pool without slots is exhausted from the start, and no checkout from it
/// ever succeeds, however many are made.
pub proof fn lemma_empty_pool_never_leases<T>(s: Seq<Option<T>>, run: Seq<int>)
    requires
        s.len() == 0,
    ensures
        exhausted(s),
        is_checkout_run(s, run) ==> run.len() == 0,
{
    if is_checkout_run(s, run) {
        lemma_capacity_bounds_leases(s, run);
    }
}

/// Disposal makes the slot available again with the value that was disposed
/// of, takes one value off loan, and touches no other slot. The next checkout
/// takes that slot or a lower one; it takes that slot where every lower slot
/// is empty.
pub proof fn lemma_disposal_makes_slot_eligible<T>(s: Seq<Option<T>>, i: int, v: T)
    requires
        vacant(s, i),
    ensures
        populated(after_disposal(s, i, v), i),
        after_disposal(s, i, v)[i] == Some(v),
        !exhausted(after_disposal(s, i, v)),
        on_loan(after_disposal(s, i, v)) + 1 == on_loan(s),
        forall|j: int| 0 <= j < s.len() && j != i ==> after_disposal(s, i, v)[j] == s[j],
        forall|j: int| is_first_present(after_disposal(s, i, v), j) ==> j <= i,
        (forall|j: int| 0 <= j < i ==> s[j] is None) ==> is_first_present(
            after_disposal(s, i, v),
            i,
        ),
{
    let back = after_disposal(s, i, v);
    lemma_on_loan_update(s, i, Some(v));
    assert(back[i] is Some);
    assert forall|j: int| is_first_present(back, j) implies j <= i by {
        if j > i {
            assert(back[i] is None);
        }
    }
}

/// A value that is checked out and disposed of is the value that the next
/// checkout yields, from the same slot: whatever the item held when it was
/// disposed of, changed or not, is what comes back.
pub proof fn lemma_recheckout_yields_disposed_value<T>(s: Seq<Option<T>>, i: int, v: T)
    requires
        is_first_present(s, i),
    ensures
        vacant(after_checkout(s, i), i),
        is_first_present(after_disposal(after_checkout(s, i), i, v), i),
        after_disposal(after_checkout(s, i), i, v)[i] == Some(v),
        after_disposal(after_checkout(s, i), i, v) == s.update(i, Some(v)),
{
    let out = after_checkout(s, i);
    let back = after_disposal(out, i, v);
    assert(back =~= s.update(i, Some(v)));
    assert forall|j: int| 0 <= j < i implies back[j] is None by {
        assert(s[j] is None);
    }
}

/// Checking a value out and disposing of it unchanged, any number of times,
/// leaves the pool exactly as it was: the same values in the same slots. Every
/// such round trip takes the same slot.
pub proof fn lemma_round_trips_restore<T>(s: Seq<Option<T>>, trips: Seq<int>)
    requires
        is_round_trip_run(s, trips),
    ensures
        after_round_trips(s, trips) == s,
        forall|k: int| 0 <= k < trips.len() ==> is_first_present(s, #[trigger] trips[k]),
        fully_available(s) ==> fully_available(after_round_trips(s, trips)),
    decreases trips.len(),
{
    if trips.len() > 0 {
        let front = trips.drop_last();
        lemma_round_trips_restore(s, front);
        assert(after_round_trips(s, front) == s);
        assert(after_round_trip(s, trips.last()) =~= s);
        assert forall|k: int| 0 <= k < trips.len() implies is_first_present(
            s,
            #[trigger] trips[k],
        ) by {
            if k < front.len() {
                assert(front[k] == trips[k]);
            }
        }
    }
}

} // verus!
