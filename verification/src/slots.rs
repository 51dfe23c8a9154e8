//! The mathematical model of a pool: a sequence of slots, each either holding
//! a value (`Some`) or empty because its value is out on loan (`None`).

use vstd::prelude::*;

verus! {

/// Slot `i` exists and holds a value.
pub open spec fn populated<T>(s: Seq<Option<T>>, i: int) -> bool {
    0 <= i < s.len() && s[i] is Some
}

/// Slot `i` exists and its value is out on loan.
pub open spec fn vacant<T>(s: Seq<Option<T>>, i: int) -> bool {
    0 <= i < s.len() && s[i] is None
}

/// No slot holds a value: either the pool has no slots or every value is out
/// on loan. The two are not told apart.
pub open spec fn exhausted<T>(s: Seq<Option<T>>) -> bool {
    forall|i: int| 0 <= i < s.len() ==> s[i] is None
}

/// Every slot holds a value: nothing is out on loan.
pub open spec fn fully_available<T>(s: Seq<Option<T>>) -> bool {
    forall|i: int| 0 <= i < s.len() ==> s[i] is Some
}

/// Slot `i` is the one a checkout takes: it is populated and no slot before it
/// is.
pub open spec fn is_first_present<T>(s: Seq<Option<T>>, i: int) -> bool {
    populated(s, i) && forall|j: int| 0 <= j < i ==> s[j] is None
}

/// The slots after the value of slot `i` was handed out.
pub open spec fn after_checkout<T>(s: Seq<Option<T>>, i: int) -> Seq<Option<T>> {
    s.update(i, None)
}

/// The slots after `v` was moved back into slot `i`.
pub open spec fn after_disposal<T>(s: Seq<Option<T>>, i: int, v: T) -> Seq<Option<T>> {
    s.update(i, Some(v))
}

/// How many slots are empty, which is how many values are out on loan.
pub open spec fn on_loan<T>(s: Seq<Option<T>>) -> nat
    decreases s.len(),
{
    if s.len() == 0 {
        0
    } else {
        on_loan(s.drop_last()) + if s.last() is None {
            1nat
        } else {
            0nat
        }
    }
}

} // verus!
