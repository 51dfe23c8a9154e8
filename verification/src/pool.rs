//! The pool and the handle to a checked-out value.

use crate::slots::after_checkout;
use crate::slots::after_disposal;
use crate::slots::exhausted;
use crate::slots::fully_available;
use crate::slots::is_first_present;
use crate::slots::vacant;
use vstd::prelude::*;

verus! {

/// A pool with a fixed number of slots. A slot is either populated or empty
/// because its value is checked out; the number of slots never changes.
pub struct ReuseCache<T> {
    all: Vec<Option<T>>,
}

/// A value checked out of a pool, together with the index of the slot it came
/// from. It always holds a value, which it owns until `dispose` moves it back.
/// An item that is dropped instead takes its value with it, and its slot stays
/// empty.
pub struct Item<T> {
    idx: usize,
    item: T,
}

impl<T> View for ReuseCache<T> {
    type V = Seq<Option<T>>;

    /// The slots in index order.
    closed spec fn view(&self) -> Seq<Option<T>> {
        self.all@
    }
}

impl<T> ReuseCache<T> {
    /// Builds a pool of `count` slots and fills each with a value produced by
    /// one call of `init`, from slot 0 upwards. Every slot starts populated.
    pub fn new<F: FnMut() -> T>(count: usize, mut init: F) -> (cache: ReuseCache<T>)
        requires
            count > 0 ==> call_requires(init, ()),
        ensures
            cache@.len() == count,
            fully_available(cache@),
            forall|i: int| 0 <= i < count ==> call_ensures(init, (), (#[trigger] cache@[i]).unwrap()),
    {
        let ghost generator = init;
        let mut v: Vec<Option<T>> = Vec::new();
        let mut i: usize = 0;
        while i < count
            invariant
                i <= count,
                v@.len() == i,
                init == generator,
                count > 0 ==> call_requires(init, ()),
                forall|j: int| 0 <= j < i ==> (#[trigger] v@[j]) is Some,
                forall|j: int| 0 <= j < i ==> call_ensures(init, (), (#[trigger] v@[j]).unwrap()),
            decreases count - i,
        {
            let value = init();
            v.push(Some(value));
            i = i + 1;
        }
        ReuseCache { all: v }
    }

    /// Checks out the value of the lowest populated slot, leaving that slot
    /// empty until the item is disposed of. Nothing is handed out exactly when
    /// the pool is exhausted, and the pool is then left as it was.
    pub fn get(&mut self) -> (lease: Option<Item<T>>)
        ensures
            lease is None <==> exhausted(old(self)@),
            lease is None ==> final(self)@ == old(self)@,
            lease is Some ==> is_first_present(old(self)@, lease.unwrap().slot()),
            lease is Some ==> old(self)@[lease.unwrap().slot()] == Some(lease.unwrap().value()),
            lease is Some ==> final(self)@ == after_checkout(old(self)@, lease.unwrap().slot()),
    {
        let mut i: usize = 0;
        while i < self.all.len()
            invariant
                self.all@ == old(self).all@,
                i <= self.all@.len(),
                forall|j: int| 0 <= j < i ==> self.all@[j] is None,
            decreases self.all@.len() - i,
        {
            if self.all[i].is_some() {
                let taken = self.all[i].take();
                return Some(Item { idx: i, item: taken.unwrap() });
            }
            i = i + 1;
        }
        None
    }

    /// Whether `item` can be disposed of into this pool: its slot exists here
    /// and is empty.
    pub open spec fn awaits(&self, item: &Item<T>) -> bool {
        vacant(self@, item.slot())
    }

    /// Tells whether `item` can be disposed of into this pool.
    pub fn is_awaiting(&self, item: &Item<T>) -> (yes: bool)
        ensures
            yes == self.awaits(item),
    {
        item.idx < self.all.len() && self.all[item.idx].is_none()
    }
}

impl<T> Item<T> {
    /// The index of the slot this value was checked out of.
    pub closed spec fn slot(&self) -> int {
        self.idx as int
    }

    /// The value currently held.
    pub closed spec fn value(&self) -> T {
        self.item
    }

    /// Puts `new` in the place of the value held and hands the displaced value
    /// to the caller. The displaced value does not go back to any slot.
    pub fn replace(&mut self, new: T) -> (displaced: T)
        ensures
            displaced == old(self).value(),
            final(self).value() == new,
            final(self).slot() == old(self).slot(),
    {
        let mut held = new;
        core::mem::swap(&mut self.item, &mut held);
        held
    }

    /// Ends the checkout: moves the value held back into the slot it came
    /// from, which makes that slot available again. No other slot changes.
    pub fn dispose(self, cache: &mut ReuseCache<T>)
        requires
            old(cache).awaits(&self),
        ensures
            final(cache)@ == after_disposal(old(cache)@, self.slot(), self.value()),
    {
        cache.all[self.idx] = Some(self.item);
    }
}

impl<T> core::ops::Deref for Item<T> {
    type Target = T;

    /// Read access to the value held.
    fn deref(&self) -> (held: &T)
        ensures
            *held == self.value(),
    {
        &self.item
    }
}

impl<T> core::ops::DerefMut for Item<T> {
    /// Write access to the value held: what is written through the reference
    /// is what the item holds afterwards.
    fn deref_mut(&mut self) -> (held: &mut T)
        ensures
            *held == old(self).value(),
            final(self).value() == *final(held),
            final(self).slot() == old(self).slot(),
    {
        &mut self.item
    }
}

} // verus!
