//! A fixed-capacity pool of reusable values.
//!
//! A [`ReuseCache`] owns a fixed number of slots, each filled once at
//! construction. A checkout moves the value of the lowest populated slot into
//! an [`Item`], which is the exclusive holder of that value until it is
//! disposed of; disposal moves whatever the item then holds back into the slot
//! it came from.
//!
//! The pool is an arena: the slots live in the `ReuseCache`, an `Item` records
//! the index of its slot, and every operation that changes a slot takes the
//! pool by `&mut`. Exclusive access is therefore settled by the borrowing rules,
//! and the contracts speak of the pool as a sequence of optional values.

pub mod laws;
pub mod pool;
pub mod slots;

pub use pool::Item;
pub use pool::ReuseCache;
