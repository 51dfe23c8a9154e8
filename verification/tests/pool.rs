use reuse_cache::Item;
use reuse_cache::ReuseCache;

#[test]
fn test_empty() {
    let mut rc = ReuseCache::new(0, || 0u32);
    assert!(rc.get().is_none())
}

#[test]
fn test_single() {
    let mut rc = ReuseCache::new(1, || 5u32);
    assert!(&*rc.get().unwrap() == &5u32)
}

#[test]
fn test_reuse() {
    let mut rc = ReuseCache::new(1, || 5u32);

    {
        let mut it = rc.get().unwrap();
        *it = 10u32;
        it.dispose(&mut rc);
    }

    {
        let it = rc.get().unwrap();
        assert!(&*it == &10u32)
    }
}

#[test]
fn test_taken() {
    let mut rc = ReuseCache::new(1, || 5u32);
    let it1 = rc.get();
    assert!(it1.is_some());
    let it2 = rc.get();
    assert!(it2.is_none());
}

#[test]
fn test_replace() {
    let mut rc = ReuseCache::new(1, || 5u32);
    {
        let mut it = rc.get().unwrap();
        assert!(it.replace(4) == 5);
        it.dispose(&mut rc);
    }

    {
        let it = rc.get().unwrap();
        assert!(*it == 4)
    }
}

fn counted(count: usize) -> ReuseCache<u32> {
    let mut next = 0u32;
    ReuseCache::new(count, move || {
        let value = next;
        next += 1;
        value
    })
}

#[test]
fn empty_pool_stays_empty_over_many_calls() {
    let mut rc = ReuseCache::new(0, || 0u32);
    for _ in 0..10 {
        assert!(rc.get().is_none());
    }
}

#[test]
fn generator_runs_once_per_slot_in_slot_order() {
    let mut calls = 0u32;
    let mut rc = ReuseCache::new(4, || {
        calls += 1;
        calls * 10
    });
    let held: Vec<Item<u32>> = (0..4).map(|_| rc.get().unwrap()).collect();
    let values: Vec<u32> = held.iter().map(|it| **it).collect();
    assert_eq!(values, vec![10, 20, 30, 40]);
    assert!(rc.get().is_none());
    drop(rc);
    assert_eq!(calls, 4);
}

#[test]
fn generator_is_not_called_for_an_empty_pool() {
    let mut calls = 0u32;
    let rc = ReuseCache::new(0, || {
        calls += 1;
        calls
    });
    drop(rc);
    assert_eq!(calls, 0);
}

#[test]
fn capacity_bounds_simultaneous_checkouts() {
    for capacity in 0..6usize {
        let mut rc = counted(capacity);
        let mut held = Vec::new();
        for _ in 0..capacity {
            held.push(rc.get().unwrap());
        }
        assert_eq!(held.len(), capacity);
        assert!(rc.get().is_none());
        assert!(rc.get().is_none());
    }
}

#[test]
fn first_checkout_takes_slot_zero_then_slot_one() {
    for _ in 0..3 {
        let mut rc = counted(2);
        let first = rc.get().unwrap();
        assert_eq!(*first, 0);
        let second = rc.get().unwrap();
        assert_eq!(*second, 1);
    }
}

#[test]
fn checkout_prefers_the_lowest_populated_slot() {
    let mut rc = counted(3);
    let a = rc.get().unwrap();
    let b = rc.get().unwrap();
    let c = rc.get().unwrap();
    assert_eq!((*a, *b, *c), (0, 1, 2));
    c.dispose(&mut rc);
    b.dispose(&mut rc);
    let again = rc.get().unwrap();
    assert_eq!(*again, 1);
    a.dispose(&mut rc);
    let lowest = rc.get().unwrap();
    assert_eq!(*lowest, 0);
    let last = rc.get().unwrap();
    assert_eq!(*last, 2);
    assert!(rc.get().is_none());
}

#[test]
fn disposal_returns_the_value_to_its_own_slot() {
    let mut rc = counted(3);
    let a = rc.get().unwrap();
    let mut b = rc.get().unwrap();
    *b = 77;
    b.dispose(&mut rc);
    a.dispose(&mut rc);
    let first = rc.get().unwrap();
    let second = rc.get().unwrap();
    let third = rc.get().unwrap();
    assert_eq!((*first, *second, *third), (0, 77, 2));
}

#[test]
fn failed_checkout_leaves_the_pool_untouched() {
    let mut rc = counted(2);
    let a = rc.get().unwrap();
    let b = rc.get().unwrap();
    assert!(rc.get().is_none());
    assert!(rc.is_awaiting(&a));
    assert!(rc.is_awaiting(&b));
    b.dispose(&mut rc);
    a.dispose(&mut rc);
    assert_eq!(*rc.get().unwrap(), 0);
    assert_eq!(*rc.get().unwrap(), 1);
}

#[test]
fn round_trips_leave_the_pool_as_it_was() {
    let mut rc = counted(3);
    for _ in 0..25 {
        let it = rc.get().unwrap();
        assert_eq!(*it, 0);
        it.dispose(&mut rc);
    }
    let a = rc.get().unwrap();
    let b = rc.get().unwrap();
    let c = rc.get().unwrap();
    assert_eq!((*a, *b, *c), (0, 1, 2));
    assert!(rc.get().is_none());
}

#[test]
fn replace_hands_back_the_displaced_value() {
    let mut rc = ReuseCache::new(1, || String::from("first"));
    let mut it = rc.get().unwrap();
    let displaced = it.replace(String::from("second"));
    assert_eq!(displaced, "first");
    assert_eq!(*it, "second");
    let displaced = it.replace(String::from("third"));
    assert_eq!(displaced, "second");
    it.dispose(&mut rc);
    assert_eq!(*rc.get().unwrap(), "third");
}

#[test]
fn write_access_changes_the_value_in_place() {
    let mut rc = ReuseCache::new(1, || vec![1u8, 2]);
    let mut it = rc.get().unwrap();
    it.push(3);
    assert_eq!(it.len(), 3);
    it.dispose(&mut rc);
    assert_eq!(*rc.get().unwrap(), vec![1u8, 2, 3]);
}

#[test]
fn awaiting_tells_a_vacant_slot_from_the_rest() {
    let mut rc = counted(1);
    let mut other = counted(2);
    let skipped = other.get().unwrap();
    let outside = other.get().unwrap();
    assert!(!rc.is_awaiting(&skipped));
    assert!(!rc.is_awaiting(&outside));
    let it = rc.get().unwrap();
    assert!(rc.is_awaiting(&it));
    assert!(rc.is_awaiting(&skipped));
    assert!(!rc.is_awaiting(&outside));
    assert!(other.is_awaiting(&skipped));
    assert!(other.is_awaiting(&outside));
    assert!(other.is_awaiting(&it));
    it.dispose(&mut rc);
    assert!(!rc.is_awaiting(&skipped));
}
