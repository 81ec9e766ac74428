use std::cell::Cell;
use std::rc::Rc;

use shared_counted::protocol::{count_after_clone, is_exclusive, is_last_drop, MAX_REFCOUNT};
use shared_counted::{Arc, Heap};

/// Counts how many times a value of it has been destroyed.
struct DetectDrop {
    drops: Rc<Cell<usize>>,
}

impl Drop for DetectDrop {
    fn drop(&mut self) {
        self.drops.set(self.drops.get() + 1);
    }
}

#[test]
fn test() {
    let drops = Rc::new(Cell::new(0));
    let mut heap = Heap::new();
    let x = Arc::new(&mut heap, ("hello", DetectDrop { drops: drops.clone() }));
    let y = x.clone(&mut heap);

    assert_eq!(x.data(&heap).0, "hello");
    assert_eq!(y.data(&heap).0, "hello");

    let gone = x.drop(&mut heap);
    assert!(gone.is_none());
    assert_eq!(drops.get(), 0);

    let gone = y.drop(&mut heap);
    assert!(gone.is_some());
    drop(gone);
    assert_eq!(drops.get(), 1);
}

#[test]
fn destructor_runs_once_after_last_drop() {
    let drops = Rc::new(Cell::new(0));
    let mut heap = Heap::new();
    let a = Arc::new(&mut heap, DetectDrop { drops: drops.clone() });
    let b = a.clone(&mut heap);
    let c = b.clone(&mut heap);
    assert!(a.drop(&mut heap).is_none());
    assert!(c.drop(&mut heap).is_none());
    assert_eq!(drops.get(), 0);
    let last = b.drop(&mut heap);
    assert!(last.is_some());
    drop(last);
    assert_eq!(drops.get(), 1);
}

#[test]
fn balanced_clones_and_drops() {
    let n = 5;
    let mut heap = Heap::new();
    let first = Arc::new(&mut heap, 7u32);
    let mut handles = Vec::new();
    for _ in 0..n {
        handles.push(first.clone(&mut heap));
    }
    handles.push(first);
    let mut freed = Vec::new();
    for h in handles {
        freed.push(h.drop(&mut heap));
    }
    assert_eq!(freed.len(), n + 1);
    for f in &freed[..n] {
        assert_eq!(*f, None);
    }
    assert_eq!(freed[n], Some(7));
}

#[test]
fn get_mut_only_when_exclusive() {
    let mut heap = Heap::new();
    let mut a = Arc::new(&mut heap, 10i32);
    match Arc::get_mut(&mut a, &mut heap) {
        Some(v) => *v = 11,
        None => panic!("a single handle must get mutable access"),
    }
    let mut b = a.clone(&mut heap);
    assert!(Arc::get_mut(&mut a, &mut heap).is_none());
    assert!(Arc::get_mut(&mut b, &mut heap).is_none());
    assert_eq!(*b.data(&heap), 11);
    assert!(b.drop(&mut heap).is_none());
    match Arc::get_mut(&mut a, &mut heap) {
        Some(v) => *v += 1,
        None => panic!("the remaining handle must get mutable access"),
    }
    assert_eq!(*a.data(&heap), 12);
    assert_eq!(a.drop(&mut heap), Some(12));
}

#[test]
fn mutation_is_seen_through_every_handle() {
    let mut heap = Heap::new();
    let mut a = Arc::new(&mut heap, String::from("left"));
    if let Some(s) = Arc::get_mut(&mut a, &mut heap) {
        s.push_str("-right");
    }
    let b = a.clone(&mut heap);
    assert_eq!(b.data(&heap), "left-right");
    assert_eq!(a.data(&heap), "left-right");
}

#[test]
fn blocks_are_independent() {
    let mut heap = Heap::new();
    let a = Arc::new(&mut heap, 1u8);
    let mut b = Arc::new(&mut heap, 2u8);
    let a2 = a.clone(&mut heap);
    assert!(Arc::get_mut(&mut b, &mut heap).is_some());
    assert_eq!(a.drop(&mut heap), None);
    assert_eq!(b.drop(&mut heap), Some(2));
    assert_eq!(*a2.data(&heap), 1);
    assert_eq!(a2.drop(&mut heap), Some(1));
}

#[test]
fn clone_count_stops_at_threshold() {
    assert_eq!(count_after_clone(0), Some(1));
    assert_eq!(count_after_clone(41), Some(42));
    assert_eq!(count_after_clone(MAX_REFCOUNT - 1), Some(MAX_REFCOUNT));
    assert_eq!(count_after_clone(MAX_REFCOUNT), None);
    assert_eq!(count_after_clone(usize::MAX), None);
    assert_eq!(MAX_REFCOUNT, isize::MAX as usize);
}

#[test]
fn last_drop_and_exclusivity_decisions() {
    assert!(is_last_drop(1));
    assert!(!is_last_drop(2));
    assert!(!is_last_drop(usize::MAX));
    assert!(is_exclusive(1));
    assert!(!is_exclusive(0));
    assert!(!is_exclusive(2));
}
