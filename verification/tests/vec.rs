use core_containers::heap::{allocate, free, realloc, zero_alloc, Heap};
use core_containers::mem::{Allocator, Block};
use core_containers::vec::{byte_size, Vec};

#[test]
fn new_array_is_empty_without_storage() {
    let v: Vec<u32> = Vec::new();
    assert_eq!(v.len(), 0);
    assert_eq!(v.capacity(), 0);
    assert_eq!(v.as_slice(), &[] as &[u32]);
}

#[test]
fn with_capacity_zero_then_push_grows_to_two() {
    let mut v: Vec<u32> = Vec::with_capacity(0);
    assert_eq!(v.capacity(), 0);
    v.push(7);
    assert_eq!(v.capacity(), 2);
    assert_eq!(v.len(), 1);
    assert_eq!(v.as_slice(), &[7]);
}

#[test]
fn push_doubles_a_full_array() {
    let mut v: Vec<u32> = Vec::with_capacity(3);
    let mut caps = std::vec::Vec::new();
    for x in 0..7 {
        v.push(x);
        caps.push(v.capacity());
    }
    assert_eq!(caps, vec![3, 3, 3, 6, 6, 6, 12]);
    assert_eq!(v.as_slice(), &[0, 1, 2, 3, 4, 5, 6]);
}

#[test]
fn capacity_never_shrinks_under_push() {
    let mut v: Vec<u8> = Vec::new();
    let mut last = v.capacity();
    for x in 0..100u8 {
        v.push(x);
        let cap = v.capacity();
        assert!(cap >= last);
        if cap != last && last != 0 {
            assert!(cap >= 2 * last);
        }
        assert!(v.len() <= cap);
        last = cap;
    }
    assert_eq!(last, 128);
}

#[test]
fn length_counts_pushes_less_pops() {
    let mut v: Vec<i64> = Vec::new();
    for x in 0..10 {
        v.push(x);
    }
    for _ in 0..4 {
        assert!(v.pop().is_some());
    }
    assert_eq!(v.len(), 6);
    v.push(1);
    assert_eq!(v.pop(), Some(1));
    assert_eq!(v.len(), 6);
}

#[test]
fn pop_returns_last_and_keeps_capacity() {
    let mut v: Vec<u32> = Vec::with_capacity(5);
    v.push(1);
    v.push(2);
    assert_eq!(v.pop(), Some(2));
    assert_eq!(v.as_slice(), &[1]);
    assert_eq!(v.capacity(), 5);
    assert_eq!(v.pop(), Some(1));
    assert_eq!(v.pop(), None);
    assert_eq!(v.len(), 0);
    assert_eq!(v.capacity(), 5);
}

#[test]
fn reserve_grows_and_never_shrinks() {
    let mut v: Vec<u32> = Vec::new();
    v.push(1);
    v.push(2);
    v.push(3);
    assert_eq!(v.capacity(), 4);
    v.reserve(2);
    assert_eq!(v.capacity(), 4);
    v.reserve(3);
    assert_eq!(v.capacity(), 4);
    v.reserve(100);
    assert_eq!(v.capacity(), 100);
    assert_eq!(v.as_slice(), &[1, 2, 3]);
}

#[test]
fn byte_size_reports_overflow() {
    assert_eq!(byte_size::<[u64; 4194304]>(1_000_000_000_000), None);
    assert_eq!(byte_size::<u64>(1_000), Some(8_000));
    assert_eq!(byte_size::<u8>(usize::MAX), Some(usize::MAX));
    assert_eq!(byte_size::<u16>(usize::MAX), None);
    assert_eq!(byte_size::<u64>(0), Some(0));
}

#[test]
fn truncate_drops_the_tail_only() {
    let mut v: Vec<u32> = Vec::new();
    for x in 0..6 {
        v.push(x);
    }
    let cap = v.capacity();
    v.truncate(10);
    assert_eq!(v.len(), 6);
    v.truncate(6);
    assert_eq!(v.len(), 6);
    v.truncate(2);
    assert_eq!(v.as_slice(), &[0, 1]);
    assert_eq!(v.capacity(), cap);
    v.truncate(0);
    assert_eq!(v.len(), 0);
}

#[test]
fn shrink_to_fit_matches_length() {
    let mut v: Vec<u32> = Vec::with_capacity(10);
    v.push(4);
    v.push(5);
    v.shrink_to_fit();
    assert_eq!(v.capacity(), 2);
    assert_eq!(v.as_slice(), &[4, 5]);
    v.pop();
    v.pop();
    v.shrink_to_fit();
    assert_eq!(v.capacity(), 0);
    v.push(9);
    assert_eq!(v.capacity(), 2);
}

#[test]
fn as_mut_slice_changes_elements_in_place() {
    let mut v: Vec<u32> = Vec::with_capacity(8);
    v.push(1);
    v.push(2);
    v.push(3);
    {
        let s = v.as_mut_slice();
        assert_eq!(s.len(), 3);
        s[1] = 20;
    }
    assert_eq!(v.as_slice(), &[1, 20, 3]);
    assert_eq!(v.capacity(), 8);
}

#[test]
fn from_elem_clones_the_value() {
    let v = Vec::from_elem(4, String::from("ab"));
    assert_eq!(v.len(), 4);
    assert_eq!(v.capacity(), 4);
    assert!(v.as_slice().iter().all(|s| s == "ab"));
    let w = Vec::from_elem_with_alloc(0, 1u8, Heap);
    assert_eq!(w.len(), 0);
    assert_eq!(w.capacity(), 0);
}

#[test]
fn from_fn_calls_the_generator_per_index() {
    let v = Vec::from_fn(5, |i| i * i);
    assert_eq!(v.as_slice(), &[0, 1, 4, 9, 16]);
    assert_eq!(v.capacity(), 5);
    let w = Vec::from_fn_with_alloc(3, |i| i + 1, Heap);
    assert_eq!(w.as_slice(), &[1, 2, 3]);
}

#[test]
fn move_iter_yields_front_to_back() {
    let v = Vec::from_fn(4, |i| i);
    let mut it = v.move_iter();
    assert_eq!(it.size_hint(), (4, Some(4)));
    assert_eq!(it.next(), Some(0));
    assert_eq!(it.next(), Some(1));
    assert_eq!(it.size_hint(), (2, Some(2)));
    assert_eq!(it.next(), Some(2));
    assert_eq!(it.next(), Some(3));
    assert_eq!(it.next(), None);
    assert_eq!(it.next(), None);
    assert_eq!(it.size_hint(), (0, Some(0)));
}

#[test]
fn move_iter_drains_from_both_ends() {
    let v = Vec::from_fn(5, |i| i);
    let mut it = v.move_iter();
    assert_eq!(it.next_back(), Some(4));
    assert_eq!(it.next(), Some(0));
    assert_eq!(it.next_back(), Some(3));
    assert_eq!(it.next(), Some(1));
    assert_eq!(it.next(), Some(2));
    assert_eq!(it.next_back(), None);
    assert_eq!(it.next(), None);
}

#[test]
fn move_iter_dropped_early_releases_the_rest_once() {
    let marker = std::rc::Rc::new(());
    let mut v: Vec<std::rc::Rc<()>> = Vec::new();
    for _ in 0..5 {
        v.push(marker.clone());
    }
    assert_eq!(std::rc::Rc::strong_count(&marker), 6);
    let mut it = v.move_iter();
    let first = it.next();
    assert!(first.is_some());
    drop(it);
    assert_eq!(std::rc::Rc::strong_count(&marker), 2);
    drop(first);
    assert_eq!(std::rc::Rc::strong_count(&marker), 1);
}

#[test]
fn elements_are_released_exactly_once() {
    let marker = std::rc::Rc::new(());
    let mut v: Vec<std::rc::Rc<()>> = Vec::new();
    for _ in 0..8 {
        v.push(marker.clone());
    }
    let popped = v.pop();
    assert_eq!(std::rc::Rc::strong_count(&marker), 9);
    drop(popped);
    assert_eq!(std::rc::Rc::strong_count(&marker), 8);
    v.truncate(3);
    assert_eq!(std::rc::Rc::strong_count(&marker), 4);
    drop(v);
    assert_eq!(std::rc::Rc::strong_count(&marker), 1);
}

#[test]
fn heap_backend_grants_exact_sizes() {
    let a = allocate(16);
    assert_eq!(a.size(), 16);
    assert!(!a.is_null());
    let z = zero_alloc(0);
    assert!(z.is_null());
    let b = realloc(a, 64);
    assert_eq!(b.size(), 64);
    let c = realloc(b, 0);
    assert!(c.is_null());
    free(c);
    free(Block::null());
    assert!(allocate(0).is_null());
    assert_eq!(zero_alloc(5).size(), 5);
}

#[test]
fn heap_capability_reports_the_size_asked_for() {
    let mut h = Heap;
    let (b, n) = h.allocate(24);
    assert_eq!((b.size(), n), (24, 24));
    let (b, n) = h.realloc(b, 48);
    assert_eq!((b.size(), n), (48, 48));
    let (z, n) = h.zero_alloc(0);
    assert!(z.is_null());
    assert_eq!(n, 0);
    h.free(b);
    assert_eq!(Block::with_size(3).size(), 3);
}
