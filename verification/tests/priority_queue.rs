use core_containers::heap::Heap;
use core_containers::priority_queue::PriorityQueue;
use core_containers::vec::Vec;

fn array_of(items: &[i32]) -> Vec<i32, Heap> {
    let mut v = Vec::new();
    for x in items {
        v.push(*x);
    }
    v
}

fn is_heap(s: &[i32]) -> bool {
    (1..s.len()).all(|i| s[(i - 1) / 2] >= s[i])
}

fn drain(mut q: PriorityQueue<i32, Heap>) -> std::vec::Vec<i32> {
    let mut out = std::vec::Vec::new();
    while let Some(x) = q.pop() {
        out.push(x);
    }
    out
}

#[test]
fn push_sequence_keeps_maximum_on_top() {
    let mut q: PriorityQueue<i32> = PriorityQueue::new();
    assert_eq!(q.top(), None);
    let mut best = i32::MIN;
    for x in [3, 1, 4, 1, 5] {
        q.push(x);
        best = best.max(x);
        assert_eq!(q.top(), Some(&best));
    }
    assert_eq!(q.top(), Some(&5));
    assert_eq!(q.len(), 5);
}

#[test]
fn from_vec_then_pop_yields_descending() {
    let q = PriorityQueue::from_vec(array_of(&[3, 1, 4, 1, 5, 9, 2, 6]));
    assert_eq!(drain(q), vec![9, 6, 5, 4, 3, 2, 1, 1]);
}

#[test]
fn to_sorted_vec_is_ascending() {
    let q = PriorityQueue::from_vec(array_of(&[5, 3, 8, 1]));
    let sorted = q.to_sorted_vec();
    assert_eq!(sorted.as_slice(), &[1, 3, 5, 8]);
}

#[test]
fn to_sorted_vec_keeps_duplicates_and_capacity() {
    let input = [7, -2, 7, 0, 13, -2, 5, 5, 5, 1, 0, 99, -40];
    let q = PriorityQueue::from_vec(array_of(&input));
    let cap = q.capacity();
    let sorted = q.to_sorted_vec();
    let mut expected = input.to_vec();
    expected.sort();
    assert_eq!(sorted.as_slice(), expected.as_slice());
    assert_eq!(sorted.capacity(), cap);
}

#[test]
fn to_sorted_vec_of_empty_and_single() {
    let q: PriorityQueue<i32> = PriorityQueue::new();
    assert_eq!(q.to_sorted_vec().len(), 0);
    let q = PriorityQueue::from_vec(array_of(&[42]));
    assert_eq!(q.to_sorted_vec().as_slice(), &[42]);
}

#[test]
fn heap_order_after_every_push_and_pop() {
    let mut q: PriorityQueue<i32> = PriorityQueue::new();
    let items = [10, 4, 15, 20, 0, 8, 8, 31, -5, 2, 17, 17, 3];
    for x in items {
        q.push(x);
    }
    let mut n = items.len();
    while n > 0 {
        let top = *q.top().unwrap();
        let got = q.pop().unwrap();
        assert_eq!(got, top);
        n -= 1;
        assert_eq!(q.len(), n);
        if let Some(next) = q.top() {
            assert!(*next <= got);
        }
    }
    assert_eq!(q.pop(), None);
}

#[test]
fn from_vec_arrangement_is_a_heap() {
    let q = PriorityQueue::from_vec(array_of(&[3, 1, 4, 1, 5, 9, 2, 6, 5, 3, 5]));
    let v = q.to_vec();
    assert_eq!(v.len(), 11);
    assert!(is_heap(v.as_slice()));
    let mut sorted = v.as_slice().to_vec();
    sorted.sort();
    assert_eq!(sorted, vec![1, 1, 2, 3, 3, 4, 5, 5, 5, 6, 9]);
}

#[test]
fn push_arrangement_is_a_heap() {
    let mut q: PriorityQueue<i32> = PriorityQueue::new();
    for x in [1, 2, 3, 4, 5, 6, 7, 8, 9, 10] {
        q.push(x);
        let len = q.len();
        assert!(len > 0);
    }
    let v = q.to_vec();
    assert!(is_heap(v.as_slice()));
    assert_eq!(v.as_slice()[0], 10);
}

#[test]
fn push_moves_item_up_only_past_smaller_parents() {
    let mut q: PriorityQueue<i32> = PriorityQueue::new();
    q.push(5);
    q.push(5);
    q.push(7);
    let v = q.to_vec();
    assert_eq!(v.as_slice(), &[7, 5, 5]);
}

#[test]
fn pop_on_empty_queue_returns_none() {
    let mut q: PriorityQueue<i32> = PriorityQueue::with_capacity(4);
    assert_eq!(q.pop(), None);
    assert_eq!(q.len(), 0);
    assert_eq!(q.capacity(), 4);
    assert_eq!(q.top(), None);
}

#[test]
fn pop_single_element() {
    let mut q: PriorityQueue<i32> = PriorityQueue::new();
    q.push(11);
    assert_eq!(q.pop(), Some(11));
    assert_eq!(q.len(), 0);
    assert_eq!(q.pop(), None);
}

#[test]
fn queue_reserve_and_capacity_follow_the_array() {
    let mut q: PriorityQueue<i32> = PriorityQueue::with_alloc(Heap);
    assert_eq!(q.capacity(), 0);
    q.reserve(10);
    assert_eq!(q.capacity(), 10);
    q.reserve(3);
    assert_eq!(q.capacity(), 10);
    let q2: PriorityQueue<i32, Heap> = PriorityQueue::with_alloc_capacity(Heap, 6);
    assert_eq!(q2.capacity(), 6);
    assert_eq!(q2.len(), 0);
}

#[test]
fn queue_capacity_grows_by_doubling() {
    let mut q: PriorityQueue<i32> = PriorityQueue::new();
    let mut caps = std::vec::Vec::new();
    for x in 0..9 {
        q.push(x);
        caps.push(q.capacity());
    }
    assert_eq!(caps, vec![2, 2, 4, 4, 8, 8, 8, 8, 16]);
}

#[test]
fn from_vec_sifts_inner_elements_last_to_first() {
    let q = PriorityQueue::from_vec(array_of(&[3, 1, 4, 1, 5, 9, 2, 6]));
    assert_eq!(q.to_vec().as_slice(), &[9, 6, 4, 1, 5, 3, 2, 1]);
}

#[test]
fn push_sequence_arrangement() {
    let mut q: PriorityQueue<i32> = PriorityQueue::new();
    for x in [3, 1, 4, 1, 5] {
        q.push(x);
    }
    assert_eq!(q.to_vec().as_slice(), &[5, 4, 3, 1, 1]);
    let mut q: PriorityQueue<i32> = PriorityQueue::new();
    for x in [10, 4, 15, 20, 0, 8, 8, 31, -5, 2, 17, 17, 3] {
        q.push(x);
    }
    assert_eq!(q.to_vec().as_slice(), &[31, 20, 17, 15, 17, 10, 8, 4, -5, 0, 2, 8, 3]);
}

#[test]
fn pop_sifts_down_then_back_up() {
    let mut q = PriorityQueue::from_vec(array_of(&[3, 1, 4, 1, 5, 9, 2, 6]));
    assert_eq!(q.pop(), Some(9));
    assert_eq!(q.pop(), Some(6));
    assert_eq!(q.to_vec().as_slice(), &[5, 2, 4, 1, 1, 3]);
}

#[test]
fn pop_arrangement_after_first_removal() {
    let mut q = PriorityQueue::from_vec(array_of(&[3, 1, 4, 1, 5, 9, 2, 6]));
    assert_eq!(q.pop(), Some(9));
    assert_eq!(q.to_vec().as_slice(), &[6, 5, 4, 1, 1, 3, 2]);
}
