use napkin_math::memory::{memory_read_random_iteration, shuffled_pages, MemoryReadTest, SequentialState};
use napkin_math::runner::Workload;
use napkin_math::suite::{random_values, Sort, SystemTimeRead};

#[test]
fn sequential_write_visits_each_block() {
    let mut s = SequentialState::new(3);
    assert!(s.write_next());
    assert!(s.write_next());
    assert!(!s.write_next());
    assert_eq!(s.i, 3);
    assert_eq!(s.vec[2], [8, 7, 110694, 5, 4, 3, 2, 1]);
    assert!(!s.write_next());
    assert_eq!(s.i, 4);
}

#[test]
fn sequential_read_walks_numbered_blocks() {
    let mut s = SequentialState::numbered(4);
    assert_eq!(s.vec[3], [3; 8]);
    let mut calls = 1;
    while s.read_next() {
        calls += 1;
    }
    assert_eq!(calls, 4);
}

#[test]
fn random_order_is_a_permutation() {
    let t = MemoryReadTest::new(1000);
    let mut order = t.order.clone();
    order.sort();
    assert_eq!(order, (0..1000).collect::<Vec<usize>>());
    assert_ne!(t.order, (0..1000).collect::<Vec<usize>>());
}

#[test]
fn random_read_visits_each_block_once() {
    let mut t = MemoryReadTest::new(50);
    let mut calls = 1;
    while memory_read_random_iteration(&mut t) {
        calls += 1;
    }
    assert_eq!(calls, 50);
    assert!(!memory_read_random_iteration(&mut t));
}

#[test]
fn random_write_changes_the_named_block() {
    let mut t = MemoryReadTest::new(10);
    let first = t.order[0];
    assert!(t.write_next());
    assert_eq!(t.vec[first], [8, 7, 6, 5, 4, 3, 2, 1]);
}

#[test]
fn sort_step_sorts_and_finishes() {
    let w = Sort { elements: 100 };
    let mut s = w.setup();
    assert_eq!(s.values.len(), 100);
    let mut expected = s.values.clone();
    expected.sort();
    assert!(!w.step(&mut s));
    assert_eq!(s.values, expected);
    assert_eq!(s.calls, 1);
    assert_eq!(random_values(7).len(), 7);
}

#[test]
fn system_time_step_never_finishes() {
    let w = SystemTimeRead;
    let mut s = w.setup();
    assert!(w.step(&mut s));
    assert!(w.step(&mut s));
    assert_eq!(s, 2);
}

#[test]
fn short_order_over_longer_buffer_keeps_going() {
    let mut t = MemoryReadTest { vec: vec![[1; 8]; 3], order: vec![0], i: 0 };
    assert!(memory_read_random_iteration(&mut t));
    assert_eq!(t.i, 1);
}

#[test]
fn page_offsets_are_each_page_once() {
    let mut pages = shuffled_pages(4096 * 10 + 100, 4096);
    assert_eq!(pages.len(), 10);
    pages.sort();
    let expected: Vec<u64> = (0..10).map(|k| k * 4096 + 1).collect();
    assert_eq!(pages, expected);
    assert!(shuffled_pages(100, 4096).is_empty());
}
