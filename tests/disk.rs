use napkin_math::disk::{page_at, ring_round};

#[test]
fn page_walk_ends_after_last_page() {
    let pages = vec![4097, 1, 8193];
    assert_eq!(page_at(&pages, 0), Some((4097, true)));
    assert_eq!(page_at(&pages, 2), Some((8193, false)));
    assert_eq!(page_at(&pages, 3), None);
}

#[test]
fn ring_round_reads_consecutive_blocks() {
    let r = ring_round(0, 1000, 1000, 100, 4);
    assert_eq!(r.offsets, vec![0, 100, 200, 300]);
    assert_eq!((r.offset, r.remaining), (400, 600));
}

#[test]
fn ring_round_starts_over_when_used_up() {
    let r = ring_round(800, 200, 1000, 100, 4);
    assert_eq!(r.offsets, vec![800, 900]);
    assert_eq!((r.offset, r.remaining), (0, 1000));
}
