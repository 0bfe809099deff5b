use colony_sim::dirty::DirtyMap;

#[test]
fn new_is_all_dirty() {
    let dm = DirtyMap::new(16, 16);
    assert!(dm.is_dirty(0, 0));
    assert!(dm.is_dirty(15, 15));
}

#[test]
fn clear_makes_clean() {
    let mut dm = DirtyMap::new(16, 16);
    dm.clear();
    assert!(!dm.is_dirty(0, 0));
    assert!(!dm.is_dirty(8, 8));
}

#[test]
fn mark_single_tile() {
    let mut dm = DirtyMap::new(32, 32);
    dm.clear();
    dm.mark(5, 7);
    assert!(dm.is_dirty(5, 7));
    assert!(!dm.is_dirty(5, 6));
    assert!(!dm.is_dirty(4, 7));
}

#[test]
fn mark_rect() {
    let mut dm = DirtyMap::new(32, 32);
    dm.clear();
    dm.mark_rect(2, 3, 4, 5);
    // Inside rect
    assert!(dm.is_dirty(2, 3));
    assert!(dm.is_dirty(5, 7));
    // Outside rect
    assert!(!dm.is_dirty(1, 3));
    assert!(!dm.is_dirty(6, 3));
    assert!(!dm.is_dirty(2, 8));
}

#[test]
fn mark_all_overrides() {
    let mut dm = DirtyMap::new(10, 10);
    dm.clear();
    assert!(!dm.is_dirty(0, 0));
    dm.mark_all();
    assert!(dm.is_dirty(0, 0));
    assert!(dm.is_dirty(9, 9));
}

#[test]
fn out_of_bounds_safe() {
    let mut dm = DirtyMap::new(8, 8);
    dm.clear();
    // Should not panic
    dm.mark(100, 100);
    assert!(!dm.is_dirty(100, 100));
}

#[test]
fn mark_rect_clamped() {
    let mut dm = DirtyMap::new(8, 8);
    dm.clear();
    // Rect extends beyond map: should not panic and should mark in-bounds tiles
    dm.mark_rect(6, 6, 10, 10);
    assert!(dm.is_dirty(7, 7));
    assert!(!dm.is_dirty(5, 5));
}

#[test]
fn clear_after_mark_all() {
    let mut dm = DirtyMap::new(16, 16);
    dm.mark_all();
    dm.clear();
    assert!(!dm.is_dirty(0, 0));
    assert!(!dm.is_dirty(15, 15));
}

#[test]
fn large_map() {
    let mut dm = DirtyMap::new(256, 256);
    dm.clear();
    dm.mark(255, 255);
    assert!(dm.is_dirty(255, 255));
    assert!(!dm.is_dirty(0, 0));
    assert!(!dm.is_dirty(254, 255));
}

// --- further cases ---

#[test]
fn mark_only_touches_its_tile() {
    let mut dm = DirtyMap::new(100, 3);
    dm.clear();
    dm.mark(63, 0);
    dm.mark(64, 0);
    for x in 0..100 {
        for y in 0..3 {
            assert_eq!(dm.is_dirty(x, y), y == 0 && (x == 63 || x == 64), "tile ({}, {})", x, y);
        }
    }
}

#[test]
fn mark_rect_equals_single_marks() {
    let mut a = DirtyMap::new(20, 20);
    let mut b = DirtyMap::new(20, 20);
    a.clear();
    b.clear();
    a.mark_rect(17, 3, 5, 2);
    for y in 3..5 {
        for x in 17..22 {
            b.mark(x, y);
        }
    }
    for y in 0..25 {
        for x in 0..25 {
            assert_eq!(a.is_dirty(x, y), b.is_dirty(x, y), "tile ({}, {})", x, y);
        }
    }
}

#[test]
fn mark_all_reaches_off_map_tiles() {
    let mut dm = DirtyMap::new(4, 4);
    dm.clear();
    dm.mark_all();
    assert!(dm.is_dirty(1000, 1000));
    dm.clear();
    assert!(!dm.is_dirty(1000, 1000));
}

#[test]
fn empty_rect_marks_nothing() {
    let mut dm = DirtyMap::new(8, 8);
    dm.clear();
    dm.mark_rect(2, 2, 0, 5);
    dm.mark_rect(9, 9, 3, 3);
    for y in 0..8 {
        for x in 0..8 {
            assert!(!dm.is_dirty(x, y));
        }
    }
}

#[test]
fn dirty_state_after_a_sequence_of_operations() {
    let mut d = DirtyMap::new(8, 8);
    assert!(d.is_dirty(7, 7));
    d.mark(1, 1);
    assert!(d.is_dirty(5, 5));
    d.clear();
    d.mark(1, 1);
    d.mark_rect(4, 4, 2, 2);
    d.mark(20, 20);
    assert!(d.is_dirty(1, 1) && d.is_dirty(5, 5));
    assert!(!d.is_dirty(6, 6) && !d.is_dirty(20, 20) && !d.is_dirty(0, 0));
    d.mark_all();
    d.mark(2, 2);
    assert!(d.is_dirty(6, 6) && d.is_dirty(100, 100));
    d.clear();
    assert!(!d.is_dirty(1, 1));
}
