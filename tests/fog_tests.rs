use fabricof::fog::RevealTracker;

fn revealed_cells(t: &RevealTracker) -> Vec<(usize, usize)> {
    let mut cells = Vec::new();
    for r in 0..t.rows() {
        for c in 0..t.cols() {
            if t.is_revealed(r, c) {
                cells.push((r, c));
            }
        }
    }
    cells
}

#[test]
fn new_tracker_reveals_nothing() {
    let t = RevealTracker::new(15, 40);
    assert_eq!(t.rows(), 15);
    assert_eq!(t.cols(), 40);
    assert!(revealed_cells(&t).is_empty());
}

#[test]
fn update_reveals_exactly_the_box() {
    let mut t = RevealTracker::new(15, 40);
    t.update(10, 8);
    for r in 0..15usize {
        for c in 0..40usize {
            let inside = (r as i64 - 8).abs() <= 6 && (c as i64 - 10).abs() <= 6;
            assert_eq!(t.is_revealed(r, c), inside, "cell ({}, {})", r, c);
        }
    }
}

#[test]
fn box_is_square_not_round() {
    let mut t = RevealTracker::new(25, 40);
    t.update(20, 12);
    assert!(t.is_revealed(6, 14));
    assert!(t.is_revealed(18, 26));
    assert!(!t.is_revealed(5, 20));
    assert!(!t.is_revealed(12, 27));
}

#[test]
fn reveal_never_shrinks() {
    let mut t = RevealTracker::new(15, 40);
    let positions: [(i64, i64); 5] = [(7, 8), (10, 8), (30, 2), (-20, -20), (39, 14)];
    let mut before = revealed_cells(&t);
    for &(x, y) in positions.iter() {
        t.update(x, y);
        let after = revealed_cells(&t);
        for cell in before.iter() {
            assert!(after.contains(cell));
        }
        assert!(after.len() >= before.len());
        before = after;
    }
}

#[test]
fn far_away_character_reveals_nothing() {
    let mut t = RevealTracker::new(15, 40);
    t.update(i64::MAX, i64::MIN);
    t.update(-7, 8);
    t.update(46, 8);
    t.update(10, 21);
    assert!(revealed_cells(&t).is_empty());
}

#[test]
fn box_is_cut_at_grid_edges() {
    let mut t = RevealTracker::new(15, 40);
    t.update(0, 0);
    assert_eq!(revealed_cells(&t).len(), 7 * 7);
    assert!(t.is_revealed(0, 0));
    assert!(t.is_revealed(6, 6));
    assert!(!t.is_revealed(7, 0));
}

#[test]
fn cells_outside_grid_are_never_revealed() {
    let mut t = RevealTracker::new(15, 40);
    t.update(39, 14);
    assert!(t.is_revealed(14, 39));
    assert!(!t.is_revealed(15, 39));
    assert!(!t.is_revealed(14, 40));
    assert!(!t.is_revealed(usize::MAX, usize::MAX));
}

#[test]
fn empty_grid_tracker() {
    let mut t = RevealTracker::new(0, 0);
    t.update(0, 0);
    assert!(!t.is_revealed(0, 0));
}
