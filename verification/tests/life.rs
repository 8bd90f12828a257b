use priklady::life::{xorshift64, Grid, COLS, ROWS};

fn block_at(g: &mut Grid, col: usize, row: usize) {
    g.set(col, row, true);
    g.set(col + 1, row, true);
    g.set(col, row + 1, true);
    g.set(col + 1, row + 1, true);
}

#[test]
fn new_grid_is_empty() {
    let g = Grid::new();
    assert_eq!(g.count_alive(), 0);
    assert!(!g.get(0, 0));
}

#[test]
fn empty_grid_stays_empty() {
    let g = Grid::new().step();
    assert_eq!(g.count_alive(), 0);
}

#[test]
fn set_then_get() {
    let mut g = Grid::new();
    g.set(3, 7, true);
    assert!(g.get(3, 7));
    assert!(!g.get(7, 3));
    g.set(3, 7, false);
    assert!(!g.get(3, 7));
}

#[test]
fn off_board_cells_are_dead() {
    let mut g = Grid::new();
    g.set(0, 0, true);
    assert!(!g.get(-1, 0));
    assert!(!g.get(0, -1));
    assert!(!g.get(COLS as i32, 0));
    assert!(!g.get(0, ROWS as i32));
}

#[test]
fn neighbours_counted_at_corner() {
    let mut g = Grid::new();
    block_at(&mut g, 0, 0);
    assert_eq!(g.count_neighbors(0, 0), 3);
    assert_eq!(g.count_neighbors(1, 1), 3);
    assert_eq!(g.count_neighbors(2, 2), 1);
    assert_eq!(g.count_neighbors(-1, -1), 1);
}

#[test]
fn block_is_still_life() {
    let mut g = Grid::new();
    block_at(&mut g, 10, 10);
    let n = g.step();
    assert_eq!(n.count_alive(), 4);
    for (c, r) in [(10, 10), (11, 10), (10, 11), (11, 11)] {
        assert!(n.get(c, r));
    }
}

#[test]
fn blinker_oscillates() {
    let mut g = Grid::new();
    g.set(5, 4, true);
    g.set(5, 5, true);
    g.set(5, 6, true);
    let g1 = g.step();
    assert!(g1.get(4, 5) && g1.get(5, 5) && g1.get(6, 5));
    assert!(!g1.get(5, 4) && !g1.get(5, 6));
    assert_eq!(g1.count_alive(), 3);
    let g2 = g1.step();
    assert!(g2.get(5, 4) && g2.get(5, 5) && g2.get(5, 6));
    assert_eq!(g2.count_alive(), 3);
}

#[test]
fn lonely_cell_dies_and_crowded_cell_dies() {
    let mut g = Grid::new();
    g.set(20, 20, true);
    assert!(!g.step().get(20, 20));
    let mut h = Grid::new();
    for (c, r) in [(30, 30), (29, 29), (31, 29), (29, 31), (31, 31)] {
        h.set(c, r, true);
    }
    assert_eq!(h.count_neighbors(30, 30), 4);
    assert!(!h.step().get(30, 30));
}

#[test]
fn xorshift_step_matches_shifts() {
    let mut s: u64 = 12345;
    s ^= s << 13;
    s ^= s >> 7;
    s ^= s << 17;
    assert_eq!(xorshift64(12345), s);
    assert_ne!(xorshift64(1), 1);
}

#[test]
fn randomize_follows_generator() {
    let mut g = Grid::new();
    g.randomize(42);
    let mut s = 42u64;
    let mut alive = 0;
    for i in 0..COLS * ROWS {
        s = xorshift64(s);
        let expect = (s & 3) == 0;
        assert_eq!(g.get((i % COLS) as i32, (i / COLS) as i32), expect);
        if expect {
            alive += 1;
        }
    }
    assert_eq!(g.count_alive(), alive);
    assert!(alive > 600 && alive < 1800);
    let mut h = Grid::new();
    h.randomize(42);
    assert_eq!(h.count_alive(), alive);
}
