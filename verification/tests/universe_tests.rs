use game_of_life::Universe;

/// A dead universe of the given size.
fn blank(width: u32, height: u32) -> Universe {
    let mut u = Universe::new(width, height);
    u.set_cells_dead_all();
    u
}

fn cell_at(u: &Universe, row: u32, col: u32) -> bool {
    u.get_cells().contains((row * u.width() + col) as usize)
}

fn live_count(u: &Universe) -> usize {
    u.get_cells().count_ones(..)
}

#[test]
fn new_has_requested_dimensions() {
    let u = Universe::new(9, 7);
    assert_eq!(u.width(), 9);
    assert_eq!(u.height(), 7);
    assert_eq!(u.get_cells().len(), 63);
}

#[test]
fn new_seeding_is_not_constant() {
    // 4096 independent fair coin flips: in practice both values occur.
    let u = Universe::new(64, 64);
    let ones = live_count(&u);
    assert!(ones > 0 && ones < 4096);
}

#[test]
fn set_cell_and_read_back() {
    let mut u = blank(4, 4);
    assert!(!cell_at(&u, 2, 3));
    u.set_cell(2, 3, true);
    assert!(cell_at(&u, 2, 3));
    assert_eq!(live_count(&u), 1);
    u.set_cell(2, 3, false);
    assert!(!cell_at(&u, 2, 3));
    assert_eq!(live_count(&u), 0);
}

#[test]
fn toggle_cell_flips() {
    let mut u = blank(3, 3);
    u.toggle_cell(1, 1);
    assert!(cell_at(&u, 1, 1));
    u.toggle_cell(1, 1);
    assert!(!cell_at(&u, 1, 1));
}

#[test]
fn set_cell_alive_and_dead() {
    let mut u = blank(3, 3);
    u.set_cell_alive(0, 2);
    assert!(cell_at(&u, 0, 2));
    u.set_cell_dead(0, 2);
    assert!(!cell_at(&u, 0, 2));
}

#[test]
fn set_cells_writes_every_listed_cell() {
    let mut u = blank(4, 4);
    u.set_cells(&[(0, 0), (1, 2), (3, 3)], true);
    assert!(cell_at(&u, 0, 0));
    assert!(cell_at(&u, 1, 2));
    assert!(cell_at(&u, 3, 3));
    assert_eq!(live_count(&u), 3);
    u.set_cells(&[(1, 2)], false);
    assert!(!cell_at(&u, 1, 2));
    assert_eq!(live_count(&u), 2);
}

#[test]
fn set_cells_alive_and_dead_lists() {
    let mut u = blank(4, 4);
    u.set_cells_alive(&[(0, 1), (2, 2)]);
    assert!(cell_at(&u, 0, 1));
    assert!(cell_at(&u, 2, 2));
    u.set_cells_dead(&[(0, 1)]);
    assert!(!cell_at(&u, 0, 1));
    assert!(cell_at(&u, 2, 2));
}

// Duplicate coordinates are last-write-wins: the value written last is the
// value that stays, whether the duplicates sit in one list or in two calls.
#[test]
fn bulk_set_last_write_wins() {
    let mut u = blank(4, 4);
    u.set_cells(&[(0, 0)], true);
    u.set_cells(&[(0, 0), (0, 0)], false);
    assert!(!cell_at(&u, 0, 0));
    u.set_cells(&[(0, 0), (0, 0)], true);
    assert!(cell_at(&u, 0, 0));
    assert_eq!(live_count(&u), 1);
}

#[test]
fn set_cells_all_fills_and_clears() {
    let mut u = blank(3, 5);
    u.set_cells_all(true);
    assert_eq!(live_count(&u), 15);
    u.set_cells_all(false);
    assert_eq!(live_count(&u), 0);
    u.set_cells_alive_all();
    assert_eq!(live_count(&u), 15);
    u.set_cells_dead_all();
    assert_eq!(live_count(&u), 0);
}

// Dimension changes reset every cell dead and resize the storage.
#[test]
fn set_width_resets_state() {
    let mut u = blank(4, 4);
    u.set_cells_alive_all();
    u.set_width(6);
    assert_eq!(u.width(), 6);
    assert_eq!(u.height(), 4);
    assert_eq!(u.get_cells().len(), 24);
    assert_eq!(live_count(&u), 0);
}

#[test]
fn set_height_resets_state() {
    let mut u = blank(4, 4);
    u.set_cells_alive_all();
    u.set_height(2);
    assert_eq!(u.width(), 4);
    assert_eq!(u.height(), 2);
    assert_eq!(u.get_cells().len(), 8);
    assert_eq!(live_count(&u), 0);
}

// Ticking the same starting grid twice over gives the same next grid.
#[test]
fn tick_is_deterministic() {
    let pattern: &[(u32, u32)] = &[(0, 1), (1, 3), (2, 2), (3, 0), (3, 4), (4, 4)];
    let mut a = blank(5, 5);
    let mut b = blank(5, 5);
    a.set_cells_alive(pattern);
    b.set_cells_alive(pattern);
    a.tick();
    b.tick();
    assert_eq!(a.render(), b.render());
    assert_eq!(a.cells(), b.cells());
}

// The rule table: survival on two or three neighbors, birth on exactly
// three, death otherwise.
#[test]
fn rule_cases() {
    // Live cell with no neighbors dies of underpopulation.
    let mut u = blank(5, 5);
    u.set_cell_alive(2, 2);
    u.tick();
    assert_eq!(live_count(&u), 0);

    // Live cell with one neighbor dies; the pair annihilates.
    let mut u = blank(5, 5);
    u.set_cells_alive(&[(2, 2), (2, 3)]);
    u.tick();
    assert_eq!(live_count(&u), 0);

    // Live cell with two neighbors survives: the blinker center.
    let mut u = blank(5, 5);
    u.set_cells_alive(&[(2, 1), (2, 2), (2, 3)]);
    u.tick();
    assert!(cell_at(&u, 2, 2));

    // Live cell with three neighbors survives: every block cell.
    let mut u = blank(5, 5);
    u.set_cells_alive(&[(1, 1), (1, 2), (2, 1), (2, 2)]);
    u.tick();
    assert!(cell_at(&u, 1, 1));

    // Live cell with four neighbors dies of overpopulation.
    let mut u = blank(5, 5);
    u.set_cells_alive(&[(1, 2), (2, 1), (2, 2), (2, 3), (3, 2)]);
    u.tick();
    assert!(!cell_at(&u, 2, 2));

    // Dead cell with exactly three neighbors is born.
    let mut u = blank(5, 5);
    u.set_cells_alive(&[(1, 1), (1, 2), (1, 3)]);
    u.tick();
    assert!(cell_at(&u, 0, 2));

    // Dead cell with two neighbors stays dead.
    let mut u = blank(5, 5);
    u.set_cells_alive(&[(1, 1), (1, 3)]);
    u.tick();
    assert_eq!(live_count(&u), 0);
}

// The corner cell's neighborhood wraps to the far edges: three live cells
// at (h-1,w-1), (h-1,0) and (0,w-1) give the dead corner exactly three
// neighbors, so it is born.
#[test]
fn toroidal_wrap_at_corner() {
    let mut u = blank(4, 4);
    u.set_cells_alive(&[(3, 3), (3, 0), (0, 3)]);
    u.tick();
    assert!(cell_at(&u, 0, 0));
}

// A block is a still life: any number of ticks leaves it unchanged.
#[test]
fn block_is_stable() {
    let mut u = blank(4, 4);
    u.set_cells_alive(&[(1, 1), (1, 2), (2, 1), (2, 2)]);
    let before = u.render();
    for _ in 0..5 {
        u.tick();
        assert_eq!(u.render(), before);
    }
}

// A blinker oscillates with period two: the orthogonal line after one tick,
// the starting line again after two.
#[test]
fn blinker_oscillates() {
    let mut u = blank(5, 5);
    u.set_cells_alive(&[(2, 1), (2, 2), (2, 3)]);
    let horizontal = u.render();
    u.tick();
    assert!(cell_at(&u, 1, 2));
    assert!(cell_at(&u, 2, 2));
    assert!(cell_at(&u, 3, 2));
    assert_eq!(live_count(&u), 3);
    u.tick();
    assert_eq!(u.render(), horizontal);
}

// On a 1x1 grid the sole cell is its own neighbor eight times over: alive
// it dies of overpopulation, dead it stays dead; nothing crashes.
#[test]
fn degenerate_one_by_one() {
    let mut u = blank(1, 1);
    u.set_cell_alive(0, 0);
    u.tick();
    assert!(!cell_at(&u, 0, 0));
    u.tick();
    assert!(!cell_at(&u, 0, 0));
}

#[test]
fn empty_dimensions_are_legal() {
    let mut u = Universe::new(0, 4);
    u.tick();
    assert_eq!(u.get_cells().len(), 0);
    assert_eq!(u.render(), "\n\n\n\n");
    let mut v = Universe::new(3, 0);
    v.tick();
    assert_eq!(v.get_cells().len(), 0);
    assert_eq!(v.render(), "");
}

#[test]
fn render_exact_glyphs() {
    let mut u = blank(3, 2);
    u.set_cells_alive(&[(0, 0), (1, 2)]);
    assert_eq!(u.render(), "*..\n..*\n");
}

// The packed block view: 32 cells per u32 block, cell i at bit i % 32 of
// block i / 32.
#[test]
fn cells_block_view_is_bit_packed() {
    let mut u = blank(8, 8);
    u.set_cell_alive(0, 0); // flat index 0: block 0, bit 0
    u.set_cell_alive(4, 1); // flat index 33: block 1, bit 1
    let blocks = u.cells();
    assert_eq!(blocks.len(), 2);
    assert_eq!(blocks[0] & 1, 1);
    assert_eq!(blocks[1] & 2, 2);
    assert_eq!(blocks[0] & !1, 0);
    assert_eq!(blocks[1] & !2, 0);
}
