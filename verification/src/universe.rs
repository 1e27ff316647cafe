//! The cell universe: a fixed-dimension toroidal grid of binary cells, its
//! index arithmetic, wrap-around neighbor counting, mutation operations, and
//! the one-generation transition.

use vstd::prelude::*;
use vstd::arithmetic::div_mod::lemma_fundamental_div_mod_converse;
use vstd::string::StringExecFns;
use fixedbitset::FixedBitSet;
use crate::bitgrid::{bit_seq, bits_with_capacity, bits_set, bits_get, bits_clone, bits_as_slice};

verus! {

/// Relies on `rand::random::<bool>`: a draw from the standard distribution,
/// which on `bool` is a fair coin; nothing is promised of the value.
#[verifier::external_body]
fn random_bool() -> bool {
    rand::random::<bool>()
}

/// The flattened row-major position of the cell at `(row, col)`.
pub open spec fn flat_index(row: int, col: int, width: int) -> int {
    row * width + col
}

/// One step toward the low edge, wrapping to `n - 1` at `0`.
pub open spec fn wrap_dec(i: int, n: int) -> int {
    if i == 0 {
        n - 1
    } else {
        i - 1
    }
}

/// One step toward the high edge, wrapping to `0` at `n - 1`.
pub open spec fn wrap_inc(i: int, n: int) -> int {
    if i == n - 1 {
        0
    } else {
        i + 1
    }
}

/// `1` when the cell at `(row, col)` of a grid `width` columns wide is alive,
/// else `0`.
pub open spec fn live_at(g: Seq<bool>, width: int, row: int, col: int) -> int {
    if g[row * width + col] {
        1
    } else {
        0
    }
}

/// The number of live cells among the eight toroidal neighbors of
/// `(row, col)`: row and column each move one step up and down with
/// wrap-around, so on degenerate grids the same cell may be counted more
/// than once.
pub open spec fn neighbor_count(g: Seq<bool>, width: int, height: int, row: int, col: int) -> int {
    let north = wrap_dec(row, height);
    let south = wrap_inc(row, height);
    let west = wrap_dec(col, width);
    let east = wrap_inc(col, width);
    live_at(g, width, north, west) + live_at(g, width, north, col) + live_at(
        g,
        width,
        north,
        east,
    ) + live_at(g, width, row, west) + live_at(g, width, row, east) + live_at(
        g,
        width,
        south,
        west,
    ) + live_at(g, width, south, col) + live_at(g, width, south, east)
}

/// The birth/survival rule: a live cell survives with two or three live
/// neighbors, a dead cell is born with exactly three, and every other
/// combination leaves the cell dead.
pub open spec fn next_cell(alive: bool, neighbors: int) -> bool {
    if alive {
        neighbors == 2 || neighbors == 3
    } else {
        neighbors == 3
    }
}

/// The whole next generation, every cell computed from the pre-tick grid
/// alone.
pub open spec fn tick_spec(g: Seq<bool>, width: int, height: int) -> Seq<bool> {
    Seq::new(
        g.len(),
        |i: int| next_cell(g[i], neighbor_count(g, width, height, i / width, i % width)),
    )
}

/// Whether some entry of `coords` names the cell whose flattened row-major
/// position is `i`.
pub open spec fn hits(coords: Seq<(u32, u32)>, width: int, i: int) -> bool {
    exists|k: int|
        0 <= k < coords.len() && flat_index(coords[k].0 as int, coords[k].1 as int, width) == i
}

/// The one-character glyph a cell renders as.
pub open spec fn glyph(alive: bool) -> char {
    if alive {
        '*'
    } else {
        '.'
    }
}

/// The textual rendering of a grid: `height` lines of `width` glyphs each,
/// row-major, every line terminated by a newline.
pub open spec fn render_spec(g: Seq<bool>, width: int, height: int) -> Seq<char> {
    Seq::new(
        (height * (width + 1)) as nat,
        |i: int|
            if i % (width + 1) == width {
                '\n'
            } else {
                glyph(g[(i / (width + 1)) * width + i % (width + 1)])
            },
    )
}

/// A fixed-size toroidal grid of cells, one bit per cell in row-major order.
pub struct Universe {
    width: u32,
    height: u32,
    cells: FixedBitSet,
}

impl Universe {
    /// The cell contents, one boolean per cell, in row-major order.
    pub closed spec fn grid(self) -> Seq<bool> {
        bit_seq(self.cells)
    }

    /// The number of columns.
    pub closed spec fn spec_width(self) -> u32 {
        self.width
    }

    /// The number of rows.
    pub closed spec fn spec_height(self) -> u32 {
        self.height
    }

    /// The cell count, `width * height`.
    pub open spec fn area(self) -> int {
        self.spec_width() * self.spec_height()
    }

    /// The storage always holds exactly one bit per cell, and the cell count
    /// fits the index arithmetic.
    pub open spec fn wf(self) -> bool {
        &&& self.area() <= u32::MAX
        &&& self.grid().len() == self.area()
    }

    /// Builds a `width` by `height` universe; each cell is drawn alive or
    /// dead independently with probability one half.
    pub fn new(width: u32, height: u32) -> (u: Universe)
        requires
            width * height <= u32::MAX,
        ensures
            u.wf(),
            u.spec_width() == width,
            u.spec_height() == height,
    {
        let size = (width * height) as usize;
        let mut cells = bits_with_capacity(size);
        let mut i: usize = 0;
        while i < size
            invariant
                i <= size,
                bit_seq(cells).len() == size,
            decreases size - i,
        {
            let alive: bool = random_bool();
            bits_set(&mut cells, i, alive);
            i = i + 1;
        }
        Universe { width, height, cells }
    }

    /// The number of columns.
    pub fn width(&self) -> (w: u32)
        ensures
            w == self.spec_width(),
    {
        self.width
    }

    /// The number of rows.
    pub fn height(&self) -> (h: u32)
        ensures
            h == self.spec_height(),
    {
        self.height
    }

    /// The flattened row-major index of `(row, col)`.
    fn get_index(&self, row: u32, col: u32) -> (idx: usize)
        requires
            self.wf(),
            row < self.spec_height(),
            col < self.spec_width(),
        ensures
            idx == flat_index(row as int, col as int, self.spec_width() as int),
            idx < self.grid().len(),
    {
        proof {
            assert((row as int) * (self.spec_width() as int) + (col as int) < (
            self.spec_width() as int) * (self.spec_height() as int)) by (nonlinear_arith)
                requires
                    (row as int) < (self.spec_height() as int),
                    (col as int) < (self.spec_width() as int),
                    0 <= row as int,
                    0 <= col as int,
            ;
        }
        (row * self.width + col) as usize
    }

    /// Counts the live cells among the eight toroidal neighbors of
    /// `(row, col)`, wrapping one step past every edge; the count is between
    /// zero and eight, and on degenerate grids one cell may contribute more
    /// than once.
    fn live_neighbor_count(&self, row: u32, col: u32) -> (count: u8)
        requires
            self.wf(),
            row < self.spec_height(),
            col < self.spec_width(),
        ensures
            count == neighbor_count(
                self.grid(),
                self.spec_width() as int,
                self.spec_height() as int,
                row as int,
                col as int,
            ),
            count <= 8,
    {
        let mut count: u8 = 0;

        let north = if row == 0 {
            self.height - 1
        } else {
            row - 1
        };
        let south = if row == self.height - 1 {
            0
        } else {
            row + 1
        };
        let west = if col == 0 {
            self.width - 1
        } else {
            col - 1
        };
        let east = if col == self.width - 1 {
            0
        } else {
            col + 1
        };

        let nw = self.get_index(north, west);
        if bits_get(&self.cells, nw) {
            count = count + 1;
        }
        let n = self.get_index(north, col);
        if bits_get(&self.cells, n) {
            count = count + 1;
        }
        let ne = self.get_index(north, east);
        if bits_get(&self.cells, ne) {
            count = count + 1;
        }
        let w = self.get_index(row, west);
        if bits_get(&self.cells, w) {
            count = count + 1;
        }
        let e = self.get_index(row, east);
        if bits_get(&self.cells, e) {
            count = count + 1;
        }
        let sw = self.get_index(south, west);
        if bits_get(&self.cells, sw) {
            count = count + 1;
        }
        let s = self.get_index(south, col);
        if bits_get(&self.cells, s) {
            count = count + 1;
        }
        let se = self.get_index(south, east);
        if bits_get(&self.cells, se) {
            count = count + 1;
        }

        count
    }

    /// Advances the universe by exactly one generation: every cell's next
    /// state is the rule applied to its pre-tick state and pre-tick neighbor
    /// count, and the whole grid is replaced at once.
    pub fn tick(&mut self)
        requires
            old(self).wf(),
        ensures
            final(self).wf(),
            final(self).spec_width() == old(self).spec_width(),
            final(self).spec_height() == old(self).spec_height(),
            final(self).grid() == tick_spec(
                old(self).grid(),
                old(self).spec_width() as int,
                old(self).spec_height() as int,
            ),
    {
        let ghost g = self.grid();
        let ghost w = self.spec_width() as int;
        let ghost h = self.spec_height() as int;
        let mut next = bits_clone(&self.cells);
        let mut row: u32 = 0;
        while row < self.height
            invariant
                row <= self.spec_height(),
                self.wf(),
                self == old(self),
                g == self.grid(),
                w == self.spec_width() as int,
                h == self.spec_height() as int,
                bit_seq(next).len() == g.len(),
                forall|i: int|
                    0 <= i < (row as int) * w ==> bit_seq(next)[i] == tick_spec(g, w, h)[i],
            decreases self.spec_height() - row,
        {
            let mut col: u32 = 0;
            while col < self.width
                invariant
                    col <= self.spec_width(),
                    row < self.spec_height(),
                    self.wf(),
                    self == old(self),
                    g == self.grid(),
                    w == self.spec_width() as int,
                    h == self.spec_height() as int,
                    bit_seq(next).len() == g.len(),
                    forall|i: int|
                        0 <= i < (row as int) * w + (col as int) ==> bit_seq(next)[i] == tick_spec(
                            g,
                            w,
                            h,
                        )[i],
                decreases self.spec_width() - col,
            {
                let idx = self.get_index(row, col);
                let cell = bits_get(&self.cells, idx);
                let live_neighbors = self.live_neighbor_count(row, col);

                let next_state: bool = match (cell, live_neighbors) {
                    (true, x) if x < 2 => false,
                    (true, 2) | (true, 3) => true,
                    (true, x) if x > 3 => false,
                    (false, 3) => true,
                    (otherwise, _) => otherwise,
                };

                bits_set(&mut next, idx, next_state);
                proof {
                    lemma_fundamental_div_mod_converse(idx as int, w, row as int, col as int);
                    assert(tick_spec(g, w, h)[idx as int] == next_cell(
                        g[idx as int],
                        neighbor_count(g, w, h, row as int, col as int),
                    ));
                }
                col = col + 1;
            }
            proof {
                assert((row as int + 1) * w == (row as int) * w + w) by (nonlinear_arith);
            }
            row = row + 1;
        }
        self.cells = next;
        proof {
            assert((h * w == w * h) && (self.grid().len() == h * w)) by (nonlinear_arith)
                requires
                    self.grid().len() == w * h,
            ;
            assert(self.grid() =~= tick_spec(g, w, h));
        }
    }

    /// Renders the grid as text: `height` lines of `width` glyphs each, one
    /// glyph per cell, row-major, each line ending in a newline.
    pub fn render(&self) -> (r: String)
        requires
            self.wf(),
        ensures
            r@ == render_spec(
                self.grid(),
                self.spec_width() as int,
                self.spec_height() as int,
            ),
    {
        let ghost g = self.grid();
        let ghost w = self.spec_width() as int;
        let ghost h = self.spec_height() as int;
        let mut r = String::new();
        let mut row: u32 = 0;
        while row < self.height
            invariant
                row <= self.spec_height(),
                self.wf(),
                g == self.grid(),
                w == self.spec_width() as int,
                h == self.spec_height() as int,
                r@ == render_spec(g, w, h).take((row as int) * (w + 1)),
            decreases self.spec_height() - row,
        {
            let mut col: u32 = 0;
            while col < self.width
                invariant
                    col <= self.spec_width(),
                    row < self.spec_height(),
                    self.wf(),
                    g == self.grid(),
                    w == self.spec_width() as int,
                    h == self.spec_height() as int,
                    r@ == render_spec(g, w, h).take((row as int) * (w + 1) + col as int),
                decreases self.spec_width() - col,
            {
                let idx = self.get_index(row, col);
                let alive = bits_get(&self.cells, idx);
                if alive {
                    r.append("*");
                } else {
                    r.append(".");
                }
                proof {
                    reveal_strlit("*");
                    reveal_strlit(".");
                    let pos = (row as int) * (w + 1) + col as int;
                    assert((row as int) * (w + 1) + (col as int) < h * (w + 1))
                        by (nonlinear_arith)
                        requires
                            (row as int) < h,
                            (col as int) < w,
                            0 <= row as int,
                            0 <= col as int,
                    ;
                    lemma_fundamental_div_mod_converse(pos, w + 1, row as int, col as int);
                    assert(render_spec(g, w, h)[pos] == glyph(g[idx as int]));
                    assert(r@ =~= render_spec(g, w, h).take(pos + 1));
                }
                col = col + 1;
            }
            r.append("\n");
            proof {
                reveal_strlit("\n");
                let pos = (row as int) * (w + 1) + w;
                assert((row as int) * (w + 1) + w + 1 <= h * (w + 1)) by (nonlinear_arith)
                    requires
                        (row as int) < h,
                        0 <= row as int,
                        0 <= w,
                ;
                lemma_fundamental_div_mod_converse(pos, w + 1, row as int, w);
                assert(render_spec(g, w, h)[pos] == '\n');
                assert((row as int + 1) * (w + 1) == (row as int) * (w + 1) + w + 1)
                    by (nonlinear_arith);
                assert(r@ =~= render_spec(g, w, h).take(pos + 1));
            }
            row = row + 1;
        }
        proof {
            assert(h * (w + 1) == render_spec(g, w, h).len());
            assert(r@ =~= render_spec(g, w, h));
        }
        r
    }

    /// A borrowed read-only view of the packed cell storage.
    pub fn get_cells(&self) -> (r: &FixedBitSet)
        ensures
            bit_seq(*r) == self.grid(),
    {
        &self.cells
    }

    /// The packed cell storage as its backing `u32` blocks, 32 cells per
    /// block: cell `i` of the grid is bit `i % 32` of block `i / 32`. The
    /// view is read-only; the host interprets the bits for rendering.
    pub fn cells(&self) -> (r: &[u32])
        ensures
            r@.len() == (self.grid().len() + 31) / 32,
            forall|i: int|
                0 <= i < self.grid().len() ==> (self.grid()[i] <==> (r@[i / 32] >> ((i % 32) as u32))
                    & 1u32 == 1u32),
    {
        bits_as_slice(&self.cells)
    }

    /// Writes one cell.
    pub fn set_cell(&mut self, row: u32, col: u32, state: bool)
        requires
            old(self).wf(),
            row < old(self).spec_height(),
            col < old(self).spec_width(),
        ensures
            final(self).wf(),
            final(self).spec_width() == old(self).spec_width(),
            final(self).spec_height() == old(self).spec_height(),
            final(self).grid() == old(self).grid().update(
                flat_index(row as int, col as int, old(self).spec_width() as int),
                state,
            ),
    {
        let idx = self.get_index(row, col);
        bits_set(&mut self.cells, idx, state);
    }

    /// Flips one cell.
    pub fn toggle_cell(&mut self, row: u32, col: u32)
        requires
            old(self).wf(),
            row < old(self).spec_height(),
            col < old(self).spec_width(),
        ensures
            final(self).wf(),
            final(self).spec_width() == old(self).spec_width(),
            final(self).spec_height() == old(self).spec_height(),
            final(self).grid() == old(self).grid().update(
                flat_index(row as int, col as int, old(self).spec_width() as int),
                !old(self).grid()[flat_index(
                    row as int,
                    col as int,
                    old(self).spec_width() as int,
                )],
            ),
    {
        let idx = self.get_index(row, col);
        let current = bits_get(&self.cells, idx);
        bits_set(&mut self.cells, idx, !current);
    }

    /// Sets one cell alive.
    pub fn set_cell_alive(&mut self, row: u32, col: u32)
        requires
            old(self).wf(),
            row < old(self).spec_height(),
            col < old(self).spec_width(),
        ensures
            final(self).wf(),
            final(self).spec_width() == old(self).spec_width(),
            final(self).spec_height() == old(self).spec_height(),
            final(self).grid() == old(self).grid().update(
                flat_index(row as int, col as int, old(self).spec_width() as int),
                true,
            ),
    {
        self.set_cell(row, col, true)
    }

    /// Sets one cell dead.
    pub fn set_cell_dead(&mut self, row: u32, col: u32)
        requires
            old(self).wf(),
            row < old(self).spec_height(),
            col < old(self).spec_width(),
        ensures
            final(self).wf(),
            final(self).spec_width() == old(self).spec_width(),
            final(self).spec_height() == old(self).spec_height(),
            final(self).grid() == old(self).grid().update(
                flat_index(row as int, col as int, old(self).spec_width() as int),
                false,
            ),
    {
        self.set_cell(row, col, false)
    }

    /// Writes `state` into every listed cell, in list order; a coordinate
    /// listed more than once simply receives the same value again, so the
    /// last write governs and every unlisted cell is untouched.
    pub fn set_cells(&mut self, cells: &[(u32, u32)], state: bool)
        requires
            old(self).wf(),
            forall|k: int|
                0 <= k < cells@.len() ==> cells@[k].0 < old(self).spec_height() && cells@[k].1
                    < old(self).spec_width(),
        ensures
            final(self).wf(),
            final(self).spec_width() == old(self).spec_width(),
            final(self).spec_height() == old(self).spec_height(),
            final(self).grid().len() == old(self).grid().len(),
            forall|i: int|
                0 <= i < final(self).grid().len() ==> final(self).grid()[i] == (if hits(
                    cells@,
                    old(self).spec_width() as int,
                    i,
                ) {
                    state
                } else {
                    old(self).grid()[i]
                }),
    {
        let ghost w = old(self).spec_width() as int;
        let mut k: usize = 0;
        while k < cells.len()
            invariant
                k <= cells@.len(),
                w == old(self).spec_width() as int,
                self.wf(),
                self.spec_width() == old(self).spec_width(),
                self.spec_height() == old(self).spec_height(),
                self.grid().len() == old(self).grid().len(),
                forall|k2: int|
                    0 <= k2 < cells@.len() ==> cells@[k2].0 < old(self).spec_height()
                        && cells@[k2].1 < old(self).spec_width(),
                forall|i: int|
                    0 <= i < self.grid().len() ==> self.grid()[i] == (if hits(
                        cells@.take(k as int),
                        w,
                        i,
                    ) {
                        state
                    } else {
                        old(self).grid()[i]
                    }),
            decreases cells@.len() - k,
        {
            let (row, col) = cells[k];
            let ghost pre = self.grid();
            self.set_cell(row, col, state);
            proof {
                let prev = cells@.take(k as int);
                let cur = cells@.take(k as int + 1);
                assert(cur =~= prev.push(cells@[k as int]));
                let target = flat_index(row as int, col as int, w);
                let h = self.spec_height() as int;
                assert((row as int) * w + (col as int) < w * h) by (nonlinear_arith)
                    requires
                        (row as int) < h,
                        (col as int) < w,
                        0 <= row as int,
                        0 <= col as int,
                ;
                assert(0 <= target < pre.len());
                assert(self.grid() == pre.update(target, state));
                assert forall|i: int| 0 <= i < self.grid().len() implies self.grid()[i] == (if hits(
                    cur,
                    w,
                    i,
                ) {
                    state
                } else {
                    old(self).grid()[i]
                }) by {
                    if i == target {
                        assert(cur[k as int] == (row, col));
                        assert(flat_index(cur[k as int].0 as int, cur[k as int].1 as int, w) == i);
                        assert(hits(cur, w, i));
                        assert(self.grid()[i] == state);
                    } else {
                        assert(self.grid()[i] == pre[i]);
                        assert(pre[i] == (if hits(prev, w, i) {
                            state
                        } else {
                            old(self).grid()[i]
                        }));
                        if hits(cur, w, i) {
                            let k2 = choose|k2: int|
                                0 <= k2 < cur.len() && flat_index(
                                    cur[k2].0 as int,
                                    cur[k2].1 as int,
                                    w,
                                ) == i;
                            assert(k2 < k as int);
                            assert(hits(prev, w, i));
                        }
                        if hits(prev, w, i) {
                            let k2 = choose|k2: int|
                                0 <= k2 < prev.len() && flat_index(
                                    prev[k2].0 as int,
                                    prev[k2].1 as int,
                                    w,
                                ) == i;
                            assert(cur[k2] == prev[k2]);
                            assert(hits(cur, w, i));
                        }
                    }
                }
            }
            k = k + 1;
        }
        proof {
            assert(cells@.take(k as int) == cells@);
        }
    }

    /// Sets every listed cell alive.
    pub fn set_cells_alive(&mut self, cells: &[(u32, u32)])
        requires
            old(self).wf(),
            forall|k: int|
                0 <= k < cells@.len() ==> cells@[k].0 < old(self).spec_height() && cells@[k].1
                    < old(self).spec_width(),
        ensures
            final(self).wf(),
            final(self).spec_width() == old(self).spec_width(),
            final(self).spec_height() == old(self).spec_height(),
            final(self).grid().len() == old(self).grid().len(),
            forall|i: int|
                0 <= i < final(self).grid().len() ==> final(self).grid()[i] == (hits(
                    cells@,
                    old(self).spec_width() as int,
                    i,
                ) || old(self).grid()[i]),
    {
        self.set_cells(cells, true)
    }

    /// Sets every listed cell dead.
    pub fn set_cells_dead(&mut self, cells: &[(u32, u32)])
        requires
            old(self).wf(),
            forall|k: int|
                0 <= k < cells@.len() ==> cells@[k].0 < old(self).spec_height() && cells@[k].1
                    < old(self).spec_width(),
        ensures
            final(self).wf(),
            final(self).spec_width() == old(self).spec_width(),
            final(self).spec_height() == old(self).spec_height(),
            final(self).grid().len() == old(self).grid().len(),
            forall|i: int|
                0 <= i < final(self).grid().len() ==> final(self).grid()[i] == (!hits(
                    cells@,
                    old(self).spec_width() as int,
                    i,
                ) && old(self).grid()[i]),
    {
        self.set_cells(cells, false)
    }

    /// Reallocates the grid and fills every cell with `state`.
    pub fn set_cells_all(&mut self, state: bool)
        requires
            old(self).area() <= u32::MAX,
        ensures
            final(self).wf(),
            final(self).spec_width() == old(self).spec_width(),
            final(self).spec_height() == old(self).spec_height(),
            final(self).grid().len() == final(self).area(),
            forall|i: int| 0 <= i < final(self).grid().len() ==> final(self).grid()[i] == state,
    {
        let size = (self.width * self.height) as usize;
        self.cells = bits_with_capacity(size);
        let mut i: usize = 0;
        while i < size
            invariant
                i <= size,
                self.spec_width() == old(self).spec_width(),
                self.spec_height() == old(self).spec_height(),
                self.area() == size,
                self.area() <= u32::MAX,
                bit_seq(self.cells).len() == size,
                forall|j: int| 0 <= j < i ==> bit_seq(self.cells)[j] == state,
                forall|j: int| i <= j < size ==> !bit_seq(self.cells)[j],
            decreases size - i,
        {
            bits_set(&mut self.cells, i, state);
            i = i + 1;
        }
    }

    /// Fills the whole grid alive.
    pub fn set_cells_alive_all(&mut self)
        requires
            old(self).area() <= u32::MAX,
        ensures
            final(self).wf(),
            final(self).spec_width() == old(self).spec_width(),
            final(self).spec_height() == old(self).spec_height(),
            final(self).grid().len() == final(self).area(),
            forall|i: int| 0 <= i < final(self).grid().len() ==> final(self).grid()[i],
    {
        self.set_cells_all(true)
    }

    /// Fills the whole grid dead.
    pub fn set_cells_dead_all(&mut self)
        requires
            old(self).area() <= u32::MAX,
        ensures
            final(self).wf(),
            final(self).spec_width() == old(self).spec_width(),
            final(self).spec_height() == old(self).spec_height(),
            final(self).grid().len() == final(self).area(),
            forall|i: int| 0 <= i < final(self).grid().len() ==> !final(self).grid()[i],
    {
        self.set_cells_all(false)
    }

    /// Replaces the width and resets every cell dead; no pattern data
    /// survives a resize.
    pub fn set_width(&mut self, width: u32)
        requires
            old(self).wf(),
            width * old(self).spec_height() <= u32::MAX,
        ensures
            final(self).wf(),
            final(self).spec_width() == width,
            final(self).spec_height() == old(self).spec_height(),
            final(self).grid().len() == width * old(self).spec_height(),
            forall|i: int| 0 <= i < final(self).grid().len() ==> !final(self).grid()[i],
    {
        self.width = width;
        self.set_cells_dead_all();
    }

    /// Replaces the height and resets every cell dead; no pattern data
    /// survives a resize.
    pub fn set_height(&mut self, height: u32)
        requires
            old(self).wf(),
            old(self).spec_width() * height <= u32::MAX,
        ensures
            final(self).wf(),
            final(self).spec_width() == old(self).spec_width(),
            final(self).spec_height() == height,
            final(self).grid().len() == old(self).spec_width() * height,
            forall|i: int| 0 <= i < final(self).grid().len() ==> !final(self).grid()[i],
    {
        self.height = height;
        self.set_cells_dead_all();
    }

}

} // verus!
