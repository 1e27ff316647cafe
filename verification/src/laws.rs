//! Grid-level laws of the transition: the rule table cell by cell, the
//! toroidal wrap at the corner, the degenerate one-cell grid, and how stable
//! and period-two patterns behave over repeated steps.

use vstd::prelude::*;
use vstd::arithmetic::div_mod::{
    lemma_fundamental_div_mod,
    lemma_fundamental_div_mod_converse,
    lemma_mod_bound,
};
use crate::universe::{flat_index, live_at, neighbor_count, next_cell, tick_spec, wrap_dec, wrap_inc};

verus! {

/// The grid whose cell `(x, y)` is alive exactly when `p(x, y)` holds.
pub open spec fn pattern_grid(width: int, height: int, p: spec_fn(int, int) -> bool) -> Seq<bool> {
    Seq::new((width * height) as nat, |i: int| p(i / width, i % width))
}

/// Reading a pattern grid at the flattened position of in-range coordinates
/// gives the pattern at those coordinates.
proof fn lemma_pattern_grid_at(
    width: int,
    height: int,
    p: spec_fn(int, int) -> bool,
    x: int,
    y: int,
)
    requires
        0 < width,
        0 < height,
        0 <= x < height,
        0 <= y < width,
    ensures
        pattern_grid(width, height, p)[x * width + y] == p(x, y),
{
    assert(0 <= x * width + y < width * height) by (nonlinear_arith)
        requires
            0 <= x < height,
            0 <= y < width,
    ;
    lemma_fundamental_div_mod_converse(x * width + y, width, x, y);
}

/// The grid after `n` steps.
pub open spec fn tick_iter(g: Seq<bool>, width: int, height: int, n: nat) -> Seq<bool>
    decreases n,
{
    if n == 0 {
        g
    } else {
        tick_spec(tick_iter(g, width, height, (n - 1) as nat), width, height)
    }
}

/// One step is deterministic: the next generation is a function of the
/// pre-tick grid and the dimensions alone, so no evaluation order within a
/// step can show through, and equal grids step to equal grids.
pub proof fn lemma_tick_deterministic(a: Seq<bool>, b: Seq<bool>, width: int, height: int)
    requires
        a == b,
    ensures
        tick_spec(a, width, height) == tick_spec(b, width, height),
{
}

/// The rule table holds cell by cell: after one step, the cell at
/// `(row, col)` is alive exactly when it was alive with two or three live
/// neighbors, or dead with exactly three; every other of the eighteen
/// combinations of prior state and neighbor count leaves it dead.
pub proof fn lemma_rule_cases(g: Seq<bool>, width: int, height: int, row: int, col: int)
    requires
        0 < width,
        0 < height,
        g.len() == width * height,
        0 <= row < height,
        0 <= col < width,
    ensures
        tick_spec(g, width, height)[flat_index(row, col, width)] == next_cell(
            g[flat_index(row, col, width)],
            neighbor_count(g, width, height, row, col),
        ),
{
    assert(row * width + col < width * height) by (nonlinear_arith)
        requires
            row < height,
            col < width,
            0 <= row,
            0 <= col,
    ;
    lemma_fundamental_div_mod_converse(flat_index(row, col, width), width, row, col);
}

/// Toroidal wrap at the corner: on a grid at least two wide and two high,
/// the eight neighbors of the corner cell `(0, 0)` are exactly the cells at
/// `(h-1, w-1)`, `(h-1, 0)`, `(h-1, 1)`, `(0, w-1)`, `(0, 1)`, `(1, w-1)`,
/// `(1, 0)` and `(1, 1)`.
pub proof fn lemma_corner_neighbor_count(g: Seq<bool>, width: int, height: int)
    requires
        2 <= width,
        2 <= height,
        g.len() == width * height,
    ensures
        neighbor_count(g, width, height, 0, 0) == live_at(g, width, height - 1, width - 1)
            + live_at(g, width, height - 1, 0) + live_at(g, width, height - 1, 1) + live_at(
            g,
            width,
            0,
            width - 1,
        ) + live_at(g, width, 0, 1) + live_at(g, width, 1, width - 1) + live_at(g, width, 1, 0)
            + live_at(g, width, 1, 1),
{
}

/// On a one-by-one grid the sole cell is its own neighbor eight times over:
/// its neighbor count is eight when it is alive and zero when it is dead,
/// and the rule then leaves it dead either way — eight is overpopulation and
/// zero is no birth.
pub proof fn lemma_degenerate_single_cell(g: Seq<bool>)
    requires
        g.len() == 1,
    ensures
        neighbor_count(g, 1, 1, 0, 0) == (if g[0] {
            8int
        } else {
            0int
        }),
        !tick_spec(g, 1, 1)[0],
{
}

/// A stable pattern stays: a grid that one step leaves unchanged is
/// unchanged by any number of steps.
pub proof fn lemma_fixed_point(g: Seq<bool>, width: int, height: int, n: nat)
    requires
        tick_spec(g, width, height) == g,
    ensures
        tick_iter(g, width, height, n) == g,
    decreases n,
{
    if n > 0 {
        lemma_fixed_point(g, width, height, (n - 1) as nat);
    }
}

/// An oscillator of period two returns: if two steps bring a grid back to
/// itself, any even number of steps does, and any odd number of steps yields
/// the one-step grid.
pub proof fn lemma_period_two(g: Seq<bool>, width: int, height: int, n: nat)
    requires
        tick_spec(tick_spec(g, width, height), width, height) == g,
    ensures
        tick_iter(g, width, height, 2 * n) == g,
        tick_iter(g, width, height, 2 * n + 1) == tick_spec(g, width, height),
    decreases n,
{
    if n > 0 {
        lemma_period_two(g, width, height, (n - 1) as nat);
        assert(2 * n - 1 == 2 * (n - 1) + 1);
        assert(tick_iter(g, width, height, 2 * n) == tick_spec(
            tick_iter(g, width, height, (2 * n - 1) as nat),
            width,
            height,
        ));
    }
    assert(tick_iter(g, width, height, 2 * n + 1) == tick_spec(
        tick_iter(g, width, height, 2 * n),
        width,
        height,
    ));
}

/// Whether `(x, y)` lies in the two-by-two block whose top-left cell is
/// `(r, c)`.
pub open spec fn in_block(x: int, y: int, r: int, c: int) -> bool {
    (x == r || x == r + 1) && (y == c || y == c + 1)
}

/// A block is a still life: on a grid at least four wide and four high, a
/// grid holding exactly one two-by-two block of live cells is a fixed point
/// of the step — every block cell has three live neighbors and survives,
/// every other cell has at most two and stays dead. With `lemma_fixed_point`
/// it is then unchanged by any number of steps.
pub proof fn lemma_block_is_still_life(width: int, height: int, r: int, c: int)
    requires
        4 <= width,
        4 <= height,
        0 <= r,
        r + 2 <= height,
        0 <= c,
        c + 2 <= width,
    ensures
        tick_spec(pattern_grid(width, height, (|x: int, y: int| in_block(x, y, r, c))), width, height)
            == pattern_grid(width, height, (|x: int, y: int| in_block(x, y, r, c))),
{
    let p = (|x: int, y: int| in_block(x, y, r, c));
    let g = pattern_grid(width, height, p);
    assert forall|i: int| 0 <= i < g.len() implies tick_spec(g, width, height)[i] == g[i] by {
        lemma_fundamental_div_mod(i, width);
        lemma_mod_bound(i, width);
        let x = i / width;
        let y = i % width;
        assert(0 <= x < height) by (nonlinear_arith)
            requires
                i == width * x + y,
                0 <= y < width,
                0 <= i < width * height,
                0 < width,
        ;
        let xn = wrap_dec(x, height);
        let xs = wrap_inc(x, height);
        let yw = wrap_dec(y, width);
        let ye = wrap_inc(y, width);
        lemma_pattern_grid_at(width, height, p, x, y);
        lemma_pattern_grid_at(width, height, p, xn, yw);
        lemma_pattern_grid_at(width, height, p, xn, y);
        lemma_pattern_grid_at(width, height, p, xn, ye);
        lemma_pattern_grid_at(width, height, p, x, yw);
        lemma_pattern_grid_at(width, height, p, x, ye);
        lemma_pattern_grid_at(width, height, p, xs, yw);
        lemma_pattern_grid_at(width, height, p, xs, y);
        lemma_pattern_grid_at(width, height, p, xs, ye);
        assert(next_cell(p(x, y), neighbor_count(g, width, height, x, y)) == p(x, y));
    }
    assert(tick_spec(g, width, height) =~= g);
}

/// Whether `(x, y)` lies on the horizontal three-cell line of row `r` at
/// columns `c`, `c + 1`, `c + 2`.
pub open spec fn in_row_trio(x: int, y: int, r: int, c: int) -> bool {
    x == r && (y == c || y == c + 1 || y == c + 2)
}

/// Whether `(x, y)` lies on the vertical three-cell line through that
/// horizontal line's center: column `c + 1` at rows `r - 1`, `r`, `r + 1`.
pub open spec fn in_col_trio(x: int, y: int, r: int, c: int) -> bool {
    y == c + 1 && (x == r - 1 || x == r || x == r + 1)
}

/// A blinker oscillates with period two: on a grid at least five wide and
/// five high, a lone horizontal three-cell line one row clear of the top and
/// bottom edges steps to the vertical line through its center, and that
/// vertical line steps back to the horizontal one — so two ticks restore the
/// starting grid exactly, as `lemma_period_two` then extends to any even
/// count.
pub proof fn lemma_blinker_oscillates(width: int, height: int, r: int, c: int)
    requires
        5 <= width,
        5 <= height,
        1 <= r,
        r + 1 < height,
        0 <= c,
        c + 2 < width,
    ensures
        tick_spec(
            pattern_grid(width, height, (|x: int, y: int| in_row_trio(x, y, r, c))),
            width,
            height,
        ) == pattern_grid(width, height, (|x: int, y: int| in_col_trio(x, y, r, c))),
        tick_spec(
            pattern_grid(width, height, (|x: int, y: int| in_col_trio(x, y, r, c))),
            width,
            height,
        ) == pattern_grid(width, height, (|x: int, y: int| in_row_trio(x, y, r, c))),
{
    let ph = (|x: int, y: int| in_row_trio(x, y, r, c));
    let pv = (|x: int, y: int| in_col_trio(x, y, r, c));
    let gh = pattern_grid(width, height, ph);
    let gv = pattern_grid(width, height, pv);
    assert forall|i: int| 0 <= i < gh.len() implies tick_spec(gh, width, height)[i] == gv[i] by {
        lemma_fundamental_div_mod(i, width);
        lemma_mod_bound(i, width);
        let x = i / width;
        let y = i % width;
        assert(0 <= x < height) by (nonlinear_arith)
            requires
                i == width * x + y,
                0 <= y < width,
                0 <= i < width * height,
                0 < width,
        ;
        let xn = wrap_dec(x, height);
        let xs = wrap_inc(x, height);
        let yw = wrap_dec(y, width);
        let ye = wrap_inc(y, width);
        lemma_pattern_grid_at(width, height, ph, x, y);
        lemma_pattern_grid_at(width, height, pv, x, y);
        lemma_pattern_grid_at(width, height, ph, xn, yw);
        lemma_pattern_grid_at(width, height, ph, xn, y);
        lemma_pattern_grid_at(width, height, ph, xn, ye);
        lemma_pattern_grid_at(width, height, ph, x, yw);
        lemma_pattern_grid_at(width, height, ph, x, ye);
        lemma_pattern_grid_at(width, height, ph, xs, yw);
        lemma_pattern_grid_at(width, height, ph, xs, y);
        lemma_pattern_grid_at(width, height, ph, xs, ye);
        assert(next_cell(ph(x, y), neighbor_count(gh, width, height, x, y)) == pv(x, y));
    }
    assert(tick_spec(gh, width, height) =~= gv);
    assert forall|i: int| 0 <= i < gv.len() implies tick_spec(gv, width, height)[i] == gh[i] by {
        lemma_fundamental_div_mod(i, width);
        lemma_mod_bound(i, width);
        let x = i / width;
        let y = i % width;
        assert(0 <= x < height) by (nonlinear_arith)
            requires
                i == width * x + y,
                0 <= y < width,
                0 <= i < width * height,
                0 < width,
        ;
        let xn = wrap_dec(x, height);
        let xs = wrap_inc(x, height);
        let yw = wrap_dec(y, width);
        let ye = wrap_inc(y, width);
        lemma_pattern_grid_at(width, height, ph, x, y);
        lemma_pattern_grid_at(width, height, pv, x, y);
        lemma_pattern_grid_at(width, height, pv, xn, yw);
        lemma_pattern_grid_at(width, height, pv, xn, y);
        lemma_pattern_grid_at(width, height, pv, xn, ye);
        lemma_pattern_grid_at(width, height, pv, x, yw);
        lemma_pattern_grid_at(width, height, pv, x, ye);
        lemma_pattern_grid_at(width, height, pv, xs, yw);
        lemma_pattern_grid_at(width, height, pv, xs, y);
        lemma_pattern_grid_at(width, height, pv, xs, ye);
        assert(next_cell(pv(x, y), neighbor_count(gv, width, height, x, y)) == ph(x, y));
    }
    assert(tick_spec(gv, width, height) =~= gh);
}

} // verus!
