//! Mathematical model of the automaton: a grid is a row-major sequence of
//! rows of booleans (`true` = alive), addressed as `g[y][x]`. The spec
//! functions here define the Conway step rule over the eight-connected
//! neighborhood with hard dead borders, and the stamping of a pattern onto a
//! grid, both used by the contracts of the executable types.

use vstd::prelude::*;

verus! {

/// Whether position `(x, y)` lies inside `g` and holds a live cell.
/// Positions outside the grid count as dead: the border is hard and dead,
/// with no wrap-around.
pub open spec fn alive_at(g: Seq<Seq<bool>>, x: int, y: int) -> bool {
    0 <= y < g.len() && 0 <= x < g[y].len() && g[y][x]
}

/// Number of live cells among the eight Moore neighbors of `(x, y)`.
/// Neighbors outside the grid are dead.
pub open spec fn live_neighbor_count(g: Seq<Seq<bool>>, x: int, y: int) -> int {
    (if alive_at(g, x - 1, y - 1) { 1int } else { 0int })
        + (if alive_at(g, x, y - 1) { 1int } else { 0int })
        + (if alive_at(g, x + 1, y - 1) { 1int } else { 0int })
        + (if alive_at(g, x - 1, y) { 1int } else { 0int })
        + (if alive_at(g, x + 1, y) { 1int } else { 0int })
        + (if alive_at(g, x - 1, y + 1) { 1int } else { 0int })
        + (if alive_at(g, x, y + 1) { 1int } else { 0int })
        + (if alive_at(g, x + 1, y + 1) { 1int } else { 0int })
}

/// The state of cell `(x, y)` after one generation, determined by its own
/// pre-step state and its pre-step neighbor count alone: a live cell survives
/// on a count of two or three, a dead cell is born on a count of exactly
/// three, and every other cell is dead.
pub open spec fn next_state(g: Seq<Seq<bool>>, x: int, y: int) -> bool {
    if alive_at(g, x, y) {
        live_neighbor_count(g, x, y) == 2 || live_neighbor_count(g, x, y) == 3
    } else {
        live_neighbor_count(g, x, y) == 3
    }
}

/// One synchronous generation: every cell of the result is `next_state` of
/// the same position in the argument, so no updated cell can influence
/// another cell's count within the same step. Row lengths are preserved.
pub open spec fn step_grid(g: Seq<Seq<bool>>) -> Seq<Seq<bool>> {
    Seq::new(g.len(), |y: int| Seq::new(g[y].len(), |x: int| next_state(g, x, y)))
}

/// `n` synchronous generations applied to `g`.
pub open spec fn step_n(g: Seq<Seq<bool>>, n: nat) -> Seq<Seq<bool>>
    decreases n,
{
    if n == 0 {
        g
    } else {
        step_grid(step_n(g, (n - 1) as nat))
    }
}

/// Every cell of `g` is dead.
pub open spec fn all_dead(g: Seq<Seq<bool>>) -> bool {
    forall|y: int, x: int| #![auto] 0 <= y < g.len() && 0 <= x < g[y].len() ==> !g[y][x]
}

/// `g` has exactly `h` rows of `w` cells each.
pub open spec fn rectangular(g: Seq<Seq<bool>>, w: int, h: int) -> bool {
    g.len() == h && forall|y: int| 0 <= y < g.len() ==> #[trigger] g[y].len() == w
}

/// Every live cell of pattern `p`, placed at offset `(ox, oy)`, lands inside
/// a `w` by `h` grid. Dead pattern cells are never stamped, so they may fall
/// anywhere.
pub open spec fn fits(p: Seq<Seq<bool>>, ox: int, oy: int, w: int, h: int) -> bool {
    forall|px: int, py: int| #![auto]
        0 <= py < p.len() && 0 <= px < p[py].len() && p[py][px] ==> ox + px < w && oy + py < h
}

/// The grid `g` with pattern `p` stamped at offset `(ox, oy)`: the logical OR
/// of the pattern's live cells into the grid. Grid cells outside the
/// pattern's footprint, and those under dead pattern cells, are unchanged.
pub open spec fn stamped(g: Seq<Seq<bool>>, p: Seq<Seq<bool>>, ox: int, oy: int) -> Seq<Seq<bool>> {
    Seq::new(
        g.len(),
        |y: int| Seq::new(g[y].len(), |x: int| g[y][x] || alive_at(p, x - ox, y - oy)),
    )
}

} // verus!
