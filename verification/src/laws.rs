//! General laws of the engine, stated over the model and proved once and for
//! all: the dead grid is a fixed point of the step, a 2×2 block is a still
//! life, a three-cell blinker oscillates with period two, and stamping an
//! all-dead pattern changes nothing.

use crate::model::{
    all_dead, alive_at, fits, live_neighbor_count, next_state, rectangular, stamped, step_grid,
    step_n,
};
use vstd::prelude::*;

verus! {

/// Law: the step is local and synchronous — after a step, the state of any
/// cell `(x, y)` is `next_state` of the pre-step grid there, a function of
/// that cell's own pre-step state and pre-step neighbor count alone, never of
/// any post-step state.
pub proof fn lemma_step_is_local(g: Seq<Seq<bool>>, x: int, y: int)
    requires
        0 <= y < g.len(),
        0 <= x < g[y].len(),
    ensures
        step_grid(g)[y][x] == next_state(g, x, y),
{
}

/// Law: a fully dead grid is a fixed point of the generation step — no cell
/// has a live neighbor, so no cell is born and the step returns the grid
/// unchanged.
pub proof fn lemma_dead_grid_fixed_point(g: Seq<Seq<bool>>)
    requires
        all_dead(g),
    ensures
        step_grid(g) == g,
{
    assert forall|y: int| 0 <= y < g.len() implies step_grid(g)[y] =~= g[y] by {
        assert forall|x: int| 0 <= x < g[y].len() implies next_state(g, x, y) == g[y][x] by {
            assert(live_neighbor_count(g, x, y) == 0);
        }
    }
    assert(step_grid(g) =~= g);
}

/// Law: a fully dead grid stays fully dead after any number of generation
/// steps.
pub proof fn lemma_dead_grid_stays_dead(g: Seq<Seq<bool>>, n: nat)
    requires
        all_dead(g),
    ensures
        step_n(g, n) == g,
    decreases n,
{
    if n > 0 {
        lemma_dead_grid_stays_dead(g, (n - 1) as nat);
        lemma_dead_grid_fixed_point(g);
    }
}

/// Law: stamping an all-dead pattern changes nothing — it fits any grid at
/// any offset, and the stamped grid equals the grid it was stamped onto.
pub proof fn lemma_stamp_dead_pattern(
    g: Seq<Seq<bool>>,
    p: Seq<Seq<bool>>,
    ox: int,
    oy: int,
    w: int,
    h: int,
)
    requires
        all_dead(p),
    ensures
        fits(p, ox, oy, w, h),
        stamped(g, p, ox, oy) == g,
{
    assert forall|y: int| 0 <= y < g.len() implies stamped(g, p, ox, oy)[y] =~= g[y] by {
        assert forall|x: int| 0 <= x < g[y].len() implies !(#[trigger] alive_at(
            p,
            x - ox,
            y - oy,
        )) by {
        }
    }
    assert(stamped(g, p, ox, oy) =~= g);
}

/// A `w` by `h` grid whose live cells are exactly the 2×2 block with top-left
/// corner `(bx, by)`, the block lying fully inside the grid.
pub open spec fn is_block_grid(g: Seq<Seq<bool>>, w: int, h: int, bx: int, by: int) -> bool {
    &&& rectangular(g, w, h)
    &&& 0 <= bx && bx + 2 <= w
    &&& 0 <= by && by + 2 <= h
    &&& forall|x: int, y: int| #![auto]
        0 <= y < h && 0 <= x < w ==> (g[y][x] <==> (bx <= x <= bx + 1 && by <= y <= by + 1))
}

/// Law: a 2×2 fully-alive block is a still life — every block cell has
/// exactly three live neighbors and survives, every other cell sees at most
/// two and stays dead, so each generation equals the previous one.
#[verifier::rlimit(30)]
pub proof fn lemma_block_still_life(g: Seq<Seq<bool>>, w: int, h: int, bx: int, by: int)
    requires
        is_block_grid(g, w, h, bx, by),
    ensures
        step_grid(g) == g,
{
    assert forall|y: int| 0 <= y < g.len() implies step_grid(g)[y] =~= g[y] by {
        assert forall|x: int| 0 <= x < g[y].len() implies next_state(g, x, y) == g[y][x] by {
            assert(g[y].len() == w);
        }
    }
    assert(step_grid(g) =~= g);
}

/// A `w` by `h` grid whose live cells are exactly the horizontal triple
/// centered at `(cx, cy)`, with one cell of margin to every border so that
/// the blinker oscillates free of boundary effects.
pub open spec fn is_horizontal_blinker(g: Seq<Seq<bool>>, w: int, h: int, cx: int, cy: int) -> bool {
    &&& rectangular(g, w, h)
    &&& 1 <= cx && cx + 2 <= w
    &&& 1 <= cy && cy + 2 <= h
    &&& forall|x: int, y: int| #![auto]
        0 <= y < h && 0 <= x < w ==> (g[y][x] <==> (y == cy && cx - 1 <= x <= cx + 1))
}

/// The vertical counterpart of [`is_horizontal_blinker`]: the live cells are
/// exactly the vertical triple centered at `(cx, cy)`.
pub open spec fn is_vertical_blinker(g: Seq<Seq<bool>>, w: int, h: int, cx: int, cy: int) -> bool {
    &&& rectangular(g, w, h)
    &&& 1 <= cx && cx + 2 <= w
    &&& 1 <= cy && cy + 2 <= h
    &&& forall|x: int, y: int| #![auto]
        0 <= y < h && 0 <= x < w ==> (g[y][x] <==> (x == cx && cy - 1 <= y <= cy + 1))
}

/// One step turns a horizontal blinker into the vertical blinker at the same
/// center: the two ends die with one neighbor each, the center survives with
/// two, and the cells directly above and below the center are born with
/// three.
#[verifier::rlimit(30)]
pub proof fn lemma_blinker_horizontal_step(g: Seq<Seq<bool>>, w: int, h: int, cx: int, cy: int)
    requires
        is_horizontal_blinker(g, w, h, cx, cy),
    ensures
        is_vertical_blinker(step_grid(g), w, h, cx, cy),
{
    assert forall|y: int| 0 <= y < h implies (#[trigger] step_grid(g)[y]).len() == w by {
        assert(g[y].len() == w);
    }
    assert forall|x: int, y: int| #![auto] 0 <= y < h && 0 <= x < w implies (step_grid(g)[y][x]
        <==> (x == cx && cy - 1 <= y <= cy + 1)) by {
        assert(g[y].len() == w);
        assert(step_grid(g)[y][x] == next_state(g, x, y));
    }
}

/// One step turns a vertical blinker back into the horizontal blinker at the
/// same center.
#[verifier::rlimit(30)]
pub proof fn lemma_blinker_vertical_step(g: Seq<Seq<bool>>, w: int, h: int, cx: int, cy: int)
    requires
        is_vertical_blinker(g, w, h, cx, cy),
    ensures
        is_horizontal_blinker(step_grid(g), w, h, cx, cy),
{
    assert forall|y: int| 0 <= y < h implies (#[trigger] step_grid(g)[y]).len() == w by {
        assert(g[y].len() == w);
    }
    assert forall|x: int, y: int| #![auto] 0 <= y < h && 0 <= x < w implies (step_grid(g)[y][x]
        <==> (y == cy && cx - 1 <= x <= cx + 1)) by {
        assert(g[y].len() == w);
        assert(step_grid(g)[y][x] == next_state(g, x, y));
    }
}

/// Law: a three-cell horizontal blinker oscillates with period two —
/// generation one is the vertical triple at the same center, and generation
/// two equals generation zero.
pub proof fn lemma_blinker_period_two(g: Seq<Seq<bool>>, w: int, h: int, cx: int, cy: int)
    requires
        is_horizontal_blinker(g, w, h, cx, cy),
    ensures
        is_vertical_blinker(step_n(g, 1), w, h, cx, cy),
        step_n(g, 2) == g,
{
    lemma_blinker_horizontal_step(g, w, h, cx, cy);
    lemma_blinker_vertical_step(step_grid(g), w, h, cx, cy);
    assert(step_n(g, 0) == g);
    assert(step_n(g, 1) == step_grid(step_n(g, 0)));
    assert(step_n(g, 2) == step_grid(step_n(g, 1)));
    let g2 = step_grid(step_grid(g));
    assert forall|y: int| 0 <= y < g.len() implies g2[y] =~= g[y] by {
        assert(g[y].len() == w);
        assert(g2[y].len() == w);
        assert forall|x: int| 0 <= x < w implies g2[y][x] == g[y][x] by {
            assert(g2[y][x] <==> (y == cy && cx - 1 <= x <= cx + 1));
            assert(g[y][x] <==> (y == cy && cx - 1 <= x <= cx + 1));
        }
    }
    assert(g2 =~= g);
}

} // verus!
