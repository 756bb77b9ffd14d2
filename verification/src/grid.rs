//! The grid: a fixed-size rectangular field of cells, the synchronous
//! generation step, and the operation that stamps a pattern onto the field at
//! an offset. The dimensions are fixed at construction and never change.

use crate::model::{
    all_dead, alive_at, fits, live_neighbor_count, next_state, rectangular, stamped, step_grid,
};
use crate::object::Object;
use crate::Error;
use vstd::prelude::*;

verus! {

/// One grid position's state. A cell is nothing but alive or dead; it has no
/// identity beyond its position in the grid.
#[derive(Clone, Copy, Debug, PartialEq, Eq, Structural)]
pub struct Cell {
    pub alive: bool,
}

/// A `width` by `height` field of cells, stored row-major as
/// `cells[y][x]`. Created with every cell dead; mutated in place only by
/// [`Grid::load_object`] and [`Grid::advance`].
///
/// `cells` is exposed so that a caller (say, a renderer picking a color per
/// cell once per frame) can read the states directly; it is not meant to be
/// written from outside.
#[derive(Clone, Debug, PartialEq)]
pub struct Grid {
    pub width: u32,
    pub height: u32,
    pub cells: Vec<Vec<Cell>>,
}

impl View for Grid {
    type V = Seq<Seq<bool>>;

    open spec fn view(&self) -> Seq<Seq<bool>> {
        Seq::new(
            self.cells@.len(),
            |y: int| Seq::new(self.cells@[y]@.len(), |x: int| self.cells@[y]@[x].alive),
        )
    }
}

impl Grid {
    /// The stored rows form the `height` by `width` rectangle the dimension
    /// fields promise. Established by [`Grid::new`] and preserved by every
    /// method.
    pub open spec fn wf(&self) -> bool {
        self.cells@.len() == self.height as int && forall|y: int|
            0 <= y < self.cells@.len() ==> (#[trigger] self.cells@[y])@.len() == self.width as int
    }

    /// Build a `width` by `height` grid with every cell dead.
    #[verifier::loop_isolation(false)]
    pub fn new(width: u32, height: u32) -> (g: Grid)
        ensures
            g.wf(),
            g.width == width,
            g.height == height,
            rectangular(g@, width as int, height as int),
            all_dead(g@),
    {
        let w = width as usize;
        let h = height as usize;
        let mut cells: Vec<Vec<Cell>> = Vec::new();
        let mut y: usize = 0;
        while y < h
            invariant
                y <= h,
                cells@.len() == y as int,
                forall|j: int| 0 <= j < y as int ==> (#[trigger] cells@[j])@.len() == w as int,
                forall|j: int, i: int| #![auto]
                    0 <= j < y as int && 0 <= i < w as int ==> !cells@[j]@[i].alive,
            decreases h - y,
        {
            let mut row: Vec<Cell> = Vec::new();
            let mut x: usize = 0;
            while x < w
                invariant
                    x <= w,
                    row@.len() == x as int,
                    forall|i: int| 0 <= i < x as int ==> !(#[trigger] row@[i]).alive,
                decreases w - x,
            {
                row.push(Cell { alive: false });
                x = x + 1;
            }
            cells.push(row);
            y = y + 1;
        }
        Grid { width, height, cells }
    }

    /// Read the state of cell `(x, y)`.
    pub fn get(&self, x: usize, y: usize) -> (alive: bool)
        requires
            self.wf(),
            x < self.width as usize,
            y < self.height as usize,
        ensures
            alive == self@[y as int][x as int],
            alive == alive_at(self@, x as int, y as int),
    {
        self.cells[y][x].alive
    }

    /// Count the live cells among the eight Moore neighbors of `(x, y)`;
    /// positions beyond the border count as dead.
    fn neighbor_count(&self, x: usize, y: usize) -> (n: u32)
        requires
            self.wf(),
            x < self.width as usize,
            y < self.height as usize,
        ensures
            n as int == live_neighbor_count(self@, x as int, y as int),
            n <= 8,
    {
        let w = self.width as usize;
        let h = self.height as usize;
        let mut n: u32 = 0;
        if x > 0 && y > 0 && self.get(x - 1, y - 1) {
            n = n + 1;
        }
        if y > 0 && self.get(x, y - 1) {
            n = n + 1;
        }
        if x + 1 < w && y > 0 && self.get(x + 1, y - 1) {
            n = n + 1;
        }
        if x > 0 && self.get(x - 1, y) {
            n = n + 1;
        }
        if x + 1 < w && self.get(x + 1, y) {
            n = n + 1;
        }
        if x > 0 && y + 1 < h && self.get(x - 1, y + 1) {
            n = n + 1;
        }
        if y + 1 < h && self.get(x, y + 1) {
            n = n + 1;
        }
        if x + 1 < w && y + 1 < h && self.get(x + 1, y + 1) {
            n = n + 1;
        }
        n
    }

    /// Advance the whole grid by one generation, synchronously: every cell of
    /// the new grid is the step rule applied to the old grid, so the count
    /// seen by one cell is never influenced by another cell updated in the
    /// same step. Total: it never fails, whatever the state.
    #[verifier::loop_isolation(false)]
    pub fn advance(&mut self)
        requires
            old(self).wf(),
        ensures
            final(self).wf(),
            final(self).width == old(self).width,
            final(self).height == old(self).height,
            final(self)@ == step_grid(old(self)@),
    {
        let w = self.width as usize;
        let h = self.height as usize;
        let mut next: Vec<Vec<Cell>> = Vec::new();
        let mut y: usize = 0;
        while y < h
            invariant
                y <= h,
                next@.len() == y as int,
                forall|j: int| 0 <= j < y as int ==> (#[trigger] next@[j])@.len() == w as int,
                forall|j: int, i: int| #![auto]
                    0 <= j < y as int && 0 <= i < w as int ==> next@[j]@[i].alive == next_state(
                        self@,
                        i,
                        j,
                    ),
            decreases h - y,
        {
            let mut row: Vec<Cell> = Vec::new();
            let mut x: usize = 0;
            while x < w
                invariant
                    x <= w,
                    y < h,
                    row@.len() == x as int,
                    forall|i: int|
                        0 <= i < x as int ==> (#[trigger] row@[i]).alive == next_state(
                            self@,
                            i,
                            y as int,
                        ),
                decreases w - x,
            {
                let count = self.neighbor_count(x, y);
                let was_alive = self.get(x, y);
                let alive = if was_alive {
                    count == 2 || count == 3
                } else {
                    count == 3
                };
                row.push(Cell { alive });
                x = x + 1;
            }
            next.push(row);
            y = y + 1;
        }
        self.cells = next;
        proof {
            assert(self@ =~~= step_grid(old(self)@));
        }
    }

    /// Whether every live cell of `object`, placed at `offset`, lands inside
    /// this grid. Dead pattern cells are never stamped and may fall anywhere.
    #[verifier::loop_isolation(false)]
    fn pattern_fits(&self, object: &Object, offset: (usize, usize)) -> (ok: bool)
        ensures
            ok == fits(object@, offset.0 as int, offset.1 as int, self.width as int, self.height as int),
    {
        let w = self.width as usize;
        let h = self.height as usize;
        let ox = offset.0;
        let oy = offset.1;
        let mut py: usize = 0;
        while py < object.rows.len()
            invariant
                py <= object.rows@.len(),
                forall|a: int, b: int| #![auto]
                    0 <= b < py as int && 0 <= a < object@[b].len() && object@[b][a] ==> (ox as int
                        + a < w as int) && (oy as int + (b) < h as int),
            decreases object.rows@.len() - py,
        {
            let row = &object.rows[py];
            let mut px: usize = 0;
            while px < row.len()
                invariant
                    px <= row@.len(),
                    py < object.rows@.len(),
                    forall|a: int|
                        0 <= a < px as int && (#[trigger] row@[a]) ==> (ox as int + a < w as int)
                            && (oy as int + (py as int) < h as int),
                decreases row@.len() - px,
            {
                if row[px] {
                    if py >= h || oy >= h - py || px >= w || ox >= w - px {
                        proof {
                            assert(object@[py as int][px as int]);
                            assert(!(ox as int + (px as int) < w as int) || !(oy as int + (
                            py as int) < h as int));
                        }
                        return false;
                    }
                }
                px = px + 1;
            }
            py = py + 1;
        }
        true
    }

    /// Stamp `object` onto the grid at `offset`: every live pattern cell
    /// `(px, py)` sets grid cell `(offset.0 + px, offset.1 + py)` alive; dead
    /// pattern cells and all other grid cells are left exactly as they were
    /// (a stamp is a logical OR of the pattern's live cells into the grid).
    ///
    /// If any live pattern cell would land outside the grid, nothing is
    /// stamped at all — the grid is returned unmodified with
    /// `Error::OutOfBounds` — rather than wrapping, truncating, or stamping
    /// partially.
    #[verifier::loop_isolation(false)]
    pub fn load_object(&mut self, object: &Object, offset: (usize, usize)) -> (result: Result<
        (),
        Error,
    >)
        requires
            old(self).wf(),
        ensures
            final(self).wf(),
            final(self).width == old(self).width,
            final(self).height == old(self).height,
            result is Ok <==> fits(
                object@,
                offset.0 as int,
                offset.1 as int,
                old(self).width as int,
                old(self).height as int,
            ),
            result is Ok ==> final(self)@ == stamped(
                old(self)@,
                object@,
                offset.0 as int,
                offset.1 as int,
            ),
            result is Err ==> final(self)@ == old(self)@ && result == Err::<(), Error>(
                Error::OutOfBounds,
            ),
    {
        if !self.pattern_fits(object, offset) {
            return Err(Error::OutOfBounds);
        }
        let w = self.width as usize;
        let h = self.height as usize;
        let ox = offset.0;
        let oy = offset.1;
        let mut next: Vec<Vec<Cell>> = Vec::new();
        let mut y: usize = 0;
        while y < h
            invariant
                y <= h,
                next@.len() == y as int,
                forall|j: int| 0 <= j < y as int ==> (#[trigger] next@[j])@.len() == w as int,
                forall|j: int, i: int| #![auto]
                    0 <= j < y as int && 0 <= i < w as int ==> next@[j]@[i].alive == (self@[j][i]
                        || alive_at(object@, i - ox as int, j - oy as int)),
            decreases h - y,
        {
            let mut row: Vec<Cell> = Vec::new();
            let mut x: usize = 0;
            while x < w
                invariant
                    x <= w,
                    y < h,
                    row@.len() == x as int,
                    forall|i: int| #![auto]
                        0 <= i < x as int ==> row@[i].alive == (self@[y as int][i] || alive_at(
                            object@,
                            i - ox as int,
                            y as int - oy as int,
                        )),
                decreases w - x,
            {
                let stamp = if x >= ox && y >= oy {
                    object.live_at(x - ox, y - oy)
                } else {
                    false
                };
                let alive = self.get(x, y) || stamp;
                row.push(Cell { alive });
                x = x + 1;
            }
            next.push(row);
            y = y + 1;
        }
        self.cells = next;
        proof {
            let target = stamped(old(self)@, object@, ox as int, oy as int);
            assert(self@.len() == target.len());
            assert forall|j: int| 0 <= j < target.len() implies self@[j] =~= target[j] by {
                assert(old(self)@[j].len() == w as int);
                assert(self@[j].len() == target[j].len());
            }
            assert(self@ =~= target);
        }
        Ok(())
    }
}

} // verus!
