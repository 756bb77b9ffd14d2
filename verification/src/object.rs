//! Patterns ("objects"): immutable boolean shapes that can be stamped onto a
//! grid. A pattern is parsed from a line-oriented marker text: each line is
//! one row, top to bottom; within a line, `*` marks a live cell and `.` a
//! dead one, left to right. Any other byte on a line is a parse error. Rows
//! need not share a length; a shorter row simply contributes fewer cells.

use crate::model::alive_at;
use crate::text::{lemma_seg_len_is, split_on, ALIVE_MARKER, DEAD_MARKER, LINE_BREAK};
use crate::Error;
use vstd::prelude::*;

verus! {

/// Whether `b` may appear on a pattern line: the live or the dead marker.
pub open spec fn recognized(b: u8) -> bool {
    b == ALIVE_MARKER || b == DEAD_MARKER
}

/// Every byte of a pattern text is a marker or a line break — the exact
/// condition under which the text parses.
pub open spec fn all_recognized(s: Seq<u8>) -> bool {
    forall|i: int| 0 <= i < s.len() ==> (s[i] == LINE_BREAK || recognized(#[trigger] s[i]))
}

/// The row denoted by one line of a pattern text: one cell per byte, alive
/// exactly at the live marker.
pub open spec fn row_of_line(line: Seq<u8>) -> Seq<bool> {
    Seq::new(line.len(), |i: int| line[i] == ALIVE_MARKER)
}

/// The pattern denoted by a whole text: one row per line, top to bottom.
pub open spec fn rows_of_text(s: Seq<u8>) -> Seq<Seq<bool>> {
    Seq::new(split_on(s, LINE_BREAK).len(), |y: int| row_of_line(split_on(s, LINE_BREAK)[y]))
}

/// An immutable 2-D boolean shape, stored as rows of cells (`true` = alive),
/// addressed as `rows[y][x]`. It is only ever read: stamping it onto a grid
/// never changes it, and one pattern may be stamped onto many grids.
#[derive(Clone, Debug, PartialEq)]
pub struct Object {
    pub rows: Vec<Vec<bool>>,
}

impl View for Object {
    type V = Seq<Seq<bool>>;

    open spec fn view(&self) -> Seq<Seq<bool>> {
        Seq::new(
            self.rows@.len(),
            |y: int| Seq::new(self.rows@[y]@.len(), |x: int| self.rows@[y]@[x]),
        )
    }
}

impl Object {
    /// Parse a pattern from a line-oriented marker text: each line is one row
    /// (rows need not share a length), `*` is a live cell and `.` a dead one.
    /// A final line break merely ends the last row; an empty line is a row
    /// with no cells; empty text is a pattern with no rows. Succeeds exactly
    /// when every byte is one of the two markers or a line break; anything
    /// else is a `ParseError`.
    #[verifier::loop_isolation(false)]
    pub fn from_text(text: &[u8]) -> (r: Result<Object, Error>)
        ensures
            r is Ok <==> all_recognized(text@),
            r matches Ok(o) ==> o@ == rows_of_text(text@),
            r is Err ==> r == Err::<Object, Error>(Error::ParseError),
    {
        let n = text.len();
        let ghost lines = split_on(text@, LINE_BREAK);
        let mut rows: Vec<Vec<bool>> = Vec::new();
        let mut p: usize = 0;
        proof {
            assert(text@.skip(0) =~= text@);
            assert(lines.skip(0) =~= lines);
        }
        while p < n
            invariant
                p <= n,
                forall|m: int|
                    0 <= m < p as int ==> (text@[m] == LINE_BREAK || recognized(
                        #[trigger] text@[m],
                    )),
                rows@.len() <= lines.len(),
                forall|j: int| #![auto] 0 <= j < rows@.len() ==> rows@[j]@ == row_of_line(lines[j]),
                split_on(text@.skip(p as int), LINE_BREAK) == lines.skip(rows@.len() as int),
            decreases n - p,
        {
            let mut j: usize = p;
            let mut row: Vec<bool> = Vec::new();
            while j < n && text[j] != LINE_BREAK
                invariant
                    p <= j <= n,
                    row@.len() == j as int - p as int,
                    forall|m: int|
                        p as int <= m < j as int ==> text@[m] != LINE_BREAK && recognized(
                            #[trigger] text@[m],
                        ),
                    forall|m: int| #![auto]
                        0 <= m < row@.len() ==> row@[m] == (text@[p + m] == ALIVE_MARKER),
                decreases n - j,
            {
                let b = text[j];
                if b != ALIVE_MARKER && b != DEAD_MARKER {
                    proof {
                        assert(text@[j as int] != LINE_BREAK && !recognized(text@[j as int]));
                    }
                    return Err(Error::ParseError);
                }
                row.push(b == ALIVE_MARKER);
                j = j + 1;
            }
            proof {
                let t = text@.skip(p as int);
                let e = j as int - p as int;
                let k = rows@.len() as int;
                assert forall|m: int| 0 <= m < e implies t[m] != LINE_BREAK by {
                    assert(t[m] == text@[p + m]);
                }
                lemma_seg_len_is(t, LINE_BREAK, e);
                assert(row@ =~= row_of_line(t.take(e)));
                if e < t.len() {
                    assert(split_on(t, LINE_BREAK) == seq![t.take(e)] + split_on(
                        t.skip(e + 1),
                        LINE_BREAK,
                    ));
                    assert(lines.skip(k)[0] == lines[k]);
                    assert(lines[k] == t.take(e));
                    assert(text@.skip(j as int + 1) =~= t.skip(e + 1));
                    assert(lines.skip(k + 1) =~= lines.skip(k).skip(1));
                    assert((seq![t.take(e)] + split_on(t.skip(e + 1), LINE_BREAK)).skip(1)
                        =~= split_on(t.skip(e + 1), LINE_BREAK));
                    assert(split_on(text@.skip(j as int + 1), LINE_BREAK) == lines.skip(k + 1));
                } else {
                    assert(t.len() == e);
                    assert(split_on(t, LINE_BREAK) == seq![t]);
                    assert(lines.skip(k)[0] == lines[k]);
                    assert(lines[k] == t);
                    assert(lines.len() == k + 1);
                    assert(text@.skip(n as int) =~= Seq::<u8>::empty());
                    assert(split_on(text@.skip(n as int), LINE_BREAK) =~= lines.skip(k + 1));
                }
            }
            rows.push(row);
            if j < n {
                p = j + 1;
            } else {
                p = n;
            }
        }
        proof {
            assert(text@.skip(p as int) =~= Seq::<u8>::empty());
            assert(lines.skip(rows@.len() as int).len() == 0);
            assert(rows@.len() == lines.len());
        }
        let o = Object { rows };
        proof {
            assert forall|y: int| 0 <= y < lines.len() implies o@[y] =~= rows_of_text(text@)[y] by {
            }
            assert(o@ =~= rows_of_text(text@));
        }
        Ok(o)
    }

    /// Whether `(x, y)` lies inside this pattern and is a live cell; any
    /// position outside the rows counts as dead.
    pub fn live_at(&self, x: usize, y: usize) -> (alive: bool)
        ensures
            alive == alive_at(self@, x as int, y as int),
    {
        if y < self.rows.len() {
            let row = &self.rows[y];
            if x < row.len() {
                row[x]
            } else {
                false
            }
        } else {
            false
        }
    }
}

} // verus!
