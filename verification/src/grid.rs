//! The sign grid: one cell per integer arena coordinate, each cell a growable
//! collection of decaying signs. A sign always sits in the cell matching the
//! truncation of its location at insertion time; signs never move.
//!
//! The grid gives only cell-granularity candidates: `query_window` returns
//! exactly the signs of the clipped window's cells and does no distance
//! filtering — the exact-radius check stays with the caller.

use vstd::prelude::*;
use crate::geom::{Pt, ONE, TWO_PI_FP};

verus! {

broadcast use vstd::seq_lib::lemma_seq_contains_after_push;

/// Largest side, in cells, a grid can be built with; keeps every stored
/// coordinate within the range the geometry functions accept.
pub const MAX_DIM: usize = 8192;

/// A pheromone trail marker: where it lies, which way it points (back toward
/// the food, for followers), and how many ticks it has left.
#[derive(Clone, Copy, PartialEq, Eq, Structural, Debug)]
pub struct Sign {
    pub location: Pt,
    pub heading: i64,
    pub ttl: u16,
}

/// The column of the cell a point truncates into.
pub open spec fn cell_col(p: Pt) -> int {
    (p.x as int) / (ONE as int)
}

/// The row of the cell a point truncates into.
pub open spec fn cell_row(p: Pt) -> int {
    (p.y as int) / (ONE as int)
}

/// A sign the grid can hold: located inside the arena, pointing along a
/// normalized heading, with at least one tick left.
pub open spec fn sign_ok(s: Sign, width: int, height: int) -> bool {
    &&& 0 <= s.location.x < width * (ONE as int)
    &&& 0 <= s.location.y < height * (ONE as int)
    &&& 0 <= s.heading < TWO_PI_FP
    &&& s.ttl >= 1
}

/// A sign after one decay tick.
pub open spec fn dec_sign(s: Sign) -> Sign {
    Sign { location: s.location, heading: s.heading, ttl: (s.ttl - 1) as u16 }
}

/// What one global decay leaves of a cell: every sign one tick older, those
/// that reach zero removed, order kept.
pub open spec fn decay_seq(s: Seq<Sign>) -> Seq<Sign>
    decreases s.len(),
{
    if s.len() == 0 {
        Seq::empty()
    } else {
        decay_seq(s.drop_last()) + if s.last().ttl > 1 {
            seq![dec_sign(s.last())]
        } else {
            Seq::empty()
        }
    }
}

/// The first cell index of a query window: the center cell minus the radius,
/// clipped at the grid's edge.
pub open spec fn win_lo(center: int, radius: int) -> int {
    if center >= radius {
        center - radius
    } else {
        0
    }
}

/// One past the last cell index of a query window: the center cell plus the
/// radius, clipped at the grid's other edge.
pub open spec fn win_hi(center: int, radius: int, dim: int) -> int {
    if center + radius < dim {
        center + radius
    } else {
        dim
    }
}

/// The spatial index: `cells[row][col]` holds the signs whose location
/// truncates to that cell.
pub struct SignGrid {
    pub cells: Vec<Vec<Vec<Sign>>>,
    pub width: usize,
    pub height: usize,
}

/// The signs of row `r`, columns `[lo_c, hi_c)`, in column order.
pub open spec fn row_signs(g: SignGrid, r: int, lo_c: int, hi_c: int) -> Seq<Sign>
    decreases hi_c - lo_c,
{
    if lo_c >= hi_c {
        Seq::empty()
    } else {
        row_signs(g, r, lo_c, hi_c - 1) + g.cells@[r]@[hi_c - 1]@
    }
}

/// The signs of all cells with row in `[lo_r, hi_r)` and column in
/// `[lo_c, hi_c)`, row by row.
pub open spec fn window_signs(g: SignGrid, lo_r: int, hi_r: int, lo_c: int, hi_c: int) -> Seq<Sign>
    decreases hi_r - lo_r,
{
    if lo_r >= hi_r {
        Seq::empty()
    } else {
        window_signs(g, lo_r, hi_r - 1, lo_c, hi_c) + row_signs(g, hi_r - 1, lo_c, hi_c)
    }
}

/// Exactly what a window query around `center` with the given cell radius
/// holds: the signs of the clipped window's cells, with their multiplicity,
/// nothing else.
pub open spec fn window_of(g: SignGrid, center: Pt, radius: int) -> Seq<Sign> {
    window_signs(
        g,
        win_lo(cell_row(center), radius),
        win_hi(cell_row(center), radius, g.height as int),
        win_lo(cell_col(center), radius),
        win_hi(cell_col(center), radius, g.width as int),
    )
}

impl SignGrid {
    /// The grid's invariant: a rectangle of cells, each sign well formed and
    /// stored in the cell its location truncates into.
    pub open spec fn wf(&self) -> bool {
        &&& 1 <= self.width <= MAX_DIM
        &&& 1 <= self.height <= MAX_DIM
        &&& self.cells@.len() == self.height
        &&& forall|r: int|
            0 <= r < self.height ==> (#[trigger] self.cells@[r])@.len() == self.width
        &&& forall|r: int, c: int, k: int|
            0 <= r < self.height && 0 <= c < self.width && 0 <= k < self.cells@[r]@[c]@.len()
                ==> {
                let s = #[trigger] self.cells@[r]@[c]@[k];
                &&& sign_ok(s, self.width as int, self.height as int)
                &&& cell_row(s.location) == r
                &&& cell_col(s.location) == c
            }
    }

    /// An empty grid of `height` rows by `width` columns.
    #[verifier::loop_isolation(false)]
    pub fn new(width: usize, height: usize) -> (g: SignGrid)
        requires
            1 <= width <= MAX_DIM,
            1 <= height <= MAX_DIM,
        ensures
            g.wf(),
            g.width == width,
            g.height == height,
            forall|r: int, c: int|
                0 <= r < height && 0 <= c < width ==> (#[trigger] g.cells@[r]@[c])@.len() == 0,
    {
        let mut cells: Vec<Vec<Vec<Sign>>> = Vec::new();
        let mut r: usize = 0;
        while r < height
            invariant
                r <= height,
                cells@.len() == r,
                forall|rr: int| 0 <= rr < r ==> (#[trigger] cells@[rr])@.len() == width,
                forall|rr: int, cc: int|
                    0 <= rr < r && 0 <= cc < width ==> (#[trigger] cells@[rr]@[cc])@.len() == 0,
            decreases height - r,
        {
            let mut row: Vec<Vec<Sign>> = Vec::new();
            let mut c: usize = 0;
            while c < width
                invariant
                    c <= width,
                    row@.len() == c,
                    forall|cc: int| 0 <= cc < c ==> (#[trigger] row@[cc])@.len() == 0,
                decreases width - c,
            {
                row.push(Vec::new());
                c += 1;
            }
            cells.push(row);
            r += 1;
        }
        SignGrid { cells, width, height }
    }

    /// How `deposit` changes the cells: the sign's own cell gets it appended,
    /// every other cell stays as it was.
    pub open spec fn deposit_post(pre: SignGrid, s: Sign, post: SignGrid) -> bool {
        &&& post.width == pre.width
        &&& post.height == pre.height
        &&& post.cells@.len() == pre.cells@.len()
        &&& post.cells@[cell_row(s.location)]@[cell_col(s.location)]@ == pre.cells@[cell_row(
            s.location,
        )]@[cell_col(s.location)]@.push(s)
        &&& forall|r: int, c: int|
            0 <= r < pre.height && 0 <= c < pre.width && !(r == cell_row(s.location) && c
                == cell_col(s.location)) ==> (#[trigger] post.cells@[r]@[c])@ == pre.cells@[r]@[c]@
    }

    /// Inserts a sign into the cell its location truncates into. The caller
    /// guarantees containment; agents are clamped before they deposit.
    pub fn deposit(&mut self, s: Sign)
        requires
            old(self).wf(),
            sign_ok(s, old(self).width as int, old(self).height as int),
        ensures
            final(self).wf(),
            SignGrid::deposit_post(*old(self), s, *final(self)),
    {
        proof {
            let w: int = old(self).width as int;
            let h: int = old(self).height as int;
            let px: int = s.location.x as int;
            let py: int = s.location.y as int;
            assert(py / (ONE as int) < h && px / (ONE as int) < w && py / (ONE as int) >= 0 && px
                / (ONE as int) >= 0) by (nonlinear_arith)
                requires
                    0 <= px < w * (ONE as int),
                    0 <= py < h * (ONE as int),
                    ONE == 65536,
                    w >= 1,
                    h >= 1,
            ;
        }
        let r: usize = ((s.location.y as u64) / (ONE as u64)) as usize;
        let c: usize = ((s.location.x as u64) / (ONE as u64)) as usize;
        let row = &mut self.cells[r];
        let cell = &mut row[c];
        cell.push(s);
    }

    /// What `query_window` promises of its result: every candidate is a well
    /// formed sign, and every sign of every cell in the clipped window of
    /// side `2 * radius` around the center's cell is among the candidates.
    /// Nothing is said of order.
    pub open spec fn query_covers(g: SignGrid, center: Pt, radius: int, out: Seq<Sign>) -> bool {
        &&& forall|i: int|
            0 <= i < out.len() ==> sign_ok(#[trigger] out[i], g.width as int, g.height as int)
        &&& forall|r: int, c: int, k: int|
            win_lo(cell_row(center), radius) <= r < win_hi(cell_row(center), radius, g.height as int)
                && win_lo(cell_col(center), radius) <= c < win_hi(
                cell_col(center),
                radius,
                g.width as int,
            ) && 0 <= k < g.cells@[r]@[c]@.len() ==> out.contains(#[trigger] g.cells@[r]@[c]@[k])
    }

    /// Collects exactly the signs of the cells lying in the square window of
    /// side `2 * radius` centered on `center`'s cell, clipped to the grid. A
    /// coarse filter only: callers still check exact distances.
    #[verifier::loop_isolation(false)]
    pub fn query_window(&self, center: Pt, radius: usize) -> (out: Vec<Sign>)
        requires
            self.wf(),
            0 <= center.x,
            0 <= center.y,
            radius <= MAX_DIM,
        ensures
            SignGrid::query_covers(*self, center, radius as int, out@),
            out@ == window_of(*self, center, radius as int),
    {
        proof {
            assert((center.y as int) / (ONE as int) >= 0 && (center.y as int) / (ONE as int)
                <= center.y && (center.x as int) / (ONE as int) >= 0 && (center.x as int) / (
            ONE as int) <= center.x) by (nonlinear_arith)
                requires
                    0 <= center.x,
                    0 <= center.y,
                    ONE == 65536,
            ;
        }
        let cy: u64 = (center.y as u64) / (ONE as u64);
        let cx: u64 = (center.x as u64) / (ONE as u64);
        let lo_r: usize = if cy >= (radius as u64) {
            if cy - (radius as u64) > (MAX_DIM as u64) {
                MAX_DIM
            } else {
                (cy - (radius as u64)) as usize
            }
        } else {
            0
        };
        let hi_r: usize = if cy + (radius as u64) < (self.height as u64) {
            (cy + (radius as u64)) as usize
        } else {
            self.height
        };
        let lo_c: usize = if cx >= (radius as u64) {
            if cx - (radius as u64) > (MAX_DIM as u64) {
                MAX_DIM
            } else {
                (cx - (radius as u64)) as usize
            }
        } else {
            0
        };
        let hi_c: usize = if cx + (radius as u64) < (self.width as u64) {
            (cx + (radius as u64)) as usize
        } else {
            self.width
        };
        proof {
            assert(cy == cell_row(center));
            assert(cx == cell_col(center));
            assert(hi_r == win_hi(cell_row(center), radius as int, self.height as int));
            assert(hi_c == win_hi(cell_col(center), radius as int, self.width as int));
            assert(lo_r == win_lo(cell_row(center), radius as int) || (lo_r == MAX_DIM
                && win_lo(cell_row(center), radius as int) > MAX_DIM));
            assert(lo_c == win_lo(cell_col(center), radius as int) || (lo_c == MAX_DIM
                && win_lo(cell_col(center), radius as int) > MAX_DIM));
        }
        let mut out: Vec<Sign> = Vec::new();
        let mut r: usize = lo_r;
        if r > hi_r {
            r = hi_r;
        }
        let ghost lo_r_s: int = win_lo(cell_row(center), radius as int);
        let ghost lo_c_s: int = win_lo(cell_col(center), radius as int);
        while r < hi_r
            invariant
                self.wf(),
                lo_r_s == win_lo(cell_row(center), radius as int),
                lo_c_s == win_lo(cell_col(center), radius as int),
                hi_r == win_hi(cell_row(center), radius as int, self.height as int),
                hi_c == win_hi(cell_col(center), radius as int, self.width as int),
                lo_r_s <= r || r >= hi_r,
                r <= hi_r,
                r <= self.height,
                hi_c <= self.width,
                forall|i: int|
                    0 <= i < out@.len() ==> sign_ok(
                        #[trigger] out@[i],
                        self.width as int,
                        self.height as int,
                    ),
                forall|rr: int, cc: int, kk: int|
                    lo_r_s <= rr < r && lo_c_s <= cc < hi_c && 0 <= kk
                        < self.cells@[rr]@[cc]@.len() ==> out@.contains(
                        #[trigger] self.cells@[rr]@[cc]@[kk],
                    ),
                out@ == window_signs(*self, lo_r_s, r as int, lo_c_s, hi_c as int),
            decreases hi_r - r,
        {
            let row = &self.cells[r];
            let mut c: usize = lo_c;
            if c > hi_c {
                c = hi_c;
            }
            while c < hi_c
                invariant
                    self.wf(),
                    lo_r_s == win_lo(cell_row(center), radius as int),
                    lo_c_s == win_lo(cell_col(center), radius as int),
                    hi_r == win_hi(cell_row(center), radius as int, self.height as int),
                    hi_c == win_hi(cell_col(center), radius as int, self.width as int),
                    lo_r_s <= r < hi_r,
                    r < self.height,
                    lo_c_s <= c || c >= hi_c,
                    c <= hi_c <= self.width,
                    row == self.cells@[r as int],
                    forall|i: int|
                        0 <= i < out@.len() ==> sign_ok(
                            #[trigger] out@[i],
                            self.width as int,
                            self.height as int,
                        ),
                    forall|rr: int, cc: int, kk: int|
                        lo_r_s <= rr < r && lo_c_s <= cc < hi_c && 0 <= kk
                            < self.cells@[rr]@[cc]@.len() ==> out@.contains(
                            #[trigger] self.cells@[rr]@[cc]@[kk],
                        ),
                    forall|cc: int, kk: int|
                        lo_c_s <= cc < c && 0 <= kk < self.cells@[r as int]@[cc]@.len()
                            ==> out@.contains(#[trigger] self.cells@[r as int]@[cc]@[kk]),
                    out@ == window_signs(*self, lo_r_s, r as int, lo_c_s, hi_c as int)
                        + row_signs(*self, r as int, lo_c_s, c as int),
                decreases hi_c - c,
            {
                let cell = &row[c];
                let mut k: usize = 0;
                while k < cell.len()
                    invariant
                        self.wf(),
                        lo_r_s <= r < hi_r,
                        r < self.height,
                        lo_c_s <= c < hi_c,
                        c < self.width,
                        hi_c <= self.width,
                        hi_r == win_hi(cell_row(center), radius as int, self.height as int),
                        hi_c == win_hi(cell_col(center), radius as int, self.width as int),
                        lo_r_s == win_lo(cell_row(center), radius as int),
                        lo_c_s == win_lo(cell_col(center), radius as int),
                        row == self.cells@[r as int],
                        cell == self.cells@[r as int]@[c as int],
                        k <= cell@.len(),
                        forall|i: int|
                            0 <= i < out@.len() ==> sign_ok(
                                #[trigger] out@[i],
                                self.width as int,
                                self.height as int,
                            ),
                        forall|rr: int, cc: int, kk: int|
                            lo_r_s <= rr < r && lo_c_s <= cc < hi_c && 0 <= kk
                                < self.cells@[rr]@[cc]@.len() ==> out@.contains(
                                #[trigger] self.cells@[rr]@[cc]@[kk],
                            ),
                        forall|cc: int, kk: int|
                            lo_c_s <= cc < c && 0 <= kk < self.cells@[r as int]@[cc]@.len()
                                ==> out@.contains(#[trigger] self.cells@[r as int]@[cc]@[kk]),
                        forall|kk: int|
                            0 <= kk < k ==> out@.contains(
                                #[trigger] self.cells@[r as int]@[c as int]@[kk],
                            ),
                        out@ == window_signs(*self, lo_r_s, r as int, lo_c_s, hi_c as int)
                            + row_signs(*self, r as int, lo_c_s, c as int) + cell@.subrange(
                            0,
                            k as int,
                        ),
                    decreases cell.len() - k,
                {
                    out.push(cell[k]);
                    proof {
                        let w = window_signs(*self, lo_r_s, r as int, lo_c_s, hi_c as int)
                            + row_signs(*self, r as int, lo_c_s, c as int);
                        assert(cell@.subrange(0, k as int + 1) =~= cell@.subrange(
                            0,
                            k as int,
                        ).push(cell@[k as int]));
                        assert(out@ =~= w + cell@.subrange(0, k as int + 1));
                    }
                    k += 1;
                }
                proof {
                    assert(cell@.subrange(0, cell@.len() as int) =~= cell@);
                    assert(row_signs(*self, r as int, lo_c_s, c as int + 1) == row_signs(
                        *self,
                        r as int,
                        lo_c_s,
                        c as int,
                    ) + self.cells@[r as int]@[c as int]@);
                    assert(out@ =~= window_signs(*self, lo_r_s, r as int, lo_c_s, hi_c as int)
                        + row_signs(*self, r as int, lo_c_s, c as int + 1));
                }
                c += 1;
            }
            proof {
                assert(window_signs(*self, lo_r_s, r as int + 1, lo_c_s, hi_c as int)
                    == window_signs(*self, lo_r_s, r as int, lo_c_s, hi_c as int) + row_signs(
                    *self,
                    r as int,
                    lo_c_s,
                    hi_c as int,
                ));
            }
            r += 1;
        }
        out
    }

    /// Ages every sign of every cell by one tick and removes those whose
    /// time runs out. Runs exactly once per simulation tick, after all
    /// agents, so a fresh sign survives into the next tick's queries.
    #[verifier::loop_isolation(false)]
    pub fn decay_all(&mut self)
        requires
            old(self).wf(),
        ensures
            final(self).wf(),
            final(self).width == old(self).width,
            final(self).height == old(self).height,
            forall|r: int, c: int|
                0 <= r < old(self).height && 0 <= c < old(self).width ==> (
                #[trigger] final(self).cells@[r]@[c])@ == decay_seq(old(self).cells@[r]@[c]@),
    {
        let mut new_cells: Vec<Vec<Vec<Sign>>> = Vec::new();
        let mut r: usize = 0;
        while r < self.height
            invariant
                self == old(self),
                self.wf(),
                r <= self.height,
                new_cells@.len() == r,
                forall|rr: int| 0 <= rr < r ==> (#[trigger] new_cells@[rr])@.len() == self.width,
                forall|rr: int, cc: int|
                    0 <= rr < r && 0 <= cc < self.width ==> (#[trigger] new_cells@[rr]@[cc])@
                        == decay_seq(self.cells@[rr]@[cc]@),
            decreases self.height - r,
        {
            let row = &self.cells[r];
            let mut new_row: Vec<Vec<Sign>> = Vec::new();
            let mut c: usize = 0;
            while c < self.width
                invariant
                    self == old(self),
                    self.wf(),
                    r < self.height,
                    c <= self.width,
                    row == self.cells@[r as int],
                    new_row@.len() == c,
                    forall|cc: int|
                        0 <= cc < c ==> (#[trigger] new_row@[cc])@ == decay_seq(
                            self.cells@[r as int]@[cc]@,
                        ),
                decreases self.width - c,
            {
                let cell = &row[c];
                let mut out: Vec<Sign> = Vec::new();
                let mut k: usize = 0;
                while k < cell.len()
                    invariant
                        k <= cell@.len(),
                        out@ == decay_seq(cell@.subrange(0, k as int)),
                    decreases cell.len() - k,
                {
                    let s: Sign = cell[k];
                    proof {
                        assert(cell@.subrange(0, k + 1 as int).drop_last() == cell@.subrange(
                            0,
                            k as int,
                        ));
                        assert(cell@.subrange(0, k + 1 as int).last() == cell@[k as int]);
                    }
                    if s.ttl > 1 {
                        out.push(Sign { location: s.location, heading: s.heading, ttl: s.ttl - 1 });
                        proof {
                            assert(out@ == decay_seq(cell@.subrange(0, k as int)).push(
                                dec_sign(cell@[k as int]),
                            ));
                            assert(decay_seq(cell@.subrange(0, k + 1 as int)) == decay_seq(
                                cell@.subrange(0, k as int),
                            ) + seq![dec_sign(cell@[k as int])]);
                            assert(decay_seq(cell@.subrange(0, k as int)) + seq![
                                dec_sign(cell@[k as int]),
                            ] == decay_seq(cell@.subrange(0, k as int)).push(
                                dec_sign(cell@[k as int]),
                            ));
                        }
                    } else {
                        proof {
                            assert(decay_seq(cell@.subrange(0, k + 1 as int)) == decay_seq(
                                cell@.subrange(0, k as int),
                            ) + Seq::<Sign>::empty());
                            assert(decay_seq(cell@.subrange(0, k as int)) + Seq::<Sign>::empty()
                                == decay_seq(cell@.subrange(0, k as int)));
                        }
                    }
                    k += 1;
                }
                proof {
                    assert(cell@.subrange(0, cell@.len() as int) == cell@);
                }
                new_row.push(out);
                c += 1;
            }
            new_cells.push(new_row);
            r += 1;
        }
        self.cells = new_cells;
        proof {
            assert forall|r2: int, c2: int, k2: int|
                0 <= r2 < self.height && 0 <= c2 < self.width && 0 <= k2
                    < self.cells@[r2]@[c2]@.len() implies {
                let s = #[trigger] self.cells@[r2]@[c2]@[k2];
                &&& sign_ok(s, self.width as int, self.height as int)
                &&& cell_row(s.location) == r2
                &&& cell_col(s.location) == c2
            } by {
                lemma_decay_seq_elems(old(self).cells@[r2]@[c2]@);
            }
        }
    }
}

/// Every survivor of one decay is the aged copy of a stored sign that had
/// more than one tick left: same location and heading, one tick less.
pub proof fn lemma_decay_seq_elems(s: Seq<Sign>)
    ensures
        forall|i: int|
            0 <= i < decay_seq(s).len() ==> exists|j: int|
                0 <= j < s.len() && s[j].ttl > 1 && #[trigger] decay_seq(s)[i] == dec_sign(s[j]),
    decreases s.len(),
{
    if s.len() == 0 {
    } else {
        lemma_decay_seq_elems(s.drop_last());
        let pre = decay_seq(s.drop_last());
        assert forall|i: int| 0 <= i < decay_seq(s).len() implies exists|j: int|
            0 <= j < s.len() && s[j].ttl > 1 && #[trigger] decay_seq(s)[i] == dec_sign(s[j]) by {
            if i < pre.len() {
                assert(decay_seq(s)[i] == pre[i]);
                let j = choose|j: int|
                    0 <= j < s.drop_last().len() && s.drop_last()[j].ttl > 1 && #[trigger] pre[i]
                        == dec_sign(s.drop_last()[j]);
                assert(s.drop_last()[j] == s[j]);
                assert(decay_seq(s)[i] == dec_sign(s[j]));
            } else {
                assert(s.last().ttl > 1);
                assert(decay_seq(s)[i] == dec_sign(s[s.len() - 1]));
                assert(s[s.len() - 1].ttl > 1);
            }
        }
    }
}

/// A cell's contents after `n` consecutive decay ticks.
pub open spec fn decay_seq_n(s: Seq<Sign>, n: nat) -> Seq<Sign>
    decreases n,
{
    if n == 0 {
        s
    } else {
        decay_seq(decay_seq_n(s, (n - 1) as nat))
    }
}

/// A sign aged by `n` ticks at once.
pub open spec fn dec_sign_by(s: Sign, n: int) -> Sign {
    Sign { location: s.location, heading: s.heading, ttl: (s.ttl - n) as u16 }
}

/// The closed form of `n` decay ticks: each sign with more than `n` ticks
/// left, aged by `n`; the rest gone; order kept.
pub open spec fn decay_by(s: Seq<Sign>, n: int) -> Seq<Sign>
    decreases s.len(),
{
    if s.len() == 0 {
        Seq::empty()
    } else {
        decay_by(s.drop_last(), n) + if s.last().ttl > n {
            seq![dec_sign_by(s.last(), n)]
        } else {
            Seq::empty()
        }
    }
}

/// One decay distributes over concatenation.
proof fn lemma_decay_seq_add(a: Seq<Sign>, b: Seq<Sign>)
    ensures
        decay_seq(a + b) == decay_seq(a) + decay_seq(b),
    decreases b.len(),
{
    if b.len() == 0 {
        assert(a + b =~= a);
        assert(decay_seq(a) + decay_seq(b) =~= decay_seq(a));
    } else {
        lemma_decay_seq_add(a, b.drop_last());
        let t = if b.last().ttl > 1 {
            seq![dec_sign(b.last())]
        } else {
            Seq::<Sign>::empty()
        };
        assert((a + b).drop_last() =~= a + b.drop_last());
        assert((a + b).last() == b.last());
        assert((a + b).len() > 0);
        assert(decay_seq(a + b) == (decay_seq(a) + decay_seq(b.drop_last())) + t);
        assert((decay_seq(a) + decay_seq(b.drop_last())) + t =~= decay_seq(a) + (decay_seq(
            b.drop_last(),
        ) + t));
        assert(decay_seq(b) == decay_seq(b.drop_last()) + t);
    }
}

/// Aging by `n` and decaying once is aging by `n + 1`.
proof fn lemma_decay_once_more(s: Seq<Sign>, n: int)
    requires
        n >= 0,
    ensures
        decay_seq(decay_by(s, n)) == decay_by(s, n + 1),
    decreases s.len(),
{
    if s.len() == 0 {
    } else {
        lemma_decay_once_more(s.drop_last(), n);
        let tail = if s.last().ttl > n {
            seq![dec_sign_by(s.last(), n)]
        } else {
            Seq::<Sign>::empty()
        };
        let tail2 = if s.last().ttl > n + 1 {
            seq![dec_sign_by(s.last(), n + 1)]
        } else {
            Seq::<Sign>::empty()
        };
        let empty = Seq::<Sign>::empty();
        lemma_decay_seq_add(decay_by(s.drop_last(), n), tail);
        if s.last().ttl > n {
            assert(tail.drop_last() =~= empty);
            let t1 = if tail.last().ttl > 1 {
                seq![dec_sign(tail.last())]
            } else {
                Seq::<Sign>::empty()
            };
            assert(decay_seq(tail) == decay_seq(empty) + t1);
            if s.last().ttl > n + 1 {
                assert(tail.last().ttl > 1);
                assert(dec_sign(tail.last()) == dec_sign_by(s.last(), n + 1));
                assert(empty + t1 =~= tail2);
            } else {
                assert(tail.last().ttl <= 1);
                assert(empty + t1 =~= tail2);
            }
        } else {
            assert(decay_seq(tail) =~= tail2);
        }
        assert(decay_seq(tail) == tail2);
        assert(decay_seq(decay_by(s, n)) == decay_by(s.drop_last(), n + 1) + tail2);
    }
}

/// Aging by zero ticks changes nothing, as long as every sign still has a
/// tick left, which the grid's invariant guarantees of stored signs.
proof fn lemma_decay_by_zero(s: Seq<Sign>)
    requires
        forall|i: int| 0 <= i < s.len() ==> (#[trigger] s[i]).ttl >= 1,
    ensures
        decay_by(s, 0) == s,
    decreases s.len(),
{
    if s.len() == 0 {
        assert(decay_by(s, 0) =~= s);
    } else {
        assert(forall|i: int|
            0 <= i < s.drop_last().len() ==> (#[trigger] s.drop_last()[i]).ttl >= 1);
        lemma_decay_by_zero(s.drop_last());
        assert(dec_sign_by(s.last(), 0) == s.last());
        assert(decay_by(s, 0) == s.drop_last() + seq![s.last()]);
        assert(s.drop_last() + seq![s.last()] =~= s);
    }
}

/// Sign decay, iterated: starting from a cell whose signs all have at least
/// one tick left, `n` decay ticks leave exactly the signs that had more than
/// `n` ticks, each aged by `n`, in their stored order. A sign deposited
/// with `ttl = T` is therefore still there after every `n < T` ticks, aged to
/// `T - n`, and contributes nothing once `n` reaches `T`.
pub proof fn lemma_sign_decay(s: Seq<Sign>, n: nat)
    requires
        forall|i: int| 0 <= i < s.len() ==> (#[trigger] s[i]).ttl >= 1,
    ensures
        decay_seq_n(s, n) == decay_by(s, n as int),
    decreases n,
{
    if n == 0 {
        lemma_decay_by_zero(s);
    } else {
        lemma_sign_decay(s, (n - 1) as nat);
        lemma_decay_once_more(s, n - 1);
    }
}

/// A sign with more than `n` ticks left survives `n` decay ticks, aged by `n`.
pub proof fn lemma_sign_present(s: Seq<Sign>, i: int, n: int)
    requires
        0 <= i < s.len(),
        0 <= n,
        s[i].ttl > n,
    ensures
        decay_by(s, n).contains(dec_sign_by(s[i], n)),
    decreases s.len(),
{
    if i == s.len() - 1 {
        let tail = seq![dec_sign_by(s.last(), n)];
        assert(decay_by(s, n) == decay_by(s.drop_last(), n) + tail);
        assert(decay_by(s, n)[decay_by(s, n).len() - 1] == dec_sign_by(s[i], n));
    } else {
        assert(s.drop_last()[i] == s[i]);
        lemma_sign_present(s.drop_last(), i, n);
        let pre = decay_by(s.drop_last(), n);
        let j = choose|j: int| 0 <= j < pre.len() && pre[j] == dec_sign_by(s[i], n);
        assert(decay_by(s, n)[j] == dec_sign_by(s[i], n));
    }
}

/// Every survivor of `n` decay ticks stems from a sign that had more than
/// `n` ticks left; one whose time ran out is gone for good.
pub proof fn lemma_sign_absent(s: Seq<Sign>, n: int)
    requires
        0 <= n,
    ensures
        forall|i: int|
            0 <= i < decay_by(s, n).len() ==> exists|j: int|
                0 <= j < s.len() && s[j].ttl > n && #[trigger] decay_by(s, n)[i] == dec_sign_by(
                    s[j],
                    n,
                ),
    decreases s.len(),
{
    if s.len() == 0 {
    } else {
        lemma_sign_absent(s.drop_last(), n);
        let pre = decay_by(s.drop_last(), n);
        assert forall|i: int| 0 <= i < decay_by(s, n).len() implies exists|j: int|
            0 <= j < s.len() && s[j].ttl > n && #[trigger] decay_by(s, n)[i] == dec_sign_by(
                s[j],
                n,
            ) by {
            if i < pre.len() {
                assert(decay_by(s, n)[i] == pre[i]);
                let j = choose|j: int|
                    0 <= j < s.drop_last().len() && s.drop_last()[j].ttl > n && #[trigger] pre[i]
                        == dec_sign_by(s.drop_last()[j], n);
                assert(s.drop_last()[j] == s[j]);
                assert(decay_by(s, n)[i] == dec_sign_by(s[j], n));
            } else {
                assert(s.last().ttl > n);
                assert(decay_by(s, n)[i] == dec_sign_by(s[s.len() - 1], n));
                assert(s[s.len() - 1].ttl > n);
            }
        }
    }
}

/// Round trip: a sign just deposited lies among the candidates of any query
/// made before the next decay, whenever the window's cell range covers the
/// sign's cell.
pub proof fn lemma_round_trip(
    pre: SignGrid,
    s: Sign,
    post: SignGrid,
    center: Pt,
    radius: int,
    out: Seq<Sign>,
)
    requires
        pre.wf(),
        SignGrid::deposit_post(pre, s, post),
        SignGrid::query_covers(post, center, radius, out),
        win_lo(cell_row(center), radius) <= cell_row(s.location) < win_hi(
            cell_row(center),
            radius,
            post.height as int,
        ),
        win_lo(cell_col(center), radius) <= cell_col(s.location) < win_hi(
            cell_col(center),
            radius,
            post.width as int,
        ),
    ensures
        out.contains(s),
{
    let r = cell_row(s.location);
    let c = cell_col(s.location);
    let cell = post.cells@[r]@[c]@;
    assert(cell == pre.cells@[r]@[c]@.push(s));
    assert(cell[cell.len() - 1] == s);
    assert(out.contains(post.cells@[r]@[c]@[cell.len() - 1]));
}

} // verus!
