//! The simulation surface: a grid of slots with lookup, bounds testing,
//! bulk unlock, and text rendering.

use vstd::prelude::*;
use crate::grid::{row_major_index, Matrix};
use crate::point::Point;
use crate::slot::Slot;

verus! {

/// Every slot of `g` with its lock flag reset.
pub open spec fn unlock_seq(g: Seq<Slot>) -> Seq<Slot> {
    g.map_values(|s: Slot| (Slot { operator: s.operator, lock: false }))
}

/// The text form of the cells of `g` from flat position `k` on: three
/// characters per slot, with a newline after the last cell of each row.
pub open spec fn render_from(w: int, g: Seq<Slot>, k: int) -> Seq<char>
    decreases g.len() - k,
{
    if k < 0 || k >= g.len() || w <= 0 {
        Seq::empty()
    } else {
        g[k].spec_render() + (if k % w == w - 1 {
            seq!['\n']
        } else {
            Seq::<char>::empty()
        }) + render_from(w, g, k + 1)
    }
}

/// The text form of a whole field of width `w`: one line per row, `[c]`
/// for locked slots, ` c ` for unlocked ones, `.` standing in for empty.
pub open spec fn render_seq(w: int, g: Seq<Slot>) -> Seq<char> {
    render_from(w, g, 0)
}

/// A `width x height` field of slots; the simulation surface. The view is
/// the flat row-major sequence of slots.
pub struct Field {
    pub slots: Matrix<Slot>,
}

impl View for Field {
    type V = Seq<Slot>;

    open spec fn view(&self) -> Seq<Slot> {
        self.slots@
    }
}

impl Field {
    pub open spec fn wf(self) -> bool {
        self.slots.wf()
    }

    pub open spec fn spec_in_bounds(&self, pt: Point) -> bool {
        self.slots.spec_in_bounds(pt)
    }

    /// An all-empty, all-unlocked field.
    pub fn new(width: usize, height: usize) -> (f: Field)
        requires
            width * height <= usize::MAX,
            width <= i32::MAX,
            height <= i32::MAX,
        ensures
            f.wf(),
            f.slots.width == width,
            f.slots.height == height,
            f@.len() == width * height,
            forall|j: int| 0 <= j < f@.len() ==> f@[j] == (Slot { operator: '\0', lock: false }),
    {
        Field { slots: Matrix::new(width, height, Slot { operator: '\0', lock: false }) }
    }

    /// Resets every slot's lock flag. Called once at the start of every
    /// tick, before any dispatch.
    pub fn unlock_all(&mut self)
        requires
            old(self).wf(),
        ensures
            final(self)@ == unlock_seq(old(self)@),
            final(self).slots.width == old(self).slots.width,
            final(self).slots.height == old(self).slots.height,
            final(self).wf(),
    {
        let ghost g0 = self@;
        let n: usize = self.slots.num_cells();
        let mut k: usize = 0;
        while k < n
            invariant
                k <= n,
                n == self@.len(),
                self.slots.width == old(self).slots.width,
                self.slots.height == old(self).slots.height,
                g0 == old(self)@,
                g0.len() == n,
                forall|j: int| 0 <= j < k ==> self@[j] == (Slot {
                    operator: g0[j].operator,
                    lock: false,
                }),
                forall|j: int| k <= j < n ==> self@[j] == g0[j],
            decreases n - k,
        {
            let s = *self.slots.ref_flat(k);
            self.slots.set_flat(k, Slot { operator: s.operator, lock: false });
            k = k + 1;
        }
        proof {
            assert(self@ =~= unlock_seq(g0));
        }
    }

    /// The slot at `pt`; thin delegate to the grid, with the same
    /// no-bounds-check contract.
    pub fn ref_slot(&self, pt: Point) -> (r: &Slot)
        requires
            self.wf(),
            self.spec_in_bounds(pt),
        ensures
            *r == self@[row_major_index(self.slots.width as int, pt.x as int, pt.y as int)],
    {
        self.slots.ref_idx(pt)
    }

    /// Overwrites the slot at `pt`.
    pub fn set_slot(&mut self, pt: Point, s: Slot)
        requires
            old(self).wf(),
            old(self).spec_in_bounds(pt),
        ensures
            final(self)@ == old(self)@.update(
                row_major_index(old(self).slots.width as int, pt.x as int, pt.y as int),
                s,
            ),
            final(self).slots.width == old(self).slots.width,
            final(self).slots.height == old(self).slots.height,
            final(self).wf(),
    {
        self.slots.set_idx(pt, s);
    }

    /// Places operator `op` at `pt`, keeping the slot's lock flag. This is
    /// how a caller seeds the field before the first tick.
    pub fn set_operator(&mut self, pt: Point, op: char)
        requires
            old(self).wf(),
            old(self).spec_in_bounds(pt),
        ensures
            final(self)@ == old(self)@.update(
                row_major_index(old(self).slots.width as int, pt.x as int, pt.y as int),
                (Slot {
                    operator: op,
                    lock: old(self)@[row_major_index(
                        old(self).slots.width as int,
                        pt.x as int,
                        pt.y as int,
                    )].lock,
                }),
            ),
            final(self).slots.width == old(self).slots.width,
            final(self).slots.height == old(self).slots.height,
            final(self).wf(),
    {
        let s = *self.slots.ref_idx(pt);
        self.slots.set_idx(pt, Slot { operator: op, lock: s.lock });
    }

    /// True iff `pt` addresses a slot of this field; delegate to the grid.
    pub fn point_in_bounds(&self, pt: Point) -> (r: bool)
        requires
            self.wf(),
        ensures
            r == self.spec_in_bounds(pt),
    {
        self.slots.in_bounds(pt)
    }

    pub fn width(&self) -> (w: usize)
        ensures
            w == self.slots.width,
    {
        self.slots.width
    }

    pub fn height(&self) -> (h: usize)
        ensures
            h == self.slots.height,
    {
        self.slots.height
    }

    /// Renders the field as text, one row per line.
    pub fn render(&self) -> (r: Vec<char>)
        requires
            self.wf(),
        ensures
            r@ == render_seq(self.slots.width as int, self@),
    {
        let n: usize = self.slots.num_cells();
        let w: usize = self.slots.width;
        let mut r: Vec<char> = Vec::new();
        let mut k: usize = 0;
        let mut x: usize = 0;
        let mut y: usize = 0;
        proof {
            if n > 0 {
                assert(w > 0 && self.slots.height > 0) by (nonlinear_arith)
                    requires
                        n == w * self.slots.height,
                        n > 0,
                        0 <= w,
                        0 <= self.slots.height,
                ;
            }
        }
        while k < n
            invariant
                k <= n,
                n == self@.len(),
                n == w * self.slots.height,
                k == y * w + x,
                k < n ==> (x < w && y < self.slots.height),
                r@ + render_from(w as int, self@, k as int) == render_seq(w as int, self@),
            decreases n - k,
        {
            proof {
                crate::grid::lemma_row_major_index_decompose(w as int, x as int, y as int);
            }
            let s = *self.slots.ref_flat(k);
            let mut part = s.render();
            r.append(&mut part);
            if x + 1 == w {
                r.push('\n');
            }
            k = k + 1;
            x = x + 1;
            if x == w {
                x = 0;
                y = y + 1;
                proof {
                    assert((y as int) * (w as int) == (y as int - 1) * (w as int) + w)
                        by (nonlinear_arith);
                }
            }
            proof {
                if k < n {
                    assert(y < self.slots.height) by (nonlinear_arith)
                        requires
                            0 < w,
                            0 <= x,
                            0 <= y,
                            k == y * w + x,
                            k < n,
                            n == w * self.slots.height,
                    ;
                }
            }
        }
        r
    }
}

} // verus!
