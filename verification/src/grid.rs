//! A fixed-size rectangular container indexed by `Point`, with bounds
//! checks and a deterministic row-major traversal order.

use vstd::prelude::*;
use vstd::arithmetic::div_mod::lemma_fundamental_div_mod_converse;
use crate::point::Point;

verus! {

/// The flat position of cell `(x, y)` in row-major order.
pub open spec fn row_major_index(width: int, x: int, y: int) -> int {
    y * width + x
}

/// Row-major indices of in-bounds cells stay inside the flat array.
pub proof fn lemma_row_major_index_bounds(w: int, h: int, x: int, y: int)
    by (nonlinear_arith)
    requires
        0 <= x < w,
        0 <= y < h,
    ensures
        0 <= y * w + x < w * h,
{
}

/// `(x, y)` can be recovered from its row-major index by division and
/// remainder.
pub proof fn lemma_row_major_index_decompose(w: int, x: int, y: int)
    requires
        0 <= x < w,
        0 <= y,
    ensures
        (y * w + x) % w == x,
        (y * w + x) / w == y,
{
    lemma_fundamental_div_mod_converse(y * w + x, w, y, x);
}

/// A `width x height` rectangular array stored in row-major order.
/// The view is the flat sequence of cells.
pub struct Matrix<T> {
    pub width: usize,
    pub height: usize,
    pub data: Vec<T>,
}

impl<T> View for Matrix<T> {
    type V = Seq<T>;

    open spec fn view(&self) -> Seq<T> {
        self.data@
    }
}

impl<T> Matrix<T> {
    /// The flat array matches the advertised dimensions, and both
    /// dimensions fit in an `i32` so that points can address every cell.
    pub open spec fn wf(self) -> bool {
        &&& self@.len() == self.width * self.height
        &&& self.width <= i32::MAX
        &&& self.height <= i32::MAX
    }

    /// True iff `pt` addresses a cell of this matrix.
    pub open spec fn spec_in_bounds(&self, pt: Point) -> bool {
        0 <= pt.x < self.width && 0 <= pt.y < self.height
    }

    #[verifier::when_used_as_spec(spec_in_bounds)]
    pub fn in_bounds(&self, pt: Point) -> (r: bool)
        requires
            self.wf(),
        ensures
            r == self.spec_in_bounds(pt),
    {
        pt.x >= 0 && pt.y >= 0 && pt.x < self.width as i32 && pt.y < self.height as i32
    }

    /// The number of cells.
    pub fn num_cells(&self) -> (n: usize)
        ensures
            n == self@.len(),
    {
        self.data.len()
    }

    /// The cell at `pt`. Callers must check `in_bounds` first: the access
    /// itself performs no bounds check.
    pub fn ref_idx(&self, pt: Point) -> (r: &T)
        requires
            self.wf(),
            self.spec_in_bounds(pt),
        ensures
            *r == self@[row_major_index(self.width as int, pt.x as int, pt.y as int)],
    {
        let n: usize = self.data.len();
        proof {
            lemma_row_major_index_bounds(
                self.width as int,
                self.height as int,
                pt.x as int,
                pt.y as int,
            );
        }
        let i: usize = (pt.y as usize) * self.width + (pt.x as usize);
        &self.data[i]
    }

    /// Overwrites the cell at `pt`. Same no-bounds-check contract as
    /// `ref_idx`.
    pub fn set_idx(&mut self, pt: Point, v: T)
        requires
            old(self).wf(),
            old(self).spec_in_bounds(pt),
        ensures
            final(self)@ == old(self)@.update(
                row_major_index(old(self).width as int, pt.x as int, pt.y as int),
                v,
            ),
            final(self).width == old(self).width,
            final(self).height == old(self).height,
            final(self).wf(),
    {
        let n: usize = self.data.len();
        proof {
            lemma_row_major_index_bounds(
                self.width as int,
                self.height as int,
                pt.x as int,
                pt.y as int,
            );
        }
        let i: usize = (pt.y as usize) * self.width + (pt.x as usize);
        self.data[i] = v;
    }

    /// The cell at flat position `i` of the row-major order.
    pub fn ref_flat(&self, i: usize) -> (r: &T)
        requires
            i < self@.len(),
        ensures
            *r == self@[i as int],
    {
        &self.data[i]
    }

    /// Overwrites the cell at flat position `i` of the row-major order.
    pub fn set_flat(&mut self, i: usize, v: T)
        requires
            i < old(self)@.len(),
        ensures
            final(self)@ == old(self)@.update(i as int, v),
            final(self).width == old(self).width,
            final(self).height == old(self).height,
    {
        self.data[i] = v;
    }
}

impl<T: Copy> Matrix<T> {
    /// A `width x height` matrix with every cell set to `fill`.
    pub fn new(width: usize, height: usize, fill: T) -> (m: Matrix<T>)
        requires
            width * height <= usize::MAX,
            width <= i32::MAX,
            height <= i32::MAX,
        ensures
            m.wf(),
            m.width == width,
            m.height == height,
            m@.len() == width * height,
            forall|i: int| 0 <= i < m@.len() ==> m@[i] == fill,
    {
        let n: usize = width * height;
        let mut data: Vec<T> = Vec::new();
        let mut i: usize = 0;
        while i < n
            invariant
                i <= n,
                data@.len() == i,
                forall|j: int| 0 <= j < i ==> data@[j] == fill,
            decreases n - i,
        {
            data.push(fill);
            i = i + 1;
        }
        Matrix { width, height, data }
    }

    /// The points of every cell, in the row-major traversal order: all x
    /// for y = 0, then y = 1, and so on. This order is a contract:
    /// dispatch order during a tick depends on it.
    pub fn indexed_iter(&self) -> (pts: Vec<Point>)
        requires
            self.wf(),
        ensures
            pts@.len() == self@.len(),
            forall|k: int| 0 <= k < pts@.len() ==> {
                &&& (#[trigger] pts@[k]).x == k % (self.width as int)
                &&& pts@[k].y == k / (self.width as int)
            },
    {
        let n: usize = self.data.len();
        let w: usize = self.width;
        let mut pts: Vec<Point> = Vec::new();
        let mut k: usize = 0;
        let mut x: usize = 0;
        let mut y: usize = 0;
        proof {
            if n > 0 {
                assert(w > 0 && self.height > 0) by (nonlinear_arith)
                    requires
                        n == w * self.height,
                        n > 0,
                        0 <= w,
                        0 <= self.height,
                ;
            }
        }
        while k < n
            invariant
                k <= n,
                n == self@.len(),
                n == w * self.height,
                w <= i32::MAX,
                self.height <= i32::MAX,
                k == y * w + x,
                k < n ==> (x < w && y < self.height),
                pts@.len() == k,
                forall|j: int| 0 <= j < k ==> {
                    &&& (#[trigger] pts@[j]).x == j % (w as int)
                    &&& pts@[j].y == j / (w as int)
                },
            decreases n - k,
        {
            proof {
                lemma_row_major_index_decompose(w as int, x as int, y as int);
            }
            pts.push(Point::new(x as i32, y as i32));
            k = k + 1;
            x = x + 1;
            if x == w {
                x = 0;
                y = y + 1;
                proof {
                    assert((y as int) * (w as int) == (y as int - 1) * (w as int) + w)
                        by (nonlinear_arith);
                }
            }
            proof {
                if k < n {
                    assert(y < self.height) by (nonlinear_arith)
                        requires
                            0 < w,
                            0 <= x,
                            0 <= y,
                            k == y * w + x,
                            k < n,
                            n == w * self.height,
                    ;
                }
            }
        }
        pts
    }
}

} // verus!
