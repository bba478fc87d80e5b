//! The simulation context and the synchronous tick loop, together with
//! the mathematical model of one tick.

use vstd::prelude::*;
use vstd::arithmetic::div_mod::{lemma_fundamental_div_mod, lemma_mod_bound};
use crate::field::{unlock_seq, Field};
use crate::grid::{lemma_row_major_index_bounds, lemma_row_major_index_decompose, row_major_index};
use crate::opdef::{OpBehavior, OpdefTable};
use crate::point::Point;
use crate::slot::Slot;

verus! {

/// A flat index of a `w x h` grid decomposes into an in-bounds column and
/// row.
pub proof fn lemma_flat_bounds(w: int, h: int, k: int)
    requires
        0 < w,
        0 <= k < w * h,
    ensures
        0 <= k % w < w,
        0 <= k / w < h,
        (k / w) * w + (k % w) == k,
{
    lemma_fundamental_div_mod(k, w);
    lemma_mod_bound(k, w);
    assert(0 <= k / w && k / w < h) by (nonlinear_arith)
        requires
            k == w * (k / w) + (k % w),
            0 <= k % w < w,
            0 <= k < w * h,
            0 < w,
    ;
    assert((k / w) * w == w * (k / w)) by (nonlinear_arith);
}

/// The outcome of the shared movement algorithm for the operator at
/// `(x, y)` with translation `(dx, dy)` on a `w x h` grid `g`: if the
/// target is out of bounds or occupied, the mover explodes in place
/// (operator `*`, locked); otherwise the operator is copied to the target
/// (locked), and the origin is cleared and locked.
pub open spec fn move_spec(
    w: int,
    h: int,
    g: Seq<Slot>,
    x: int,
    y: int,
    dx: int,
    dy: int,
) -> Seq<Slot> {
    let k = row_major_index(w, x, y);
    let nx = x + dx;
    let ny = y + dy;
    if !(0 <= nx < w && 0 <= ny < h) || g[row_major_index(w, nx, ny)].operator != '\0' {
        g.update(k, (Slot { operator: '*', lock: true }))
    } else {
        g.update(row_major_index(w, nx, ny), (Slot { operator: g[k].operator, lock: true }))
            .update(k, (Slot { operator: '\0', lock: true }))
    }
}

/// The outcome of the halt behavior at `(x, y)`: the cell immediately
/// south is locked if it is in bounds, its operator untouched.
pub open spec fn halt_spec(w: int, h: int, g: Seq<Slot>, x: int, y: int) -> Seq<Slot> {
    if y + 1 < h {
        let j = row_major_index(w, x, y + 1);
        g.update(j, (Slot { operator: g[j].operator, lock: true }))
    } else {
        g
    }
}

/// One visit of the tick loop at flat position `k`: a locked or empty
/// slot is skipped; otherwise the behavior registered for its symbol is
/// applied.
pub open spec fn step_cell(
    t: Map<char, OpBehavior>,
    w: int,
    h: int,
    g: Seq<Slot>,
    k: int,
) -> Seq<Slot> {
    let s = g[k];
    if s.lock || s.operator == '\0' {
        g
    } else {
        match t[s.operator] {
            OpBehavior::Bang => g.update(k, (Slot { operator: '\0', lock: true })),
            OpBehavior::MoveEast => move_spec(w, h, g, k % w, k / w, 1, 0),
            OpBehavior::MoveWest => move_spec(w, h, g, k % w, k / w, -1, 0),
            OpBehavior::MoveNorth => move_spec(w, h, g, k % w, k / w, 0, -1),
            OpBehavior::MoveSouth => move_spec(w, h, g, k % w, k / w, 0, 1),
            OpBehavior::Halt => halt_spec(w, h, g, k % w, k / w),
        }
    }
}

/// The rest of a tick: every flat position from `k` on is visited in
/// row-major order.
pub open spec fn run_from(
    t: Map<char, OpBehavior>,
    w: int,
    h: int,
    g: Seq<Slot>,
    k: int,
) -> Seq<Slot>
    decreases w * h - k,
{
    if k < 0 || k >= w * h {
        g
    } else {
        run_from(t, w, h, step_cell(t, w, h, g, k), k + 1)
    }
}

/// One full tick over a `w x h` grid `g` under registry `t`: every lock
/// is reset, then every cell is visited once in row-major order.
pub open spec fn tick_spec(t: Map<char, OpBehavior>, w: int, h: int, g: Seq<Slot>) -> Seq<Slot> {
    run_from(t, w, h, unlock_seq(g), 0)
}

/// `n` consecutive ticks.
pub open spec fn ticks_spec(
    t: Map<char, OpBehavior>,
    w: int,
    h: int,
    g: Seq<Slot>,
    n: nat,
) -> Seq<Slot>
    decreases n,
{
    if n == 0 {
        g
    } else {
        tick_spec(t, w, h, ticks_spec(t, w, h, g, (n - 1) as nat))
    }
}

/// Every occupied slot of `g` holds a symbol registered in `t`.
pub open spec fn operators_registered(t: Map<char, OpBehavior>, g: Seq<Slot>) -> bool {
    forall|j: int|
        0 <= j < g.len() && (#[trigger] g[j]).operator != '\0' ==> t.contains_key(g[j].operator)
}

/// Every occupied, unlocked slot of `g` holds a symbol registered in `t`.
/// During a tick only cells written this tick (all of which end locked)
/// may hold unregistered symbols, so this is the dispatch-safety
/// invariant of the loop.
pub open spec fn unlocked_registered(t: Map<char, OpBehavior>, g: Seq<Slot>) -> bool {
    forall|j: int|
        0 <= j < g.len() && !(#[trigger] g[j]).lock && g[j].operator != '\0' ==> t.contains_key(
            g[j].operator,
        )
}

/// Every occupied slot of `g` holds either a registered symbol or the
/// collision marker `*` (which a tick can write even when unregistered).
pub open spec fn operators_bounded(t: Map<char, OpBehavior>, g: Seq<Slot>) -> bool {
    forall|j: int|
        0 <= j < g.len() && (#[trigger] g[j]).operator != '\0' ==> (t.contains_key(g[j].operator)
            || g[j].operator == '*')
}

/// A tick can introduce no symbol besides `*`, so a field whose symbols
/// are bounded by a registry that also registers `*` is again fully
/// registered, and another tick may be dispatched.
pub proof fn lemma_bounded_implies_registered(t: Map<char, OpBehavior>, g: Seq<Slot>)
    requires
        operators_bounded(t, g),
        t.contains_key('*'),
    ensures
        operators_registered(t, g),
{
}

/// One visit changes only slots that it also locks, never unlocks a slot,
/// writes no symbol besides the empty sentinel, `*`, a copy of the
/// visited slot's symbol, or a slot's own symbol, and keeps the operator
/// of every occupied slot other than the visited one.
pub proof fn lemma_step_cell_frame(t: Map<char, OpBehavior>, w: int, h: int, g: Seq<Slot>, k: int)
    requires
        0 < w,
        g.len() == w * h,
        0 <= k < g.len(),
    ensures
        step_cell(t, w, h, g, k).len() == g.len(),
        forall|j: int|
            0 <= j < g.len() ==> (#[trigger] step_cell(t, w, h, g, k)[j]) == g[j] || (step_cell(
                t,
                w,
                h,
                g,
                k,
            )[j].lock && (step_cell(t, w, h, g, k)[j].operator == '\0' || step_cell(
                t,
                w,
                h,
                g,
                k,
            )[j].operator == '*' || step_cell(t, w, h, g, k)[j].operator == g[k].operator
                || step_cell(t, w, h, g, k)[j].operator == g[j].operator)),
        forall|j: int|
            0 <= j < g.len() && j != k && g[j].operator != '\0' ==> (#[trigger] step_cell(
                t,
                w,
                h,
                g,
                k,
            )[j]).operator == g[j].operator,
        forall|j: int|
            0 <= j < g.len() && g[j].lock ==> (#[trigger] step_cell(t, w, h, g, k)[j]).lock,
{
    lemma_flat_bounds(w, h, k);
    let x = k % w;
    let y = k / w;
    let s = g[k];
    if !(s.lock || s.operator == '\0') {
        match t[s.operator] {
            OpBehavior::Bang => {},
            OpBehavior::MoveEast => {
                if 0 <= x + 1 < w {
                    lemma_row_major_index_bounds(w, h, x + 1, y);
                }
            },
            OpBehavior::MoveWest => {
                if 0 <= x - 1 < w {
                    lemma_row_major_index_bounds(w, h, x - 1, y);
                }
            },
            OpBehavior::MoveNorth => {
                if 0 <= y - 1 < h {
                    lemma_row_major_index_bounds(w, h, x, y - 1);
                }
            },
            OpBehavior::MoveSouth => {
                if 0 <= y + 1 < h {
                    lemma_row_major_index_bounds(w, h, x, y + 1);
                }
            },
            OpBehavior::Halt => {
                if y + 1 < h {
                    lemma_row_major_index_bounds(w, h, x, y + 1);
                }
            },
        }
    }
}

/// The simulation context: the registry, the field, the coordinate
/// currently being evaluated (meaningful only during dispatch), and a
/// counter incremented once per slot visited.
pub struct Context {
    pub opdef_table: OpdefTable,
    pub field: Field,
    pub curr_point: Point,
    pub frame_ct: u32,
}

impl Context {
    pub open spec fn wf(self) -> bool {
        self.field.wf()
    }

    pub open spec fn behaviors(self) -> Map<char, OpBehavior> {
        self.opdef_table.behaviors()
    }

    /// A tick may be dispatched: every operator on the field has a
    /// registered behavior, and the visit counter cannot overflow.
    pub open spec fn process_ready(self) -> bool {
        &&& operators_registered(self.behaviors(), self.field@)
        &&& self.frame_ct + self.field@.len() <= u32::MAX
    }

    pub fn new(opdef_table: OpdefTable, field: Field) -> (c: Context)
        ensures
            c.opdef_table == opdef_table,
            c.field == field,
            c.curr_point == (Point { x: 0, y: 0 }),
            c.frame_ct == 0,
    {
        Context { opdef_table, field, curr_point: Point::zero(), frame_ct: 0 }
    }

    /// Decides at run time whether `process` may be called. An occupied
    /// slot whose symbol has no registered behavior is a fatal
    /// configuration error, which the caller must handle.
    pub fn can_process(&self) -> (r: bool)
        requires
            self.wf(),
        ensures
            r == self.process_ready(),
    {
        let n: usize = self.field.slots.num_cells();
        let fits: bool = n as u64 <= (u32::MAX - self.frame_ct) as u64;
        let mut ok: bool = true;
        let mut k: usize = 0;
        while k < n
            invariant
                k <= n,
                n == self.field@.len(),
                ok == (forall|j: int|
                    0 <= j < k && (#[trigger] self.field@[j]).operator != '\0'
                        ==> self.opdef_table.behaviors().contains_key(self.field@[j].operator)),
            decreases n - k,
        {
            let s = *self.field.slots.ref_flat(k);
            if !s.is_clear() {
                let found = match self.opdef_table.find(s.operator) {
                    Some(_) => true,
                    None => false,
                };
                ok = ok && found;
            }
            k = k + 1;
        }
        ok && fits
    }

    /// One synchronous tick: unlock every slot, then visit every cell in
    /// row-major order, dispatching the registered behavior of each
    /// occupied, unlocked slot. The counter advances once per cell
    /// visited, whether or not anything was dispatched.
    pub fn process(&mut self)
        requires
            old(self).wf(),
            old(self).process_ready(),
        ensures
            final(self).field@ == tick_spec(
                old(self).behaviors(),
                old(self).field.slots.width as int,
                old(self).field.slots.height as int,
                old(self).field@,
            ),
            final(self).field.slots.width == old(self).field.slots.width,
            final(self).field.slots.height == old(self).field.slots.height,
            final(self).field.wf(),
            final(self).opdef_table == old(self).opdef_table,
            final(self).frame_ct == old(self).frame_ct + old(self).field@.len(),
            old(self).field@.len() == 0 ==> final(self).curr_point == old(self).curr_point,
            old(self).field@.len() > 0 ==> final(self).curr_point == (Point {
                x: (old(self).field.slots.width - 1) as i32,
                y: (old(self).field.slots.height - 1) as i32,
            }),
            operators_bounded(old(self).behaviors(), final(self).field@),
    {
        let ghost t = self.opdef_table.behaviors();
        let ghost table0 = self.opdef_table;
        let ghost curr0 = self.curr_point;
        let ghost frame0 = self.frame_ct;
        self.field.unlock_all();
        let ghost g0 = self.field@;
        let w: usize = self.field.width();
        let h: usize = self.field.height();
        let n: usize = self.field.slots.num_cells();
        let mut k: usize = 0;
        let mut x: usize = 0;
        let mut y: usize = 0;
        proof {
            if n > 0 {
                assert(w > 0 && h > 0) by (nonlinear_arith)
                    requires
                        n == w * h,
                        n > 0,
                        0 <= w,
                        0 <= h,
                ;
            }
        }
        while k < n
            invariant
                self.field.wf(),
                self.field.slots.width == w,
                self.field.slots.height == h,
                n == self.field@.len(),
                n == w * h,
                self.opdef_table == table0,
                t == self.opdef_table.behaviors(),
                k <= n,
                k == y * w + x,
                k < n ==> (x < w && y < h),
                self.frame_ct == frame0 + k,
                frame0 + n <= u32::MAX,
                k == 0 ==> self.curr_point == curr0,
                k > 0 ==> (self.curr_point.x as int == ((k - 1) as int) % (w as int)
                    && self.curr_point.y as int == ((k - 1) as int) / (w as int)),
                run_from(t, w as int, h as int, self.field@, k as int) == run_from(
                    t,
                    w as int,
                    h as int,
                    g0,
                    0,
                ),
                unlocked_registered(t, self.field@),
                operators_bounded(t, self.field@),
            decreases n - k,
        {
            proof {
                lemma_row_major_index_decompose(w as int, x as int, y as int);
            }
            let pt = Point::new(x as i32, y as i32);
            self.curr_point = pt;
            let s = *self.field.ref_slot(pt);
            let ghost gk = self.field@;
            if !s.lock && !s.is_clear() {
                let b = match self.opdef_table.find(s.operator) {
                    Some(opd) => opd.callback,
                    None => unreached(),
                };
                match b {
                    OpBehavior::Bang => {
                        let mut sl = s;
                        sl.clear();
                        sl.lock = true;
                        self.field.set_slot(pt, sl);
                    },
                    OpBehavior::MoveEast => {
                        move_direction(self, Point::new(1, 0));
                    },
                    OpBehavior::MoveWest => {
                        move_direction(self, Point::new(-1, 0));
                    },
                    OpBehavior::MoveNorth => {
                        move_direction(self, Point::new(0, -1));
                    },
                    OpBehavior::MoveSouth => {
                        move_direction(self, Point::new(0, 1));
                    },
                    OpBehavior::Halt => {
                        let south = pt.translate(0, 1);
                        if self.field.point_in_bounds(south) {
                            let mut sl = *self.field.ref_slot(south);
                            sl.lock = true;
                            self.field.set_slot(south, sl);
                        }
                    },
                }
            }
            proof {
                assert(self.field@ == step_cell(t, w as int, h as int, gk, k as int));
                lemma_step_cell_frame(t, w as int, h as int, gk, k as int);
                assert(run_from(t, w as int, h as int, gk, k as int) == run_from(
                    t,
                    w as int,
                    h as int,
                    self.field@,
                    k as int + 1,
                ));
            }
            self.frame_ct = self.frame_ct + 1;
            k = k + 1;
            x = x + 1;
            if x == w {
                x = 0;
                y = y + 1;
                proof {
                    assert((y as int) * (w as int) == (y as int - 1) * (w as int) + w)
                        by (nonlinear_arith);
                }
            }
            proof {
                if k < n {
                    assert(y < h) by (nonlinear_arith)
                        requires
                            0 < w,
                            0 <= x,
                            0 <= y,
                            k == y * w + x,
                            k < n,
                            n == w * h,
                    ;
                }
            }
        }
        proof {
            if n > 0 {
                assert(((h - 1) as int) * (w as int) + ((w - 1) as int) == n - 1)
                    by (nonlinear_arith)
                    requires
                        n == w * h,
                        w > 0,
                        h > 0,
                ;
                lemma_row_major_index_decompose(w as int, (w - 1) as int, (h - 1) as int);
            }
        }
    }
}

/// The shared movement algorithm of the four move behaviors: attempts to
/// move the operator under `ctx.curr_point` by `translate`. On boundary
/// or obstacle collision the current slot is exploded and locked;
/// otherwise the operator is copied to the target slot (locked) and the
/// current slot is cleared and locked.
pub fn move_direction(ctx: &mut Context, translate: Point)
    requires
        old(ctx).wf(),
        old(ctx).field.spec_in_bounds(old(ctx).curr_point),
        old(ctx).curr_point.x + translate.x <= i32::MAX,
        old(ctx).curr_point.y + translate.y <= i32::MAX,
    ensures
        final(ctx).field@ == move_spec(
            old(ctx).field.slots.width as int,
            old(ctx).field.slots.height as int,
            old(ctx).field@,
            old(ctx).curr_point.x as int,
            old(ctx).curr_point.y as int,
            translate.x as int,
            translate.y as int,
        ),
        final(ctx).field.slots.width == old(ctx).field.slots.width,
        final(ctx).field.slots.height == old(ctx).field.slots.height,
        final(ctx).field.wf(),
        final(ctx).opdef_table == old(ctx).opdef_table,
        final(ctx).curr_point == old(ctx).curr_point,
        final(ctx).frame_ct == old(ctx).frame_ct,
{
    let curr = ctx.curr_point;
    let next = curr.translate(translate.x, translate.y);
    if !ctx.field.point_in_bounds(next) || !ctx.field.ref_slot(next).is_clear() {
        let mut s = *ctx.field.ref_slot(curr);
        s.explode();
        s.lock = true;
        ctx.field.set_slot(curr, s);
    } else {
        let s = *ctx.field.ref_slot(curr);
        ctx.field.set_slot(next, Slot { operator: s.operator, lock: true });
        let mut cleared = s;
        cleared.clear();
        cleared.lock = true;
        ctx.field.set_slot(curr, cleared);
    }
}

} // verus!
