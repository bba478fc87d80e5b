//! General laws of the tick loop, stated over the mathematical model and
//! proved once and for all.

use vstd::prelude::*;
use crate::field::{render_seq, unlock_seq};
use crate::grid::{lemma_row_major_index_bounds, lemma_row_major_index_decompose, row_major_index};
use crate::opdef::OpBehavior;
use crate::sim::{lemma_step_cell_frame, run_from, step_cell, tick_spec, ticks_spec};
use crate::slot::Slot;

verus! {

/// A stretch of locked-or-empty cells is skipped without effect.
pub proof fn lemma_run_from_skippable(
    t: Map<char, OpBehavior>,
    w: int,
    h: int,
    g: Seq<Slot>,
    k: int,
    m: int,
)
    requires
        g.len() == w * h,
        0 <= k <= m <= w * h,
        forall|j: int| k <= j < m ==> (#[trigger] g[j]).lock || g[j].operator == '\0',
    ensures
        run_from(t, w, h, g, k) == run_from(t, w, h, g, m),
    decreases m - k,
{
    if k < m {
        assert(step_cell(t, w, h, g, k) == g);
        lemma_run_from_skippable(t, w, h, g, k + 1, m);
    }
}

/// Movement into empty space: in a field whose only operator has a move
/// behavior and an in-bounds, empty target, one tick carries the operator
/// to the target and clears the origin, both ending the tick locked,
/// while every other slot ends the tick empty and unlocked.
pub proof fn lemma_move_into_empty(
    t: Map<char, OpBehavior>,
    w: int,
    h: int,
    g: Seq<Slot>,
    x: int,
    y: int,
    dx: int,
    dy: int,
)
    requires
        g.len() == w * h,
        0 <= x < w,
        0 <= y < h,
        0 <= x + dx < w,
        0 <= y + dy < h,
        g[row_major_index(w, x, y)].operator != '\0',
        t.contains_key(g[row_major_index(w, x, y)].operator),
        t[g[row_major_index(w, x, y)].operator].is_move(),
        t[g[row_major_index(w, x, y)].operator].delta() == (dx, dy),
        forall|j: int|
            0 <= j < g.len() && j != row_major_index(w, x, y) ==> (#[trigger] g[j]).operator
                == '\0',
    ensures
        tick_spec(t, w, h, g).len() == g.len(),
        tick_spec(t, w, h, g)[row_major_index(w, x, y)] == (Slot { operator: '\0', lock: true }),
        tick_spec(t, w, h, g)[row_major_index(w, x + dx, y + dy)] == (Slot {
            operator: g[row_major_index(w, x, y)].operator,
            lock: true,
        }),
        forall|j: int|
            0 <= j < g.len() && j != row_major_index(w, x, y) && j != row_major_index(
                w,
                x + dx,
                y + dy,
            ) ==> tick_spec(t, w, h, g)[j] == (Slot { operator: '\0', lock: false }),
{
    let kk = row_major_index(w, x, y);
    let dd = row_major_index(w, x + dx, y + dy);
    let g1 = unlock_seq(g);
    lemma_row_major_index_bounds(w, h, x, y);
    lemma_row_major_index_bounds(w, h, x + dx, y + dy);
    lemma_row_major_index_decompose(w, x, y);
    lemma_row_major_index_decompose(w, x + dx, y + dy);
    assert(kk != dd);
    lemma_run_from_skippable(t, w, h, g1, 0, kk);
    let g2 = step_cell(t, w, h, g1, kk);
    assert(g2 == g1.update(dd, (Slot { operator: g1[kk].operator, lock: true })).update(
        kk,
        (Slot { operator: '\0', lock: true }),
    ));
    assert(run_from(t, w, h, g1, kk) == run_from(t, w, h, g2, kk + 1));
    lemma_run_from_skippable(t, w, h, g2, kk + 1, w * h);
    assert(tick_spec(t, w, h, g) == g2);
}

/// Boundary collision: in a field whose only operator has a move behavior
/// whose target lies out of bounds, one tick explodes the operator in
/// place: it does not move, its slot holds `*` and is locked, and every
/// other slot ends the tick empty and unlocked.
pub proof fn lemma_boundary_collision(
    t: Map<char, OpBehavior>,
    w: int,
    h: int,
    g: Seq<Slot>,
    x: int,
    y: int,
    dx: int,
    dy: int,
)
    requires
        g.len() == w * h,
        0 <= x < w,
        0 <= y < h,
        !(0 <= x + dx < w && 0 <= y + dy < h),
        g[row_major_index(w, x, y)].operator != '\0',
        t.contains_key(g[row_major_index(w, x, y)].operator),
        t[g[row_major_index(w, x, y)].operator].is_move(),
        t[g[row_major_index(w, x, y)].operator].delta() == (dx, dy),
        forall|j: int|
            0 <= j < g.len() && j != row_major_index(w, x, y) ==> (#[trigger] g[j]).operator
                == '\0',
    ensures
        tick_spec(t, w, h, g).len() == g.len(),
        tick_spec(t, w, h, g)[row_major_index(w, x, y)] == (Slot { operator: '*', lock: true }),
        forall|j: int|
            0 <= j < g.len() && j != row_major_index(w, x, y) ==> tick_spec(t, w, h, g)[j]
                == (Slot { operator: '\0', lock: false }),
{
    let kk = row_major_index(w, x, y);
    let g1 = unlock_seq(g);
    lemma_row_major_index_bounds(w, h, x, y);
    lemma_row_major_index_decompose(w, x, y);
    lemma_run_from_skippable(t, w, h, g1, 0, kk);
    let g2 = step_cell(t, w, h, g1, kk);
    assert(g2 == g1.update(kk, (Slot { operator: '*', lock: true })));
    assert(run_from(t, w, h, g1, kk) == run_from(t, w, h, g2, kk + 1));
    lemma_run_from_skippable(t, w, h, g2, kk + 1, w * h);
    assert(tick_spec(t, w, h, g) == g2);
}

/// Obstacle collision: when the only two operators are a mover and an
/// occupant of its target cell that is visited after the mover, one tick
/// explodes the mover in place: its slot holds `*` and is locked, and the
/// occupant is never displaced by the mover. Moreover, when the two
/// symbols differ and the mover is not itself `*`, the mover's symbol is
/// destroyed outright: it appears nowhere after the tick.
pub proof fn lemma_obstacle_collision(
    t: Map<char, OpBehavior>,
    w: int,
    h: int,
    g: Seq<Slot>,
    x: int,
    y: int,
    dx: int,
    dy: int,
)
    requires
        g.len() == w * h,
        0 <= x < w,
        0 <= y < h,
        0 <= x + dx < w,
        0 <= y + dy < h,
        row_major_index(w, x, y) < row_major_index(w, x + dx, y + dy),
        g[row_major_index(w, x, y)].operator != '\0',
        g[row_major_index(w, x + dx, y + dy)].operator != '\0',
        t.contains_key(g[row_major_index(w, x, y)].operator),
        t[g[row_major_index(w, x, y)].operator].is_move(),
        t[g[row_major_index(w, x, y)].operator].delta() == (dx, dy),
        forall|j: int|
            0 <= j < g.len() && j != row_major_index(w, x, y) && j != row_major_index(
                w,
                x + dx,
                y + dy,
            ) ==> (#[trigger] g[j]).operator == '\0',
    ensures
        tick_spec(t, w, h, g).len() == g.len(),
        tick_spec(t, w, h, g)[row_major_index(w, x, y)] == (Slot { operator: '*', lock: true }),
        (g[row_major_index(w, x, y)].operator != '*' && g[row_major_index(w, x + dx, y + dy)].operator
            != g[row_major_index(w, x, y)].operator) ==> forall|j: int|
            0 <= j < g.len() ==> (#[trigger] tick_spec(t, w, h, g)[j]).operator != g[row_major_index(
                w,
                x,
                y,
            )].operator,
{
    let kk = row_major_index(w, x, y);
    let qq = row_major_index(w, x + dx, y + dy);
    let g1 = unlock_seq(g);
    lemma_row_major_index_bounds(w, h, x, y);
    lemma_row_major_index_bounds(w, h, x + dx, y + dy);
    lemma_row_major_index_decompose(w, x, y);
    lemma_row_major_index_decompose(w, x + dx, y + dy);
    lemma_run_from_skippable(t, w, h, g1, 0, kk);
    let g2 = step_cell(t, w, h, g1, kk);
    assert(g2 == g1.update(kk, (Slot { operator: '*', lock: true })));
    assert(run_from(t, w, h, g1, kk) == run_from(t, w, h, g2, kk + 1));
    lemma_run_from_skippable(t, w, h, g2, kk + 1, qq);
    let g3 = step_cell(t, w, h, g2, qq);
    lemma_step_cell_frame(t, w, h, g2, qq);
    assert(run_from(t, w, h, g2, qq) == run_from(t, w, h, g3, qq + 1));
    lemma_run_from_skippable(t, w, h, g3, qq + 1, w * h);
    assert(tick_spec(t, w, h, g) == g3);
    assert(g3[kk].operator == '*');
    assert(g3[kk].lock);
}

/// The halt operator: an `H`-behavior operator with its southern neighbor
/// in bounds locks that neighbor for the tick, leaving its operator
/// unmoved and unmodified even if it would otherwise have acted, and is
/// itself left in place and unlocked.
pub proof fn lemma_halt_locks_south(t: Map<char, OpBehavior>, w: int, h: int, g: Seq<Slot>, x: int, y: int)
    requires
        g.len() == w * h,
        0 <= x < w,
        0 <= y < h,
        y + 1 < h,
        g[row_major_index(w, x, y)].operator != '\0',
        t.contains_key(g[row_major_index(w, x, y)].operator),
        t[g[row_major_index(w, x, y)].operator] == OpBehavior::Halt,
        forall|j: int|
            0 <= j < g.len() && j != row_major_index(w, x, y) && j != row_major_index(w, x, y + 1)
                ==> (#[trigger] g[j]).operator == '\0',
    ensures
        tick_spec(t, w, h, g).len() == g.len(),
        tick_spec(t, w, h, g)[row_major_index(w, x, y + 1)] == (Slot {
            operator: g[row_major_index(w, x, y + 1)].operator,
            lock: true,
        }),
        tick_spec(t, w, h, g)[row_major_index(w, x, y)] == (Slot {
            operator: g[row_major_index(w, x, y)].operator,
            lock: false,
        }),
        forall|j: int|
            0 <= j < g.len() && j != row_major_index(w, x, y) && j != row_major_index(w, x, y + 1)
                ==> tick_spec(t, w, h, g)[j] == (Slot { operator: '\0', lock: false }),
{
    let kk = row_major_index(w, x, y);
    let qq = row_major_index(w, x, y + 1);
    let g1 = unlock_seq(g);
    lemma_row_major_index_bounds(w, h, x, y);
    lemma_row_major_index_bounds(w, h, x, y + 1);
    lemma_row_major_index_decompose(w, x, y);
    lemma_row_major_index_decompose(w, x, y + 1);
    assert(kk < qq) by (nonlinear_arith)
        requires
            kk == y * w + x,
            qq == (y + 1) * w + x,
            0 < w,
    ;
    lemma_run_from_skippable(t, w, h, g1, 0, kk);
    let g2 = step_cell(t, w, h, g1, kk);
    assert(g2 == g1.update(qq, (Slot { operator: g1[qq].operator, lock: true })));
    assert(run_from(t, w, h, g1, kk) == run_from(t, w, h, g2, kk + 1));
    lemma_run_from_skippable(t, w, h, g2, kk + 1, w * h);
    assert(tick_spec(t, w, h, g) == g2);
}

/// Unlocking every slot is idempotent: a second unlock-all with no
/// dispatch in between changes nothing, and either way every slot ends
/// unlocked with its operator untouched.
pub proof fn lemma_unlock_idempotent(g: Seq<Slot>)
    ensures
        unlock_seq(unlock_seq(g)) == unlock_seq(g),
        forall|j: int|
            0 <= j < g.len() ==> (#[trigger] unlock_seq(g)[j]) == (Slot {
                operator: g[j].operator,
                lock: false,
            }),
{
    assert(unlock_seq(unlock_seq(g)) =~= unlock_seq(g));
}

/// Scan-order determinism: a tick is a function of the registry and the
/// field contents alone, so two runs seeded identically and advanced the
/// same number of ticks hold identical fields and render identically.
pub proof fn lemma_deterministic(
    t1: Map<char, OpBehavior>,
    t2: Map<char, OpBehavior>,
    w: int,
    h: int,
    g1: Seq<Slot>,
    g2: Seq<Slot>,
    n: nat,
)
    requires
        t1 == t2,
        g1 == g2,
    ensures
        ticks_spec(t1, w, h, g1, n) == ticks_spec(t2, w, h, g2, n),
        render_seq(w, ticks_spec(t1, w, h, g1, n)) == render_seq(w, ticks_spec(t2, w, h, g2, n)),
{
}

} // verus!
