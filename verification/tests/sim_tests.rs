use opfield::field::Field;
use opfield::opdef::{OpBehavior, Opdef, OpdefTable};
use opfield::point::Point;
use opfield::sim::Context;
use opfield::slot::Slot;

fn default_ctx(width: usize, height: usize) -> Context {
    let table: OpdefTable = Default::default();
    Context::new(table, Field::new(width, height))
}

fn seed(ctx: &mut Context, x: i32, y: i32, c: char) {
    ctx.field.set_operator(Point::new(x, y), c);
}

fn slot_at(ctx: &Context, x: i32, y: i32) -> Slot {
    *ctx.field.ref_slot(Point::new(x, y))
}

fn tick(ctx: &mut Context) {
    assert!(ctx.can_process());
    ctx.process();
}

fn render_string(ctx: &Context) -> String {
    ctx.field.render().into_iter().collect()
}

#[test]
fn move_into_empty_space() {
    let mut ctx = default_ctx(3, 3);
    seed(&mut ctx, 1, 1, 'E');
    tick(&mut ctx);
    assert_eq!(slot_at(&ctx, 2, 1), Slot { operator: 'E', lock: true });
    assert_eq!(slot_at(&ctx, 1, 1), Slot { operator: '\0', lock: true });
    for x in 0..3 {
        for y in 0..3 {
            if (x, y) != (1, 1) && (x, y) != (2, 1) {
                assert_eq!(slot_at(&ctx, x, y), Slot { operator: '\0', lock: false });
            }
        }
    }
}

#[test]
fn boundary_collision_explodes_in_place() {
    let mut ctx = default_ctx(3, 3);
    seed(&mut ctx, 2, 1, 'E');
    tick(&mut ctx);
    assert_eq!(slot_at(&ctx, 2, 1), Slot { operator: '*', lock: true });
    for x in 0..3 {
        for y in 0..3 {
            if (x, y) != (2, 1) {
                assert_eq!(slot_at(&ctx, x, y), Slot { operator: '\0', lock: false });
            }
        }
    }
}

#[test]
fn obstacle_collision_explodes_mover() {
    let mut ctx = default_ctx(3, 3);
    seed(&mut ctx, 0, 0, 'E');
    seed(&mut ctx, 1, 0, 'H');
    tick(&mut ctx);
    // The mover explodes in place; the occupant is not displaced.
    assert_eq!(slot_at(&ctx, 0, 0), Slot { operator: '*', lock: true });
    assert_eq!(slot_at(&ctx, 1, 0), Slot { operator: 'H', lock: false });
    // The halt operator acted normally, locking the cell south of it.
    assert_eq!(slot_at(&ctx, 1, 1), Slot { operator: '\0', lock: true });
}

#[test]
fn halt_locks_southern_cell() {
    let mut ctx = default_ctx(3, 3);
    seed(&mut ctx, 0, 0, 'H');
    seed(&mut ctx, 0, 1, 'S');
    tick(&mut ctx);
    // The S below the H would have moved south, but was locked first.
    assert_eq!(slot_at(&ctx, 0, 0), Slot { operator: 'H', lock: false });
    assert_eq!(slot_at(&ctx, 0, 1), Slot { operator: 'S', lock: true });
    assert_eq!(slot_at(&ctx, 0, 2), Slot { operator: '\0', lock: false });
}

#[test]
fn south_moves_without_halt() {
    // Control for halt_locks_southern_cell: without the H, the S moves.
    let mut ctx = default_ctx(3, 3);
    seed(&mut ctx, 0, 1, 'S');
    tick(&mut ctx);
    assert_eq!(slot_at(&ctx, 0, 1), Slot { operator: '\0', lock: true });
    assert_eq!(slot_at(&ctx, 0, 2), Slot { operator: 'S', lock: true });
}

#[test]
fn unlock_all_is_idempotent() {
    let mut ctx = default_ctx(4, 2);
    seed(&mut ctx, 1, 0, 'E');
    ctx.field.set_slot(Point::new(2, 1), Slot { operator: 'H', lock: true });
    ctx.field.set_slot(Point::new(3, 0), Slot { operator: '\0', lock: true });
    ctx.field.unlock_all();
    let once = ctx.field.render();
    ctx.field.unlock_all();
    let twice = ctx.field.render();
    assert_eq!(once, twice);
    for x in 0..4 {
        for y in 0..2 {
            assert!(!slot_at(&ctx, x, y).lock);
        }
    }
    assert_eq!(slot_at(&ctx, 2, 1), Slot { operator: 'H', lock: false });
}

#[test]
fn identical_runs_render_identically() {
    let mut a = default_ctx(6, 5);
    let mut b = default_ctx(6, 5);
    for ctx in [&mut a, &mut b] {
        seed(ctx, 0, 0, 'E');
        seed(ctx, 3, 2, 'W');
        seed(ctx, 2, 4, 'N');
        seed(ctx, 5, 1, 'H');
    }
    for _ in 0..3 {
        tick(&mut a);
        tick(&mut b);
        assert_eq!(render_string(&a), render_string(&b));
    }
}

#[test]
fn seeded_scenario_first_tick() {
    let mut ctx = default_ctx(10, 15);
    seed(&mut ctx, 0, 0, '*');
    seed(&mut ctx, 3, 3, 'E');
    seed(&mut ctx, 3, 5, 'E');
    seed(&mut ctx, 3, 4, 'W');
    seed(&mut ctx, 6, 4, 'H');
    tick(&mut ctx);
    // The bang erased itself and locked its slot.
    assert_eq!(slot_at(&ctx, 0, 0), Slot { operator: '\0', lock: true });
    // Both E operators moved east; the W moved west.
    assert_eq!(slot_at(&ctx, 3, 3), Slot { operator: '\0', lock: true });
    assert_eq!(slot_at(&ctx, 4, 3), Slot { operator: 'E', lock: true });
    assert_eq!(slot_at(&ctx, 3, 5), Slot { operator: '\0', lock: true });
    assert_eq!(slot_at(&ctx, 4, 5), Slot { operator: 'E', lock: true });
    assert_eq!(slot_at(&ctx, 3, 4), Slot { operator: '\0', lock: true });
    assert_eq!(slot_at(&ctx, 2, 4), Slot { operator: 'W', lock: true });
    // The halt operator stayed put and locked its southern neighbor.
    assert_eq!(slot_at(&ctx, 6, 4), Slot { operator: 'H', lock: false });
    assert_eq!(slot_at(&ctx, 6, 5), Slot { operator: '\0', lock: true });
}

#[test]
fn frame_counter_advances_per_cell() {
    let mut ctx = default_ctx(10, 15);
    assert_eq!(ctx.frame_ct, 0);
    tick(&mut ctx);
    assert_eq!(ctx.frame_ct, 150);
    tick(&mut ctx);
    assert_eq!(ctx.frame_ct, 300);
}

#[test]
fn registry_finds_builtin_operators() {
    let table: OpdefTable = Default::default();
    let east = table.find('E').expect("E registered");
    assert_eq!(east.operator, 'E');
    assert_eq!(east.callback, OpBehavior::MoveEast);
    assert_eq!(east.long_name, "east");
    let bang = table.find('*').expect("* registered");
    assert_eq!(bang.callback, OpBehavior::Bang);
    assert_eq!(bang.long_name, "bang");
    assert!(table.find('x').is_none());
}

#[test]
fn registry_add_overwrites() {
    let mut table = OpdefTable::new();
    assert!(table.find('Q').is_none());
    table.add(Opdef { long_name: "first".to_owned(), operator: 'Q', callback: OpBehavior::Bang });
    table.add(Opdef { long_name: "second".to_owned(), operator: 'Q', callback: OpBehavior::Halt });
    let q = table.find('Q').expect("Q registered");
    assert_eq!(q.callback, OpBehavior::Halt);
    assert_eq!(q.long_name, "second");
}

#[test]
fn unknown_operator_is_refused() {
    let mut ctx = default_ctx(3, 3);
    seed(&mut ctx, 1, 1, 'Z');
    assert!(!ctx.can_process());
    seed(&mut ctx, 1, 1, 'N');
    assert!(ctx.can_process());
}

#[test]
fn render_shows_locks_and_empties() {
    let mut ctx = default_ctx(3, 2);
    seed(&mut ctx, 0, 0, 'E');
    ctx.field.set_slot(Point::new(1, 0), Slot { operator: 'H', lock: true });
    assert_eq!(render_string(&ctx), " E [H] . \n .  .  . \n");
}

#[test]
fn moved_operator_rests_for_the_tick() {
    // A moved operator is locked at its destination, so one tick moves it
    // exactly one cell despite the scan passing its destination later.
    let mut ctx = default_ctx(5, 1);
    seed(&mut ctx, 0, 0, 'E');
    tick(&mut ctx);
    assert_eq!(slot_at(&ctx, 1, 0), Slot { operator: 'E', lock: true });
    assert_eq!(slot_at(&ctx, 2, 0), Slot { operator: '\0', lock: false });
    tick(&mut ctx);
    assert_eq!(slot_at(&ctx, 2, 0), Slot { operator: 'E', lock: true });
}

#[test]
fn cleared_cell_is_a_valid_target() {
    // A bang erases itself early in the scan; the cell it vacates is empty
    // and may be moved into later in the same tick, locked or not: the
    // movement algorithm tests emptiness of the target, not its lock.
    let mut ctx = default_ctx(2, 1);
    seed(&mut ctx, 0, 0, '*');
    seed(&mut ctx, 1, 0, 'W');
    tick(&mut ctx);
    assert_eq!(slot_at(&ctx, 0, 0), Slot { operator: 'W', lock: true });
    assert_eq!(slot_at(&ctx, 1, 0), Slot { operator: '\0', lock: true });
}

#[test]
fn empty_field_ticks_without_effect() {
    let mut ctx = default_ctx(0, 0);
    assert!(ctx.can_process());
    ctx.process();
    assert_eq!(ctx.frame_ct, 0);
    assert_eq!(render_string(&ctx), "");
}

#[test]
fn context_initial_state() {
    let ctx = default_ctx(4, 4);
    assert_eq!(ctx.frame_ct, 0);
    assert_eq!(ctx.curr_point, Point::new(0, 0));
    for x in 0..4 {
        for y in 0..4 {
            assert_eq!(slot_at(&ctx, x, y), Slot { operator: '\0', lock: false });
        }
    }
}

#[test]
fn set_operator_preserves_lock() {
    let mut field = Field::new(2, 2);
    field.set_slot(Point::new(0, 1), Slot { operator: '\0', lock: true });
    field.set_operator(Point::new(0, 1), 'N');
    assert_eq!(*field.ref_slot(Point::new(0, 1)), Slot { operator: 'N', lock: true });
    field.set_operator(Point::new(1, 1), 'S');
    assert_eq!(*field.ref_slot(Point::new(1, 1)), Slot { operator: 'S', lock: false });
}

#[test]
fn slot_operations() {
    let mut s = Slot { operator: 'E', lock: false };
    assert!(!s.is_clear());
    s.explode();
    assert_eq!(s, Slot { operator: '*', lock: false });
    s.explode();
    assert_eq!(s, Slot { operator: '*', lock: false });
    s.clear();
    assert!(s.is_clear());
    s.clear();
    assert_eq!(s, Slot { operator: '\0', lock: false });
    assert_eq!(s.render(), vec![' ', '.', ' ']);
    s.lock = true;
    s.operator = 'H';
    assert_eq!(s.render(), vec!['[', 'H', ']']);
}

#[test]
fn grid_traversal_is_row_major() {
    let field = Field::new(3, 2);
    let pts = field.slots.indexed_iter();
    let expected = [(0, 0), (1, 0), (2, 0), (0, 1), (1, 1), (2, 1)];
    assert_eq!(pts.len(), expected.len());
    for (p, (x, y)) in pts.iter().zip(expected.iter()) {
        assert_eq!(*p, Point::new(*x, *y));
    }
}

#[test]
fn point_arithmetic() {
    let p = Point::new(3, -2);
    assert_eq!(Point::zero(), Point::new(0, 0));
    assert_eq!(p.translate(1, 2), Point::new(4, 0));
    assert_eq!(p.translate(-4, 0), Point::new(-1, -2));
}

#[test]
fn bounds_checks() {
    let field = Field::new(3, 2);
    assert!(field.point_in_bounds(Point::new(0, 0)));
    assert!(field.point_in_bounds(Point::new(2, 1)));
    assert!(!field.point_in_bounds(Point::new(3, 1)));
    assert!(!field.point_in_bounds(Point::new(2, 2)));
    assert!(!field.point_in_bounds(Point::new(-1, 0)));
    assert!(!field.point_in_bounds(Point::new(0, -1)));
}

#[test]
fn north_and_west_movement() {
    let mut ctx = default_ctx(3, 3);
    seed(&mut ctx, 1, 1, 'N');
    tick(&mut ctx);
    assert_eq!(slot_at(&ctx, 1, 0), Slot { operator: 'N', lock: true });
    assert_eq!(slot_at(&ctx, 1, 1), Slot { operator: '\0', lock: true });

    let mut ctx = default_ctx(3, 3);
    seed(&mut ctx, 1, 1, 'W');
    tick(&mut ctx);
    assert_eq!(slot_at(&ctx, 0, 1), Slot { operator: 'W', lock: true });
    assert_eq!(slot_at(&ctx, 1, 1), Slot { operator: '\0', lock: true });
}

#[test]
fn west_and_north_boundary_collisions() {
    let mut ctx = default_ctx(3, 3);
    seed(&mut ctx, 0, 1, 'W');
    tick(&mut ctx);
    assert_eq!(slot_at(&ctx, 0, 1), Slot { operator: '*', lock: true });

    let mut ctx = default_ctx(3, 3);
    seed(&mut ctx, 1, 0, 'N');
    tick(&mut ctx);
    assert_eq!(slot_at(&ctx, 1, 0), Slot { operator: '*', lock: true });

    let mut ctx = default_ctx(3, 3);
    seed(&mut ctx, 1, 2, 'S');
    tick(&mut ctx);
    assert_eq!(slot_at(&ctx, 1, 2), Slot { operator: '*', lock: true });
}

#[test]
fn scan_order_decides_races() {
    // Two operators racing for the same empty cell: the one visited first
    // in row-major order wins; the later one collides with it.
    let mut ctx = default_ctx(3, 1);
    seed(&mut ctx, 0, 0, 'E');
    seed(&mut ctx, 2, 0, 'W');
    tick(&mut ctx);
    assert_eq!(slot_at(&ctx, 0, 0), Slot { operator: '\0', lock: true });
    assert_eq!(slot_at(&ctx, 1, 0), Slot { operator: 'E', lock: true });
    assert_eq!(slot_at(&ctx, 2, 0), Slot { operator: '*', lock: true });
}

#[test]
fn bang_erases_exploded_operator_next_tick() {
    // A collision marker left by an explosion is itself the bang operator:
    // the next tick erases it.
    let mut ctx = default_ctx(2, 1);
    seed(&mut ctx, 1, 0, 'E');
    tick(&mut ctx);
    assert_eq!(slot_at(&ctx, 1, 0), Slot { operator: '*', lock: true });
    tick(&mut ctx);
    assert_eq!(slot_at(&ctx, 1, 0), Slot { operator: '\0', lock: true });
}
