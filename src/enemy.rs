use crate::entity::{dir_bounded, Enemy};
use crate::geometry::{
    abs, clamp_spec, in_world, lemma_normalized, normalize, normalize_spec, Bounds, Vec2,
    DIR_SCALE, WORLD_LIMIT,
};
use crate::motion::{advance, advance_spec, displacement_spec, MAX_RATE};
use vstd::prelude::*;

verus! {

/// Base speed of an enemy, in thousandths of a unit per second.
pub const ENEMY_BASE_SPEED: i64 = 70_000;

/// Percentage added to the enemies' speed for each destroyed enemy.
pub const SPEED_STEP_PERCENT: u64 = 8;

/// Most enemies alive at once.
pub const MAX_ENEMIES: usize = 8;

/// Time between two spawn attempts, in microseconds.
pub const SPAWN_INTERVAL: u64 = 400_000;

/// Spawn draws are taken from `0..SPAWN_DRAW_RANGE`, standing for `[0, 1)`.
pub const SPAWN_DRAW_RANGE: u64 = 1_000_000;

/// A draw above this spawns on the top edge.
pub const TOP_EDGE_THRESHOLD: u64 = 660_000;

/// A draw above this, and not above `TOP_EDGE_THRESHOLD`, spawns on the left edge.
pub const LEFT_EDGE_THRESHOLD: u64 = 330_000;

pub open spec fn speed_percent_spec(count: int) -> int {
    100 + SPEED_STEP_PERCENT * count
}

/// The enemies' speed, in percent of `ENEMY_BASE_SPEED`, after `count`
/// enemies were destroyed.
pub fn speed_percent(count: u32) -> (r: u64)
    ensures
        r == speed_percent_spec(count as int),
{
    100 + SPEED_STEP_PERCENT * count as u64
}

pub open spec fn enemy_rate_spec(count: int) -> int {
    ENEMY_BASE_SPEED * speed_percent_spec(count)
}

/// The rate at which enemies move after `count` enemies were destroyed.
pub fn enemy_rate(count: u32) -> (r: i64)
    ensures
        r == enemy_rate_spec(count as int),
        0 <= r <= MAX_RATE,
{
    let p = speed_percent(count);
    assert(p <= 34_359_738_460);
    let base: u64 = ENEMY_BASE_SPEED as u64;
    assert(base * p <= 2_405_181_692_200_000) by (nonlinear_arith)
        requires
            base == ENEMY_BASE_SPEED,
            p <= 34_359_738_460,
    ;
    (base * p) as i64
}

pub open spec fn homing_spec(from: Vec2, to: Vec2) -> Vec2 {
    normalize_spec(Vec2 { x: (to.x - from.x) as i64, y: (to.y - from.y) as i64 })
}

/// The unit direction from `from` toward `to`.
pub fn homing_direction(from: Vec2, to: Vec2) -> (r: Vec2)
    requires
        in_world(from),
        in_world(to),
    ensures
        r == homing_spec(from, to),
        dir_bounded(r),
{
    normalize(Vec2 { x: to.x - from.x, y: to.y - from.y })
}

pub open spec fn bounce_x(d: Vec2, pos: Vec2, b: Bounds) -> bool {
    (d.x > 0 && pos.x > b.right) || (d.x < 0 && pos.x < b.left)
}

pub open spec fn bounce_y(d: Vec2, pos: Vec2, b: Bounds) -> bool {
    (d.y > 0 && pos.y > b.top) || (d.y < 0 && pos.y < b.bottom)
}

pub open spec fn bounce_spec(d: Vec2, pos: Vec2, b: Bounds) -> Vec2 {
    Vec2 {
        x: if bounce_x(d, pos, b) {
            (-d.x) as i64
        } else {
            d.x
        },
        y: if bounce_y(d, pos, b) {
            (-d.y) as i64
        } else {
            d.y
        },
    }
}

/// Turns back each component of `d` that would take an enemy at `pos`, which
/// is already past a bound on that axis, further out.
pub fn bounce(d: Vec2, pos: Vec2, b: Bounds) -> (r: Vec2)
    requires
        dir_bounded(d),
    ensures
        r == bounce_spec(d, pos, b),
        dir_bounded(r),
{
    let x = if (d.x > 0 && pos.x > b.right) || (d.x < 0 && pos.x < b.left) {
        -d.x
    } else {
        d.x
    };
    let y = if (d.y > 0 && pos.y > b.top) || (d.y < 0 && pos.y < b.bottom) {
        -d.y
    } else {
        d.y
    };
    Vec2 { x, y }
}

pub open spec fn enemy_step_spec(e: Enemy, player: Vec2, dt: int, count: int, b: Bounds) -> Enemy {
    let d = bounce_spec(homing_spec(e.pos, player), e.pos, b);
    Enemy { pos: advance_spec(e.pos, d, enemy_rate_spec(count), dt), dir: d }
}

/// One tick of an enemy: it heads for the player, turns back at the bounds,
/// and moves at the speed that `count` destroyed enemies give.
pub fn enemy_step(e: Enemy, player: Vec2, dt: u32, count: u32, b: Bounds) -> (r: Enemy)
    requires
        e.inv(),
        in_world(player),
    ensures
        r == enemy_step_spec(e, player, dt as int, count as int, b),
        r.inv(),
{
    let h = homing_direction(e.pos, player);
    let d = bounce(h, e.pos, b);
    let rate = enemy_rate(count);
    Enemy { pos: advance(e.pos, d, rate, dt), dir: d }
}

/// Moves every enemy one tick toward the player at `player`.
pub fn move_enemies(enemies: &mut Vec<Enemy>, player: Vec2, dt: u32, count: u32, b: Bounds)
    requires
        forall|i: int| 0 <= i < old(enemies)@.len() ==> #[trigger] old(enemies)@[i].inv(),
        in_world(player),
    ensures
        final(enemies)@.len() == old(enemies)@.len(),
        forall|i: int|
            0 <= i < final(enemies)@.len() ==> #[trigger] final(enemies)@[i] == enemy_step_spec(
                old(enemies)@[i],
                player,
                dt as int,
                count as int,
                b,
            ),
        forall|i: int| 0 <= i < final(enemies)@.len() ==> #[trigger] final(enemies)@[i].inv(),
{
    let ghost es = enemies@;
    let mut i: usize = 0;
    while i < enemies.len()
        invariant
            i <= es.len(),
            in_world(player),
            enemies@.len() == es.len(),
            forall|k: int| i <= k < es.len() ==> #[trigger] enemies@[k] == es[k],
            forall|k: int| 0 <= k < es.len() ==> #[trigger] es[k].inv(),
            forall|k: int|
                0 <= k < i ==> #[trigger] enemies@[k] == enemy_step_spec(
                    es[k],
                    player,
                    dt as int,
                    count as int,
                    b,
                ),
            forall|k: int| 0 <= k < i ==> #[trigger] enemies@[k].inv(),
        decreases es.len() - i,
    {
        assert(es[i as int].inv());
        let e = enemy_step(enemies[i], player, dt, count, b);
        enemies.set(i, e);
        i = i + 1;
    }
}

/// The edge of the arena on which an enemy appears.
#[derive(Clone, Copy, Debug, PartialEq, Eq, Structural)]
pub enum SpawnEdge {
    Top,
    Left,
    Right,
}

pub open spec fn spawn_edge_spec(r: int) -> SpawnEdge {
    if r > TOP_EDGE_THRESHOLD {
        SpawnEdge::Top
    } else if r > LEFT_EDGE_THRESHOLD {
        SpawnEdge::Left
    } else {
        SpawnEdge::Right
    }
}

/// The spawn edge that the draw `r`, out of `SPAWN_DRAW_RANGE`, selects.
pub fn spawn_edge(r: u64) -> (e: SpawnEdge)
    ensures
        e == spawn_edge_spec(r as int),
{
    if r > TOP_EDGE_THRESHOLD {
        SpawnEdge::Top
    } else if r > LEFT_EDGE_THRESHOLD {
        SpawnEdge::Left
    } else {
        SpawnEdge::Right
    }
}

/// The number of places along `edge`: the width of the bounds on the top
/// edge, and on a side edge the height from 0 to the top bound (a single
/// place where the top bound is not above 0).
pub open spec fn spawn_range_spec(edge: SpawnEdge, b: Bounds) -> int {
    match edge {
        SpawnEdge::Top => b.right - b.left,
        _ => if b.top > 0 {
            b.top as int
        } else {
            1
        },
    }
}

pub fn spawn_range(edge: SpawnEdge, b: Bounds) -> (r: u64)
    requires
        b.inv(),
    ensures
        r == spawn_range_spec(edge, b),
        r >= 1,
{
    match edge {
        SpawnEdge::Top => (b.right - b.left) as u64,
        _ => if b.top > 0 {
            b.top as u64
        } else {
            1
        },
    }
}

pub open spec fn spawn_point_spec(edge: SpawnEdge, offset: int, b: Bounds) -> Vec2 {
    match edge {
        SpawnEdge::Top => Vec2 { x: (b.left + offset) as i64, y: b.top },
        SpawnEdge::Left => Vec2 { x: b.left, y: offset as i64 },
        SpawnEdge::Right => Vec2 { x: b.right, y: offset as i64 },
    }
}

/// The place on `edge` at `offset` from its start: from the left bound along
/// the top edge, from 0 upward along a side edge.
pub fn spawn_point(edge: SpawnEdge, offset: u64, b: Bounds) -> (r: Vec2)
    requires
        b.inv(),
        offset < spawn_range_spec(edge, b),
    ensures
        r == spawn_point_spec(edge, offset as int, b),
        in_world(r),
{
    match edge {
        SpawnEdge::Top => Vec2 { x: b.left + offset as i64, y: b.top },
        SpawnEdge::Left => Vec2 { x: b.left, y: offset as i64 },
        SpawnEdge::Right => Vec2 { x: b.right, y: offset as i64 },
    }
}

pub open spec fn spawned_enemy(edge_draw: int, offset_draw: int, b: Bounds) -> Enemy {
    let edge = spawn_edge_spec(edge_draw);
    Enemy {
        pos: spawn_point_spec(edge, offset_draw % spawn_range_spec(edge, b), b),
        dir: Vec2 { x: 0, y: 0 },
    }
}

/// The enemy that the two draws place: the first picks the edge, the second,
/// reduced modulo the number of places along that edge, the place. It starts
/// without a direction.
pub fn spawn_enemy(edge_draw: u64, offset_draw: u64, b: Bounds) -> (e: Enemy)
    requires
        b.inv(),
    ensures
        e == spawned_enemy(edge_draw as int, offset_draw as int, b),
        e.inv(),
{
    let edge = spawn_edge(edge_draw);
    let range = spawn_range(edge, b);
    let pos = spawn_point(edge, offset_draw % range, b);
    Enemy { pos, dir: Vec2 { x: 0, y: 0 } }
}

/// Adds `dt` to the spawn timer. Once the sum exceeds `SPAWN_INTERVAL` the
/// timer fires: it returns to 0 and one spawn is allowed.
pub fn spawn_timer_step(timer: u64, dt: u32) -> (r: (u64, bool))
    requires
        timer <= SPAWN_INTERVAL,
    ensures
        timer + dt > SPAWN_INTERVAL ==> r == (0u64, true),
        timer + dt <= SPAWN_INTERVAL ==> r == ((timer + dt) as u64, false),
        r.0 <= SPAWN_INTERVAL,
{
    let t = timer + dt as u64;
    if t > SPAWN_INTERVAL {
        (0, true)
    } else {
        (t, false)
    }
}

/// A spawn happens when the timer fired and fewer than `MAX_ENEMIES` live.
pub fn may_spawn(live: usize, fired: bool) -> (r: bool)
    ensures
        r == (fired && live < MAX_ENEMIES),
{
    fired && live < MAX_ENEMIES
}

/// Facts on one axis of an enemy's move that hold for every tick of positive
/// length: with no turn back, the enemy moves toward the player's coordinate
/// and, short of passing it by its whole distance, ends strictly closer;
/// turned back, it moves against its homing direction.
proof fn lemma_axis_approach(
    e: int,
    p: int,
    h: int,
    d: int,
    k: int,
    n: int,
    bounced: bool,
)
    requires
        -WORLD_LIMIT <= e <= WORLD_LIMIT,
        -WORLD_LIMIT <= p <= WORLD_LIMIT,
        p > e ==> h >= 1,
        p < e ==> h <= -1,
        p == e ==> h == 0,
        d == (if bounced { -h } else { h }),
        d > 0 ==> k >= 1,
        d < 0 ==> k <= -1,
        d == 0 ==> k == 0,
        n == clamp_spec(e + k, -WORLD_LIMIT as int, WORLD_LIMIT as int),
    ensures
        !bounced && p == e ==> n == e,
        !bounced && p != e && abs(n - e) < 2 * abs(p - e) ==> abs(n - p) < abs(p - e),
        bounced && h > 0 && e > -WORLD_LIMIT ==> n < e,
        bounced && h < 0 && e < WORLD_LIMIT ==> n > e,
{
}

/// An enemy heads for the player. In a tick of positive length, on each axis
/// on which it is not turned back and does not stand level with the player,
/// it ends strictly closer to the player on that axis, unless its move passes
/// the player by at least the distance it had. On an axis on which it is
/// turned back it moves against its homing direction, back inside its
/// bounds. When neither axis is turned back and no move passes the player so
/// far, an enemy not on the player ends strictly closer to it.
pub proof fn lemma_enemy_approaches(e: Enemy, player: Vec2, dt: int, count: int, b: Bounds)
    requires
        e.inv(),
        in_world(player),
        b.inv(),
        dt > 0,
        count >= 0,
    ensures
        ({
            let h = homing_spec(e.pos, player);
            let n = enemy_step_spec(e, player, dt, count, b).pos;
            let (ex, ey, px, py, nx, ny) = (
                e.pos.x as int,
                e.pos.y as int,
                player.x as int,
                player.y as int,
                n.x as int,
                n.y as int,
            );
            &&& !bounce_x(h, e.pos, b) && px != ex && abs(nx - ex) < 2 * abs(px - ex) ==> abs(
                nx - px,
            ) < abs(px - ex)
            &&& !bounce_y(h, e.pos, b) && py != ey && abs(ny - ey) < 2 * abs(py - ey) ==> abs(
                ny - py,
            ) < abs(py - ey)
            &&& h.x > 0 && ex > b.right ==> nx < ex
            &&& h.x < 0 && ex < b.left ==> nx > ex
            &&& h.y > 0 && ey > b.top ==> ny < ey
            &&& h.y < 0 && ey < b.bottom ==> ny > ey
            &&& (!bounce_x(h, e.pos, b) && !bounce_y(h, e.pos, b) && e.pos != player && (px
                == ex || abs(nx - ex) < 2 * abs(px - ex)) && (py == ey || abs(ny - ey) < 2 * abs(
                py - ey,
            ))) ==> (nx - px) * (nx - px) + (ny - py) * (ny - py) < (ex - px) * (ex - px) + (ey
                - py) * (ey - py)
        }),
{
    let v = Vec2 { x: (player.x - e.pos.x) as i64, y: (player.y - e.pos.y) as i64 };
    let h = homing_spec(e.pos, player);
    lemma_normalized(v);
    let d = bounce_spec(h, e.pos, b);
    let rate = enemy_rate_spec(count);
    assert(rate >= 1) by (nonlinear_arith)
        requires
            rate == ENEMY_BASE_SPEED * (100 + SPEED_STEP_PERCENT * count),
            count >= 0,
    ;
    lemma_displacement_sign(d.x as int, rate, dt);
    lemma_displacement_sign(d.y as int, rate, dt);
    let n = enemy_step_spec(e, player, dt, count, b).pos;
    let (ex, ey, px, py, nx, ny) = (
        e.pos.x as int,
        e.pos.y as int,
        player.x as int,
        player.y as int,
        n.x as int,
        n.y as int,
    );
    lemma_axis_approach(
        ex,
        px,
        h.x as int,
        d.x as int,
        displacement_spec(d.x as int, rate, dt),
        nx,
        bounce_x(h, e.pos, b),
    );
    lemma_axis_approach(
        ey,
        py,
        h.y as int,
        d.y as int,
        displacement_spec(d.y as int, rate, dt),
        ny,
        bounce_y(h, e.pos, b),
    );
    if !bounce_x(h, e.pos, b) && !bounce_y(h, e.pos, b) && e.pos != player && (px == ex || abs(
        nx - ex,
    ) < 2 * abs(px - ex)) && (py == ey || abs(ny - ey) < 2 * abs(py - ey)) {
        let (dx1, dx0, dy1, dy0) = (nx - px, ex - px, ny - py, ey - py);
        assert(dx1 * dx1 <= dx0 * dx0 && (px != ex ==> dx1 * dx1 < dx0 * dx0)) by (
        nonlinear_arith)
            requires
                abs(dx1) <= abs(dx0),
                px != ex ==> abs(dx1) < abs(dx0),
                dx0 == ex - px,
        ;
        assert(dy1 * dy1 <= dy0 * dy0 && (py != ey ==> dy1 * dy1 < dy0 * dy0)) by (
        nonlinear_arith)
            requires
                abs(dy1) <= abs(dy0),
                py != ey ==> abs(dy1) < abs(dy0),
                dy0 == ey - py,
        ;
    }
}

/// A move has the sign of its direction component, and covers at least one
/// thousandth when that component is not zero.
proof fn lemma_displacement_sign(dir: int, rate: int, dt: int)
    requires
        rate >= 1,
        dt >= 1,
    ensures
        dir > 0 ==> displacement_spec(dir, rate, dt) >= 1,
        dir < 0 ==> displacement_spec(dir, rate, dt) <= -1,
        dir == 0 ==> displacement_spec(dir, rate, dt) == 0,
{
    let n = dir * rate * dt;
    assert(dir > 0 ==> n >= 1) by (nonlinear_arith)
        requires
            n == dir * rate * dt,
            rate >= 1,
            dt >= 1,
    ;
    assert(dir < 0 ==> -n >= 1) by (nonlinear_arith)
        requires
            n == dir * rate * dt,
            rate >= 1,
            dt >= 1,
    ;
    assert(dir == 0 ==> n == 0) by (nonlinear_arith)
        requires
            n == dir * rate * dt,
    ;
    assert(n >= 1 ==> (n + 999_999_999_999_999) / 1_000_000_000_000_000 >= 1) by (
    nonlinear_arith);
    assert(-n >= 1 ==> (-n + 999_999_999_999_999) / 1_000_000_000_000_000 >= 1) by (
    nonlinear_arith);
    assert((0int + 999_999_999_999_999) / 1_000_000_000_000_000 == 0);
}

} // verus!
