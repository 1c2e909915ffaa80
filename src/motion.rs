use crate::entity::{dir_bounded, Bullet};
use crate::geometry::{
    abs, clamp, clamp_spec, div_away, div_trunc, in_world, normalize, normalize_spec, Bounds, Vec2,
    DIR_SCALE, PLAYER_SIZE, WORLD_LIMIT,
};
use vstd::prelude::*;

verus! {

/// Speed of the player, in thousandths of a unit per second.
pub const PLAYER_SPEED: i64 = 600_000;

/// Speed of a bullet, in thousandths of a unit per second.
pub const BULLET_SPEED: i64 = 600_000;

/// A rate is a speed times a percentage; this is the rate of full speed
/// at `PLAYER_SPEED`.
pub const PLAYER_RATE: i64 = 60_000_000;

pub const BULLET_RATE: i64 = 60_000_000;

/// Largest rate that a move accepts.
pub const MAX_RATE: i64 = 2_500_000_000_000_000;

/// Divisor that turns direction times rate times microseconds into
/// thousandths of a unit: `DIR_SCALE`, microseconds per second, and percent.
pub const DISPLACEMENT_DIVISOR: u128 = 1_000_000_000_000_000;

/// The distance covered on one axis in `dt` microseconds, at direction
/// component `dir` and rate `rate`, rounded away from zero: a move of any
/// length covers at least one thousandth of a unit.
pub open spec fn displacement_spec(dir: int, rate: int, dt: int) -> int {
    div_away(dir * rate * dt, DISPLACEMENT_DIVISOR as int)
}

/// Computes `displacement_spec`.
pub fn displacement(dir: i64, rate: i64, dt: u32) -> (r: i64)
    requires
        abs(dir as int) <= DIR_SCALE,
        0 <= rate <= MAX_RATE,
    ensures
        r == displacement_spec(dir as int, rate as int, dt as int),
        abs(r as int) <= 110_000_000_000_000_000,
        dir >= 0 ==> r >= 0,
        dir <= 0 ==> r <= 0,
        dir != 0 && rate > 0 && dt > 0 ==> r != 0,
{
    let ad: u128 = if dir < 0 {
        (-(dir as i128)) as u128
    } else {
        dir as u128
    };
    assert(ad * (rate as u128) <= 25_000_000_000_000_000_000_000) by (nonlinear_arith)
        requires
            ad <= 10_000_000,
            0 <= rate <= MAX_RATE,
    ;
    assert(ad * (rate as u128) * (dt as u128) <= 25_000_000_000_000_000_000_000 * 4_294_967_295)
        by (nonlinear_arith)
        requires
            ad * (rate as u128) <= 25_000_000_000_000_000_000_000,
            dt <= 4_294_967_295,
    ;
    let n: u128 = ad * (rate as u128) * (dt as u128);
    let q: u128 = (n + (DISPLACEMENT_DIVISOR - 1)) / DISPLACEMENT_DIVISOR;
    proof {
        assert(q <= 110_000_000_000_000_000) by (nonlinear_arith)
            requires
                q == (n + 999_999_999_999_999) / 1_000_000_000_000_000,
                n <= 25_000_000_000_000_000_000_000 * 4_294_967_295,
        ;
        assert(n > 0 ==> q >= 1) by (nonlinear_arith)
            requires
                q == (n + 999_999_999_999_999) / 1_000_000_000_000_000,
        ;
        assert(ad > 0 && rate > 0 && dt > 0 ==> n > 0) by (nonlinear_arith)
            requires
                n == ad * rate * dt,
        ;
        if dir == 0 {
            assert(n == 0) by (nonlinear_arith)
                requires
                    ad == 0,
                    n == ad * rate * dt,
            ;
        }
        if dir < 0 {
            assert(dir * rate * dt == -n) by (nonlinear_arith)
                requires
                    ad == -dir,
                    n == ad * rate * dt,
            ;
        } else {
            assert(dir * rate * dt == n) by (nonlinear_arith)
                requires
                    ad == dir,
                    n == ad * rate * dt,
            ;
        }
    }
    if dir < 0 {
        -(q as i64)
    } else {
        q as i64
    }
}

pub open spec fn clamp_world(v: int) -> int {
    clamp_spec(v, -WORLD_LIMIT as int, WORLD_LIMIT as int)
}

pub open spec fn advance_spec(pos: Vec2, dir: Vec2, rate: int, dt: int) -> Vec2 {
    Vec2 {
        x: clamp_world(pos.x + displacement_spec(dir.x as int, rate, dt)) as i64,
        y: clamp_world(pos.y + displacement_spec(dir.y as int, rate, dt)) as i64,
    }
}

/// Moves `pos` along `dir` at `rate` for `dt` microseconds; the result is
/// held inside the world.
pub fn advance(pos: Vec2, dir: Vec2, rate: i64, dt: u32) -> (r: Vec2)
    requires
        in_world(pos),
        dir_bounded(dir),
        0 <= rate <= MAX_RATE,
    ensures
        r == advance_spec(pos, dir, rate as int, dt as int),
        in_world(r),
{
    let dx = displacement(dir.x, rate, dt);
    let dy = displacement(dir.y, rate, dt);
    Vec2 {
        x: clamp(pos.x + dx, -WORLD_LIMIT, WORLD_LIMIT),
        y: clamp(pos.y + dy, -WORLD_LIMIT, WORLD_LIMIT),
    }
}

pub open spec fn in_bounds(p: Vec2, b: Bounds) -> bool {
    b.left <= p.x <= b.right && b.bottom <= p.y <= b.top
}

pub open spec fn move_player_spec(pos: Vec2, intent: Vec2, dt: int, b: Bounds) -> Vec2 {
    Vec2 {
        x: clamp_spec(pos.x + displacement_spec(intent.x as int, PLAYER_RATE as int, dt), b.left as int, b.right as int) as i64,
        y: clamp_spec(pos.y + displacement_spec(intent.y as int, PLAYER_RATE as int, dt), b.bottom as int, b.top as int) as i64,
    }
}

/// Moves the player at `pos` along the movement intent for `dt`
/// microseconds at `PLAYER_SPEED`, each axis held to the player's bounds.
pub fn move_player(pos: Vec2, intent: Vec2, dt: u32, b: Bounds) -> (r: Vec2)
    requires
        in_world(pos),
        dir_bounded(intent),
        b.inv(),
    ensures
        r == move_player_spec(pos, intent, dt as int, b),
        in_bounds(r, b),
        in_world(r),
{
    let dx = displacement(intent.x, PLAYER_RATE, dt);
    let dy = displacement(intent.y, PLAYER_RATE, dt);
    Vec2 { x: clamp(pos.x + dx, b.left, b.right), y: clamp(pos.y + dy, b.bottom, b.top) }
}

/// A bullet is culled once its center lies outside its bounds.
pub open spec fn bullet_outside(p: Vec2, b: Bounds) -> bool {
    p.y > b.top || p.y < b.bottom || p.x > b.right || p.x < b.left
}

pub open spec fn bullet_step(bl: Bullet, dt: int, b: Bounds) -> Bullet {
    Bullet { pos: advance_spec(bl.pos, bl.dir, BULLET_RATE as int, dt), dir: bl.dir }
}

/// The first `n` bullets after one tick: those outside `b` are culled, the
/// others move along their direction, in order.
pub open spec fn step_bullets(bs: Seq<Bullet>, dt: int, b: Bounds, n: int) -> Seq<Bullet>
    decreases n,
{
    if n <= 0 {
        Seq::empty()
    } else {
        let r = step_bullets(bs, dt, b, n - 1);
        if bullet_outside(bs[n - 1].pos, b) {
            r
        } else {
            r.push(bullet_step(bs[n - 1], dt, b))
        }
    }
}

/// Culls the bullets outside `b` and moves the rest for `dt` microseconds
/// at `BULLET_SPEED`.
pub fn move_bullets(bullets: &mut Vec<Bullet>, dt: u32, b: Bounds)
    requires
        forall|i: int| 0 <= i < old(bullets)@.len() ==> #[trigger] old(bullets)@[i].inv(),
    ensures
        final(bullets)@ == step_bullets(old(bullets)@, dt as int, b, old(bullets)@.len() as int),
        forall|i: int| 0 <= i < final(bullets)@.len() ==> #[trigger] final(bullets)@[i].inv(),
{
    let ghost bs = bullets@;
    let mut kept: Vec<Bullet> = Vec::new();
    let mut i: usize = 0;
    while i < bullets.len()
        invariant
            i <= bs.len(),
            bullets@ == bs,
            kept@ == step_bullets(bs, dt as int, b, i as int),
            forall|k: int| 0 <= k < bs.len() ==> #[trigger] bs[k].inv(),
            forall|k: int| 0 <= k < kept@.len() ==> #[trigger] kept@[k].inv(),
        decreases bs.len() - i,
    {
        let bl = bullets[i];
        assert(bs[i as int].inv());
        if !(bl.pos.y > b.top || bl.pos.y < b.bottom || bl.pos.x > b.right || bl.pos.x < b.left) {
            let pos = advance(bl.pos, bl.dir, BULLET_RATE, dt);
            kept.push(Bullet { pos, dir: bl.dir });
        }
        i = i + 1;
    }
    *bullets = kept;
}

pub open spec fn muzzle_offset(d: int) -> int {
    div_trunc(d * PLAYER_SIZE, 2 * DIR_SCALE)
}

/// The bullet that the fire intent `fire` shoots from the player at `p`:
/// none for a zero intent; otherwise it flies along the normalized intent
/// and starts at the edge of the player's square in that direction.
pub open spec fn shoot_spec(p: Vec2, fire: Vec2) -> Option<Bullet> {
    if fire.x == 0 && fire.y == 0 {
        None
    } else {
        let d = normalize_spec(fire);
        Some(
            Bullet {
                pos: Vec2 {
                    x: clamp_world(p.x + muzzle_offset(d.x as int)) as i64,
                    y: clamp_world(p.y + muzzle_offset(d.y as int)) as i64,
                },
                dir: d,
            },
        )
    }
}

fn muzzle(d: i64) -> (r: i64)
    requires
        abs(d as int) <= DIR_SCALE,
    ensures
        r == muzzle_offset(d as int),
        abs(r as int) <= PLAYER_SIZE,
{
    let ad: i64 = if d < 0 {
        -d
    } else {
        d
    };
    assert(ad * PLAYER_SIZE <= DIR_SCALE * PLAYER_SIZE) by (nonlinear_arith)
        requires
            0 <= ad <= DIR_SCALE,
    ;
    let q = ad * PLAYER_SIZE / (2 * DIR_SCALE);
    assert(q <= PLAYER_SIZE) by (nonlinear_arith)
        requires
            q == ad * PLAYER_SIZE / (2 * DIR_SCALE),
            0 <= ad * PLAYER_SIZE <= DIR_SCALE * PLAYER_SIZE,
    ;
    assert(d < 0 ==> d * PLAYER_SIZE == -(ad * PLAYER_SIZE));
    if d < 0 {
        -q
    } else {
        q
    }
}

/// Fires a bullet from the player at `p` along the fire intent.
pub fn shoot(p: Vec2, fire: Vec2) -> (r: Option<Bullet>)
    requires
        in_world(p),
        dir_bounded(fire),
    ensures
        r == shoot_spec(p, fire),
        r matches Some(bl) ==> bl.inv(),
{
    if fire.x == 0 && fire.y == 0 {
        return None;
    }
    let d = normalize(fire);
    let ox = muzzle(d.x);
    let oy = muzzle(d.y);
    Some(
        Bullet {
            pos: Vec2 {
                x: clamp(p.x + ox, -WORLD_LIMIT, WORLD_LIMIT),
                y: clamp(p.y + oy, -WORLD_LIMIT, WORLD_LIMIT),
            },
            dir: d,
        },
    )
}

/// No time, no motion: with `dt` zero an entity keeps its place, and the
/// player inside its bounds stays where it is.
pub proof fn lemma_zero_dt_still(pos: Vec2, dir: Vec2, rate: int, b: Bounds)
    requires
        in_world(pos),
    ensures
        advance_spec(pos, dir, rate, 0) == pos,
        in_bounds(pos, b) ==> move_player_spec(pos, dir, 0, b) == pos,
{
    assert(dir.x * rate * 0 == 0 && dir.y * rate * 0 == 0) by (nonlinear_arith);
    assert(dir.x * PLAYER_RATE * 0 == 0 && dir.y * PLAYER_RATE * 0 == 0) by (nonlinear_arith);
}

/// With `dt` zero the bullets inside their bounds stay where they are and
/// the others are culled.
pub proof fn lemma_bullets_zero_dt(bs: Seq<Bullet>, b: Bounds, n: int)
    requires
        0 <= n <= bs.len(),
        forall|i: int| 0 <= i < bs.len() ==> #[trigger] bs[i].inv(),
    ensures
        step_bullets(bs, 0, b, n) == bs.take(n).filter(|bl: Bullet| !bullet_outside(bl.pos, b)),
    decreases n,
{
    reveal(Seq::filter);
    if n > 0 {
        lemma_bullets_zero_dt(bs, b, n - 1);
        assert(bs.take(n).drop_last() == bs.take(n - 1));
        assert(bs[n - 1].inv());
        lemma_zero_dt_still(bs[n - 1].pos, bs[n - 1].dir, BULLET_RATE as int, b);
    } else {
        assert(bs.take(n) == Seq::<Bullet>::empty());
    }
}

/// A bullet inside its bounds is kept by a tick and moved along its
/// direction; one outside them on any side is culled.
pub proof fn lemma_bullet_cull(bs: Seq<Bullet>, dt: int, b: Bounds, i: int)
    requires
        0 <= i < bs.len(),
    ensures
        !bullet_outside(bs[i].pos, b) ==> step_bullets(bs, dt, b, i + 1) == step_bullets(
            bs,
            dt,
            b,
            i,
        ).push(bullet_step(bs[i], dt, b)),
        bullet_outside(bs[i].pos, b) ==> step_bullets(bs, dt, b, i + 1) == step_bullets(
            bs,
            dt,
            b,
            i,
        ),
{
}

} // verus!
