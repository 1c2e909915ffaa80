use vstd::arithmetic::div_mod::{lemma_fundamental_div_mod, lemma_mod_pos_bound};
use vstd::prelude::*;

verus! {

/// Scale of a unit direction: a direction of length one has magnitude `DIR_SCALE`.
pub const DIR_SCALE: i64 = 10_000_000;

/// Largest absolute coordinate that an entity can have.
pub const WORLD_LIMIT: i64 = 68_719_476_736;

/// Largest absolute component of a vector handed to `normalize`: the
/// difference of two positions inside the world.
pub const MAX_SPAN: i64 = 137_438_953_472;

/// A two-dimensional vector of integers: a position or a scaled direction.
#[derive(Clone, Copy, Debug, PartialEq, Eq, Structural)]
pub struct Vec2 {
    pub x: i64,
    pub y: i64,
}

pub open spec fn abs(a: int) -> int {
    if a < 0 {
        -a
    } else {
        a
    }
}

/// Division that rounds toward zero, for a positive divisor.
pub open spec fn div_trunc(a: int, b: int) -> int {
    if a >= 0 {
        a / b
    } else {
        -((-a) / b)
    }
}

/// Division that rounds away from zero, for a positive divisor.
pub open spec fn div_away(a: int, b: int) -> int {
    if a >= 0 {
        (a + b - 1) / b
    } else {
        -((-a + b - 1) / b)
    }
}

pub open spec fn in_span(v: Vec2) -> bool {
    abs(v.x as int) <= MAX_SPAN && abs(v.y as int) <= MAX_SPAN
}

pub open spec fn in_world(v: Vec2) -> bool {
    abs(v.x as int) <= WORLD_LIMIT && abs(v.y as int) <= WORLD_LIMIT
}

pub open spec fn squared_length(v: Vec2) -> int {
    v.x * v.x + v.y * v.y
}

/// `d` is the least positive integer whose square reaches `v`.
pub open spec fn is_ceil_sqrt(v: int, d: int) -> bool {
    d >= 1 && (d - 1) * (d - 1) < v && v <= d * d
}

pub open spec fn ceil_sqrt(v: int) -> int {
    choose|d: int| is_ceil_sqrt(v, d)
}

/// The denominator of a normalization: the length of `v`, times `DIR_SCALE`,
/// rounded up.
pub open spec fn scaled_length(v: Vec2) -> int {
    ceil_sqrt(squared_length(v) * DIR_SCALE * DIR_SCALE)
}

pub open spec fn normalize_spec(v: Vec2) -> Vec2 {
    if v.x == 0 && v.y == 0 {
        v
    } else {
        Vec2 {
            x: div_away(v.x * DIR_SCALE * DIR_SCALE, scaled_length(v)) as i64,
            y: div_away(v.y * DIR_SCALE * DIR_SCALE, scaled_length(v)) as i64,
        }
    }
}

proof fn lemma_ceil_sqrt_unique(v: int, d1: int, d2: int)
    requires
        is_ceil_sqrt(v, d1),
        is_ceil_sqrt(v, d2),
    ensures
        d1 == d2,
{
    if d1 < d2 {
        assert(d1 * d1 <= (d2 - 1) * (d2 - 1)) by (nonlinear_arith)
            requires
                1 <= d1 <= d2 - 1,
        ;
    } else if d2 < d1 {
        assert(d2 * d2 <= (d1 - 1) * (d1 - 1)) by (nonlinear_arith)
            requires
                1 <= d2 <= d1 - 1,
        ;
    }
}

/// The least `d` with `d * d >= v`, for `v` from 1 to 2^122.
fn ceil_sqrt_u128(v: u128) -> (d: u128)
    requires
        1 <= v <= 0x4000000000000000000000000000000,
    ensures
        d == ceil_sqrt(v as int),
        is_ceil_sqrt(v as int, d as int),
        d <= 0x2000000000000000,
{
    let mut lo: u128 = 0;
    let mut hi: u128 = 0x2000000000000000;
    assert(hi * hi == 0x4000000000000000000000000000000);
    while hi - lo > 1
        invariant
            lo < hi <= 0x2000000000000000,
            lo * lo < v,
            v <= hi * hi,
        decreases hi - lo,
    {
        let mid: u128 = lo + (hi - lo) / 2;
        assert(mid * mid <= 0x4000000000000000000000000000000) by (nonlinear_arith)
            requires
                mid <= 0x2000000000000000,
        ;
        if mid * mid >= v {
            hi = mid;
        } else {
            lo = mid;
        }
    }
    assert(is_ceil_sqrt(v as int, hi as int));
    proof {
        lemma_ceil_sqrt_unique(v as int, hi as int, ceil_sqrt(v as int));
    }
    hi
}

/// Facts on one component of a normalized vector: `a` is the quotient of
/// `c * s * s` by `d`, rounded away from zero.
proof fn lemma_component(c: int, s: int, d: int, a: int)
    requires
        d >= 1,
        s >= 1,
        a == div_away(c * s * s, d),
    ensures
        (abs(a) - 1) * d < abs(c) * s * s,
        abs(c) * s * s <= abs(a) * d,
        c > 0 ==> a >= 1,
        c < 0 ==> a <= -1,
        c == 0 ==> a == 0,
{
    let n = abs(c) * s * s;
    assert(n >= 0 && (c != 0 ==> n > 0)) by (nonlinear_arith)
        requires
            n == abs(c) * s * s,
            s >= 1,
    ;
    let q = (n + d - 1) / d;
    lemma_fundamental_div_mod(n + d - 1, d);
    lemma_mod_pos_bound(n + d - 1, d);
    assert(q * d >= n && (q - 1) * d < n) by (nonlinear_arith)
        requires
            n + d - 1 == d * q + ((n + d - 1) % d),
            0 <= (n + d - 1) % d < d,
    ;
    assert(q >= 0 && (n > 0 ==> q >= 1) && (n == 0 ==> q == 0)) by (nonlinear_arith)
        requires
            q * d >= n,
            (q - 1) * d < n,
            n >= 0,
            d >= 1,
    ;
    if c < 0 {
        assert(c * s * s == -n) by (nonlinear_arith)
            requires
                n == abs(c) * s * s,
                c < 0,
        ;
        assert(a == -q);
    } else {
        assert(c * s * s == n);
        assert(a == q);
    }
}

/// A normalized vector, each component rounded away from zero, has
/// components no larger than `s` and a squared length between `(s - 1)^2`
/// and `(s + 2)^2`, both excluded.
proof fn lemma_unit_length(x: int, y: int, s: int, d: int, a: int, b: int)
    requires
        s >= 1,
        x * x + y * y >= 1,
        is_ceil_sqrt((x * x + y * y) * s * s, d),
        a == div_away(x * s * s, d),
        b == div_away(y * s * s, d),
    ensures
        abs(a) <= s,
        abs(b) <= s,
        a * a + b * b > (s - 1) * (s - 1),
        a * a + b * b < (s + 2) * (s + 2),
{
    let m = x * x + y * y;
    lemma_component(x, s, d, a);
    lemma_component(y, s, d, b);
    let (pa, pb, px, py) = (abs(a), abs(b), abs(x), abs(y));
    assert(px * px == x * x && py * py == y * y && pa * pa == a * a && pb * pb == b * b)
        by (nonlinear_arith)
        requires
            px == x || px == -x,
            py == y || py == -y,
            pa == a || pa == -a,
            pb == b || pb == -b,
    ;
    let t = s * s;
    assert(d >= s) by (nonlinear_arith)
        requires
            m >= 1,
            m * s * s <= d * d,
            s >= 1,
            d >= 1,
    ;
    assert((px * s) * (px * s) <= d * d && (py * s) * (py * s) <= d * d) by (nonlinear_arith)
        requires
            px * px + py * py == m,
            px * px >= 0,
            py * py >= 0,
            m * s * s <= d * d,
    ;
    assert(px * s <= d && py * s <= d) by (nonlinear_arith)
        requires
            (px * s) * (px * s) <= d * d,
            (py * s) * (py * s) <= d * d,
            px >= 0,
            py >= 0,
            s >= 1,
            d >= 1,
    ;
    assert(pa <= s && pb <= s) by (nonlinear_arith)
        requires
            (pa - 1) * d < px * s * s,
            (pb - 1) * d < py * s * s,
            px * s <= d,
            py * s <= d,
            s >= 1,
            d >= 1,
    ;
    // Lower bound.
    let xx = px * t;
    let yy = py * t;
    assert(px * s * s == xx && py * s * s == yy && xx >= 0 && yy >= 0) by (nonlinear_arith)
        requires
            xx == px * t,
            yy == py * t,
            t == s * s,
            px >= 0,
            py >= 0,
    ;
    let aa = pa * d;
    let bb = pb * d;
    assert(aa * aa >= xx * xx && bb * bb >= yy * yy) by (nonlinear_arith)
        requires
            0 <= xx <= aa,
            0 <= yy <= bb,
    ;
    assert(xx * xx + yy * yy == m * t * t) by (nonlinear_arith)
        requires
            xx == px * t,
            yy == py * t,
            px * px + py * py == m,
    ;
    assert(m * t * t > (d - 1) * (d - 1) * t) by (nonlinear_arith)
        requires
            (d - 1) * (d - 1) < m * s * s,
            t == s * s,
            s >= 1,
    ;
    let u = (d - 1) * s;
    let w = (s - 1) * d;
    assert(u >= w && w >= 0) by (nonlinear_arith)
        requires
            u == (d - 1) * s,
            w == (s - 1) * d,
            d >= s,
            s >= 1,
    ;
    assert(u * u >= w * w) by (nonlinear_arith)
        requires
            u >= w,
            w >= 0,
    ;
    assert((d - 1) * (d - 1) * t == u * u) by (nonlinear_arith)
        requires
            u == (d - 1) * s,
            t == s * s,
    ;
    assert(w * w == ((s - 1) * (s - 1)) * (d * d)) by (nonlinear_arith)
        requires
            w == (s - 1) * d,
    ;
    assert(aa * aa + bb * bb == (pa * pa + pb * pb) * (d * d)) by (nonlinear_arith)
        requires
            aa == pa * d,
            bb == pb * d,
    ;
    assert(pa * pa + pb * pb > (s - 1) * (s - 1)) by (nonlinear_arith)
        requires
            (pa * pa + pb * pb) * (d * d) > ((s - 1) * (s - 1)) * (d * d),
            d >= 1,
    ;
    // Upper bound: each component, less one step, is at most the exact value.
    let a1 = if pa >= 1 { pa - 1 } else { 0 };
    let b1 = if pb >= 1 { pb - 1 } else { 0 };
    assert(0 <= a1 * d <= xx && 0 <= b1 * d <= yy) by (nonlinear_arith)
        requires
            a1 == pa - 1 || (a1 == 0 && pa == 0),
            b1 == pb - 1 || (b1 == 0 && pb == 0),
            a1 >= 0,
            b1 >= 0,
            (pa - 1) * d < xx,
            (pb - 1) * d < yy,
            xx >= 0,
            yy >= 0,
            d >= 1,
    ;
    assert((a1 * d) * (a1 * d) <= xx * xx && (b1 * d) * (b1 * d) <= yy * yy) by (nonlinear_arith)
        requires
            0 <= a1 * d <= xx,
            0 <= b1 * d <= yy,
    ;
    assert(m * t * t <= (d * d) * t) by (nonlinear_arith)
        requires
            m * s * s <= d * d,
            t == s * s,
    ;
    let ad = a1 * d;
    let bd = b1 * d;
    assert(ad * ad + bd * bd <= (d * d) * t);
    assert((a1 * a1 + b1 * b1) * (d * d) == ad * ad + bd * bd) by (nonlinear_arith)
        requires
            ad == a1 * d,
            bd == b1 * d,
    ;
    assert((a1 * a1 + b1 * b1) * (d * d) <= t * (d * d)) by (nonlinear_arith)
        requires
            (a1 * a1 + b1 * b1) * (d * d) <= (d * d) * t,
    ;
    assert(a1 * a1 + b1 * b1 <= t) by (nonlinear_arith)
        requires
            (a1 * a1 + b1 * b1) * (d * d) <= t * (d * d),
            d >= 1,
    ;
    assert(pa * pa + pb * pb < (s + 2) * (s + 2)) by (nonlinear_arith)
        requires
            a1 * a1 + b1 * b1 <= s * s,
            pa <= a1 + 1,
            pb <= b1 + 1,
            pa >= 0,
            pb >= 0,
            0 <= a1 <= s,
            0 <= b1 <= s,
    ;
}

/// The choice in `ceil_sqrt` is well defined for every positive value.
proof fn lemma_ceil_sqrt_exists(v: int)
    requires
        v >= 1,
    ensures
        is_ceil_sqrt(v, ceil_sqrt(v)),
{
    let w = ceil_sqrt_witness(v);
    assert(is_ceil_sqrt(v, w));
}

proof fn ceil_sqrt_witness(v: int) -> (d: int)
    requires
        v >= 1,
    ensures
        is_ceil_sqrt(v, d),
    decreases v,
{
    if v == 1 {
        1
    } else {
        let d0 = ceil_sqrt_witness(v - 1);
        if v <= d0 * d0 {
            d0
        } else {
            assert(v <= (d0 + 1) * (d0 + 1)) by (nonlinear_arith)
                requires
                    v - 1 <= d0 * d0,
                    d0 >= 1,
            ;
            d0 + 1
        }
    }
}

/// Facts on `normalize_spec`: each component is at most `DIR_SCALE` in
/// absolute value, and is zero exactly where the input's is, with its sign.
pub proof fn lemma_normalized(v: Vec2)
    requires
        in_span(v),
    ensures
        abs(normalize_spec(v).x as int) <= DIR_SCALE,
        abs(normalize_spec(v).y as int) <= DIR_SCALE,
        v.x > 0 ==> normalize_spec(v).x >= 1,
        v.x < 0 ==> normalize_spec(v).x <= -1,
        v.x == 0 ==> normalize_spec(v).x == 0,
        v.y > 0 ==> normalize_spec(v).y >= 1,
        v.y < 0 ==> normalize_spec(v).y <= -1,
        v.y == 0 ==> normalize_spec(v).y == 0,
        !(v.x == 0 && v.y == 0) ==> squared_length(normalize_spec(v)) > (DIR_SCALE - 1) * (
        DIR_SCALE - 1),
        !(v.x == 0 && v.y == 0) ==> squared_length(normalize_spec(v)) < (DIR_SCALE + 2) * (
        DIR_SCALE + 2),
{
    if !(v.x == 0 && v.y == 0) {
        let m = squared_length(v);
        let s = DIR_SCALE as int;
        assert(m >= 1) by (nonlinear_arith)
            requires
                m == v.x * v.x + v.y * v.y,
                !(v.x == 0 && v.y == 0),
        ;
        assert(m * s * s >= 1) by (nonlinear_arith)
            requires
                m >= 1,
                s == DIR_SCALE,
        ;
        lemma_ceil_sqrt_exists(m * s * s);
        let d = scaled_length(v);
        let a = div_away(v.x * s * s, d);
        let b = div_away(v.y * s * s, d);
        lemma_component(v.x as int, s, d, a);
        lemma_component(v.y as int, s, d, b);
        lemma_unit_length(v.x as int, v.y as int, s, d, a, b);
    }
}

/// Scales `v` to length `DIR_SCALE`, keeping its direction; the zero vector
/// stays zero. Each component is rounded away from zero, so a component is
/// zero only where the input's is, and the length stays within two parts in
/// `DIR_SCALE` of `DIR_SCALE`.
pub fn normalize(v: Vec2) -> (r: Vec2)
    requires
        in_span(v),
    ensures
        r == normalize_spec(v),
        v.x == 0 && v.y == 0 ==> r.x == 0 && r.y == 0,
        abs(r.x as int) <= DIR_SCALE && abs(r.y as int) <= DIR_SCALE,
        !(v.x == 0 && v.y == 0) ==> squared_length(r) > (DIR_SCALE - 1) * (DIR_SCALE - 1),
        !(v.x == 0 && v.y == 0) ==> squared_length(r) < (DIR_SCALE + 2) * (DIR_SCALE + 2),
{
    if v.x == 0 && v.y == 0 {
        return v;
    }
    let ax: u128 = if v.x < 0 {
        (-(v.x as i128)) as u128
    } else {
        v.x as u128
    };
    let ay: u128 = if v.y < 0 {
        (-(v.y as i128)) as u128
    } else {
        v.y as u128
    };
    let s: u128 = DIR_SCALE as u128;
    assert(ax * ax <= MAX_SPAN * MAX_SPAN && ay * ay <= MAX_SPAN * MAX_SPAN) by (nonlinear_arith)
        requires
            ax <= MAX_SPAN,
            ay <= MAX_SPAN,
    ;
    let m: u128 = ax * ax + ay * ay;
    assert(m >= 1) by (nonlinear_arith)
        requires
            m == ax * ax + ay * ay,
            ax >= 1 || ay >= 1,
    ;
    assert(m * (s * s) <= 0x4000000000000000000000000000000) by (nonlinear_arith)
        requires
            m <= 2 * MAX_SPAN * MAX_SPAN,
            s == DIR_SCALE,
    ;
    let d: u128 = ceil_sqrt_u128(m * (s * s));
    assert(squared_length(v) == m) by (nonlinear_arith)
        requires
            ax == abs(v.x as int),
            ay == abs(v.y as int),
            m == ax * ax + ay * ay,
    ;
    assert(m * (s * s) == squared_length(v) * DIR_SCALE * DIR_SCALE) by (nonlinear_arith)
        requires
            squared_length(v) == m,
            s == DIR_SCALE,
    ;
    assert(ax * (s * s) <= MAX_SPAN * (DIR_SCALE * DIR_SCALE)) by (nonlinear_arith)
        requires
            ax <= MAX_SPAN,
            s == DIR_SCALE,
    ;
    assert(ay * (s * s) <= MAX_SPAN * (DIR_SCALE * DIR_SCALE)) by (nonlinear_arith)
        requires
            ay <= MAX_SPAN,
            s == DIR_SCALE,
    ;
    let qx: u128 = (ax * (s * s) + (d - 1)) / d;
    let qy: u128 = (ay * (s * s) + (d - 1)) / d;
    proof {
        let ghost a = div_away(v.x * DIR_SCALE * DIR_SCALE, d as int);
        let ghost b = div_away(v.y * DIR_SCALE * DIR_SCALE, d as int);
        lemma_normalized(v);
        lemma_component(v.x as int, DIR_SCALE as int, d as int, a);
        lemma_component(v.y as int, DIR_SCALE as int, d as int, b);
        lemma_unit_length(v.x as int, v.y as int, DIR_SCALE as int, d as int, a, b);
        assert(abs(a) == qx && abs(b) == qy) by {
            assert(v.x * DIR_SCALE * DIR_SCALE == (if v.x < 0 { -1int } else { 1int }) * (ax * (s
                * s))) by (nonlinear_arith)
                requires
                    ax == abs(v.x as int),
                    s == DIR_SCALE,
            ;
            assert(v.y * DIR_SCALE * DIR_SCALE == (if v.y < 0 { -1int } else { 1int }) * (ay * (s
                * s))) by (nonlinear_arith)
                requires
                    ay == abs(v.y as int),
                    s == DIR_SCALE,
            ;
        }
    }
    let rx: i64 = if v.x < 0 {
        -(qx as i64)
    } else {
        qx as i64
    };
    let ry: i64 = if v.y < 0 {
        -(qy as i64)
    } else {
        qy as i64
    };
    Vec2 { x: rx, y: ry }
}

/// Size of the player's square, in thousandths of an arena unit.
pub const PLAYER_SIZE: i64 = 30_000;

/// Size of an enemy's square.
pub const ENEMY_SIZE: i64 = 20_000;

/// Size of a bullet's square.
pub const BULLET_SIZE: i64 = 5_000;

/// Thickness of each wall.
pub const WALL_THICKNESS: i64 = 10_000;

pub const LEFT_WALL: i64 = -350_000;

pub const RIGHT_WALL: i64 = 350_000;

pub const TOP_WALL: i64 = 300_000;

pub const BOTTOM_WALL: i64 = -300_000;

pub open spec fn clamp_spec(v: int, lo: int, hi: int) -> int {
    if v < lo {
        lo
    } else if v > hi {
        hi
    } else {
        v
    }
}

/// `v` held to `[lo, hi]`.
pub fn clamp(v: i64, lo: i64, hi: i64) -> (r: i64)
    requires
        lo <= hi,
    ensures
        r == clamp_spec(v as int, lo as int, hi as int),
        lo <= r <= hi,
{
    if v < lo {
        lo
    } else if v > hi {
        hi
    } else {
        v
    }
}

/// The coordinates of the four walls of the arena and their thickness.
#[derive(Clone, Copy, Debug, PartialEq, Eq, Structural)]
pub struct Walls {
    pub left: i64,
    pub right: i64,
    pub top: i64,
    pub bottom: i64,
    pub thickness: i64,
}

impl Walls {
    pub open spec fn inv(self) -> bool {
        -WORLD_LIMIT <= self.left && self.left <= WORLD_LIMIT && -WORLD_LIMIT <= self.right
            && self.right <= WORLD_LIMIT && -WORLD_LIMIT <= self.top && self.top <= WORLD_LIMIT
            && -WORLD_LIMIT <= self.bottom && self.bottom <= WORLD_LIMIT && 0 <= self.thickness
            && self.thickness <= WORLD_LIMIT
    }

    /// The walls of the standard arena.
    pub fn standard() -> (r: Walls)
        ensures
            r == (Walls {
                left: LEFT_WALL,
                right: RIGHT_WALL,
                top: TOP_WALL,
                bottom: BOTTOM_WALL,
                thickness: WALL_THICKNESS,
            }),
            r.inv(),
    {
        Walls {
            left: LEFT_WALL,
            right: RIGHT_WALL,
            top: TOP_WALL,
            bottom: BOTTOM_WALL,
            thickness: WALL_THICKNESS,
        }
    }
}

/// The box within which the center of an entity of one size may move.
#[derive(Clone, Copy, Debug, PartialEq, Eq, Structural)]
pub struct Bounds {
    pub left: i64,
    pub right: i64,
    pub bottom: i64,
    pub top: i64,
}

impl Bounds {
    /// A usable box: positive width and height, inside the world.
    pub open spec fn inv(self) -> bool {
        -WORLD_LIMIT <= self.left && self.left < self.right && self.right <= WORLD_LIMIT
            && -WORLD_LIMIT <= self.bottom && self.bottom < self.top && self.top <= WORLD_LIMIT
    }
}

pub open spec fn bounds_spec(w: Walls, half: int) -> Bounds {
    Bounds {
        left: (w.left + w.thickness + half) as i64,
        right: (w.right - w.thickness - half) as i64,
        bottom: (w.bottom + w.thickness + half) as i64,
        top: (w.top - w.thickness - half) as i64,
    }
}

/// The bounds for the center of an entity of half-size `half` between the
/// walls `w`, or `None` where they leave no room on some axis.
pub fn arena_bounds(w: Walls, half: i64) -> (r: Option<Bounds>)
    requires
        w.inv(),
        0 <= half <= WORLD_LIMIT,
    ensures
        r == (if w.left + w.thickness + half < w.right - w.thickness - half && w.bottom
            + w.thickness + half < w.top - w.thickness - half {
            Some(bounds_spec(w, half as int))
        } else {
            None::<Bounds>
        }),
        r matches Some(b) ==> b.inv(),
{
    let b = Bounds {
        left: w.left + w.thickness + half,
        right: w.right - w.thickness - half,
        bottom: w.bottom + w.thickness + half,
        top: w.top - w.thickness - half,
    };
    if b.left < b.right && b.bottom < b.top {
        Some(b)
    } else {
        None
    }
}

/// The bounds of each kind of entity in one arena.
#[derive(Clone, Copy, Debug, PartialEq, Eq, Structural)]
pub struct Arena {
    pub player: Bounds,
    pub enemy: Bounds,
    pub bullet: Bounds,
}

impl Arena {
    pub open spec fn inv(self) -> bool {
        self.player.inv() && self.enemy.inv() && self.bullet.inv()
    }

    /// The bounds of the player, the enemies and the bullets between `w`, or
    /// `None` where one of them has no room.
    pub fn new(w: Walls) -> (r: Option<Arena>)
        requires
            w.inv(),
        ensures
            r matches Some(a) ==> a.inv() && a.player == bounds_spec(w, PLAYER_SIZE / 2)
                && a.enemy == bounds_spec(w, ENEMY_SIZE / 2) && a.bullet == bounds_spec(
                w,
                BULLET_SIZE / 2,
            ),
            r is None <==> (arena_bounds_fails(w, PLAYER_SIZE / 2) || arena_bounds_fails(
                w,
                ENEMY_SIZE / 2,
            ) || arena_bounds_fails(w, BULLET_SIZE / 2)),
    {
        let player = arena_bounds(w, PLAYER_SIZE / 2);
        let enemy = arena_bounds(w, ENEMY_SIZE / 2);
        let bullet = arena_bounds(w, BULLET_SIZE / 2);
        match (player, enemy, bullet) {
            (Some(p), Some(e), Some(b)) => Some(Arena { player: p, enemy: e, bullet: b }),
            _ => None,
        }
    }

    /// The arena between the standard walls.
    pub fn standard() -> (r: Arena)
        ensures
            r.inv(),
            r.player == (Bounds { left: -325_000i64, right: 325_000, bottom: -275_000i64, top: 275_000 }),
            r.enemy == (Bounds { left: -330_000i64, right: 330_000, bottom: -280_000i64, top: 280_000 }),
            r.bullet == (Bounds { left: -337_500i64, right: 337_500, bottom: -287_500i64, top: 287_500 }),
    {
        let a = Arena::new(Walls::standard());
        match a {
            Some(a) => a,
            None => {
                proof {
                    assert(false);
                }
                Arena {
                    player: Bounds { left: -325_000i64, right: 325_000, bottom: -275_000i64, top: 275_000 },
                    enemy: Bounds { left: -330_000i64, right: 330_000, bottom: -280_000i64, top: 280_000 },
                    bullet: Bounds { left: -337_500i64, right: 337_500, bottom: -287_500i64, top: 287_500 },
                }
            },
        }
    }
}

pub open spec fn arena_bounds_fails(w: Walls, half: int) -> bool {
    !(w.left + w.thickness + half < w.right - w.thickness - half && w.bottom + w.thickness + half
        < w.top - w.thickness - half)
}

/// One of the four walls.
#[derive(Clone, Copy, Debug, PartialEq, Eq, Structural)]
pub enum WallSide {
    Left,
    Right,
    Bottom,
    Top,
}

/// The center of a wall.
pub fn wall_center(w: Walls, side: WallSide) -> (r: Vec2)
    requires
        w.inv(),
    ensures
        r == (match side {
            WallSide::Left => Vec2 { x: w.left, y: div_trunc(w.top + w.bottom, 2) as i64 },
            WallSide::Right => Vec2 { x: w.right, y: div_trunc(w.top + w.bottom, 2) as i64 },
            WallSide::Bottom => Vec2 { x: div_trunc(w.left + w.right, 2) as i64, y: w.bottom },
            WallSide::Top => Vec2 { x: div_trunc(w.left + w.right, 2) as i64, y: w.top },
        }),
{
    let mid_y = (w.top + w.bottom) / 2;
    let mid_x = (w.left + w.right) / 2;
    match side {
        WallSide::Left => Vec2 { x: w.left, y: mid_y },
        WallSide::Right => Vec2 { x: w.right, y: mid_y },
        WallSide::Bottom => Vec2 { x: mid_x, y: w.bottom },
        WallSide::Top => Vec2 { x: mid_x, y: w.top },
    }
}

/// The full extent of a wall: the side walls span the arena's height and the
/// others its width, each one thickness longer.
pub fn wall_extent(w: Walls, side: WallSide) -> (r: Vec2)
    requires
        w.inv(),
        w.left < w.right,
        w.bottom < w.top,
    ensures
        r == (match side {
            WallSide::Left | WallSide::Right => Vec2 {
                x: w.thickness,
                y: (w.top - w.bottom + w.thickness) as i64,
            },
            WallSide::Bottom | WallSide::Top => Vec2 {
                x: (w.right - w.left + w.thickness) as i64,
                y: w.thickness,
            },
        }),
{
    let height = w.top - w.bottom;
    let width = w.right - w.left;
    match side {
        WallSide::Left | WallSide::Right => Vec2 { x: w.thickness, y: height + w.thickness },
        WallSide::Bottom | WallSide::Top => Vec2 { x: width + w.thickness, y: w.thickness },
    }
}

} // verus!
