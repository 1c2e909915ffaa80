use crate::entity::{Bullet, Enemy};
use crate::geometry::{abs, in_world, Vec2, BULLET_SIZE, ENEMY_SIZE, PLAYER_SIZE, WORLD_LIMIT};
use vstd::prelude::*;

verus! {

/// An axis-aligned box: its center and its full extent on each axis.
#[derive(Clone, Copy, Debug, PartialEq, Eq, Structural)]
pub struct Aabb {
    pub center: Vec2,
    pub size: Vec2,
}

impl Aabb {
    pub open spec fn inv(self) -> bool {
        in_world(self.center) && 0 <= self.size.x <= WORLD_LIMIT && 0 <= self.size.y
            <= WORLD_LIMIT
    }
}

/// Two boxes overlap when, on each axis, their centers are closer than the
/// sum of their half-extents.
pub open spec fn overlap_spec(a: Aabb, b: Aabb) -> bool {
    abs(a.center.x - b.center.x) * 2 < a.size.x + b.size.x && abs(a.center.y - b.center.y) * 2
        < a.size.y + b.size.y
}

/// Whether the boxes `a` and `b` overlap.
pub fn aabb_overlap(a: &Aabb, b: &Aabb) -> (r: bool)
    requires
        a.inv(),
        b.inv(),
    ensures
        r == overlap_spec(*a, *b),
{
    let dx = if a.center.x < b.center.x {
        b.center.x - a.center.x
    } else {
        a.center.x - b.center.x
    };
    let dy = if a.center.y < b.center.y {
        b.center.y - a.center.y
    } else {
        a.center.y - b.center.y
    };
    dx * 2 < a.size.x + b.size.x && dy * 2 < a.size.y + b.size.y
}

/// Overlap does not depend on the order of the two boxes.
pub proof fn lemma_overlap_symmetric(a: Aabb, b: Aabb)
    ensures
        overlap_spec(a, b) == overlap_spec(b, a),
{
}

pub open spec fn square(center: Vec2, size: i64) -> Aabb {
    Aabb { center, size: Vec2 { x: size, y: size } }
}

pub open spec fn bullet_box(b: Bullet) -> Aabb {
    square(b.pos, BULLET_SIZE)
}

pub open spec fn enemy_box(e: Enemy) -> Aabb {
    square(e.pos, ENEMY_SIZE)
}

pub open spec fn player_box(p: Vec2) -> Aabb {
    square(p, PLAYER_SIZE)
}

/// The index of the first of the first `n` bullets that overlaps `e`, or -1.
pub open spec fn first_hit(bs: Seq<Bullet>, e: Enemy, n: int) -> int
    decreases n,
{
    if n <= 0 {
        -1
    } else {
        let f = first_hit(bs, e, n - 1);
        if f >= 0 {
            f
        } else if overlap_spec(bullet_box(bs[n - 1]), enemy_box(e)) {
            n - 1
        } else {
            -1
        }
    }
}

pub open spec fn is_hit(bs: Seq<Bullet>, e: Enemy) -> bool {
    first_hit(bs, e, bs.len() as int) >= 0
}

/// The enemies among the first `n` of `es` that no bullet hits, in order.
pub open spec fn surviving_enemies(es: Seq<Enemy>, bs: Seq<Bullet>, n: int) -> Seq<Enemy>
    decreases n,
{
    if n <= 0 {
        Seq::empty()
    } else {
        let r = surviving_enemies(es, bs, n - 1);
        if is_hit(bs, es[n - 1]) {
            r
        } else {
            r.push(es[n - 1])
        }
    }
}

/// Bullet `j` is spent when it is the first bullet to hit some enemy.
pub open spec fn bullet_spent(bs: Seq<Bullet>, es: Seq<Enemy>, j: int) -> bool {
    exists|i: int| 0 <= i < es.len() && first_hit(bs, #[trigger] es[i], bs.len() as int) == j
}

/// The bullets among the first `n` of `bs` that are not spent, in order.
pub open spec fn surviving_bullets(bs: Seq<Bullet>, es: Seq<Enemy>, n: int) -> Seq<Bullet>
    decreases n,
{
    if n <= 0 {
        Seq::empty()
    } else {
        let r = surviving_bullets(bs, es, n - 1);
        if bullet_spent(bs, es, n - 1) {
            r
        } else {
            r.push(bs[n - 1])
        }
    }
}

proof fn lemma_first_hit_range(bs: Seq<Bullet>, e: Enemy, n: int)
    requires
        0 <= n <= bs.len(),
    ensures
        -1 <= first_hit(bs, e, n) < n,
        first_hit(bs, e, n) >= 0 ==> overlap_spec(
            bullet_box(bs[first_hit(bs, e, n)]),
            enemy_box(e),
        ),
    decreases n,
{
    if n > 0 {
        lemma_first_hit_range(bs, e, n - 1);
    }
}

proof fn lemma_surviving_enemies_len(es: Seq<Enemy>, bs: Seq<Bullet>, n: int)
    requires
        0 <= n <= es.len(),
    ensures
        surviving_enemies(es, bs, n).len() <= n,
        forall|k: int|
            0 <= k < surviving_enemies(es, bs, n).len() ==> exists|i: int|
                0 <= i < n && #[trigger] surviving_enemies(es, bs, n)[k] == es[i],
    decreases n,
{
    if n > 0 {
        lemma_surviving_enemies_len(es, bs, n - 1);
        let r = surviving_enemies(es, bs, n - 1);
        assert forall|k: int|
            0 <= k < surviving_enemies(es, bs, n).len() implies exists|i: int|
                0 <= i < n && #[trigger] surviving_enemies(es, bs, n)[k] == es[i] by {
            if k < r.len() {
                let i = choose|i: int| 0 <= i < n - 1 && r[k] == es[i];
                assert(surviving_enemies(es, bs, n)[k] == es[i]);
            } else {
                assert(surviving_enemies(es, bs, n)[k] == es[n - 1]);
            }
        }
    }
}

proof fn lemma_surviving_bullets_len(bs: Seq<Bullet>, es: Seq<Enemy>, n: int)
    requires
        0 <= n <= bs.len(),
    ensures
        surviving_bullets(bs, es, n).len() <= n,
        forall|k: int|
            0 <= k < surviving_bullets(bs, es, n).len() ==> exists|i: int|
                0 <= i < n && #[trigger] surviving_bullets(bs, es, n)[k] == bs[i],
    decreases n,
{
    if n > 0 {
        lemma_surviving_bullets_len(bs, es, n - 1);
        let r = surviving_bullets(bs, es, n - 1);
        assert forall|k: int|
            0 <= k < surviving_bullets(bs, es, n).len() implies exists|i: int|
                0 <= i < n && #[trigger] surviving_bullets(bs, es, n)[k] == bs[i] by {
            if k < r.len() {
                let i = choose|i: int| 0 <= i < n - 1 && r[k] == bs[i];
                assert(surviving_bullets(bs, es, n)[k] == bs[i]);
            } else {
                assert(surviving_bullets(bs, es, n)[k] == bs[n - 1]);
            }
        }
    }
}

/// The index of the first bullet that overlaps `e`, if any.
fn find_first_hit(bs: &Vec<Bullet>, e: &Enemy) -> (r: Option<usize>)
    requires
        forall|i: int| 0 <= i < bs@.len() ==> #[trigger] bs@[i].inv(),
        e.inv(),
    ensures
        first_hit(bs@, *e, bs@.len() as int) == (match r {
            Some(j) => j as int,
            None => -1,
        }),
{
    let eb = Aabb { center: e.pos, size: Vec2 { x: ENEMY_SIZE, y: ENEMY_SIZE } };
    let mut j: usize = 0;
    while j < bs.len()
        invariant
            j <= bs@.len(),
            first_hit(bs@, *e, j as int) == -1,
            eb == enemy_box(*e),
            eb.inv(),
            forall|i: int| 0 <= i < bs@.len() ==> #[trigger] bs@[i].inv(),
        decreases bs@.len() - j,
    {
        let bb = Aabb { center: bs[j].pos, size: Vec2 { x: BULLET_SIZE, y: BULLET_SIZE } };
        assert(bs@[j as int].inv());
        if aabb_overlap(&bb, &eb) {
            proof {
                lemma_first_hit_stays(bs@, *e, j as int + 1, bs@.len() as int);
            }
            return Some(j);
        }
        j = j + 1;
    }
    None
}

proof fn lemma_first_hit_stays(bs: Seq<Bullet>, e: Enemy, n: int, m: int)
    requires
        0 <= n <= m,
        first_hit(bs, e, n) >= 0,
    ensures
        first_hit(bs, e, m) == first_hit(bs, e, n),
    decreases m - n,
{
    if m > n {
        lemma_first_hit_stays(bs, e, n, m - 1);
    }
}

/// Resolves the hits of bullets on enemies. Each enemy that some bullet
/// overlaps is destroyed together with the first bullet that overlaps it; a
/// bullet may be the first to hit several enemies. Returns the number of
/// enemies destroyed.
pub fn resolve_bullet_hits(bullets: &mut Vec<Bullet>, enemies: &mut Vec<Enemy>) -> (hits: usize)
    requires
        forall|i: int| 0 <= i < old(bullets)@.len() ==> #[trigger] old(bullets)@[i].inv(),
        forall|i: int| 0 <= i < old(enemies)@.len() ==> #[trigger] old(enemies)@[i].inv(),
    ensures
        final(enemies)@ == surviving_enemies(
            old(enemies)@,
            old(bullets)@,
            old(enemies)@.len() as int,
        ),
        final(bullets)@ == surviving_bullets(
            old(bullets)@,
            old(enemies)@,
            old(bullets)@.len() as int,
        ),
        hits as int == old(enemies)@.len() - final(enemies)@.len(),
        forall|i: int| 0 <= i < final(bullets)@.len() ==> #[trigger] final(bullets)@[i].inv(),
        forall|i: int| 0 <= i < final(enemies)@.len() ==> #[trigger] final(enemies)@[i].inv(),
{
    let ghost bs = bullets@;
    let ghost es = enemies@;
    let mut spent: Vec<bool> = Vec::new();
    let mut k: usize = 0;
    while k < bullets.len()
        invariant
            k <= bs.len(),
            bullets@ == bs,
            spent@.len() == k,
            forall|j: int| 0 <= j < k ==> !#[trigger] spent@[j],
        decreases bs.len() - k,
    {
        spent.push(false);
        k = k + 1;
    }
    let mut kept_enemies: Vec<Enemy> = Vec::new();
    let mut i: usize = 0;
    while i < enemies.len()
        invariant
            i <= es.len(),
            bullets@ == bs,
            enemies@ == es,
            spent@.len() == bs.len(),
            forall|j: int|
                0 <= j < bs.len() ==> (#[trigger] spent@[j] <==> exists|i2: int|
                    0 <= i2 < i && first_hit(bs, #[trigger] es[i2], bs.len() as int) == j),
            kept_enemies@ == surviving_enemies(es, bs, i as int),
            forall|j: int| 0 <= j < bs.len() ==> #[trigger] bs[j].inv(),
            forall|j: int| 0 <= j < es.len() ==> #[trigger] es[j].inv(),
        decreases es.len() - i,
    {
        assert(es[i as int].inv());
        let hit = find_first_hit(bullets, &enemies[i]);
        proof {
            lemma_first_hit_range(bs, es[i as int], bs.len() as int);
        }
        match hit {
            Some(j) => {
                spent.set(j, true);
            },
            None => {
                kept_enemies.push(enemies[i]);
            },
        }
        assert forall|j: int| 0 <= j < bs.len() implies (#[trigger] spent@[j] <==> exists|i2: int|
            0 <= i2 < i + 1 && first_hit(bs, #[trigger] es[i2], bs.len() as int) == j) by {
            if first_hit(bs, es[i as int], bs.len() as int) == j {
                assert(0 <= i < i + 1);
            }
        }
        i = i + 1;
    }
    let mut kept_bullets: Vec<Bullet> = Vec::new();
    let mut k: usize = 0;
    while k < bullets.len()
        invariant
            k <= bs.len(),
            bullets@ == bs,
            enemies@ == es,
            spent@.len() == bs.len(),
            forall|j: int|
                0 <= j < bs.len() ==> (#[trigger] spent@[j] <==> bullet_spent(bs, es, j)),
            kept_bullets@ == surviving_bullets(bs, es, k as int),
        decreases bs.len() - k,
    {
        if !spent[k] {
            kept_bullets.push(bullets[k]);
        }
        k = k + 1;
    }
    proof {
        lemma_surviving_enemies_len(es, bs, es.len() as int);
        lemma_surviving_bullets_len(bs, es, bs.len() as int);
    }
    let hits = enemies.len() - kept_enemies.len();
    *enemies = kept_enemies;
    *bullets = kept_bullets;
    hits
}

pub open spec fn player_hit_spec(p: Vec2, es: Seq<Enemy>) -> bool {
    exists|i: int| 0 <= i < es.len() && overlap_spec(player_box(p), enemy_box(#[trigger] es[i]))
}

/// Whether the player at `p` overlaps any enemy.
pub fn player_hit(p: Vec2, enemies: &Vec<Enemy>) -> (r: bool)
    requires
        in_world(p),
        forall|i: int| 0 <= i < enemies@.len() ==> #[trigger] enemies@[i].inv(),
    ensures
        r == player_hit_spec(p, enemies@),
{
    let pb = Aabb { center: p, size: Vec2 { x: PLAYER_SIZE, y: PLAYER_SIZE } };
    let mut i: usize = 0;
    while i < enemies.len()
        invariant
            i <= enemies@.len(),
            pb == player_box(p),
            pb.inv(),
            forall|k: int| 0 <= k < enemies@.len() ==> #[trigger] enemies@[k].inv(),
            forall|k: int|
                0 <= k < i ==> !overlap_spec(player_box(p), enemy_box(#[trigger] enemies@[k])),
        decreases enemies@.len() - i,
    {
        let eb = Aabb { center: enemies[i].pos, size: Vec2 { x: ENEMY_SIZE, y: ENEMY_SIZE } };
        assert(enemies@[i as int].inv());
        if aabb_overlap(&pb, &eb) {
            assert(overlap_spec(player_box(p), enemy_box(enemies@[i as int])));
            return true;
        }
        i = i + 1;
    }
    false
}

} // verus!
