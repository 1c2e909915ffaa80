use shoot_em_up::collision::{aabb_overlap, resolve_bullet_hits, Aabb};
use shoot_em_up::enemy::{
    enemy_rate, enemy_step, homing_direction, may_spawn, spawn_edge, spawn_enemy,
    spawn_timer_step, speed_percent, SpawnEdge, MAX_ENEMIES, SPAWN_INTERVAL,
};
use shoot_em_up::entity::{Bullet, Enemy};
use shoot_em_up::game::{
    DestroyedEnemyCount, FrameInput, GameEvent, GameState, Simulation, SpawnDraws,
};
use shoot_em_up::geometry::{
    arena_bounds, normalize, wall_center, wall_extent, Arena, Bounds, Vec2, WallSide, Walls,
    DIR_SCALE,
};
use shoot_em_up::motion::{displacement, move_bullets, move_player, shoot, PLAYER_RATE};
use shoot_em_up::rng::SpawnRng;

fn v(x: i64, y: i64) -> Vec2 {
    Vec2 { x, y }
}

fn idle(dt: u32) -> FrameInput {
    FrameInput { dt, movement: v(0, 0), fire: v(0, 0), restart: false }
}

fn in_game(player: Vec2, bullets: Vec<Bullet>, enemies: Vec<Enemy>) -> Simulation {
    let mut s = Simulation::new(Arena::standard());
    s.state = GameState::InGame;
    s.player = Some(player);
    s.bullets = bullets;
    s.enemies = enemies;
    s
}

fn enemy_at(x: i64, y: i64) -> Enemy {
    Enemy { pos: v(x, y), dir: v(0, 0) }
}

fn magnitude(r: Vec2) -> f64 {
    let x = r.x as f64 / DIR_SCALE as f64;
    let y = r.y as f64 / DIR_SCALE as f64;
    (x * x + y * y).sqrt()
}

#[test]
fn normalize_three_four_is_exact() {
    assert_eq!(normalize(v(3, 4)), v(6_000_000, 8_000_000));
    assert_eq!(normalize(v(-3, -4)), v(-6_000_000, -8_000_000));
}

#[test]
fn normalize_diagonal_rounds_away_from_zero() {
    assert_eq!(normalize(v(1, 1)), v(7_071_068, 7_071_068));
    assert_eq!(normalize(v(-1, 1)), v(-7_071_068, 7_071_068));
}

#[test]
fn normalize_has_unit_length() {
    let cases = [v(1, 0), v(0, -1), v(1, 1), v(7, -3), v(-123_456, 654_321), v(137_438_953_472, 1)];
    for c in cases {
        let r = normalize(c);
        assert!((magnitude(r) - 1.0).abs() < 1e-6, "{:?} -> {:?}", c, r);
    }
}

#[test]
fn normalize_zero_stays_zero() {
    assert_eq!(normalize(v(0, 0)), v(0, 0));
}

#[test]
fn standard_arena_bounds() {
    let a = Arena::standard();
    assert_eq!(a.player, Bounds { left: -325_000, right: 325_000, bottom: -275_000, top: 275_000 });
    assert_eq!(a.enemy, Bounds { left: -330_000, right: 330_000, bottom: -280_000, top: 280_000 });
    assert_eq!(a.bullet, Bounds { left: -337_500, right: 337_500, bottom: -287_500, top: 287_500 });
}

#[test]
fn degenerate_arena_is_refused() {
    let w = Walls { left: -20_000, right: 20_000, top: 300_000, bottom: -300_000, thickness: 10_000 };
    assert_eq!(arena_bounds(w, 15_000), None);
    assert!(arena_bounds(w, 2_500).is_some());
    assert!(Arena::new(w).is_none());
}

#[test]
fn wall_layout() {
    let w = Walls::standard();
    assert_eq!(wall_center(w, WallSide::Left), v(-350_000, 0));
    assert_eq!(wall_center(w, WallSide::Top), v(0, 300_000));
    assert_eq!(wall_extent(w, WallSide::Right), v(10_000, 610_000));
    assert_eq!(wall_extent(w, WallSide::Bottom), v(710_000, 10_000));
}

#[test]
fn displacement_at_full_speed_for_one_second() {
    assert_eq!(displacement(DIR_SCALE, PLAYER_RATE, 1_000_000), 600_000);
    assert_eq!(displacement(-DIR_SCALE, PLAYER_RATE, 500_000), -300_000);
    assert_eq!(displacement(DIR_SCALE, PLAYER_RATE, 0), 0);
}

#[test]
fn player_moves_and_is_clamped() {
    let b = Arena::standard().player;
    assert_eq!(move_player(v(0, 0), v(DIR_SCALE, 0), 100_000, b), v(60_000, 0));
    assert_eq!(move_player(v(300_000, 0), v(DIR_SCALE, DIR_SCALE), 1_000_000, b), v(325_000, 275_000));
    assert_eq!(move_player(v(0, 0), v(-DIR_SCALE, -DIR_SCALE), 1_000_000, b), v(-325_000, -275_000));
}

#[test]
fn shooting_places_the_bullet_at_the_player_edge() {
    assert_eq!(shoot(v(0, 0), v(0, 0)), None);
    let b = shoot(v(0, 0), v(0, DIR_SCALE)).unwrap();
    assert_eq!(b.pos, v(0, 15_000));
    assert_eq!(b.dir, v(0, DIR_SCALE));
    let d = shoot(v(0, 0), v(DIR_SCALE, DIR_SCALE)).unwrap();
    assert_eq!(d.dir, v(7_071_068, 7_071_068));
    assert_eq!(d.pos, v(10_606, 10_606));
}

#[test]
fn bullet_inside_the_bound_survives_a_zero_tick() {
    let b = Arena::standard().bullet;
    let mut bullets = vec![Bullet { pos: v(b.right - 1, 0), dir: v(DIR_SCALE, 0) }];
    move_bullets(&mut bullets, 0, b);
    assert_eq!(bullets, vec![Bullet { pos: v(b.right - 1, 0), dir: v(DIR_SCALE, 0) }]);
}

#[test]
fn bullet_past_the_bound_is_culled_next_tick() {
    let b = Arena::standard().bullet;
    let mut bullets = vec![Bullet { pos: v(b.right - 1, 0), dir: v(DIR_SCALE, 0) }];
    move_bullets(&mut bullets, 10_000, b);
    assert_eq!(bullets.len(), 1);
    assert_eq!(bullets[0].pos, v(b.right + 5_999, 0));
    move_bullets(&mut bullets, 10_000, b);
    assert!(bullets.is_empty());
}

#[test]
fn zero_dt_moves_nothing() {
    let a = Arena::standard();
    assert_eq!(move_player(v(12_345, -6_789), v(DIR_SCALE, -DIR_SCALE), 0, a.player), v(12_345, -6_789));
    let mut bullets = vec![
        Bullet { pos: v(1_000, 2_000), dir: v(0, DIR_SCALE) },
        Bullet { pos: v(-5_000, 100_000), dir: v(-DIR_SCALE, 0) },
    ];
    let before = bullets.clone();
    move_bullets(&mut bullets, 0, a.bullet);
    assert_eq!(bullets, before);
}

#[test]
fn player_enemy_boxes_overlap() {
    let player = Aabb { center: v(0, 0), size: v(30_000, 30_000) };
    let enemy = Aabb { center: v(5_000, 5_000), size: v(20_000, 20_000) };
    assert!(aabb_overlap(&player, &enemy));
    assert!(aabb_overlap(&enemy, &player));
}

#[test]
fn touching_boxes_do_not_overlap() {
    let a = Aabb { center: v(0, 0), size: v(30_000, 30_000) };
    let b = Aabb { center: v(25_000, 0), size: v(20_000, 20_000) };
    assert!(!aabb_overlap(&a, &b));
    assert!(!aabb_overlap(&b, &a));
    let c = Aabb { center: v(24_999, 0), size: v(20_000, 20_000) };
    assert!(aabb_overlap(&a, &c));
    assert!(aabb_overlap(&c, &a));
}

#[test]
fn player_touching_enemy_ends_the_game() {
    let mut s = in_game(v(0, 0), vec![], vec![enemy_at(5_000, 5_000)]);
    let mut rng = SpawnRng::seeded(7);
    let events = s.tick(&idle(16_000), &mut rng);
    assert_eq!(events, vec![GameEvent::GameOver]);
    assert_eq!(s.state, GameState::GameOver);
    assert_eq!(s.player, None);
}

#[test]
fn three_hits_count_three_and_speed_up() {
    let enemies = vec![enemy_at(100_000, 100_000), enemy_at(-100_000, 100_000), enemy_at(200_000, 0)];
    let bullets = vec![
        Bullet { pos: v(100_000, 100_000), dir: v(0, DIR_SCALE) },
        Bullet { pos: v(-100_000, 100_000), dir: v(0, DIR_SCALE) },
        Bullet { pos: v(200_000, 0), dir: v(0, DIR_SCALE) },
    ];
    let mut s = in_game(v(0, -247_500), bullets, enemies);
    assert_eq!(s.destroyed.0, 0);
    let events = s.tick_with_draws(&idle(0), SpawnDraws { edge: 0, offset: 0 });
    assert_eq!(s.destroyed.0, 3);
    assert_eq!(speed_percent(s.destroyed.0), 124);
    assert!(s.enemies.is_empty());
    assert!(s.bullets.is_empty());
    assert_eq!(
        events,
        vec![
            GameEvent::BulletEnemyCollision,
            GameEvent::BulletEnemyCollision,
            GameEvent::BulletEnemyCollision,
            GameEvent::ScoreChanged(3),
        ]
    );
}

#[test]
fn recorded_count_and_multiplier() {
    let mut c = DestroyedEnemyCount::new();
    assert_eq!(c.0, 0);
    c.record(1);
    c.record(1);
    c.record(1);
    assert_eq!(c.0, 3);
    assert_eq!(speed_percent(c.0), 124);
    assert_eq!(enemy_rate(3), 70_000 * 124);
    c.record(u64::MAX);
    assert_eq!(c.0, u32::MAX);
}

#[test]
fn one_bullet_credited_per_enemy() {
    let mut enemies = vec![enemy_at(0, 0)];
    let mut bullets = vec![
        Bullet { pos: v(1_000, 0), dir: v(0, DIR_SCALE) },
        Bullet { pos: v(-1_000, 0), dir: v(0, DIR_SCALE) },
        Bullet { pos: v(100_000, 0), dir: v(0, DIR_SCALE) },
    ];
    let hits = resolve_bullet_hits(&mut bullets, &mut enemies);
    assert_eq!(hits, 1);
    assert!(enemies.is_empty());
    assert_eq!(bullets.len(), 2);
    assert_eq!(bullets[0].pos, v(-1_000, 0));
    assert_eq!(bullets[1].pos, v(100_000, 0));
}

#[test]
fn spawn_edges_from_draws() {
    assert_eq!(spawn_edge(700_000), SpawnEdge::Top);
    assert_eq!(spawn_edge(500_000), SpawnEdge::Left);
    assert_eq!(spawn_edge(100_000), SpawnEdge::Right);
    assert_eq!(spawn_edge(660_000), SpawnEdge::Left);
    assert_eq!(spawn_edge(330_000), SpawnEdge::Right);
}

#[test]
fn spawned_enemy_positions() {
    let b = Arena::standard().enemy;
    assert_eq!(spawn_enemy(700_000, 1_000, b).pos, v(-329_000, 280_000));
    assert_eq!(spawn_enemy(500_000, 1_000, b).pos, v(-330_000, 1_000));
    assert_eq!(spawn_enemy(100_000, 1_000, b).pos, v(330_000, 1_000));
    assert_eq!(spawn_enemy(100_000, 281_000, b).pos, v(330_000, 1_000));
    assert_eq!(spawn_enemy(100_000, 1_000, b).dir, v(0, 0));
}

#[test]
fn game_over_restarts_after_the_delay() {
    let mut s = Simulation::new(Arena::standard());
    s.state = GameState::GameOver;
    s.enemies = vec![enemy_at(100_000, 0), enemy_at(-100_000, 0)];
    s.destroyed = DestroyedEnemyCount(5);
    let mut rng = SpawnRng::seeded(1);
    for _ in 0..30 {
        s.tick(&idle(100_000), &mut rng);
    }
    s.tick(&idle(100_000), &mut rng);
    assert_eq!(s.state, GameState::GameStart);
    assert!(s.enemies.is_empty());
    assert_eq!(s.destroyed.0, 0);
    assert_eq!(s.restart_timer, 0);
}

#[test]
fn restart_request_restarts_at_once() {
    let mut s = Simulation::new(Arena::standard());
    s.state = GameState::GameOver;
    s.enemies = vec![enemy_at(100_000, 0)];
    s.destroyed = DestroyedEnemyCount(2);
    let input = FrameInput { dt: 1, movement: v(0, 0), fire: v(0, 0), restart: true };
    s.tick_with_draws(&input, SpawnDraws { edge: 0, offset: 0 });
    assert_eq!(s.state, GameState::GameStart);
    assert!(s.enemies.is_empty());
    assert_eq!(s.destroyed.0, 0);
}

#[test]
fn start_spawns_the_player_and_runs() {
    let mut s = Simulation::new(Arena::standard());
    let mut rng = SpawnRng::seeded(3);
    let events = s.tick(&idle(16_000), &mut rng);
    assert!(events.is_empty());
    assert_eq!(s.state, GameState::InGame);
    assert_eq!(s.player, Some(v(0, -247_500)));
}

#[test]
fn spawning_refused_at_the_cap() {
    let enemies: Vec<Enemy> = (0..MAX_ENEMIES as i64).map(|i| enemy_at(-300_000 + i * 60_000, 250_000)).collect();
    let mut s = in_game(v(0, -247_500), vec![], enemies);
    s.spawn_timer = SPAWN_INTERVAL;
    s.tick_with_draws(&idle(1), SpawnDraws { edge: 700_000, offset: 0 });
    assert_eq!(s.spawn_timer, 0);
    assert_eq!(s.enemies.len(), MAX_ENEMIES);
    assert!(!may_spawn(MAX_ENEMIES, true));
    assert!(may_spawn(MAX_ENEMIES - 1, true));
    assert!(!may_spawn(0, false));
}

#[test]
fn spawning_below_the_cap() {
    let mut s = in_game(v(0, -247_500), vec![], vec![]);
    s.spawn_timer = SPAWN_INTERVAL;
    s.tick_with_draws(&idle(1), SpawnDraws { edge: 500_000, offset: 42 });
    assert_eq!(s.enemies, vec![enemy_at(-330_000, 42)]);
}

#[test]
fn spawn_timer_fires_after_the_interval() {
    assert_eq!(spawn_timer_step(0, 400_000), (400_000, false));
    assert_eq!(spawn_timer_step(400_000, 1), (0, true));
}

#[test]
fn seeded_rng_spawns_on_an_edge() {
    let b = Arena::standard().enemy;
    let mut rng = SpawnRng::seeded(42);
    for _ in 0..50 {
        let r = rng.draw(10);
        assert!(r < 10);
    }
    let mut s = in_game(v(0, -247_500), vec![], vec![]);
    s.spawn_timer = SPAWN_INTERVAL;
    s.tick(&idle(1), &mut rng);
    assert_eq!(s.enemies.len(), 1);
    let p = s.enemies[0].pos;
    let on_top = p.y == b.top && b.left <= p.x && p.x < b.right;
    let on_side = (p.x == b.left || p.x == b.right) && 0 <= p.y && p.y < b.top;
    assert!(on_top || on_side);
}

#[test]
fn enemy_heads_for_the_player() {
    let b = Arena::standard().enemy;
    assert_eq!(homing_direction(v(0, 0), v(300, 400)), v(6_000_000, 8_000_000));
    let e = enemy_step(enemy_at(100_000, 100_000), v(0, 0), 1_000_000, 0, b);
    assert_eq!(e.dir, v(-7_071_068, -7_071_068));
    assert_eq!(e.pos, v(100_000 - 49_498, 100_000 - 49_498));
    let d0 = 100_000i128 * 100_000 * 2;
    let d1 = (e.pos.x as i128).pow(2) + (e.pos.y as i128).pow(2);
    assert!(d1 < d0);
}

#[test]
fn enemy_past_a_bound_turns_back() {
    let b = Bounds { left: -100, right: 100, bottom: -100, top: 100 };
    let e = enemy_step(enemy_at(200, 0), v(1_000, 0), 1_000_000, 0, b);
    assert_eq!(e.dir, v(-DIR_SCALE, 0));
    assert_eq!(e.pos, v(200 - 70_000, 0));
}

#[test]
fn faster_after_kills() {
    let b = Arena::standard().enemy;
    let e = enemy_step(enemy_at(0, 0), v(100_000, 0), 1_000_000, 3, b);
    assert_eq!(e.pos, v(86_800, 0));
}

#[test]
fn zero_dt_tick_keeps_every_position() {
    let bullets = vec![Bullet { pos: v(50_000, 50_000), dir: v(0, DIR_SCALE) }];
    let enemies = vec![enemy_at(-200_000, 200_000), enemy_at(250_000, 100_000)];
    let mut s = in_game(v(10_000, -200_000), bullets.clone(), enemies.clone());
    let events = s.tick_with_draws(&idle(0), SpawnDraws { edge: 0, offset: 0 });
    assert!(events.is_empty());
    assert_eq!(s.player, Some(v(10_000, -200_000)));
    assert_eq!(s.bullets, bullets);
    assert_eq!(s.enemies.len(), 2);
    assert_eq!(s.enemies[0].pos, enemies[0].pos);
    assert_eq!(s.enemies[1].pos, enemies[1].pos);
}

#[test]
fn score_reports_the_count() {
    let mut s = Simulation::new(Arena::standard());
    assert_eq!(s.score(), 0);
    s.destroyed = DestroyedEnemyCount(9);
    assert_eq!(s.score(), 9);
}

#[test]
fn small_offset_still_gives_a_direction() {
    let r = normalize(v(1, 100_000_000));
    assert_eq!(r.x, 1);
    assert_eq!(r.y, DIR_SCALE);
}

#[test]
fn displacement_of_a_short_tick_is_not_lost() {
    assert_eq!(displacement(1, 7_000_000, 1), 1);
    assert_eq!(displacement(-1, 7_000_000, 1), -1);
    assert_eq!(displacement(DIR_SCALE, PLAYER_RATE, 1), 1);
}

#[test]
fn enemy_closes_in_a_one_microsecond_tick() {
    let b = Arena::standard().enemy;
    let e = enemy_step(enemy_at(0, 0), v(100, 0), 1, 0, b);
    assert_eq!(e.dir, v(DIR_SCALE, 0));
    assert_eq!(e.pos, v(1, 0));
}

#[test]
fn enemy_past_the_right_bound_moves_inward() {
    let b = Arena::standard().enemy;
    let e = enemy_step(enemy_at(331_000, 0), v(400_000, 0), 1, 0, b);
    assert_eq!(e.dir, v(-DIR_SCALE, 0));
    assert_eq!(e.pos, v(330_999, 0));
}

#[test]
fn hit_tick_still_runs_to_its_end() {
    let bullets = vec![Bullet { pos: v(100_000, 0), dir: v(0, DIR_SCALE) }];
    let mut s = in_game(v(0, 0), bullets, vec![enemy_at(5_000, 5_000)]);
    s.spawn_timer = SPAWN_INTERVAL;
    let fire = FrameInput { dt: 10_000, movement: v(DIR_SCALE, 0), fire: v(0, DIR_SCALE), restart: false };
    let events = s.tick_with_draws(&fire, SpawnDraws { edge: 500_000, offset: 7 });
    assert_eq!(events, vec![GameEvent::GameOver]);
    assert_eq!(s.state, GameState::GameOver);
    assert_eq!(s.player, None);
    assert_eq!(s.bullets.len(), 2);
    assert_eq!(s.bullets[0].pos, v(100_000, 6_000));
    assert_eq!(s.bullets[1].pos, v(0, 21_000));
    assert_eq!(s.enemies.len(), 2);
    assert_ne!(s.enemies[0].pos, v(5_000, 5_000));
    assert_eq!(s.enemies[1].pos, v(-330_000, 7));
    assert_eq!(s.spawn_timer, 0);
}
