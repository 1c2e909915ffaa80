use crate::collision::{
    player_hit, player_hit_spec, resolve_bullet_hits, surviving_bullets, surviving_enemies,
};
use crate::enemy::{
    enemy_step_spec, may_spawn, move_enemies, spawn_edge, spawn_edge_spec, spawn_enemy,
    spawn_range, spawn_range_spec, spawn_timer_step, spawned_enemy, MAX_ENEMIES,
    SPAWN_DRAW_RANGE, SPAWN_INTERVAL,
};
use crate::entity::{bullets_inv, dir_bounded, enemies_inv, Bullet, Enemy};
use crate::geometry::{clamp, clamp_spec, div_trunc, Arena, Vec2};
use crate::motion::{
    in_bounds, move_bullets, move_player, move_player_spec, shoot, shoot_spec, step_bullets,
};
use crate::rng::SpawnRng;
use vstd::prelude::*;

verus! {

/// Time the game-over screen waits before a restart, in microseconds.
pub const RESTART_DELAY: u64 = 3_000_000;

/// The phase the game is in.
#[derive(Clone, Copy, Debug, PartialEq, Eq, Structural)]
pub enum GameState {
    GameStart,
    InGame,
    Paused,
    GameOver,
}

/// What a tick reports to the sound and display around it.
#[derive(Clone, Copy, Debug, PartialEq, Eq, Structural)]
pub enum GameEvent {
    BulletEnemyCollision,
    GameOver,
    ScoreChanged(u32),
}

/// The number of enemies destroyed in the current game.
#[derive(Clone, Copy, Debug, PartialEq, Eq, Structural)]
pub struct DestroyedEnemyCount(pub u32);

impl DestroyedEnemyCount {
    /// The count at the start of a game.
    pub fn new() -> (r: DestroyedEnemyCount)
        ensures
            r.0 == 0,
    {
        DestroyedEnemyCount(0)
    }

    /// The count after `n` more enemies were destroyed; it stops at `u32::MAX`.
    pub fn record(&mut self, n: u64)
        ensures
            final(self).0 == saturating_count(old(self).0 as int, n as int),
    {
        let sum: u64 = self.0 as u64 + if n > u32::MAX as u64 {
            u32::MAX as u64
        } else {
            n
        };
        self.0 = if sum > u32::MAX as u64 {
            u32::MAX
        } else {
            sum as u32
        };
    }
}

pub open spec fn saturating_count(count: int, n: int) -> u32 {
    if count + n > u32::MAX {
        u32::MAX
    } else {
        (count + n) as u32
    }
}

/// What the player asks for in one tick.
#[derive(Clone, Copy, Debug, PartialEq, Eq, Structural)]
pub struct FrameInput {
    /// Time since the last tick, in microseconds.
    pub dt: u32,
    /// Movement intent, each component scaled by `DIR_SCALE`.
    pub movement: Vec2,
    /// Fire intent; zero fires nothing.
    pub fire: Vec2,
    /// Whether a restart was asked for.
    pub restart: bool,
}

/// The two random draws of a spawn: the edge, out of `SPAWN_DRAW_RANGE`, and
/// the place along it.
#[derive(Clone, Copy, Debug, PartialEq, Eq, Structural)]
pub struct SpawnDraws {
    pub edge: u64,
    pub offset: u64,
}

/// The whole state of a game.
pub struct Simulation {
    pub state: GameState,
    pub player: Option<Vec2>,
    pub bullets: Vec<Bullet>,
    pub enemies: Vec<Enemy>,
    pub destroyed: DestroyedEnemyCount,
    /// Time since the last spawn attempt, in microseconds.
    pub spawn_timer: u64,
    /// Time spent in the game-over state, in microseconds.
    pub restart_timer: u64,
    pub arena: Arena,
}

/// The mathematical model of a `Simulation`.
pub struct SimView {
    pub state: GameState,
    pub player: Option<Vec2>,
    pub bullets: Seq<Bullet>,
    pub enemies: Seq<Enemy>,
    pub destroyed: u32,
    pub spawn_timer: u64,
    pub restart_timer: u64,
    pub arena: Arena,
}

impl View for Simulation {
    type V = SimView;

    open spec fn view(&self) -> SimView {
        SimView {
            state: self.state,
            player: self.player,
            bullets: self.bullets@,
            enemies: self.enemies@,
            destroyed: self.destroyed.0,
            spawn_timer: self.spawn_timer,
            restart_timer: self.restart_timer,
            arena: self.arena,
        }
    }
}

impl SimView {
    /// A consistent game: usable bounds, entities inside the world, the
    /// player inside its bounds and present while the game runs, and timers
    /// below their thresholds.
    pub open spec fn inv(self) -> bool {
        &&& self.arena.inv()
        &&& bullets_inv(self.bullets)
        &&& enemies_inv(self.enemies)
        &&& (self.player matches Some(p) ==> in_bounds(p, self.arena.player))
        &&& (self.state == GameState::InGame ==> self.player is Some)
        &&& self.spawn_timer <= SPAWN_INTERVAL
        &&& self.restart_timer <= RESTART_DELAY
    }
}

/// Where the player appears: centered, nine tenths of the way down to its
/// bottom bound, held inside its bounds.
pub open spec fn start_position(a: Arena) -> Vec2 {
    Vec2 {
        x: clamp_spec(0, a.player.left as int, a.player.right as int) as i64,
        y: clamp_spec(
            div_trunc(a.player.bottom * 9, 10),
            a.player.bottom as int,
            a.player.top as int,
        ) as i64,
    }
}

/// One step of the restart timer: it fires once the time in the game-over
/// state exceeds `RESTART_DELAY`, or at once on a restart request.
pub open spec fn restart_fires(timer: int, dt: int, restart: bool) -> bool {
    timer + dt > RESTART_DELAY || restart
}

pub open spec fn hit_events(hits: nat, count: u32) -> Seq<GameEvent> {
    if hits == 0 {
        Seq::empty()
    } else {
        Seq::new(hits, |i: int| GameEvent::BulletEnemyCollision).push(
            GameEvent::ScoreChanged(count),
        )
    }
}

/// The work of one tick while the game runs, in order: the player fires,
/// bullets are culled and move, the player moves, bullets destroy enemies,
/// the enemies move, and one enemy may spawn.
pub open spec fn in_game_work(s: SimView, input: FrameInput, draws: SpawnDraws) -> (
    SimView,
    Seq<GameEvent>,
) {
    let p = s.player.unwrap();
    let a = s.arena;
    let bs1 = match shoot_spec(p, input.fire) {
        Some(b) => s.bullets.push(b),
        None => s.bullets,
    };
    let bs2 = step_bullets(bs1, input.dt as int, a.bullet, bs1.len() as int);
    let p2 = move_player_spec(p, input.movement, input.dt as int, a.player);
    let es1 = surviving_enemies(s.enemies, bs2, s.enemies.len() as int);
    let bs3 = surviving_bullets(bs2, s.enemies, bs2.len() as int);
    let hits = (s.enemies.len() - es1.len()) as nat;
    let count = saturating_count(s.destroyed as int, hits as int);
    let fired = s.spawn_timer + input.dt > SPAWN_INTERVAL;
    let timer = if fired {
        0
    } else {
        (s.spawn_timer + input.dt) as u64
    };
    let es2 = es1.map_values(
        |e: Enemy| enemy_step_spec(e, p2, input.dt as int, count as int, a.enemy),
    );
    let es3 = if fired && es2.len() < MAX_ENEMIES {
        es2.push(spawned_enemy(draws.edge as int, draws.offset as int, a.enemy))
    } else {
        es2
    };
    (
        SimView {
            player: Some(p2),
            bullets: bs3,
            enemies: es3,
            destroyed: count,
            spawn_timer: timer,
            ..s
        },
        hit_events(hits, count),
    )
}

/// One tick while the game runs. The whole tick's work is done from the
/// player's position at its start. A player who touched an enemy at that
/// moment is then removed and the game is over from the next tick; the
/// `GameOver` event comes first.
pub open spec fn in_game_spec(s: SimView, input: FrameInput, draws: SpawnDraws) -> (
    SimView,
    Seq<GameEvent>,
) {
    let (next, events) = in_game_work(s, input, draws);
    if player_hit_spec(s.player.unwrap(), s.enemies) {
        (
            SimView { state: GameState::GameOver, player: None, ..next },
            seq![GameEvent::GameOver] + events,
        )
    } else {
        (next, events)
    }
}

/// One tick of the game, given the draws that a spawn would use.
pub open spec fn tick_spec(s: SimView, input: FrameInput, draws: SpawnDraws) -> (
    SimView,
    Seq<GameEvent>,
) {
    match s.state {
        GameState::GameStart => (
            SimView { state: GameState::InGame, player: Some(start_position(s.arena)), ..s },
            Seq::empty(),
        ),
        GameState::InGame => in_game_spec(s, input, draws),
        GameState::Paused => (s, Seq::empty()),
        GameState::GameOver => if restart_fires(s.restart_timer as int, input.dt as int, input.restart) {
            (
                SimView {
                    state: GameState::GameStart,
                    enemies: Seq::empty(),
                    destroyed: 0,
                    restart_timer: 0,
                    ..s
                },
                Seq::empty(),
            )
        } else {
            (SimView { restart_timer: (s.restart_timer + input.dt) as u64, ..s }, Seq::empty())
        },
    }
}

impl Simulation {
    pub open spec fn inv(&self) -> bool {
        self@.inv()
    }

    /// A new game in `arena`, at its start.
    pub fn new(arena: Arena) -> (r: Simulation)
        requires
            arena.inv(),
        ensures
            r.inv(),
            r@ == (SimView {
                state: GameState::GameStart,
                player: None,
                bullets: Seq::empty(),
                enemies: Seq::empty(),
                destroyed: 0,
                spawn_timer: 0,
                restart_timer: 0,
                arena,
            }),
    {
        Simulation {
            state: GameState::GameStart,
            player: None,
            bullets: Vec::new(),
            enemies: Vec::new(),
            destroyed: DestroyedEnemyCount::new(),
            spawn_timer: 0,
            restart_timer: 0,
            arena,
        }
    }

    fn spawn_player(&mut self)
        requires
            old(self).inv(),
            old(self).state == GameState::GameStart,
        ensures
            final(self).inv(),
            final(self)@ == (SimView {
                state: GameState::InGame,
                player: Some(start_position(old(self).arena)),
                ..old(self)@
            }),
    {
        let b = self.arena.player;
        let x = clamp(0, b.left, b.right);
        let y = clamp(b.bottom * 9 / 10, b.bottom, b.top);
        self.player = Some(Vec2 { x, y });
        self.state = GameState::InGame;
    }

    fn restart_step(&mut self, dt: u32, restart: bool)
        requires
            old(self).inv(),
            old(self).state == GameState::GameOver,
        ensures
            final(self).inv(),
            restart_fires(old(self).restart_timer as int, dt as int, restart) ==> final(self)@
                == (SimView {
                state: GameState::GameStart,
                enemies: Seq::empty(),
                destroyed: 0,
                restart_timer: 0,
                ..old(self)@
            }),
            !restart_fires(old(self).restart_timer as int, dt as int, restart) ==> final(self)@
                == (SimView { restart_timer: (old(self).restart_timer + dt) as u64, ..old(self)@ }),
    {
        let t = self.restart_timer + dt as u64;
        if t > RESTART_DELAY || restart {
            self.enemies = Vec::new();
            self.state = GameState::GameStart;
            self.destroyed = DestroyedEnemyCount::new();
            self.restart_timer = 0;
        } else {
            self.restart_timer = t;
        }
    }

    fn in_game_step(&mut self, input: &FrameInput, draws: SpawnDraws) -> (events: Vec<GameEvent>)
        requires
            old(self).inv(),
            old(self).state == GameState::InGame,
            dir_bounded(input.movement),
            dir_bounded(input.fire),
        ensures
            final(self).inv(),
            (final(self)@, events@) == in_game_spec(old(self)@, *input, draws),
    {
        let ghost s = self@;
        let p = match self.player {
            Some(p) => p,
            None => {
                proof {
                    assert(false);
                }
                return Vec::new();
            },
        };
        assert(enemies_inv(self.enemies@));
        let hit = player_hit(p, &self.enemies);
        let mut events: Vec<GameEvent> = Vec::new();
        if hit {
            events.push(GameEvent::GameOver);
        }
        let ghost first = events@;
        let a = self.arena;
        match shoot(p, input.fire) {
            Some(b) => self.bullets.push(b),
            None => {},
        }
        let ghost bs1 = self.bullets@;
        assert(bs1 == match shoot_spec(p, input.fire) {
            Some(b) => s.bullets.push(b),
            None => s.bullets,
        });
        assert(bullets_inv(bs1));
        move_bullets(&mut self.bullets, input.dt, a.bullet);
        let p2 = move_player(p, input.movement, input.dt, a.player);
        let hits = resolve_bullet_hits(&mut self.bullets, &mut self.enemies);
        let ghost es1 = self.enemies@;
        self.destroyed.record(hits as u64);
        let count = self.destroyed.0;
        let mut k: usize = 0;
        while k < hits
            invariant
                k <= hits,
                events@ == first + Seq::new(k as nat, |i: int| GameEvent::BulletEnemyCollision),
            decreases hits - k,
        {
            events.push(GameEvent::BulletEnemyCollision);
            assert(events@ =~= first + Seq::new(
                (k + 1) as nat,
                |i: int| GameEvent::BulletEnemyCollision,
            ));
            k = k + 1;
        }
        if hits > 0 {
            events.push(GameEvent::ScoreChanged(count));
        }
        assert(events@ =~= first + hit_events(hits as nat, count));
        let (timer, fired) = spawn_timer_step(self.spawn_timer, input.dt);
        self.spawn_timer = timer;
        move_enemies(&mut self.enemies, p2, input.dt, count, a.enemy);
        assert(self.enemies@ =~= es1.map_values(
            |e: Enemy| enemy_step_spec(e, p2, input.dt as int, count as int, a.enemy),
        ));
        if may_spawn(self.enemies.len(), fired) {
            let e = spawn_enemy(draws.edge, draws.offset, a.enemy);
            self.enemies.push(e);
        }
        if hit {
            self.state = GameState::GameOver;
            self.player = None;
        } else {
            self.player = Some(p2);
        }
        events
    }

    /// One tick of the game, with `draws` standing for the random draws that a
    /// spawn uses.
    pub fn tick_with_draws(&mut self, input: &FrameInput, draws: SpawnDraws) -> (events: Vec<
        GameEvent,
    >)
        requires
            old(self).inv(),
            dir_bounded(input.movement),
            dir_bounded(input.fire),
        ensures
            final(self).inv(),
            (final(self)@, events@) == tick_spec(old(self)@, *input, draws),
    {
        match self.state {
            GameState::GameStart => {
                self.spawn_player();
                Vec::new()
            },
            GameState::InGame => self.in_game_step(input, draws),
            GameState::Paused => Vec::new(),
            GameState::GameOver => {
                self.restart_step(input.dt, input.restart);
                Vec::new()
            },
        }
    }

    /// One tick of the game. While the game runs, the spawn site is drawn
    /// from `rng`: the edge out of `SPAWN_DRAW_RANGE`, then one of the places
    /// along that edge.
    pub fn tick(&mut self, input: &FrameInput, rng: &mut SpawnRng) -> (events: Vec<GameEvent>)
        requires
            old(self).inv(),
            dir_bounded(input.movement),
            dir_bounded(input.fire),
        ensures
            final(self).inv(),
            exists|d: SpawnDraws|
                d.edge < SPAWN_DRAW_RANGE && d.offset < spawn_range_spec(
                    spawn_edge_spec(d.edge as int),
                    old(self).arena.enemy,
                ) && (final(self)@, events@) == #[trigger] tick_spec(
                    old(self)@,
                    *input,
                    d,
                ),
    {
        let mut draws = SpawnDraws { edge: 0, offset: 0 };
        if self.state == GameState::InGame {
            let edge = rng.draw(SPAWN_DRAW_RANGE);
            let range = spawn_range(spawn_edge(edge), self.arena.enemy);
            let offset = rng.draw(range);
            draws = SpawnDraws { edge, offset };
        }
        self.tick_with_draws(input, draws)
    }

    /// The number of enemies destroyed in the current game.
    pub fn score(&self) -> (r: u32)
        ensures
            r == self.destroyed.0,
    {
        self.destroyed.0
    }
}

} // verus!
