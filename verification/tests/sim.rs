use monkey_fire::combat::enemy_fire_hit_player_system;
use monkey_fire::combat::player_fire_hit_enemy_system;
use monkey_fire::components::Animate;
use monkey_fire::components::Enemy;
use monkey_fire::components::ExplosionToSpawn;
use monkey_fire::components::Fire;
use monkey_fire::components::FromEnemy;
use monkey_fire::components::FromPlayer;
use monkey_fire::components::Movable;
use monkey_fire::components::OnOutsideWindow;
use monkey_fire::components::Player;
use monkey_fire::components::PlayerAnimation;
use monkey_fire::components::PlayerDirection;
use monkey_fire::components::PlayerSprite;
use monkey_fire::components::PlayerState;
use monkey_fire::components::SpriteSize;
use monkey_fire::components::Timer;
use monkey_fire::components::Velocity;
use monkey_fire::components::WinSize;
use monkey_fire::enemy::enemy_fire_system;
use monkey_fire::enemy::enemy_movement_system;
use monkey_fire::enemy::enemy_spawn_system;
use monkey_fire::formation::Formation;
use monkey_fire::formation::make;
use monkey_fire::game::Game;
use monkey_fire::game::InputState;
use monkey_fire::geom::Vec2;
use monkey_fire::lifecycle::animate_system;
use monkey_fire::lifecycle::explosion_animation_system;
use monkey_fire::lifecycle::explosion_to_spawn_system;
use monkey_fire::lifecycle::movable_system;
use monkey_fire::player::player_fire_system;
use monkey_fire::player::player_keyboard_event_system;
use monkey_fire::player::player_spawn_system;
use monkey_fire::world::Entity;
use monkey_fire::world::World;

fn win() -> WinSize {
    // 1280 x 720 pixels in fine units (60 per pixel).
    WinSize { width: 76_800, height: 43_200 }
}

fn test_formation(start: Vec2) -> Formation {
    Formation {
        start,
        pivot: Vec2 { x: 0, y: 6000 },
        radius: Vec2 { x: 6000, y: 6000 },
        angle: 0,
        speed: 500,
    }
}

fn make_enemy(pos: Vec2) -> Entity {
    let mut e = Entity::blank(pos);
    e.scale_x = 50;
    e.scale_y = 50;
    e.enemy = Some(Enemy);
    e.sprite_size = Some(SpriteSize(Vec2 { x: 15_360, y: 13_320 }));
    e.animate = Some(Animate { range_start: 0, range_end: 7, timer: Timer::from_ticks(30) });
    e.formation = Some(test_formation(pos));
    e
}

fn make_player(pos: Vec2) -> Entity {
    let mut e = Entity::blank(pos);
    e.scale_x = 50;
    e.scale_y = 50;
    e.sprite_index = 6;
    e.player = Some(Player);
    e.sprite_size = Some(SpriteSize(Vec2 { x: 8_400, y: 10_080 }));
    e.movable = Some(Movable { on_outside_window: OnOutsideWindow::Wrap });
    e.velocity = Some(Velocity { x: 0, y: 0 });
    e.animate = Some(Animate { range_start: 6, range_end: 6, timer: Timer::from_ticks(30) });
    e
}

fn make_player_fire(pos: Vec2) -> Entity {
    let mut e = Entity::blank(pos);
    e.fire = Some(Fire);
    e.from_player = Some(FromPlayer);
    e.sprite_size = Some(SpriteSize(Vec2 { x: 4_200, y: 4_200 }));
    e.velocity = Some(Velocity { x: 0, y: 1 });
    e.movable = Some(Movable { on_outside_window: OnOutsideWindow::Despawn });
    e.animate = Some(Animate { range_start: 0, range_end: 2, timer: Timer::from_ticks(30) });
    e
}

fn make_enemy_fire(pos: Vec2) -> Entity {
    let mut e = Entity::blank(pos);
    e.scale_x = 50;
    e.scale_y = 50;
    e.fire = Some(Fire);
    e.from_enemy = Some(FromEnemy);
    e.sprite_size = Some(SpriteSize(Vec2 { x: 4_320, y: 3_840 }));
    e.velocity = Some(Velocity { x: 0, y: -1 });
    e.movable = Some(Movable { on_outside_window: OnOutsideWindow::Despawn });
    e.animate = Some(Animate { range_start: 0, range_end: 2, timer: Timer::from_ticks(30) });
    e
}

fn live_players(w: &World) -> usize {
    w.ents.iter().filter(|e| e.alive && e.player.is_some()).count()
}

fn live_enemies(w: &World) -> usize {
    w.ents.iter().filter(|e| e.alive && e.enemy.is_some()).count()
}

#[test]
fn despawn_policy_removes_entity_past_margin() {
    // Band top for a 43200-unit-high window is 43200/2 + 3000 = 24600.
    let mut w = World::new();
    let mut going_out = make_player_fire(Vec2 { x: 0, y: 24_400 });
    going_out.scale_x = 100;
    w.ents.push(going_out);
    let staying = make_player_fire(Vec2 { x: 0, y: 24_000 });
    w.ents.push(staying);
    movable_system(&mut w, &win());
    // 24400 + 500 = 24900 exceeds the band: gone next tick.
    assert!(!w.ents[0].alive);
    // 24000 + 500 = 24500 stays inside: still there.
    assert!(w.ents[1].alive);
    assert_eq!(w.ents[1].pos.y, 24_500);
}

#[test]
fn wrap_policy_renormalizes_into_band() {
    // Band for a 76800-unit-wide window is +/- (76800/2 + 3000) = 41400.
    let mut w = World::new();
    let mut p = make_player(Vec2 { x: -41_200, y: 0 });
    p.velocity = Some(Velocity { x: -1, y: 0 });
    w.ents.push(p);
    movable_system(&mut w, &win());
    // -41200 - 500 = -41700 is past the left bound: reset to the right bound.
    assert!(w.ents[0].alive);
    assert_eq!(w.ents[0].pos.x, 41_400);
    movable_system(&mut w, &win());
    // From the right bound it keeps moving left, staying inside the band.
    assert_eq!(w.ents[0].pos.x, 40_900);
}

#[test]
fn enemy_population_capped() {
    let mut w = World::new();
    let mut count: u32 = 0;
    for _ in 0..5 {
        enemy_spawn_system(&mut w, &mut count, &win());
        assert!(count <= 2);
    }
    assert_eq!(count, 2);
    assert_eq!(live_enemies(&w), 2);
    assert_eq!(w.ents.len(), 2);
}

#[test]
fn fire_hit_enemy_full_outcome() {
    let mut w = World::new();
    let enemy_pos = Vec2 { x: 1_000, y: 2_000 };
    w.ents.push(make_enemy(enemy_pos));
    w.ents.push(make_player_fire(Vec2 { x: 0, y: 0 }));
    let mut count: u32 = 1;
    let mut score: u32 = 0;
    let mut boom: Vec<ExplosionToSpawn> = Vec::new();
    player_fire_hit_enemy_system(&mut w, &mut count, &mut score, &mut boom);
    // Both parties are gone, the count drops by one, the score rises by
    // one, and exactly one explosion is queued at the enemy's position.
    assert!(!w.ents[0].alive);
    assert!(!w.ents[1].alive);
    assert_eq!(count, 0);
    assert_eq!(score, 1);
    assert_eq!(boom.len(), 1);
    assert_eq!(boom[0].0, enemy_pos);
}

#[test]
fn fire_misses_enemy_changes_nothing() {
    let mut w = World::new();
    w.ents.push(make_enemy(Vec2 { x: 30_000, y: 0 }));
    w.ents.push(make_player_fire(Vec2 { x: 0, y: 0 }));
    let mut count: u32 = 1;
    let mut score: u32 = 0;
    let mut boom: Vec<ExplosionToSpawn> = Vec::new();
    player_fire_hit_enemy_system(&mut w, &mut count, &mut score, &mut boom);
    assert!(w.ents[0].alive);
    assert!(w.ents[1].alive);
    assert_eq!((count, score, boom.len()), (1, 0, 0));
}

#[test]
fn one_fire_fells_one_enemy_only() {
    let mut w = World::new();
    w.ents.push(make_enemy(Vec2 { x: 0, y: 0 }));
    w.ents.push(make_enemy(Vec2 { x: 100, y: 100 }));
    w.ents.push(make_player_fire(Vec2 { x: 0, y: 0 }));
    let mut count: u32 = 2;
    let mut score: u32 = 0;
    let mut boom: Vec<ExplosionToSpawn> = Vec::new();
    player_fire_hit_enemy_system(&mut w, &mut count, &mut score, &mut boom);
    // The projectile fells the first overlapping enemy and is spent; the
    // second enemy survives.
    assert!(!w.ents[0].alive);
    assert!(w.ents[1].alive);
    assert!(!w.ents[2].alive);
    assert_eq!((count, score, boom.len()), (1, 1, 1));
}

#[test]
fn two_fires_fell_two_enemies() {
    let mut w = World::new();
    w.ents.push(make_enemy(Vec2 { x: 0, y: 0 }));
    w.ents.push(make_player_fire(Vec2 { x: 0, y: 0 }));
    w.ents.push(make_enemy(Vec2 { x: 100, y: 100 }));
    w.ents.push(make_player_fire(Vec2 { x: 100, y: 100 }));
    let mut count: u32 = 2;
    let mut score: u32 = 7;
    let mut boom: Vec<ExplosionToSpawn> = Vec::new();
    player_fire_hit_enemy_system(&mut w, &mut count, &mut score, &mut boom);
    // The first projectile fells the first enemy; the second projectile,
    // still live, fells the remaining one. Nobody is hit twice.
    assert!(w.ents.iter().all(|e| !e.alive));
    assert_eq!((count, score), (0, 9));
    assert_eq!(boom.len(), 2);
    assert_eq!(boom[0].0, Vec2 { x: 0, y: 0 });
    assert_eq!(boom[1].0, Vec2 { x: 100, y: 100 });
}

#[test]
fn enemy_fire_hit_player_saturates_score_at_zero() {
    let mut w = World::new();
    let player_pos = Vec2 { x: 0, y: -10_000 };
    w.ents.push(make_player(player_pos));
    w.ents.push(make_enemy_fire(Vec2 { x: 500, y: -10_500 }));
    let mut state = PlayerState::default();
    state.spawned();
    let mut score: u32 = 0;
    let mut boom: Vec<ExplosionToSpawn> = Vec::new();
    enemy_fire_hit_player_system(&mut w, &mut state, &mut score, &mut boom, 77);
    assert!(!w.ents[0].alive);
    assert!(!w.ents[1].alive);
    // Score was zero and stays zero: it never wraps negative.
    assert_eq!(score, 0);
    assert!(!state.on);
    assert_eq!(state.last_shot, 77);
    assert_eq!(boom.len(), 1);
    assert_eq!(boom[0].0, player_pos);
}

#[test]
fn player_dies_once_per_tick() {
    let mut w = World::new();
    w.ents.push(make_player(Vec2 { x: 0, y: 0 }));
    w.ents.push(make_enemy_fire(Vec2 { x: 0, y: 0 }));
    w.ents.push(make_enemy_fire(Vec2 { x: 100, y: 0 }));
    let mut state = PlayerState::default();
    state.spawned();
    let mut score: u32 = 5;
    let mut boom: Vec<ExplosionToSpawn> = Vec::new();
    enemy_fire_hit_player_system(&mut w, &mut state, &mut score, &mut boom, 9);
    // Only the first overlapping projectile is spent with the player.
    assert!(!w.ents[0].alive);
    assert!(!w.ents[1].alive);
    assert!(w.ents[2].alive);
    assert_eq!(score, 4);
    assert_eq!(boom.len(), 1);
}

#[test]
fn respawn_waits_for_delay() {
    let w2 = win();
    let mut state = PlayerState { on: false, last_shot: 10 };
    let mut w = World::new();
    // At tick 130 the delay (120 ticks) has not strictly passed: no spawn.
    player_spawn_system(&mut w, &mut state, 130, &w2);
    assert_eq!(live_players(&w), 0);
    assert!(!state.on);
    // At tick 131 it has: the player returns at the bottom of the screen.
    player_spawn_system(&mut w, &mut state, 131, &w2);
    assert_eq!(live_players(&w), 1);
    assert!(state.on);
    assert_eq!(state.last_shot, -1);
    assert_eq!(w.ents[0].pos, Vec2 { x: 0, y: -21_600 + 2_520 });
    // With the player on the field, the check does nothing more.
    player_spawn_system(&mut w, &mut state, 200, &w2);
    assert_eq!(live_players(&w), 1);
}

#[test]
fn never_shot_player_spawns_immediately() {
    let mut state = PlayerState::default();
    let mut w = World::new();
    player_spawn_system(&mut w, &mut state, 0, &win());
    assert_eq!(live_players(&w), 1);
    assert!(state.on);
}

#[test]
fn keyboard_steers_player() {
    let mut w = World::new();
    w.ents.push(make_player(Vec2 { x: 0, y: 0 }));
    let mut sprite = PlayerSprite::default();
    player_keyboard_event_system(&mut w, &mut sprite, true, false);
    assert_eq!(w.ents[0].velocity.unwrap().x, -1);
    assert_eq!(w.ents[0].scale_x, -50);
    assert!(matches!(sprite.state, PlayerAnimation::Walking));
    assert!(matches!(sprite.direction, PlayerDirection::Left));
    player_keyboard_event_system(&mut w, &mut sprite, false, true);
    assert_eq!(w.ents[0].velocity.unwrap().x, 1);
    assert_eq!(w.ents[0].scale_x, 50);
    player_keyboard_event_system(&mut w, &mut sprite, false, false);
    assert_eq!(w.ents[0].velocity.unwrap().x, 0);
    assert!(matches!(sprite.state, PlayerAnimation::Idle));
    assert!(matches!(sprite.direction, PlayerDirection::Right));
}

#[test]
fn fire_press_spawns_player_projectile() {
    let mut w = World::new();
    w.ents.push(make_player(Vec2 { x: 123, y: 456 }));
    player_fire_system(&mut w, false);
    assert_eq!(w.ents.len(), 1);
    player_fire_system(&mut w, true);
    assert_eq!(w.ents.len(), 2);
    let f = &w.ents[1];
    assert!(f.alive && f.fire.is_some() && f.from_player.is_some());
    assert_eq!(f.pos, Vec2 { x: 123, y: 456 });
    assert_eq!(f.velocity.unwrap().y, 1);
}

#[test]
fn every_enemy_fires_downward() {
    let mut w = World::new();
    w.ents.push(make_enemy(Vec2 { x: -5_000, y: 8_000 }));
    w.ents.push(make_player(Vec2 { x: 0, y: 0 }));
    w.ents.push(make_enemy(Vec2 { x: 5_000, y: 8_000 }));
    enemy_fire_system(&mut w);
    assert_eq!(w.ents.len(), 5);
    for (k, pos) in [(3, -5_000), (4, 5_000)] {
        let f = &w.ents[k];
        assert!(f.fire.is_some() && f.from_enemy.is_some());
        assert_eq!(f.pos, Vec2 { x: pos, y: 8_000 });
        assert_eq!(f.velocity.unwrap(), Velocity { x: 0, y: -1 });
    }
}

#[test]
fn orbit_step_is_bounded_and_converges() {
    let mut w = World::new();
    w.ents.push(make_enemy(Vec2 { x: 40_000, y: 10_000 }));
    let mut prev = w.ents[0].pos;
    for _ in 0..400 {
        enemy_movement_system(&mut w);
        let cur = w.ents[0].pos;
        let dx = cur.x - prev.x;
        let dy = cur.y - prev.y;
        // One tick never moves the enemy farther than its speed.
        assert!(dx * dx + dy * dy <= 500 * 500);
        prev = cur;
    }
    // After many ticks the enemy orbits near its ellipse: within the pivot
    // box inflated by the radius and one step.
    let f = test_formation(Vec2 { x: 40_000, y: 10_000 });
    assert!((w.ents[0].pos.x - f.pivot.x).abs() <= f.radius.x + 500);
    assert!((w.ents[0].pos.y - f.pivot.y).abs() <= f.radius.y + 500);
}

#[test]
fn frame_index_reenters_range() {
    let mut w = World::new();
    let mut e = Entity::blank(Vec2 { x: 0, y: 0 });
    e.sprite_index = 5;
    e.animate = Some(Animate { range_start: 2, range_end: 5, timer: Timer::from_ticks(1) });
    w.ents.push(e);
    let expected = [2, 3, 4, 5, 2, 3];
    for want in expected {
        animate_system(&mut w);
        assert_eq!(w.ents[0].sprite_index, want);
    }
}

#[test]
fn explosion_lives_ten_frames_exactly() {
    let mut w = World::new();
    let mut boom = vec![ExplosionToSpawn(Vec2 { x: 7, y: 8 })];
    explosion_to_spawn_system(&mut w, &mut boom);
    assert!(boom.is_empty());
    assert_eq!(w.ents.len(), 1);
    assert!(w.ents[0].alive && w.ents[0].explosion.is_some());
    assert_eq!(w.ents[0].pos, Vec2 { x: 7, y: 8 });
    // The burn timer fires every 6 ticks; the tenth advance, on tick 60,
    // brings the frame index to 10 and despawns the explosion — never
    // before, never later.
    for tick in 1..=59 {
        explosion_animation_system(&mut w);
        assert!(w.ents[0].alive, "still burning at tick {tick}");
    }
    assert_eq!(w.ents[0].sprite_index, 9);
    explosion_animation_system(&mut w);
    assert!(!w.ents[0].alive);
    assert_eq!(w.ents[0].sprite_index, 10);
}

#[test]
fn formation_maker_obeys_window_ranges() {
    let w2 = win();
    for _ in 0..50 {
        let f = make(&w2);
        assert!(f.start.x == 44_400 || f.start.x == -44_400);
        assert!((-27_600..27_600).contains(&f.start.y));
        assert!((-19_200..19_200).contains(&f.pivot.x));
        assert!((0..11_400).contains(&f.pivot.y));
        assert!((4_800..9_600).contains(&f.radius.x));
        assert_eq!(f.radius.y, 6_171);
        assert_eq!(f.speed, 500);
        assert!((0..3_600).contains(&f.angle));
        assert_eq!(f.angle % 100, 0);
    }
}

#[test]
fn game_ticks_spawn_player_then_enemies() {
    let mut g = Game::new(win());
    let idle = InputState { left: false, right: false, fire_just_pressed: false };
    for _ in 0..30 {
        g.tick(idle);
        assert!(g.enemy_count <= 2);
    }
    assert_eq!(g.t, 30);
    // The respawn check first fires on tick 30 and puts the player on.
    assert!(g.player_state.on);
    assert_eq!(live_players(&g.world), 1);
    assert_eq!(g.enemy_count, 0);
    for _ in 0..30 {
        g.tick(idle);
    }
    // The enemy spawn check first fires on tick 60.
    assert_eq!(g.enemy_count, 1);
    assert_eq!(live_enemies(&g.world), 1);
    assert_eq!(g.score, 0);
}

#[test]
fn player_state_records_shot() {
    let mut st = PlayerState::default();
    assert!(!st.on);
    assert_eq!(st.last_shot, -1);
    st.spawned();
    assert!(st.on);
    st.shot(42);
    assert!(!st.on);
    assert_eq!(st.last_shot, 42);
}
