//! Player systems: respawning after the cool-down, steering and facing
//! from keyboard state, edge-triggered fire, and the idle/walk frame-range
//! switch.
use vstd::prelude::*;
use vstd::pervasive::VecAdditionalExecFns;
use vstd::arithmetic::div_mod::lemma_div_is_ordered;
use crate::components::Animate;
use crate::components::Fire;
use crate::components::FromPlayer;
use crate::components::Movable;
use crate::components::OnOutsideWindow;
use crate::components::Player;
use crate::components::PlayerAnimation;
use crate::components::PlayerDirection;
use crate::components::PlayerSprite;
use crate::components::PlayerState;
use crate::components::SpriteSize;
use crate::components::Timer;
use crate::components::Velocity;
use crate::components::WinSize;
use crate::components::win_wf;
use crate::geom::Vec2;
use crate::world::Entity;
use crate::world::World;
use crate::world::blank_entity;
use crate::world::count_enemies;
use crate::world::count_players;
use crate::world::ent_wf;
use crate::world::first_where;
use crate::world::first_where_from;
use crate::world::lemma_count_where_push;
use crate::world::lemma_count_where_update;
use crate::world::live_player;
use crate::world::live_player_p;
use crate::world::live_enemy_p;
use crate::world::world_wf;
use crate::ANIMATE_FRAME_TICKS;
use crate::PLAYER_FIRE_H;
use crate::PLAYER_FIRE_W;
use crate::PLAYER_H;
use crate::PLAYER_RESPAWN_DELAY;
use crate::PLAYER_W;
use crate::SPRITE_SCALE_PCT;
use crate::TICK_LIMIT;

verus! {

/// Index of the first live player record, if one exists.
pub fn find_first_player(world: &World) -> (r: Option<usize>)
    ensures
        r matches Some(j) ==> first_where(world.ents@, live_player_p()) == Some(j as int) && j
            < world.ents@.len() && live_player(world.ents@[j as int]),
        r is None ==> first_where(world.ents@, live_player_p()) is None,
{
    let n = world.ents.len();
    let mut j: usize = 0;
    while j < n
        invariant
            0 <= j <= n,
            n == world.ents@.len(),
            first_where_from(world.ents@, live_player_p(), 0) == first_where_from(
                world.ents@,
                live_player_p(),
                j as int,
            ),
        decreases n - j,
    {
        let e = world.ents[j];
        if e.alive && e.player.is_some() {
            return Some(j);
        }
        j = j + 1;
    }
    None
}

/// A fresh player entity for the given window: centred at the bottom of
/// the screen, half scale, wrap-moving, standing still on the idle frame.
pub open spec fn player_entity(win: WinSize) -> Entity {
    Entity {
        pos: Vec2 { x: 0i64, y: (2520 - (win.height as int) / 2) as i64 },
        scale_x: SPRITE_SCALE_PCT,
        scale_y: SPRITE_SCALE_PCT,
        sprite_index: 6u32,
        player: Some(Player),
        sprite_size: Some(SpriteSize(Vec2 { x: PLAYER_W, y: PLAYER_H })),
        movable: Some(Movable { on_outside_window: OnOutsideWindow::Wrap }),
        velocity: Some(Velocity { x: 0i64, y: 0i64 }),
        animate: Some(
            Animate {
                range_start: 6u32,
                range_end: 6u32,
                timer: Timer { period: ANIMATE_FRAME_TICKS, elapsed: 0u32 },
            },
        ),
        ..blank_entity(Vec2 { x: 0i64, y: 0i64 })
    }
}

/// Whether a dead player is due to respawn at `now`: either it was never
/// shot, or the respawn delay has fully passed since the last hit.
pub open spec fn respawn_due(st: PlayerState, now: int) -> bool {
    !st.on && (st.last_shot == -1 || now > st.last_shot + PLAYER_RESPAWN_DELAY)
}

/// The store and state after one run of the respawn check.
pub open spec fn player_spawn_spec(s: Seq<Entity>, st: PlayerState, now: int, win: WinSize) -> (
    Seq<Entity>,
    PlayerState,
) {
    if respawn_due(st, now) {
        (s.push(player_entity(win)), PlayerState { on: true, last_shot: -1i64 })
    } else {
        (s, st)
    }
}

/// Spawn a fresh player at the bottom of the screen exactly when none is
/// on the field and the respawn delay has passed (or the player was never
/// shot); otherwise nothing changes. A spawn raises the live player count
/// by one and resets the shot record.
pub fn player_spawn_system(world: &mut World, state: &mut PlayerState, now: i64, win: &WinSize)
    requires
        old(world).wf(),
        win_wf(*win),
        -1 <= old(state).last_shot <= TICK_LIMIT,
        0 <= now <= TICK_LIMIT,
    ensures
        final(world).wf(),
        (final(world).ents@, *final(state)) == player_spawn_spec(
            old(world).ents@,
            *old(state),
            now as int,
            *win,
        ),
        respawn_due(*old(state), now as int) ==> {
            &&& final(world).ents@ == old(world).ents@.push(player_entity(*win))
            &&& *final(state) == (PlayerState { on: true, last_shot: -1i64 })
            &&& count_players(final(world).ents@) == count_players(old(world).ents@) + 1
        },
        !respawn_due(*old(state), now as int) ==> final(world).ents@ == old(world).ents@
            && *final(state) == *old(state),
        count_enemies(final(world).ents@) == count_enemies(old(world).ents@),
{
    proof {
        lemma_div_is_ordered(10_000, win.height as int, 2);
        lemma_div_is_ordered(win.height as int, 1_000_000, 2);
    }
    if !state.on && (state.last_shot == -1 || now > state.last_shot + PLAYER_RESPAWN_DELAY) {
        let bottom = -(win.height / 2);
        let mut e = Entity::blank(Vec2 { x: 0, y: bottom + 2520 });
        e.scale_x = SPRITE_SCALE_PCT;
        e.scale_y = SPRITE_SCALE_PCT;
        e.sprite_index = 6;
        e.player = Some(Player);
        e.sprite_size = Some(SpriteSize(Vec2 { x: PLAYER_W, y: PLAYER_H }));
        e.movable = Some(Movable { on_outside_window: OnOutsideWindow::Wrap });
        e.velocity = Some(Velocity { x: 0, y: 0 });
        e.animate = Some(
            Animate { range_start: 6, range_end: 6, timer: Timer::from_ticks(ANIMATE_FRAME_TICKS) },
        );
        proof {
            assert(e == player_entity(*win));
            assert(ent_wf(e));
            lemma_count_where_push(old(world).ents@, live_player_p(), e);
            lemma_count_where_push(old(world).ents@, live_enemy_p(), e);
        }
        world.ents.push(e);
        state.spawned();
    }
}

/// The sprite state after one keyboard poll: walking left or right while
/// the respective key is held (left wins), else idling in the last facing.
pub open spec fn steer_sprite(sp: PlayerSprite, left: bool, right: bool) -> PlayerSprite {
    if left {
        PlayerSprite { state: PlayerAnimation::Walking, direction: PlayerDirection::Left }
    } else if right {
        PlayerSprite { state: PlayerAnimation::Walking, direction: PlayerDirection::Right }
    } else {
        PlayerSprite { state: PlayerAnimation::Idle, direction: sp.direction }
    }
}

/// Horizontal velocity commanded by the keys: -1, 1 or 0.
pub open spec fn steer_velocity(left: bool, right: bool) -> int {
    if left {
        -1
    } else if right {
        1
    } else {
        0
    }
}

/// The player record after one keyboard poll: commanded horizontal
/// velocity, and the facing flip taken from the new direction.
pub open spec fn steered_player(e: Entity, sp: PlayerSprite, left: bool, right: bool) -> Entity {
    Entity {
        velocity: Some(
            Velocity { x: steer_velocity(left, right) as i64, y: e.velocity->Some_0.y },
        ),
        scale_x: if steer_sprite(sp, left, right).direction is Left {
            (-SPRITE_SCALE_PCT) as i64
        } else {
            SPRITE_SCALE_PCT
        },
        ..e
    }
}

/// The store and sprite state after one keyboard poll.
pub open spec fn keyboard_spec(s: Seq<Entity>, sp: PlayerSprite, left: bool, right: bool) -> (
    Seq<Entity>,
    PlayerSprite,
) {
    match first_where(s, live_player_p()) {
        Some(pi) => (s.update(pi, steered_player(s[pi], sp, left, right)), steer_sprite(
            sp,
            left,
            right,
        )),
        None => (s, sp),
    }
}

/// Steer the (first) live player by the held keys and record the sprite
/// state for the animation system; with no player on the field nothing
/// changes.
pub fn player_keyboard_event_system(
    world: &mut World,
    sprite: &mut PlayerSprite,
    left: bool,
    right: bool,
)
    requires
        old(world).wf(),
    ensures
        final(world).wf(),
        final(world).ents@.len() == old(world).ents@.len(),
        (final(world).ents@, *final(sprite)) == keyboard_spec(
            old(world).ents@,
            *old(sprite),
            left,
            right,
        ),
        match first_where(old(world).ents@, live_player_p()) {
            Some(pi) => final(world).ents@ == old(world).ents@.update(
                pi,
                steered_player(old(world).ents@[pi], *old(sprite), left, right),
            ) && *final(sprite) == steer_sprite(*old(sprite), left, right),
            None => final(world).ents@ == old(world).ents@ && *final(sprite) == *old(sprite),
        },
        count_players(final(world).ents@) == count_players(old(world).ents@),
        count_enemies(final(world).ents@) == count_enemies(old(world).ents@),
{
    match find_first_player(world) {
        Some(pi) => {
            let e = world.ents[pi];
            let sp = *sprite;
            let (vx, facing_left): (i64, bool) = if left {
                (-1, true)
            } else if right {
                (1, false)
            } else {
                (0, matches!(sp.direction, PlayerDirection::Left))
            };
            sprite.state = if left || right {
                PlayerAnimation::Walking
            } else {
                PlayerAnimation::Idle
            };
            sprite.direction = if left {
                PlayerDirection::Left
            } else if right {
                PlayerDirection::Right
            } else {
                sp.direction
            };
            let v = e.velocity.unwrap();
            let mut e2 = e;
            e2.velocity = Some(Velocity { x: vx, y: v.y });
            e2.scale_x = if facing_left {
                -SPRITE_SCALE_PCT
            } else {
                SPRITE_SCALE_PCT
            };
            proof {
                assert(e2 == steered_player(e, sp, left, right));
                lemma_count_where_update(world.ents@, live_player_p(), pi as int, e2);
                lemma_count_where_update(world.ents@, live_enemy_p(), pi as int, e2);
            }
            world.ents.set(pi, e2);
        },
        None => {},
    }
}

/// A fresh player projectile at `pos`: full scale, rising straight up,
/// despawned at the play-area edge, cycling frames 0 to 2.
pub open spec fn player_fire_entity(pos: Vec2) -> Entity {
    Entity {
        fire: Some(Fire),
        from_player: Some(FromPlayer),
        sprite_size: Some(SpriteSize(Vec2 { x: PLAYER_FIRE_W, y: PLAYER_FIRE_H })),
        velocity: Some(Velocity { x: 0i64, y: 1i64 }),
        movable: Some(Movable { on_outside_window: OnOutsideWindow::Despawn }),
        animate: Some(
            Animate {
                range_start: 0u32,
                range_end: 2u32,
                timer: Timer { period: ANIMATE_FRAME_TICKS, elapsed: 0u32 },
            },
        ),
        ..blank_entity(pos)
    }
}

/// The store after one run of the player fire check.
pub open spec fn player_fire_spec(s: Seq<Entity>, pressed: bool) -> Seq<Entity> {
    let fp = first_where(s, live_player_p());
    if pressed && fp is Some {
        s.push(player_fire_entity(s[fp->Some_0].pos))
    } else {
        s
    }
}

/// On an edge-triggered fire press, the (first) live player launches one
/// upward projectile from its own position; otherwise nothing changes.
pub fn player_fire_system(world: &mut World, fire_pressed: bool)
    requires
        old(world).wf(),
    ensures
        final(world).wf(),
        final(world).ents@ == player_fire_spec(old(world).ents@, fire_pressed),
        ({
            let fp = first_where(old(world).ents@, live_player_p());
            if fire_pressed && fp is Some {
                final(world).ents@ == old(world).ents@.push(
                    player_fire_entity(old(world).ents@[fp->Some_0].pos),
                )
            } else {
                final(world).ents@ == old(world).ents@
            }
        }),
        count_players(final(world).ents@) == count_players(old(world).ents@),
        count_enemies(final(world).ents@) == count_enemies(old(world).ents@),
{
    if fire_pressed {
        match find_first_player(world) {
            Some(pi) => {
                let e = world.ents[pi];
                let mut fe = Entity::blank(e.pos);
                fe.fire = Some(Fire);
                fe.from_player = Some(FromPlayer);
                fe.sprite_size = Some(SpriteSize(Vec2 { x: PLAYER_FIRE_W, y: PLAYER_FIRE_H }));
                fe.velocity = Some(Velocity { x: 0, y: 1 });
                fe.movable = Some(Movable { on_outside_window: OnOutsideWindow::Despawn });
                fe.animate = Some(
                    Animate {
                        range_start: 0,
                        range_end: 2,
                        timer: Timer::from_ticks(ANIMATE_FRAME_TICKS),
                    },
                );
                proof {
                    assert(fe == player_fire_entity(e.pos));
                    assert(ent_wf(fe));
                    lemma_count_where_push(world.ents@, live_player_p(), fe);
                    lemma_count_where_push(world.ents@, live_enemy_p(), fe);
                }
                world.ents.push(fe);
            },
            None => {},
        }
    }
}

/// The player record with the frame range for the given animation state:
/// the single idle frame, or the short walking cycle.
pub open spec fn ranged_player(e: Entity, st: PlayerAnimation) -> Entity {
    let a = e.animate->Some_0;
    Entity {
        animate: Some(
            Animate {
                range_start: if st is Idle {
                    6u32
                } else {
                    0u32
                },
                range_end: if st is Idle {
                    6u32
                } else {
                    3u32
                },
                timer: a.timer,
            },
        ),
        ..e
    }
}

/// The store after the player's frame range is set for the sprite state.
pub open spec fn player_animate_spec(s: Seq<Entity>, st: PlayerAnimation) -> Seq<Entity> {
    match first_where(s, live_player_p()) {
        Some(pi) => s.update(pi, ranged_player(s[pi], st)),
        None => s,
    }
}

/// Give the (first) live player the frame range matching the recorded
/// sprite state; with no player on the field nothing changes.
pub fn player_animate(world: &mut World, sprite: &PlayerSprite)
    requires
        old(world).wf(),
    ensures
        final(world).wf(),
        final(world).ents@ == player_animate_spec(old(world).ents@, sprite.state),
        match first_where(old(world).ents@, live_player_p()) {
            Some(pi) => final(world).ents@ == old(world).ents@.update(
                pi,
                ranged_player(old(world).ents@[pi], sprite.state),
            ),
            None => final(world).ents@ == old(world).ents@,
        },
        count_players(final(world).ents@) == count_players(old(world).ents@),
        count_enemies(final(world).ents@) == count_enemies(old(world).ents@),
{
    match find_first_player(world) {
        Some(pi) => {
            let e = world.ents[pi];
            let a = e.animate.unwrap();
            let mut e2 = e;
            e2.animate = Some(
                match sprite.state {
                    PlayerAnimation::Idle => Animate {
                        range_start: 6,
                        range_end: 6,
                        timer: a.timer,
                    },
                    PlayerAnimation::Walking => Animate {
                        range_start: 0,
                        range_end: 3,
                        timer: a.timer,
                    },
                },
            );
            proof {
                assert(e2 == ranged_player(e, sprite.state));
                lemma_count_where_update(world.ents@, live_player_p(), pi as int, e2);
                lemma_count_where_update(world.ents@, live_enemy_p(), pi as int, e2);
            }
            world.ents.set(pi, e2);
        },
        None => {},
    }
}

} // verus!
