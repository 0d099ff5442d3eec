//! Enemy systems: spawning under the population cap, the random fire gate,
//! downward fire spawning, and orbital movement along each enemy's
//! formation ellipse.
use vstd::prelude::*;
use vstd::pervasive::VecAdditionalExecFns;
use crate::components::Animate;
use crate::components::Enemy;
use crate::components::Fire;
use crate::components::FromEnemy;
use crate::components::Movable;
use crate::components::OnOutsideWindow;
use crate::components::SpriteSize;
use crate::components::Timer;
use crate::components::Velocity;
use crate::components::WinSize;
use crate::components::win_wf;
use crate::formation::Formation;
use crate::formation::approach_dist;
use crate::formation::approach_target;
use crate::formation::approach_x;
use crate::formation::approach_y;
use crate::formation::distance_to;
use crate::formation::formation_from_window;
use crate::formation::formation_target;
use crate::formation::formation_wf;
use crate::formation::make;
use crate::formation::lemma_approach_between;
use crate::formation::next_angle;
use crate::formation::next_angle_spec;
use crate::formation::target_x;
use crate::formation::target_y;
use crate::geom::Vec2;
use crate::geom::mag;
use crate::rng::rand_ratio;
use crate::world::Entity;
use crate::world::World;
use crate::world::blank_entity;
use crate::world::count_enemies;
use crate::world::count_players;
use crate::world::count_where;
use crate::world::ent_ok;
use crate::world::ent_wf;
use crate::world::lemma_count_where_app;
use crate::world::lemma_count_where_push;
use crate::world::lemma_count_where_same;
use crate::world::lemma_count_where_zero;
use crate::world::live_enemy;
use crate::world::live_enemy_p;
use crate::world::live_player_p;
use crate::world::world_wf;
use crate::ANIMATE_FRAME_TICKS;
use crate::ENEMY_FIRE_H;
use crate::ENEMY_FIRE_W;
use crate::ENEMY_H;
use crate::ENEMY_MAX;
use crate::ENEMY_W;
use crate::SPRITE_SCALE_PCT;

verus! {

/// A freshly spawned enemy: alive at its formation's spawn point, half
/// scale, collidable at the enemy sprite extent, cycling frames 0 to 7.
pub open spec fn spawned_enemy(e: Entity, win: WinSize) -> bool {
    &&& e.formation matches Some(f) && formation_wf(f) && formation_from_window(f, win)
        && e.pos == f.start
    &&& e.alive
    &&& e.enemy is Some
    &&& e.player is None
    &&& e.fire is None
    &&& e.explosion is None
    &&& e.movable is None
    &&& e.velocity is None
    &&& e.from_player is None
    &&& e.from_enemy is None
    &&& e.explosion_timer is None
    &&& e.sprite_size == Some(SpriteSize(Vec2 { x: crate::ENEMY_W, y: crate::ENEMY_H }))
    &&& e.animate == Some(
        Animate {
            range_start: 0u32,
            range_end: 7u32,
            timer: Timer { period: ANIMATE_FRAME_TICKS, elapsed: 0u32 },
        },
    )
    &&& e.scale_x == SPRITE_SCALE_PCT
    &&& e.scale_y == SPRITE_SCALE_PCT
    &&& e.sprite_index == 0
}

/// The exact record a spawned enemy starts as, for a given formation.
pub open spec fn enemy_entity(f: Formation) -> Entity {
    Entity {
        scale_x: SPRITE_SCALE_PCT,
        scale_y: SPRITE_SCALE_PCT,
        enemy: Some(Enemy),
        sprite_size: Some(SpriteSize(Vec2 { x: crate::ENEMY_W, y: crate::ENEMY_H })),
        animate: Some(
            Animate {
                range_start: 0u32,
                range_end: 7u32,
                timer: Timer { period: ANIMATE_FRAME_TICKS, elapsed: 0u32 },
            },
        ),
        formation: Some(f),
        ..blank_entity(f.start)
    }
}

/// The store and counter after one run of the enemy spawn check, spawning
/// on the formation `f` when below the cap.
pub open spec fn enemy_spawn_spec(s: Seq<Entity>, count: int, f: Formation) -> (Seq<Entity>, int) {
    if count < ENEMY_MAX {
        (s.push(enemy_entity(f)), count + 1)
    } else {
        (s, count)
    }
}

/// If the live-enemy count is below `ENEMY_MAX`, spawn one enemy on a fresh
/// random formation and count it; otherwise do nothing. The cap is thereby
/// preserved: the count tracks the store and never exceeds `ENEMY_MAX`.
pub fn enemy_spawn_system(world: &mut World, enemy_count: &mut u32, win: &WinSize)
    requires
        old(world).wf(),
        win_wf(*win),
        *old(enemy_count) == count_enemies(old(world).ents@),
        *old(enemy_count) <= ENEMY_MAX,
    ensures
        final(world).wf(),
        *final(enemy_count) == count_enemies(final(world).ents@),
        *final(enemy_count) <= ENEMY_MAX,
        count_players(final(world).ents@) == count_players(old(world).ents@),
        *old(enemy_count) < ENEMY_MAX ==> (exists|f: Formation|
            formation_wf(f) && formation_from_window(f, *win) && final(world).ents@ == old(
                world,
            ).ents@.push(#[trigger] enemy_entity(f))),
        *old(enemy_count) < ENEMY_MAX ==> {
            &&& final(world).ents@.len() == old(world).ents@.len() + 1
            &&& forall|i: int|
                0 <= i < old(world).ents@.len() ==> final(world).ents@[i] == old(world).ents@[i]
            &&& spawned_enemy(final(world).ents@.last(), *win)
            &&& *final(enemy_count) == *old(enemy_count) + 1
        },
        *old(enemy_count) >= ENEMY_MAX ==> final(world).ents@ == old(world).ents@
            && *final(enemy_count) == *old(enemy_count),
{
    if *enemy_count < ENEMY_MAX {
        let f = make(win);
        let mut e = Entity::blank(Vec2 { x: f.start.x, y: f.start.y });
        e.scale_x = SPRITE_SCALE_PCT;
        e.scale_y = SPRITE_SCALE_PCT;
        e.enemy = Some(Enemy);
        e.sprite_size = Some(SpriteSize(Vec2 { x: crate::ENEMY_W, y: crate::ENEMY_H }));
        e.animate = Some(
            Animate { range_start: 0, range_end: 7, timer: Timer::from_ticks(ANIMATE_FRAME_TICKS) },
        );
        e.formation = Some(f);
        proof {
            assert(e.pos == f.start);
            assert(ent_wf(e));
            lemma_count_where_push(old(world).ents@, live_enemy_p(), e);
            lemma_count_where_push(old(world).ents@, live_player_p(), e);
        }
        world.ents.push(e);
        *enemy_count = *enemy_count + 1;
        proof {
            assert(e == enemy_entity(f));
            assert(formation_wf(f) && formation_from_window(f, *win) && world.ents@ == old(
                world,
            ).ents@.push(enemy_entity(f)));
        }
    }
}

/// Random gate for enemy fire: passes with probability 1/60 each tick, so
/// each enemy fires about once a second.
pub fn enemy_fire_criteria() -> (fire: bool) {
    rand_ratio(1, 60)
}

/// A fresh enemy projectile at `pos`: half scale, falling straight down,
/// despawned at the play-area edge, cycling frames 0 to 2.
pub open spec fn enemy_fire_entity(pos: Vec2) -> Entity {
    Entity {
        scale_x: SPRITE_SCALE_PCT,
        scale_y: SPRITE_SCALE_PCT,
        fire: Some(Fire),
        from_enemy: Some(FromEnemy),
        sprite_size: Some(SpriteSize(Vec2 { x: ENEMY_FIRE_W, y: ENEMY_FIRE_H })),
        movable: Some(Movable { on_outside_window: OnOutsideWindow::Despawn }),
        velocity: Some(Velocity { x: 0i64, y: -1i64 }),
        animate: Some(
            Animate {
                range_start: 0u32,
                range_end: 2u32,
                timer: Timer { period: ANIMATE_FRAME_TICKS, elapsed: 0u32 },
            },
        ),
        ..blank_entity(pos)
    }
}

/// The projectiles spawned by one volley: one per live enemy among the
/// first `k` records, at the enemy's position, in store order.
pub open spec fn enemy_fire_spawns(s: Seq<Entity>, k: int) -> Seq<Entity>
    decreases k,
{
    if k <= 0 {
        Seq::empty()
    } else {
        enemy_fire_spawns(s, k - 1) + if live_enemy(s[k - 1]) {
            seq![enemy_fire_entity(s[k - 1].pos)]
        } else {
            Seq::empty()
        }
    }
}

proof fn lemma_enemy_fire_spawns_ok(s: Seq<Entity>, k: int)
    requires
        0 <= k <= s.len(),
        world_wf(s),
    ensures
        count_where(enemy_fire_spawns(s, k), live_player_p()) == 0,
        count_where(enemy_fire_spawns(s, k), live_enemy_p()) == 0,
        world_wf(enemy_fire_spawns(s, k)),
    decreases k,
{
    if k > 0 {
        lemma_enemy_fire_spawns_ok(s, k - 1);
        let tail = if live_enemy(s[k - 1]) {
            seq![enemy_fire_entity(s[k - 1].pos)]
        } else {
            Seq::<Entity>::empty()
        };
        assert forall|i: int| 0 <= i < tail.len() implies !live_player_p()(#[trigger] tail[i])
            && !live_enemy_p()(tail[i]) && ent_ok(tail[i]) by {
            assert(tail[i] == enemy_fire_entity(s[k - 1].pos));
            assert(ent_ok(s[k - 1]));
        }
        lemma_count_where_zero(tail, live_player_p());
        lemma_count_where_zero(tail, live_enemy_p());
        lemma_count_where_app(enemy_fire_spawns(s, k - 1), tail, live_player_p());
        lemma_count_where_app(enemy_fire_spawns(s, k - 1), tail, live_enemy_p());
    }
}

/// Every live enemy fires one downward projectile from its own position;
/// the new projectiles are appended in store order and nothing else
/// changes. Populations are unchanged, since a projectile is neither
/// player nor enemy.
pub fn enemy_fire_system(world: &mut World)
    requires
        old(world).wf(),
    ensures
        final(world).ents@ == old(world).ents@ + enemy_fire_spawns(
            old(world).ents@,
            old(world).ents@.len() as int,
        ),
        final(world).wf(),
        count_players(final(world).ents@) == count_players(old(world).ents@),
        count_enemies(final(world).ents@) == count_enemies(old(world).ents@),
{
    let n = world.ents.len();
    let mut i: usize = 0;
    while i < n
        invariant
            0 <= i <= n,
            n == old(world).ents@.len(),
            world_wf(old(world).ents@),
            world.ents@ =~= old(world).ents@ + enemy_fire_spawns(old(world).ents@, i as int),
            world_wf(world.ents@),
        decreases n - i,
    {
        let e = world.ents[i];
        proof {
            assert(world.ents@[i as int] == old(world).ents@[i as int]);
        }
        if e.alive && e.enemy.is_some() {
            let mut fe = Entity::blank(e.pos);
            fe.scale_x = SPRITE_SCALE_PCT;
            fe.scale_y = SPRITE_SCALE_PCT;
            fe.fire = Some(Fire);
            fe.from_enemy = Some(FromEnemy);
            fe.sprite_size = Some(SpriteSize(Vec2 { x: ENEMY_FIRE_W, y: ENEMY_FIRE_H }));
            fe.movable = Some(Movable { on_outside_window: OnOutsideWindow::Despawn });
            fe.velocity = Some(Velocity { x: 0, y: -1 });
            fe.animate = Some(
                Animate {
                    range_start: 0,
                    range_end: 2,
                    timer: Timer::from_ticks(ANIMATE_FRAME_TICKS),
                },
            );
            proof {
                assert(fe == enemy_fire_entity(e.pos));
                assert(ent_ok(old(world).ents@[i as int]));
                assert(ent_wf(fe));
            }
            world.ents.push(fe);
        }
        proof {
            assert(enemy_fire_spawns(old(world).ents@, i + 1) == enemy_fire_spawns(
                old(world).ents@,
                i as int,
            ) + if live_enemy(old(world).ents@[i as int]) {
                seq![enemy_fire_entity(old(world).ents@[i as int].pos)]
            } else {
                Seq::<Entity>::empty()
            });
            assert(world.ents@ =~= old(world).ents@ + enemy_fire_spawns(
                old(world).ents@,
                i + 1,
            ));
        }
        i = i + 1;
    }
    proof {
        lemma_enemy_fire_spawns_ok(old(world).ents@, n as int);
        lemma_count_where_app(
            old(world).ents@,
            enemy_fire_spawns(old(world).ents@, n as int),
            live_player_p(),
        );
        lemma_count_where_app(
            old(world).ents@,
            enemy_fire_spawns(old(world).ents@, n as int),
            live_enemy_p(),
        );
    }
}

/// One tick of orbit motion for a single record: the phase advances, the
/// entity steps at most `speed` fine units straight toward the new ellipse
/// target without passing it on either axis, faces its direction of
/// travel, and commits the advanced phase only once it stands within the
/// speed-scaled threshold of the target.
pub open spec fn enemy_move_one(e: Entity) -> Entity {
    if e.alive && e.enemy is Some && e.formation is Some {
        let f = e.formation->Some_0;
        let a2 = next_angle_spec(f);
        let tgt = Vec2 { x: target_x(f, a2) as i64, y: target_y(f, a2) as i64 };
        let nx = approach_x(e.pos, tgt, f.speed as int);
        let ny = approach_y(e.pos, tgt, f.speed as int);
        let commit = approach_dist(e.pos, tgt) < f.speed * f.speed / 20;
        let f2 = Formation {
            angle: if commit {
                a2 as i64
            } else {
                f.angle
            },
            ..f
        };
        Entity {
            pos: Vec2 { x: nx as i64, y: ny as i64 },
            scale_x: if e.pos.x > nx {
                (-SPRITE_SCALE_PCT) as i64
            } else {
                SPRITE_SCALE_PCT
            },
            formation: Some(f2),
            ..e
        }
    } else {
        e
    }
}

/// The whole store after one tick of orbit motion.
pub open spec fn enemy_move_all(s: Seq<Entity>) -> Seq<Entity> {
    s.map_values(|e: Entity| enemy_move_one(e))
}

/// Move every live enemy one tick along its orbit, exactly as
/// `enemy_move_one` says; populations and liveness are untouched.
pub fn enemy_movement_system(world: &mut World)
    requires
        old(world).wf(),
    ensures
        final(world).ents@.len() == old(world).ents@.len(),
        forall|i: int|
            0 <= i < old(world).ents@.len() ==> final(world).ents@[i] == enemy_move_one(
                #[trigger] old(world).ents@[i],
            ),
        final(world).ents@ == enemy_move_all(old(world).ents@),
        final(world).wf(),
        count_players(final(world).ents@) == count_players(old(world).ents@),
        count_enemies(final(world).ents@) == count_enemies(old(world).ents@),
{
    let n = world.ents.len();
    let mut i: usize = 0;
    while i < n
        invariant
            0 <= i <= n,
            n == world.ents@.len(),
            n == old(world).ents@.len(),
            world_wf(old(world).ents@),
            forall|j: int|
                0 <= j < i ==> world.ents@[j] == enemy_move_one(#[trigger] old(world).ents@[j])
                    && ent_ok(world.ents@[j]),
            forall|j: int| i <= j < n ==> world.ents@[j] == old(world).ents@[j],
        decreases n - i,
    {
        let e = world.ents[i];
        if e.alive && e.enemy.is_some() && e.formation.is_some() {
            let f = e.formation.unwrap();
            let a2 = next_angle(&f);
            let tgt = formation_target(&f, a2);
            let q = approach_target(e.pos, tgt, f.speed);
            let d = distance_to(e.pos, tgt);
            assert(1 <= f.speed * f.speed <= 1_000_000_000_000) by (nonlinear_arith)
                requires 1 <= f.speed <= 1_000_000;
            let thr = f.speed * f.speed / 20;
            let mut e2 = e;
            e2.pos = q;
            e2.scale_x = if e.pos.x > q.x {
                -SPRITE_SCALE_PCT
            } else {
                SPRITE_SCALE_PCT
            };
            let mut f2 = f;
            if d < thr {
                f2.angle = a2;
            }
            e2.formation = Some(f2);
            proof {
                lemma_approach_between(e.pos, tgt, f.speed as int);
            }
            world.ents.set(i, e2);
        }
        i = i + 1;
    }
    proof {
        assert forall|j: int| 0 <= j < n implies live_player_p()(world.ents@[j]) == live_player_p()(
            old(world).ents@[j],
        ) && live_enemy_p()(world.ents@[j]) == live_enemy_p()(old(world).ents@[j]) by {
            assert(world.ents@[j] == enemy_move_one(old(world).ents@[j]));
        }
        lemma_count_where_same(world.ents@, old(world).ents@, live_player_p());
        lemma_count_where_same(world.ents@, old(world).ents@, live_enemy_p());
        assert(world.ents@ =~= enemy_move_all(old(world).ents@));
    }
}

} // verus!
