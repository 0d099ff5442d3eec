//! Per-tick lifecycle systems: velocity movement with edge despawn or
//! wrap-around, sprite-frame cycling, explosion burn-through, and the
//! conversion of pending explosion requests into live explosion entities.
use vstd::prelude::*;
use vstd::pervasive::VecAdditionalExecFns;
use vstd::arithmetic::div_mod::lemma_div_is_ordered;
use vstd::arithmetic::div_mod::lemma_div_pos_is_pos;
use crate::components::Animate;
use crate::components::Explosion;
use crate::components::ExplosionTimer;
use crate::components::ExplosionToSpawn;
use crate::components::OnOutsideWindow;
use crate::components::Timer;
use crate::components::WinSize;
use crate::components::timer_fires;
use crate::components::timer_step;
use crate::components::win_wf;
use crate::geom::Vec2;
use crate::geom::mag;
use crate::world::Entity;
use crate::world::World;
use crate::world::blank_entity;
use crate::world::count_enemies;
use crate::world::count_players;
use crate::world::count_where;
use crate::world::ent_ok;
use crate::world::ent_wf;
use crate::world::lemma_count_where_zero;
use crate::world::lemma_count_where_app;
use crate::world::lemma_count_where_same;
use crate::world::live_enemy_p;
use crate::world::live_player_p;
use crate::world::world_wf;
use crate::BASE_STEP;
use crate::COORD_LIMIT;
use crate::EDGE_MARGIN;
use crate::EXPLOSION_FRAME_TICKS;
use crate::EXPLOSION_LEN;

verus! {

/// Lower edge of the play band for a window dimension: half the dimension
/// plus the exit margin, on the negative side.
pub open spec fn band_lo(dim: int) -> int {
    -(dim / 2) - EDGE_MARGIN
}

/// Upper edge of the play band for a window dimension.
pub open spec fn band_hi(dim: int) -> int {
    dim / 2 + EDGE_MARGIN
}

/// One tick of velocity movement for a single record: the position advances
/// by `velocity * BASE_STEP`; an entity leaving the band around the window
/// is despawned or wrapped to the opposite edge according to its policy.
pub open spec fn movable_step(e: Entity, win: WinSize) -> Entity {
    if e.alive && e.velocity is Some && e.movable is Some {
        let v = e.velocity->Some_0;
        let nx = e.pos.x + v.x * BASE_STEP;
        let ny = e.pos.y + v.y * BASE_STEP;
        let left = band_lo(win.width as int);
        let right = band_hi(win.width as int);
        let low = band_lo(win.height as int);
        let high = band_hi(win.height as int);
        if e.movable->Some_0.on_outside_window is Despawn {
            let out = nx < left || nx > right || ny < low || ny > high;
            Entity { alive: !out, pos: Vec2 { x: nx as i64, y: ny as i64 }, ..e }
        } else {
            let wx = if nx < left {
                right
            } else if nx > right {
                left
            } else {
                nx
            };
            let wy = if ny < low {
                high
            } else if ny > high {
                low
            } else {
                ny
            };
            Entity { pos: Vec2 { x: wx as i64, y: wy as i64 }, ..e }
        }
    } else {
        e
    }
}

/// The whole store after one tick of velocity movement.
pub open spec fn movable_all(s: Seq<Entity>, win: WinSize) -> Seq<Entity> {
    s.map_values(|e: Entity| movable_step(e, win))
}

proof fn lemma_band_bounds(dim: int)
    requires
        10_000 <= dim <= 1_000_000,
    ensures
        5_000 <= dim / 2 <= 500_000,
{
    lemma_div_is_ordered(10_000, dim, 2);
    lemma_div_is_ordered(dim, 1_000_000, 2);
}

/// Advance every movable entity and apply its exit policy. Every record is
/// transformed exactly by `movable_step`; wrap-policy survivors end inside
/// the band, and despawn-policy records survive exactly when they end
/// inside it. Player and enemy populations are unchanged.
pub fn movable_system(world: &mut World, win: &WinSize)
    requires
        old(world).wf(),
        win_wf(*win),
    ensures
        final(world).ents@.len() == old(world).ents@.len(),
        forall|i: int|
            0 <= i < old(world).ents@.len() ==> final(world).ents@[i] == movable_step(
                #[trigger] old(world).ents@[i],
                *win,
            ),
        final(world).ents@ == movable_all(old(world).ents@, *win),
        final(world).wf(),
        count_players(final(world).ents@) == count_players(old(world).ents@),
        count_enemies(final(world).ents@) == count_enemies(old(world).ents@),
{
    proof {
        lemma_band_bounds(win.width as int);
        lemma_band_bounds(win.height as int);
    }
    let left = -(win.width / 2) - EDGE_MARGIN;
    let right = win.width / 2 + EDGE_MARGIN;
    let low = -(win.height / 2) - EDGE_MARGIN;
    let high = win.height / 2 + EDGE_MARGIN;
    let n = world.ents.len();
    let mut i: usize = 0;
    while i < n
        invariant
            0 <= i <= n,
            n == world.ents@.len(),
            n == old(world).ents@.len(),
            world_wf(old(world).ents@),
            win_wf(*win),
            left == band_lo(win.width as int),
            right == band_hi(win.width as int),
            low == band_lo(win.height as int),
            high == band_hi(win.height as int),
            -503_000 <= left <= -8_000,
            8_000 <= right <= 503_000,
            -503_000 <= low <= -8_000,
            8_000 <= high <= 503_000,
            forall|j: int|
                0 <= j < i ==> world.ents@[j] == movable_step(
                    #[trigger] old(world).ents@[j],
                    *win,
                ) && ent_ok(world.ents@[j]),
            forall|j: int| i <= j < n ==> world.ents@[j] == old(world).ents@[j],
        decreases n - i,
    {
        let e = world.ents[i];
        if e.alive && e.velocity.is_some() && e.movable.is_some() {
            let v = e.velocity.unwrap();
            let nx = e.pos.x + v.x * BASE_STEP;
            let ny = e.pos.y + v.y * BASE_STEP;
            let mut e2 = e;
            e2.pos = Vec2 { x: nx, y: ny };
            match e.movable.unwrap().on_outside_window {
                OnOutsideWindow::Despawn => {
                    if nx < left || nx > right || ny < low || ny > high {
                        e2.alive = false;
                    }
                },
                OnOutsideWindow::Wrap => {
                    if nx < left {
                        e2.pos.x = right;
                    } else if nx > right {
                        e2.pos.x = left;
                    }
                    if ny < low {
                        e2.pos.y = high;
                    } else if ny > high {
                        e2.pos.y = low;
                    }
                },
            }
            world.ents.set(i, e2);
        }
        i = i + 1;
    }
    proof {
        assert forall|j: int| 0 <= j < n implies live_player_p()(world.ents@[j]) == live_player_p()(
            old(world).ents@[j],
        ) && live_enemy_p()(world.ents@[j]) == live_enemy_p()(old(world).ents@[j]) by {
            let e = old(world).ents@[j];
            assert(ent_ok(e));
            assert(world.ents@[j] == movable_step(e, *win));
        }
        lemma_count_where_same(world.ents@, old(world).ents@, live_player_p());
        lemma_count_where_same(world.ents@, old(world).ents@, live_enemy_p());
        assert(world.ents@ =~= movable_all(old(world).ents@, *win));
    }
}

/// One tick of frame cycling for a single record: the pacing timer
/// advances, and on expiry the frame index steps forward, re-entering the
/// range at its start whenever it would leave it.
pub open spec fn animate_step(e: Entity) -> Entity {
    if e.alive && e.animate is Some {
        let a = e.animate->Some_0;
        let a2 = Animate {
            range_start: a.range_start,
            range_end: a.range_end,
            timer: timer_step(a.timer),
        };
        if timer_fires(a.timer) {
            let bumped = if e.sprite_index == u32::MAX {
                u32::MAX
            } else {
                (e.sprite_index + 1) as u32
            };
            let idx = if bumped < a.range_start {
                a.range_start
            } else if bumped > a.range_end {
                a.range_start
            } else {
                bumped
            };
            Entity { animate: Some(a2), sprite_index: idx, ..e }
        } else {
            Entity { animate: Some(a2), ..e }
        }
    } else {
        e
    }
}

/// The whole store after one tick of frame cycling.
pub open spec fn animate_all(s: Seq<Entity>) -> Seq<Entity> {
    s.map_values(|e: Entity| animate_step(e))
}

/// Advance every frame-cycling entity by one tick, exactly as
/// `animate_step` says; populations and liveness are untouched.
pub fn animate_system(world: &mut World)
    requires
        old(world).wf(),
    ensures
        final(world).ents@.len() == old(world).ents@.len(),
        forall|i: int|
            0 <= i < old(world).ents@.len() ==> final(world).ents@[i] == animate_step(
                #[trigger] old(world).ents@[i],
            ),
        final(world).ents@ == animate_all(old(world).ents@),
        final(world).wf(),
        count_players(final(world).ents@) == count_players(old(world).ents@),
        count_enemies(final(world).ents@) == count_enemies(old(world).ents@),
{
    let n = world.ents.len();
    let mut i: usize = 0;
    while i < n
        invariant
            0 <= i <= n,
            n == world.ents@.len(),
            n == old(world).ents@.len(),
            world_wf(old(world).ents@),
            forall|j: int|
                0 <= j < i ==> world.ents@[j] == animate_step(#[trigger] old(world).ents@[j])
                    && ent_ok(world.ents@[j]),
            forall|j: int| i <= j < n ==> world.ents@[j] == old(world).ents@[j],
        decreases n - i,
    {
        let e = world.ents[i];
        if e.alive && e.animate.is_some() {
            let a = e.animate.unwrap();
            let mut a2 = a;
            let fired = a2.timer.tick();
            let mut e2 = e;
            e2.animate = Some(a2);
            if fired {
                let bumped = if e.sprite_index == u32::MAX {
                    u32::MAX
                } else {
                    e.sprite_index + 1
                };
                e2.sprite_index = if bumped < a.range_start {
                    a.range_start
                } else if bumped > a.range_end {
                    a.range_start
                } else {
                    bumped
                };
            }
            world.ents.set(i, e2);
        }
        i = i + 1;
    }
    proof {
        assert forall|j: int| 0 <= j < n implies live_player_p()(world.ents@[j]) == live_player_p()(
            old(world).ents@[j],
        ) && live_enemy_p()(world.ents@[j]) == live_enemy_p()(old(world).ents@[j]) by {
            assert(world.ents@[j] == animate_step(old(world).ents@[j]));
        }
        lemma_count_where_same(world.ents@, old(world).ents@, live_player_p());
        lemma_count_where_same(world.ents@, old(world).ents@, live_enemy_p());
        assert(world.ents@ =~= animate_all(old(world).ents@));
    }
}

/// One tick of explosion burn-through for a single record: the burn timer
/// advances, and on expiry the frame index steps forward; the entity
/// survives exactly while the index stays below `EXPLOSION_LEN`.
pub open spec fn explosion_step(e: Entity) -> Entity {
    if e.alive && e.explosion is Some && e.explosion_timer is Some {
        let t = e.explosion_timer->Some_0.0;
        let t2 = ExplosionTimer(timer_step(t));
        if timer_fires(t) {
            let idx = (e.sprite_index + 1) as u32;
            Entity {
                explosion_timer: Some(t2),
                sprite_index: idx,
                alive: idx < EXPLOSION_LEN,
                ..e
            }
        } else {
            Entity { explosion_timer: Some(t2), ..e }
        }
    } else {
        e
    }
}

/// The whole store after one tick of explosion burn-through.
pub open spec fn explosion_all(s: Seq<Entity>) -> Seq<Entity> {
    s.map_values(|e: Entity| explosion_step(e))
}

/// Advance every live explosion by one tick, exactly as `explosion_step`
/// says: an explosion despawns exactly when its frame index reaches
/// `EXPLOSION_LEN`. Populations are untouched, since an explosion is
/// neither player nor enemy.
pub fn explosion_animation_system(world: &mut World)
    requires
        old(world).wf(),
    ensures
        final(world).ents@.len() == old(world).ents@.len(),
        forall|i: int|
            0 <= i < old(world).ents@.len() ==> final(world).ents@[i] == explosion_step(
                #[trigger] old(world).ents@[i],
            ),
        final(world).ents@ == explosion_all(old(world).ents@),
        final(world).wf(),
        count_players(final(world).ents@) == count_players(old(world).ents@),
        count_enemies(final(world).ents@) == count_enemies(old(world).ents@),
{
    let n = world.ents.len();
    let mut i: usize = 0;
    while i < n
        invariant
            0 <= i <= n,
            n == world.ents@.len(),
            n == old(world).ents@.len(),
            world_wf(old(world).ents@),
            forall|j: int|
                0 <= j < i ==> world.ents@[j] == explosion_step(#[trigger] old(world).ents@[j])
                    && ent_ok(world.ents@[j]),
            forall|j: int| i <= j < n ==> world.ents@[j] == old(world).ents@[j],
        decreases n - i,
    {
        let e = world.ents[i];
        if e.alive && e.explosion.is_some() && e.explosion_timer.is_some() {
            let mut t = e.explosion_timer.unwrap().0;
            let fired = t.tick();
            let mut e2 = e;
            e2.explosion_timer = Some(ExplosionTimer(t));
            if fired {
                let idx = e.sprite_index + 1;
                e2.sprite_index = idx;
                e2.alive = idx < EXPLOSION_LEN;
            }
            world.ents.set(i, e2);
        }
        i = i + 1;
    }
    proof {
        assert forall|j: int| 0 <= j < n implies live_player_p()(world.ents@[j]) == live_player_p()(
            old(world).ents@[j],
        ) && live_enemy_p()(world.ents@[j]) == live_enemy_p()(old(world).ents@[j]) by {
            let e = old(world).ents@[j];
            assert(ent_ok(e));
            assert(world.ents@[j] == explosion_step(e));
        }
        lemma_count_where_same(world.ents@, old(world).ents@, live_player_p());
        lemma_count_where_same(world.ents@, old(world).ents@, live_enemy_p());
        assert(world.ents@ =~= explosion_all(old(world).ents@));
    }
}

/// Positions queued for an explosion all sit within coordinate range.
pub open spec fn boom_wf(q: Seq<ExplosionToSpawn>) -> bool {
    forall|i: int|
        0 <= i < q.len() ==> mag((#[trigger] q[i]).0.x as int) <= COORD_LIMIT && mag(
            q[i].0.y as int,
        ) <= COORD_LIMIT
}

/// A fresh explosion entity at `pos`: frame zero, burn timer at the
/// standard rate, no other capability.
pub open spec fn explosion_entity(pos: Vec2) -> Entity {
    Entity {
        explosion: Some(Explosion),
        explosion_timer: Some(
            ExplosionTimer(Timer { period: EXPLOSION_FRAME_TICKS, elapsed: 0 }),
        ),
        ..blank_entity(pos)
    }
}

/// The explosion entities that a queue of requests gives rise to, in order.
pub open spec fn explosion_entities(q: Seq<ExplosionToSpawn>) -> Seq<Entity> {
    q.map_values(|b: ExplosionToSpawn| explosion_entity(b.0))
}

/// Drain the queue of explosion requests: one live explosion entity is
/// appended per request, in order, and the queue is left empty. Populations
/// are untouched.
pub fn explosion_to_spawn_system(world: &mut World, boom: &mut Vec<ExplosionToSpawn>)
    requires
        old(world).wf(),
        boom_wf(old(boom)@),
    ensures
        final(world).ents@ == old(world).ents@ + explosion_entities(old(boom)@),
        final(boom)@.len() == 0,
        final(world).wf(),
        count_players(final(world).ents@) == count_players(old(world).ents@),
        count_enemies(final(world).ents@) == count_enemies(old(world).ents@),
{
    let n = boom.len();
    let mut j: usize = 0;
    while j < n
        invariant
            0 <= j <= n,
            n == boom@.len(),
            boom@ == old(boom)@,
            boom_wf(boom@),
            world_wf(old(world).ents@),
            world.ents@ =~= old(world).ents@ + explosion_entities(boom@.subrange(0, j as int)),
            world_wf(world.ents@),
        decreases n - j,
    {
        let b = boom[j];
        let mut e = Entity::blank(b.0);
        e.explosion = Some(Explosion);
        e.explosion_timer = Some(ExplosionTimer(Timer::from_ticks(EXPLOSION_FRAME_TICKS)));
        world.ents.push(e);
        proof {
            assert(e == explosion_entity(b.0));
            assert(explosion_entities(boom@.subrange(0, j + 1)) =~= explosion_entities(
                boom@.subrange(0, j as int),
            ).push(explosion_entity(b.0)));
            assert(world.ents@ =~= old(world).ents@ + explosion_entities(
                boom@.subrange(0, j + 1),
            ));
        }
        j = j + 1;
    }
    proof {
        assert(boom@.subrange(0, n as int) =~= boom@);
    }
    boom.clear();
    proof {
        let app = explosion_entities(old(boom)@);
        assert forall|i: int| 0 <= i < app.len() implies !live_player_p()(#[trigger] app[i])
            && !live_enemy_p()(app[i]) by {
            assert(app[i] == explosion_entity(old(boom)@[i].0));
        }
        lemma_count_where_zero(app, live_player_p());
        lemma_count_where_zero(app, live_enemy_p());
        lemma_count_where_app(old(world).ents@, app, live_player_p());
        lemma_count_where_app(old(world).ents@, app, live_enemy_p());
    }
}

} // verus!
