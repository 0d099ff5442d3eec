//! Collision and combat: player fire against enemies, and enemy fire
//! against the player. Overlap is the half-extent axis-aligned box test on
//! scaled sprite extents; hits despawn both parties, adjust the score and
//! the enemy count, and queue an explosion at the victim's position.
use vstd::prelude::*;
use vstd::pervasive::VecAdditionalExecFns;
use vstd::arithmetic::div_mod::lemma_div_pos_is_pos;
use vstd::arithmetic::div_mod::lemma_multiply_divide_le;
use crate::components::ExplosionToSpawn;
use crate::components::PlayerState;
use crate::geom::Vec2;
use crate::geom::collide;
use crate::geom::mag;
use crate::geom::overlaps;
use crate::lifecycle::boom_wf;
use crate::player::find_first_player;
use crate::world::Entity;
use crate::world::World;
use crate::world::count_enemies;
use crate::world::count_players;
use crate::world::ent_killed;
use crate::world::ent_wf;
use crate::world::first_where;
use crate::world::first_where_from;
use crate::world::lemma_count_where_index;
use crate::world::lemma_count_where_update;
use crate::world::lemma_first_where_from_props;
use crate::world::live_player_p;
use crate::world::live_enemy_p;
use crate::world::world_wf;
use crate::SIZE_LIMIT;

verus! {

/// Collision extent of an entity: its sprite extent scaled by the
/// magnitude of its per-axis scale, in percent.
pub open spec fn scaled_size(e: Entity) -> Vec2 {
    let z = e.sprite_size->Some_0.0;
    Vec2 {
        x: (z.x * mag(e.scale_x as int) / 100) as i64,
        y: (z.y * e.scale_y / 100) as i64,
    }
}

/// Whether the scaled boxes of two collidable entities overlap.
pub open spec fn hits(a: Entity, b: Entity) -> bool {
    overlaps(a.pos, scaled_size(a), b.pos, scaled_size(b))
}

/// A live, collidable projectile of the player.
pub open spec fn pf_fire(e: Entity) -> bool {
    e.alive && e.fire is Some && e.from_player is Some && e.sprite_size is Some
}

/// A live, collidable enemy that the given projectile overlaps.
pub open spec fn enemy_target_p(fe: Entity) -> spec_fn(Entity) -> bool {
    |t: Entity| t.alive && t.enemy is Some && t.sprite_size is Some && hits(fe, t)
}

/// A live, collidable enemy projectile overlapping the given player.
pub open spec fn ef_fire_at_p(p: Entity) -> spec_fn(Entity) -> bool {
    |e: Entity| e.alive && e.fire is Some && e.from_enemy is Some && e.sprite_size is Some
        && hits(e, p)
}

/// The score after one point gained, saturating at the counter's maximum.
pub open spec fn sat_score_up(sc: int) -> int {
    if sc + 1 > u32::MAX {
        u32::MAX as int
    } else {
        sc + 1
    }
}

/// The score after one point lost, saturating at zero.
pub open spec fn sat_score_down(sc: int) -> int {
    if sc >= 1 {
        sc - 1
    } else {
        0
    }
}

/// Compute the collision extent of an entity.
pub fn scaled_size_of(e: &Entity) -> (z: Vec2)
    requires
        e.sprite_size is Some,
        ent_wf(*e),
    ensures
        z == scaled_size(*e),
        0 <= z.x <= SIZE_LIMIT,
        0 <= z.y <= SIZE_LIMIT,
{
    let s = e.sprite_size.unwrap().0;
    let sx = if e.scale_x < 0 {
        -e.scale_x
    } else {
        e.scale_x
    };
    assert(0 <= s.x * sx <= 100 * s.x && 0 <= s.y * e.scale_y <= 100 * s.y) by (nonlinear_arith)
        requires 0 <= s.x, 0 <= s.y, 0 <= sx <= 100, 0 <= e.scale_y <= 100;
    proof {
        lemma_div_pos_is_pos(s.x * sx, 100);
        lemma_div_pos_is_pos(s.y * e.scale_y, 100);
        lemma_multiply_divide_le(s.x * sx, 100, s.x as int);
        lemma_multiply_divide_le(s.y * e.scale_y, 100, s.y as int);
    }
    Vec2 { x: (s.x * sx) / 100, y: (s.y * e.scale_y) / 100 }
}

/// Index of the first live enemy whose box the given projectile overlaps.
fn find_enemy_hit(world: &World, fe: &Entity) -> (r: Option<usize>)
    requires
        world.wf(),
        ent_wf(*fe),
        fe.sprite_size is Some,
    ensures
        r matches Some(j) ==> first_where(world.ents@, enemy_target_p(*fe)) == Some(j as int) && j
            < world.ents@.len(),
        r is None ==> first_where(world.ents@, enemy_target_p(*fe)) is None,
{
    let fsz = scaled_size_of(fe);
    let n = world.ents.len();
    let mut j: usize = 0;
    while j < n
        invariant
            0 <= j <= n,
            n == world.ents@.len(),
            world.wf(),
            ent_wf(*fe),
            fe.sprite_size is Some,
            fsz == scaled_size(*fe),
            0 <= fsz.x <= SIZE_LIMIT,
            0 <= fsz.y <= SIZE_LIMIT,
            first_where_from(world.ents@, enemy_target_p(*fe), 0) == first_where_from(
                world.ents@,
                enemy_target_p(*fe),
                j as int,
            ),
        decreases n - j,
    {
        let t = world.ents[j];
        if t.alive && t.enemy.is_some() && t.sprite_size.is_some() {
            let tsz = scaled_size_of(&t);
            if collide(fe.pos, fsz, t.pos, tsz) {
                return Some(j);
            }
        }
        j = j + 1;
    }
    None
}

/// The whole combat bookkeeping carried through one collision pass.
pub struct CombatState {
    pub ents: Seq<Entity>,
    pub count: int,
    pub score: int,
    pub boom: Seq<ExplosionToSpawn>,
}

/// One projectile's turn of the player-fire pass: if record `f` is a live
/// player projectile and some live enemy overlaps it, the first such enemy
/// and the projectile both despawn, the enemy count drops by one, the
/// score rises by one (saturating), and an explosion is queued at the
/// enemy's position; otherwise nothing changes.
pub open spec fn pfhe_step(st: CombatState, f: int) -> CombatState {
    let fe = st.ents[f];
    if pf_fire(fe) {
        match first_where(st.ents, enemy_target_p(fe)) {
            Some(ei) => {
                let en = st.ents[ei];
                CombatState {
                    ents: st.ents.update(ei, ent_killed(en)).update(f, ent_killed(fe)),
                    count: st.count - 1,
                    score: sat_score_up(st.score),
                    boom: st.boom.push(ExplosionToSpawn(en.pos)),
                }
            },
            None => st,
        }
    } else {
        st
    }
}

/// The combat state after the pass has worked through the first `k`
/// records in store order.
pub open spec fn pfhe_upto(init: CombatState, k: int) -> CombatState
    decreases k,
{
    if k <= 0 {
        init
    } else {
        pfhe_step(pfhe_upto(init, k - 1), k - 1)
    }
}

/// The pass keeps the store well formed, keeps the enemy count equal to
/// the live enemies, never touches the player population, and keeps the
/// score and queued positions in range.
pub proof fn lemma_pfhe_upto_inv(init: CombatState, k: int)
    requires
        0 <= k <= init.ents.len(),
        world_wf(init.ents),
        init.count == count_enemies(init.ents),
        0 <= init.score <= u32::MAX,
        boom_wf(init.boom),
    ensures
        pfhe_upto(init, k).ents.len() == init.ents.len(),
        world_wf(pfhe_upto(init, k).ents),
        pfhe_upto(init, k).count == count_enemies(pfhe_upto(init, k).ents),
        pfhe_upto(init, k).count <= init.count,
        0 <= pfhe_upto(init, k).score <= u32::MAX,
        count_players(pfhe_upto(init, k).ents) == count_players(init.ents),
        boom_wf(pfhe_upto(init, k).boom),
    decreases k,
{
    if k > 0 {
        lemma_pfhe_upto_inv(init, k - 1);
        let st = pfhe_upto(init, k - 1);
        let fe = st.ents[k - 1];
        if pf_fire(fe) {
            match first_where(st.ents, enemy_target_p(fe)) {
                Some(ei) => {
                    lemma_first_where_from_props(st.ents, enemy_target_p(fe), 0);
                    assert(enemy_target_p(fe)(st.ents[ei]));
                    let en = st.ents[ei];
                    assert(ent_wf(en));
                    assert(ent_wf(fe));
                    assert(ei != k - 1);
                    let s1 = st.ents.update(ei, ent_killed(en));
                    let s2 = s1.update(k - 1, ent_killed(fe));
                    lemma_count_where_update(st.ents, live_enemy_p(), ei, ent_killed(en));
                    lemma_count_where_update(s1, live_enemy_p(), k - 1, ent_killed(fe));
                    lemma_count_where_update(st.ents, live_player_p(), ei, ent_killed(en));
                    lemma_count_where_update(s1, live_player_p(), k - 1, ent_killed(fe));
                    assert(world_wf(s2));
                    assert forall|i: int| 0 <= i < st.boom.push(ExplosionToSpawn(en.pos)).len()
                        implies mag(
                        (#[trigger] st.boom.push(ExplosionToSpawn(en.pos))[i]).0.x as int,
                    ) <= crate::COORD_LIMIT && mag(
                        st.boom.push(ExplosionToSpawn(en.pos))[i].0.y as int,
                    ) <= crate::COORD_LIMIT by {
                        if i < st.boom.len() {
                            assert(st.boom.push(ExplosionToSpawn(en.pos))[i] == st.boom[i]);
                        }
                    }
                },
                None => {},
            }
        }
    }
}

/// One full pass of player fire against enemies over the tick's snapshot:
/// the result is exactly `pfhe_upto` folded over every record in store
/// order, so each projectile fells at most the first enemy it overlaps,
/// already-felled parties are skipped, the enemy count tracks the live
/// enemies, the score saturates upward, and one explosion is queued per
/// felled enemy.
pub fn player_fire_hit_enemy_system(
    world: &mut World,
    enemy_count: &mut u32,
    score: &mut u32,
    boom: &mut Vec<ExplosionToSpawn>,
)
    requires
        old(world).wf(),
        *old(enemy_count) == count_enemies(old(world).ents@),
        boom_wf(old(boom)@),
    ensures
        ({
            let fin = pfhe_upto(
                CombatState {
                    ents: old(world).ents@,
                    count: *old(enemy_count) as int,
                    score: *old(score) as int,
                    boom: old(boom)@,
                },
                old(world).ents@.len() as int,
            );
            final(world).ents@ == fin.ents && *final(enemy_count) as int == fin.count
                && *final(score) as int == fin.score && final(boom)@ == fin.boom
        }),
        final(world).wf(),
        final(world).ents@.len() == old(world).ents@.len(),
        *final(enemy_count) == count_enemies(final(world).ents@),
        *final(enemy_count) <= *old(enemy_count),
        count_players(final(world).ents@) == count_players(old(world).ents@),
        boom_wf(final(boom)@),
{
    let ghost init = CombatState {
        ents: old(world).ents@,
        count: *old(enemy_count) as int,
        score: *old(score) as int,
        boom: old(boom)@,
    };
    let n = world.ents.len();
    let mut f: usize = 0;
    while f < n
        invariant
            0 <= f <= n,
            n == old(world).ents@.len(),
            init == (CombatState {
                ents: old(world).ents@,
                count: *old(enemy_count) as int,
                score: *old(score) as int,
                boom: old(boom)@,
            }),
            world_wf(init.ents),
            init.count == count_enemies(init.ents),
            0 <= init.score <= u32::MAX,
            boom_wf(init.boom),
            world.ents@ == pfhe_upto(init, f as int).ents,
            *enemy_count as int == pfhe_upto(init, f as int).count,
            *score as int == pfhe_upto(init, f as int).score,
            boom@ == pfhe_upto(init, f as int).boom,
        decreases n - f,
    {
        proof {
            lemma_pfhe_upto_inv(init, f as int);
            lemma_pfhe_upto_inv(init, f as int + 1);
        }
        let ghost st = pfhe_upto(init, f as int);
        let e = world.ents[f];
        if e.alive && e.fire.is_some() && e.from_player.is_some() && e.sprite_size.is_some() {
            proof {
                assert(ent_wf(e));
            }
            match find_enemy_hit(world, &e) {
                Some(ei) => {
                    proof {
                        lemma_first_where_from_props(st.ents, enemy_target_p(e), 0);
                        assert(enemy_target_p(e)(st.ents[ei as int]));
                        lemma_count_where_index(st.ents, live_enemy_p(), ei as int);
                    }
                    let en = world.ents[ei];
                    let mut en2 = en;
                    en2.alive = false;
                    world.ents.set(ei, en2);
                    *enemy_count = *enemy_count - 1;
                    let mut e2 = e;
                    e2.alive = false;
                    world.ents.set(f, e2);
                    *score = if *score == u32::MAX {
                        u32::MAX
                    } else {
                        *score + 1
                    };
                    boom.push(ExplosionToSpawn(en.pos));
                    proof {
                        assert(en2 == ent_killed(en));
                        assert(e2 == ent_killed(e));
                        assert(pfhe_upto(init, f as int + 1) == pfhe_step(st, f as int));
                    }
                },
                None => {
                    proof {
                        assert(pfhe_upto(init, f as int + 1) == pfhe_step(st, f as int));
                        assert(pfhe_step(st, f as int) == st);
                    }
                },
            }
        } else {
            proof {
                assert(pfhe_upto(init, f as int + 1) == pfhe_step(st, f as int));
                assert(!pf_fire(st.ents[f as int]));
                assert(pfhe_step(st, f as int) == st);
            }
        }
        f = f + 1;
    }
    proof {
        lemma_pfhe_upto_inv(init, n as int);
    }
}

/// Index of the first live enemy projectile whose box overlaps the player.
fn find_fire_hit(world: &World, p: &Entity) -> (r: Option<usize>)
    requires
        world.wf(),
        ent_wf(*p),
        p.sprite_size is Some,
    ensures
        r matches Some(j) ==> first_where(world.ents@, ef_fire_at_p(*p)) == Some(j as int) && j
            < world.ents@.len(),
        r is None ==> first_where(world.ents@, ef_fire_at_p(*p)) is None,
{
    let psz = scaled_size_of(p);
    let n = world.ents.len();
    let mut j: usize = 0;
    while j < n
        invariant
            0 <= j <= n,
            n == world.ents@.len(),
            world.wf(),
            ent_wf(*p),
            p.sprite_size is Some,
            psz == scaled_size(*p),
            0 <= psz.x <= SIZE_LIMIT,
            0 <= psz.y <= SIZE_LIMIT,
            first_where_from(world.ents@, ef_fire_at_p(*p), 0) == first_where_from(
                world.ents@,
                ef_fire_at_p(*p),
                j as int,
            ),
        decreases n - j,
    {
        let e = world.ents[j];
        if e.alive && e.fire.is_some() && e.from_enemy.is_some() && e.sprite_size.is_some() {
            let esz = scaled_size_of(&e);
            if collide(e.pos, esz, p.pos, psz) {
                return Some(j);
            }
        }
        j = j + 1;
    }
    None
}

/// The outcome of the enemy-fire pass: the store, the player state, the
/// score and the explosion queue.
pub struct HitOutcome {
    pub ents: Seq<Entity>,
    pub state: PlayerState,
    pub score: int,
    pub boom: Seq<ExplosionToSpawn>,
}

/// The whole enemy-fire pass as a function of its inputs: if a player is
/// on the field and some live enemy projectile overlaps it, the player and
/// the first such projectile despawn, the shot is recorded at `now`, the
/// score drops by one saturating at zero, and one explosion is queued at
/// the player's position; otherwise nothing changes.
pub open spec fn efhp_spec(
    s: Seq<Entity>,
    st: PlayerState,
    sc: int,
    boom: Seq<ExplosionToSpawn>,
    now: i64,
) -> HitOutcome {
    match first_where(s, live_player_p()) {
        Some(pi) => match first_where(s, ef_fire_at_p(s[pi])) {
            Some(fi) => HitOutcome {
                ents: s.update(pi, ent_killed(s[pi])).update(fi, ent_killed(s[fi])),
                state: PlayerState { on: false, last_shot: now },
                score: sat_score_down(sc),
                boom: boom.push(ExplosionToSpawn(s[pi].pos)),
            },
            None => HitOutcome { ents: s, state: st, score: sc, boom },
        },
        None => HitOutcome { ents: s, state: st, score: sc, boom },
    }
}

/// One pass of enemy fire against the player: if a player is on the field
/// and some live enemy projectile overlaps it, the player and the first
/// such projectile both despawn, the shot is recorded at `now`, the score
/// drops by one saturating at zero, and an explosion is queued at the
/// player's position. The player can die at most once per tick; with no
/// player or no overlapping projectile nothing changes.
pub fn enemy_fire_hit_player_system(
    world: &mut World,
    player_state: &mut PlayerState,
    score: &mut u32,
    boom: &mut Vec<ExplosionToSpawn>,
    now: i64,
)
    requires
        old(world).wf(),
        boom_wf(old(boom)@),
    ensures
        final(world).wf(),
        final(world).ents@.len() == old(world).ents@.len(),
        boom_wf(final(boom)@),
        count_enemies(final(world).ents@) == count_enemies(old(world).ents@),
        ({
            let out = efhp_spec(
                old(world).ents@,
                *old(player_state),
                *old(score) as int,
                old(boom)@,
                now,
            );
            final(world).ents@ == out.ents && *final(player_state) == out.state
                && *final(score) as int == out.score && final(boom)@ == out.boom
        }),
        ({
            let s = old(world).ents@;
            match first_where(s, live_player_p()) {
                Some(pi) => match first_where(s, ef_fire_at_p(s[pi])) {
                    Some(fi) => {
                        &&& final(world).ents@ == s.update(pi, ent_killed(s[pi])).update(
                            fi,
                            ent_killed(s[fi]),
                        )
                        &&& *final(player_state) == (PlayerState { on: false, last_shot: now })
                        &&& *final(score) as int == sat_score_down(*old(score) as int)
                        &&& final(boom)@ == old(boom)@.push(ExplosionToSpawn(s[pi].pos))
                        &&& count_players(final(world).ents@) == count_players(s) - 1
                    },
                    None => final(world).ents@ == s && *final(player_state) == *old(player_state)
                        && *final(score) == *old(score) && final(boom)@ == old(boom)@
                        && count_players(final(world).ents@) == count_players(s),
                },
                None => final(world).ents@ == s && *final(player_state) == *old(player_state)
                    && *final(score) == *old(score) && final(boom)@ == old(boom)@ && count_players(
                    final(world).ents@,
                ) == count_players(s),
            }
        }),
{
    match find_first_player(world) {
        Some(pi) => {
            let p = world.ents[pi];
            proof {
                assert(ent_wf(p));
            }
            match find_fire_hit(world, &p) {
                Some(fi) => {
                    proof {
                        lemma_first_where_from_props(world.ents@, ef_fire_at_p(p), 0);
                        assert(ef_fire_at_p(p)(world.ents@[fi as int]));
                        assert(pi != fi);
                        lemma_count_where_update(
                            world.ents@,
                            live_player_p(),
                            pi as int,
                            ent_killed(p),
                        );
                        lemma_count_where_update(
                            world.ents@,
                            live_enemy_p(),
                            pi as int,
                            ent_killed(p),
                        );
                    }
                    let fe = world.ents[fi];
                    let mut p2 = p;
                    p2.alive = false;
                    world.ents.set(pi, p2);
                    proof {
                        lemma_count_where_update(
                            world.ents@,
                            live_player_p(),
                            fi as int,
                            ent_killed(fe),
                        );
                        lemma_count_where_update(
                            world.ents@,
                            live_enemy_p(),
                            fi as int,
                            ent_killed(fe),
                        );
                    }
                    player_state.shot(now);
                    let mut f2 = fe;
                    f2.alive = false;
                    world.ents.set(fi, f2);
                    *score = if *score == 0 {
                        0
                    } else {
                        *score - 1
                    };
                    boom.push(ExplosionToSpawn(p.pos));
                    proof {
                        assert(p2 == ent_killed(p));
                        assert(f2 == ent_killed(fe));
                    }
                },
                None => {},
            }
        },
        None => {},
    }
}

} // verus!
