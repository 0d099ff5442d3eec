//! The library's laws, each proved once and for all over the system specs:
//! edge despawn and wrap renormalization, the single-hit combat outcome,
//! score saturation, orbit continuity and phase commitment, frame-range
//! containment, and explosion termination.
use vstd::prelude::*;
use crate::combat::CombatState;
use crate::combat::enemy_target_p;
use crate::combat::pf_fire;
use crate::combat::pfhe_step;
use crate::combat::pfhe_upto;
use crate::combat::lemma_pfhe_upto_inv;
use crate::combat::sat_score_down;
use crate::combat::sat_score_up;
use crate::components::ExplosionToSpawn;
use crate::components::WinSize;
use crate::components::animate_wf;
use crate::components::timer_fires;
use crate::components::timer_wf;
use crate::components::win_wf;
use crate::enemy::enemy_move_one;
use crate::formation::approach_dist;
use crate::formation::formation_wf;
use crate::formation::lemma_approach_between;
use crate::formation::lemma_approach_continuous;
use crate::formation::lemma_next_angle_in_turn;
use crate::formation::lemma_target_bounds;
use crate::formation::next_angle_spec;
use crate::formation::target_x;
use crate::formation::target_y;
use crate::geom::Vec2;
use crate::lifecycle::animate_step;
use crate::lifecycle::boom_wf;
use crate::lifecycle::band_hi;
use crate::lifecycle::band_lo;
use crate::lifecycle::explosion_step;
use crate::lifecycle::movable_step;
use crate::world::Entity;
use crate::world::count_enemies;
use crate::world::ent_killed;
use crate::world::ent_wf;
use crate::world::first_where;
use crate::world::lemma_first_where_from_props;
use crate::world::world_wf;
use crate::BASE_STEP;
use crate::EXPLOSION_LEN;

verus! {

/// Law: an entity with the despawn exit policy survives this tick's
/// movement exactly when its moved position stays inside the play band —
/// once it exceeds the bounds plus margin it is absent from the store.
pub proof fn lemma_movable_despawn_outside(e: Entity, win: WinSize)
    requires
        e.alive,
        e.velocity is Some,
        e.movable matches Some(m) && m.on_outside_window is Despawn,
    ensures
        ({
            let nx = e.pos.x + e.velocity->Some_0.x * BASE_STEP;
            let ny = e.pos.y + e.velocity->Some_0.y * BASE_STEP;
            movable_step(e, win).alive <==> band_lo(win.width as int) <= nx <= band_hi(
                win.width as int,
            ) && band_lo(win.height as int) <= ny <= band_hi(win.height as int)
        }),
{
}

/// Law: an entity with the wrap exit policy is always renormalized into
/// the play band: after movement both its coordinates lie between bound
/// plus margin on either side, and it stays alive.
pub proof fn lemma_movable_wrap_in_band(e: Entity, win: WinSize)
    requires
        e.alive,
        e.velocity is Some,
        e.movable matches Some(m) && m.on_outside_window is Wrap,
        ent_wf(e),
        win_wf(win),
    ensures
        movable_step(e, win).alive,
        band_lo(win.width as int) <= movable_step(e, win).pos.x <= band_hi(win.width as int),
        band_lo(win.height as int) <= movable_step(e, win).pos.y <= band_hi(win.height as int),
{
}

/// The combat pass does nothing while it walks records that are not live
/// player projectiles.
proof fn lemma_pfhe_upto_id(init: CombatState, k: int)
    requires
        0 <= k <= init.ents.len(),
        forall|j: int| 0 <= j < k ==> !pf_fire(#[trigger] init.ents[j]),
    ensures
        pfhe_upto(init, k) == init,
    decreases k,
{
    if k > 0 {
        lemma_pfhe_upto_id(init, k - 1);
    }
}

/// After the lone projectile's turn, the rest of the pass changes nothing.
proof fn lemma_pfhe_upto_stall(init: CombatState, f: int, k: int)
    requires
        world_wf(init.ents),
        0 <= f < init.ents.len(),
        f + 1 <= k <= init.ents.len(),
        pf_fire(init.ents[f]),
        forall|j: int| 0 <= j < init.ents.len() && j != f ==> !pf_fire(#[trigger] init.ents[j]),
        first_where(init.ents, enemy_target_p(init.ents[f])) is Some,
        pfhe_upto(init, f) == init,
    ensures
        pfhe_upto(init, k) == pfhe_step(init, f),
    decreases k,
{
    let fe = init.ents[f];
    lemma_first_where_from_props(init.ents, enemy_target_p(fe), 0);
    let ei = first_where(init.ents, enemy_target_p(fe))->Some_0;
    assert(enemy_target_p(fe)(init.ents[ei]));
    if k == f + 1 {
        assert(pfhe_upto(init, f + 1) == pfhe_step(pfhe_upto(init, f), f));
    } else {
        lemma_pfhe_upto_stall(init, f, k - 1);
        let st = pfhe_step(init, f);
        assert(st.ents == init.ents.update(ei, ent_killed(init.ents[ei])).update(
            f,
            ent_killed(fe),
        ));
        assert(!pf_fire(st.ents[k - 1]));
        assert(pfhe_upto(init, k) == pfhe_step(pfhe_upto(init, k - 1), k - 1));
    }
}

/// Law: with a single live player projectile in the store, overlapping at
/// least one live enemy, the combat pass despawns exactly that projectile
/// and the first overlapping enemy, lowers the enemy count by exactly one,
/// raises the score by exactly one (saturating), and queues exactly one
/// explosion at the enemy's prior position.
pub proof fn lemma_single_fire_hit(init: CombatState, f: int)
    requires
        world_wf(init.ents),
        init.count == count_enemies(init.ents),
        0 <= init.score <= u32::MAX,
        0 <= f < init.ents.len(),
        pf_fire(init.ents[f]),
        forall|j: int| 0 <= j < init.ents.len() && j != f ==> !pf_fire(#[trigger] init.ents[j]),
        first_where(init.ents, enemy_target_p(init.ents[f])) is Some,
    ensures
        ({
            let ei = first_where(init.ents, enemy_target_p(init.ents[f]))->Some_0;
            let fin = pfhe_upto(init, init.ents.len() as int);
            &&& fin.ents == init.ents.update(ei, ent_killed(init.ents[ei])).update(
                f,
                ent_killed(init.ents[f]),
            )
            &&& !fin.ents[ei].alive
            &&& !fin.ents[f].alive
            &&& fin.count == init.count - 1
            &&& fin.score == sat_score_up(init.score)
            &&& fin.boom == init.boom.push(ExplosionToSpawn(init.ents[ei].pos))
        }),
{
    lemma_pfhe_upto_id(init, f);
    lemma_pfhe_upto_stall(init, f, init.ents.len() as int);
    let fe = init.ents[f];
    lemma_first_where_from_props(init.ents, enemy_target_p(fe), 0);
    let ei = first_where(init.ents, enemy_target_p(fe))->Some_0;
    assert(enemy_target_p(fe)(init.ents[ei]));
    assert(ei != f);
}

/// The combat pass keeps the store's length.
proof fn lemma_pfhe_len(init: CombatState, k: int)
    requires
        0 <= k <= init.ents.len(),
    ensures
        pfhe_upto(init, k).ents.len() == init.ents.len(),
    decreases k,
{
    if k > 0 {
        lemma_pfhe_len(init, k - 1);
        let st = pfhe_upto(init, k - 1);
        let fe = st.ents[k - 1];
        if pf_fire(fe) {
            lemma_first_where_from_props(st.ents, enemy_target_p(fe), 0);
        }
        assert(pfhe_upto(init, k) == pfhe_step(st, k - 1));
    }
}

/// The combat pass never revives a record: once despawned within the
/// pass, a record stays despawned to the end of the pass.
pub proof fn lemma_pfhe_no_revival(init: CombatState, j: int, k1: int, k2: int)
    requires
        0 <= k1 <= k2 <= init.ents.len(),
        0 <= j < init.ents.len(),
        !pfhe_upto(init, k1).ents[j].alive,
    ensures
        !pfhe_upto(init, k2).ents[j].alive,
    decreases k2 - k1,
{
    if k2 > k1 {
        lemma_pfhe_no_revival(init, j, k1, k2 - 1);
        lemma_pfhe_len(init, k2 - 1);
        let st = pfhe_upto(init, k2 - 1);
        let fe = st.ents[k2 - 1];
        if pf_fire(fe) {
            lemma_first_where_from_props(st.ents, enemy_target_p(fe), 0);
        }
        assert(pfhe_upto(init, k2) == pfhe_step(st, k2 - 1));
    }
}

/// Law, for any store: a live player projectile that still lives when its
/// turn in the combat pass comes, and that overlaps at least one live
/// enemy at that moment, fells the first such enemy. Both are absent from
/// the store after the pass, and at that turn the enemy count drops by
/// exactly one, the score rises by exactly one (saturating), and exactly
/// one explosion is queued at the enemy's position.
pub proof fn lemma_fire_hit_outcome(init: CombatState, fidx: int)
    requires
        world_wf(init.ents),
        init.count == count_enemies(init.ents),
        0 <= init.score <= u32::MAX,
        boom_wf(init.boom),
        0 <= fidx < init.ents.len(),
        pf_fire(pfhe_upto(init, fidx).ents[fidx]),
        first_where(
            pfhe_upto(init, fidx).ents,
            enemy_target_p(pfhe_upto(init, fidx).ents[fidx]),
        ) is Some,
    ensures
        ({
            let st = pfhe_upto(init, fidx);
            let ei = first_where(st.ents, enemy_target_p(st.ents[fidx]))->Some_0;
            let fin = pfhe_upto(init, init.ents.len() as int);
            &&& !fin.ents[fidx].alive
            &&& !fin.ents[ei].alive
            &&& pfhe_upto(init, fidx + 1).count == st.count - 1
            &&& pfhe_upto(init, fidx + 1).score == sat_score_up(st.score)
            &&& pfhe_upto(init, fidx + 1).boom == st.boom.push(ExplosionToSpawn(st.ents[ei].pos))
        }),
{
    let st = pfhe_upto(init, fidx);
    lemma_pfhe_len(init, fidx);
    lemma_pfhe_upto_inv(init, fidx);
    let fe = st.ents[fidx];
    lemma_first_where_from_props(st.ents, enemy_target_p(fe), 0);
    let ei = first_where(st.ents, enemy_target_p(fe))->Some_0;
    assert(enemy_target_p(fe)(st.ents[ei]));
    assert(ent_wf(st.ents[ei]) && ent_wf(fe));
    assert(ei != fidx);
    assert(pfhe_upto(init, fidx + 1) == pfhe_step(st, fidx));
    assert(!pfhe_upto(init, fidx + 1).ents[fidx].alive);
    assert(!pfhe_upto(init, fidx + 1).ents[ei].alive);
    lemma_pfhe_no_revival(init, fidx, fidx + 1, init.ents.len() as int);
    lemma_pfhe_no_revival(init, ei, fidx + 1, init.ents.len() as int);
}

/// Law: the score saturates at zero — a hit on the player at score zero
/// leaves it at zero, and the score can never go below zero.
pub proof fn lemma_score_saturates_at_zero(sc: int)
    requires
        0 <= sc,
    ensures
        sat_score_down(sc) >= 0,
        sc == 0 ==> sat_score_down(sc) == 0,
        sat_score_up(sc) > 0,
{
}

/// Law: formation motion is continuous — in one tick an enemy moves by at
/// most its speed in fine units, measured in the Euclidean metric.
pub proof fn lemma_enemy_move_continuous(e: Entity)
    requires
        e.alive,
        e.enemy is Some,
        e.formation is Some,
        ent_wf(e),
    ensures
        ({
            let q = enemy_move_one(e);
            let sp = e.formation->Some_0.speed;
            (q.pos.x - e.pos.x) * (q.pos.x - e.pos.x) + (q.pos.y - e.pos.y) * (q.pos.y - e.pos.y)
                <= sp * sp
        }),
{
    let f = e.formation->Some_0;
    let a2 = next_angle_spec(f);
    lemma_next_angle_in_turn(f);
    lemma_target_bounds(f, a2);
    let tgt = Vec2 { x: target_x(f, a2) as i64, y: target_y(f, a2) as i64 };
    lemma_approach_continuous(e.pos, tgt, f.speed as int);
    lemma_approach_between(e.pos, tgt, f.speed as int);
}

/// Law: the orbit phase is committed exactly when the enemy stands within
/// the speed-scaled threshold of its target point; farther out it keeps
/// steering toward the old target, so the path converges onto the ellipse
/// without snapping.
pub proof fn lemma_orbit_commit(e: Entity)
    requires
        e.alive,
        e.enemy is Some,
        e.formation is Some,
        ent_wf(e),
    ensures
        ({
            let f = e.formation->Some_0;
            let a2 = next_angle_spec(f);
            let tgt = Vec2 { x: target_x(f, a2) as i64, y: target_y(f, a2) as i64 };
            enemy_move_one(e).formation->Some_0.angle as int == if approach_dist(e.pos, tgt)
                < f.speed * f.speed / 20 {
                a2
            } else {
                f.angle as int
            }
        }),
{
    let f = e.formation->Some_0;
    lemma_next_angle_in_turn(f);
}

/// Law: whenever the frame timer fires, the updated frame index lands
/// inside the entity's inclusive frame range, whatever it was before; and
/// an index already in range never leaves it.
pub proof fn lemma_animate_in_range(e: Entity)
    requires
        e.alive,
        e.animate matches Some(a) && animate_wf(a),
    ensures
        timer_fires(e.animate->Some_0.timer) ==> e.animate->Some_0.range_start <= animate_step(
            e,
        ).sprite_index <= e.animate->Some_0.range_end,
        !timer_fires(e.animate->Some_0.timer) ==> animate_step(e).sprite_index == e.sprite_index,
        e.animate->Some_0.range_start <= e.sprite_index <= e.animate->Some_0.range_end
            ==> e.animate->Some_0.range_start <= animate_step(e).sprite_index
            <= e.animate->Some_0.range_end,
{
}

/// Law: an explosion despawns exactly when its frame index reaches
/// `EXPLOSION_LEN` — never before, and it never lingers after.
pub proof fn lemma_explosion_terminal(e: Entity)
    requires
        e.alive,
        e.explosion is Some,
        e.explosion_timer matches Some(t) && timer_wf(t.0),
        e.sprite_index < EXPLOSION_LEN,
    ensures
        timer_fires(e.explosion_timer->Some_0.0) ==> (explosion_step(e).alive <==> e.sprite_index
            + 1 < EXPLOSION_LEN),
        timer_fires(e.explosion_timer->Some_0.0) ==> explosion_step(e).sprite_index
            == e.sprite_index + 1,
        !timer_fires(e.explosion_timer->Some_0.0) ==> explosion_step(e).alive && explosion_step(
            e,
        ).sprite_index == e.sprite_index,
{
}

} // verus!
