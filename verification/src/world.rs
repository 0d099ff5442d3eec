//! The entity store: an arena of plain records, each holding a position and
//! the optional components that grant it capabilities. Despawned entities
//! stay in place with `alive` cleared, so a system iterating the arena sees
//! a stable snapshot even while it despawns or spawns entities.
use vstd::prelude::*;
use crate::components::Animate;
use crate::components::Enemy;
use crate::components::Explosion;
use crate::components::ExplosionTimer;
use crate::components::Fire;
use crate::components::FromEnemy;
use crate::components::FromPlayer;
use crate::components::Movable;
use crate::components::Player;
use crate::components::SpriteSize;
use crate::components::Velocity;
use crate::components::animate_wf;
use crate::components::timer_wf;
use crate::formation::Formation;
use crate::formation::formation_wf;
use crate::geom::Vec2;
use crate::geom::mag;
use crate::COORD_LIMIT;
use crate::EXPLOSION_LEN;
use crate::SIZE_LIMIT;
use crate::VEL_LIMIT;

verus! {

/// One simulation object: position, facing and scale in percent, a sprite
/// frame, and optional components. A missing component simply means the
/// entity lacks that capability.
#[derive(Clone, Copy, Debug)]
pub struct Entity {
    pub alive: bool,
    pub pos: Vec2,
    pub scale_x: i64,
    pub scale_y: i64,
    pub sprite_index: u32,
    pub velocity: Option<Velocity>,
    pub sprite_size: Option<SpriteSize>,
    pub movable: Option<Movable>,
    pub formation: Option<Formation>,
    pub animate: Option<Animate>,
    pub explosion_timer: Option<ExplosionTimer>,
    pub player: Option<Player>,
    pub from_player: Option<FromPlayer>,
    pub enemy: Option<Enemy>,
    pub from_enemy: Option<FromEnemy>,
    pub fire: Option<Fire>,
    pub explosion: Option<Explosion>,
}

/// Bounds and tag sanity every live entity obeys: coordinates and
/// components within arithmetic range; the player wrap-moving, steerable,
/// collidable, and never doubling as enemy, fire or explosion; enemies
/// steered only by their formation; live explosions always mid-sequence.
pub open spec fn ent_wf(e: Entity) -> bool {
    &&& mag(e.pos.x as int) <= COORD_LIMIT
    &&& mag(e.pos.y as int) <= COORD_LIMIT
    &&& 1 <= mag(e.scale_x as int) <= 100
    &&& 1 <= e.scale_y <= 100
    &&& (e.velocity matches Some(v) ==> mag(v.x as int) <= VEL_LIMIT && mag(v.y as int)
        <= VEL_LIMIT)
    &&& (e.sprite_size matches Some(z) ==> 0 <= z.0.x <= SIZE_LIMIT && 0 <= z.0.y <= SIZE_LIMIT)
    &&& (e.formation matches Some(f) ==> formation_wf(f))
    &&& (e.animate matches Some(a) ==> animate_wf(a))
    &&& (e.explosion_timer matches Some(t) ==> timer_wf(t.0))
    &&& (e.player is Some ==> e.enemy is None && e.fire is None && e.explosion is None
        && e.sprite_size is Some && e.velocity is Some && e.animate is Some && (
    e.movable matches Some(m) && m.on_outside_window is Wrap))
    &&& (e.enemy is Some ==> e.fire is None && e.explosion is None && e.movable is None
        && e.formation is Some && e.sprite_size is Some)
    &&& (e.fire is Some ==> e.sprite_size is Some && e.explosion is None)
    &&& (e.explosion is Some ==> e.explosion_timer is Some && e.animate is None
        && e.sprite_index < EXPLOSION_LEN)
}

/// A despawned record is inert, so only live records must be well formed.
pub open spec fn ent_ok(e: Entity) -> bool {
    e.alive ==> ent_wf(e)
}

pub open spec fn world_wf(s: Seq<Entity>) -> bool {
    forall|i: int| 0 <= i < s.len() ==> ent_ok(#[trigger] s[i])
}

/// The arena of entity records.
pub struct World {
    pub ents: Vec<Entity>,
}

impl World {
    pub open spec fn wf(self) -> bool {
        world_wf(self.ents@)
    }

    /// An empty store.
    pub fn new() -> (w: World)
        ensures
            w.ents@.len() == 0,
            w.wf(),
    {
        World { ents: Vec::new() }
    }
}

/// A fresh record at `pos` with no components, facing right at full scale.
pub open spec fn blank_entity(pos: Vec2) -> Entity {
    Entity {
        alive: true,
        pos,
        scale_x: 100i64,
        scale_y: 100i64,
        sprite_index: 0u32,
        velocity: None,
        sprite_size: None,
        movable: None,
        formation: None,
        animate: None,
        explosion_timer: None,
        player: None,
        from_player: None,
        enemy: None,
        from_enemy: None,
        fire: None,
        explosion: None,
    }
}

impl Entity {
    /// Build a fresh record at `pos` with no components.
    pub fn blank(pos: Vec2) -> (e: Entity)
        ensures
            e == blank_entity(pos),
    {
        Entity {
            alive: true,
            pos,
            scale_x: 100,
            scale_y: 100,
            sprite_index: 0,
            velocity: None,
            sprite_size: None,
            movable: None,
            formation: None,
            animate: None,
            explosion_timer: None,
            player: None,
            from_player: None,
            enemy: None,
            from_enemy: None,
            fire: None,
            explosion: None,
        }
    }
}

/// How many records of `s` satisfy `p`.
pub open spec fn count_where(s: Seq<Entity>, p: spec_fn(Entity) -> bool) -> int
    decreases s.len(),
{
    if s.len() == 0 {
        0
    } else {
        count_where(s.drop_last(), p) + if p(s.last()) {
            1int
        } else {
            0int
        }
    }
}

pub proof fn lemma_count_where_bounds(s: Seq<Entity>, p: spec_fn(Entity) -> bool)
    ensures
        0 <= count_where(s, p) <= s.len(),
    decreases s.len(),
{
    if s.len() > 0 {
        lemma_count_where_bounds(s.drop_last(), p);
    }
}

pub proof fn lemma_count_where_push(s: Seq<Entity>, p: spec_fn(Entity) -> bool, e: Entity)
    ensures
        count_where(s.push(e), p) == count_where(s, p) + if p(e) {
            1int
        } else {
            0int
        },
{
    assert(s.push(e).drop_last() =~= s);
    assert(s.push(e).last() == e);
}

pub proof fn lemma_count_where_update(
    s: Seq<Entity>,
    p: spec_fn(Entity) -> bool,
    i: int,
    e: Entity,
)
    requires
        0 <= i < s.len(),
    ensures
        count_where(s.update(i, e), p) == count_where(s, p) - (if p(s[i]) {
            1int
        } else {
            0int
        }) + (if p(e) {
            1int
        } else {
            0int
        }),
    decreases s.len(),
{
    let t = s.update(i, e);
    assert(t.len() == s.len());
    if i == s.len() - 1 {
        assert(t.drop_last() =~= s.drop_last());
        assert(t.last() == e);
    } else {
        assert(t.drop_last() =~= s.drop_last().update(i, e));
        assert(t.last() == s.last());
        lemma_count_where_update(s.drop_last(), p, i, e);
    }
}

/// Two stores of equal length whose records agree on `p` index by index
/// hold the same count.
pub proof fn lemma_count_where_same(s1: Seq<Entity>, s2: Seq<Entity>, p: spec_fn(Entity) -> bool)
    requires
        s1.len() == s2.len(),
        forall|i: int| 0 <= i < s1.len() ==> p(#[trigger] s1[i]) == p(#[trigger] s2[i]),
    ensures
        count_where(s1, p) == count_where(s2, p),
    decreases s1.len(),
{
    if s1.len() > 0 {
        assert forall|i: int| 0 <= i < s1.drop_last().len() implies p(
            #[trigger] s1.drop_last()[i],
        ) == p(#[trigger] s2.drop_last()[i]) by {
            assert(s1.drop_last()[i] == s1[i]);
            assert(s2.drop_last()[i] == s2[i]);
        }
        lemma_count_where_same(s1.drop_last(), s2.drop_last(), p);
        assert(p(s1.last()) == p(s2[s1.len() - 1]));
    }
}

pub proof fn lemma_count_where_app(s1: Seq<Entity>, s2: Seq<Entity>, p: spec_fn(Entity) -> bool)
    ensures
        count_where(s1 + s2, p) == count_where(s1, p) + count_where(s2, p),
    decreases s2.len(),
{
    if s2.len() == 0 {
        assert(s1 + s2 =~= s1);
    } else {
        assert((s1 + s2).drop_last() =~= s1 + s2.drop_last());
        assert((s1 + s2).last() == s2.last());
        lemma_count_where_app(s1, s2.drop_last(), p);
    }
}

/// A store none of whose records satisfy `p` counts zero.
pub proof fn lemma_count_where_zero(s: Seq<Entity>, p: spec_fn(Entity) -> bool)
    requires
        forall|i: int| 0 <= i < s.len() ==> !p(#[trigger] s[i]),
    ensures
        count_where(s, p) == 0,
    decreases s.len(),
{
    if s.len() > 0 {
        assert forall|i: int| 0 <= i < s.drop_last().len() implies !p(
            #[trigger] s.drop_last()[i],
        ) by {
            assert(s.drop_last()[i] == s[i]);
        }
        lemma_count_where_zero(s.drop_last(), p);
    }
}

/// A record satisfying `p` witnesses a positive count.
pub proof fn lemma_count_where_index(s: Seq<Entity>, p: spec_fn(Entity) -> bool, i: int)
    requires
        0 <= i < s.len(),
        p(s[i]),
    ensures
        count_where(s, p) >= 1,
    decreases s.len(),
{
    lemma_count_where_bounds(s.drop_last(), p);
    if i == s.len() - 1 {
        assert(p(s.last()));
    } else {
        assert(s.drop_last()[i] == s[i]);
        lemma_count_where_index(s.drop_last(), p, i);
    }
}

/// The same record with `alive` cleared.
pub open spec fn ent_killed(e: Entity) -> Entity {
    Entity { alive: false, ..e }
}

/// Index of the first record at or after `j` satisfying `p`, if any.
pub open spec fn first_where_from(s: Seq<Entity>, p: spec_fn(Entity) -> bool, j: int) -> Option<
    int,
>
    decreases s.len() - j,
{
    if j < 0 || j >= s.len() {
        None
    } else if p(s[j]) {
        Some(j)
    } else {
        first_where_from(s, p, j + 1)
    }
}

/// Index of the first record satisfying `p`, if any: queries that expect a
/// single entity, such as the player, take the first match.
pub open spec fn first_where(s: Seq<Entity>, p: spec_fn(Entity) -> bool) -> Option<int> {
    first_where_from(s, p, 0)
}

/// The first match is a match, everything before it is not, and a `None`
/// means nothing matches.
pub proof fn lemma_first_where_from_props(s: Seq<Entity>, p: spec_fn(Entity) -> bool, j: int)
    requires
        0 <= j <= s.len(),
    ensures
        first_where_from(s, p, j) matches Some(k) ==> j <= k < s.len() && p(s[k]) && forall|m: int|
            j <= m < k ==> !p(#[trigger] s[m]),
        first_where_from(s, p, j) is None ==> forall|m: int| j <= m < s.len() ==> !p(
            #[trigger] s[m],
        ),
    decreases s.len() - j,
{
    if j < s.len() && !p(s[j]) {
        lemma_first_where_from_props(s, p, j + 1);
    }
}

/// A live entity tagged as the player.
pub open spec fn live_player(e: Entity) -> bool {
    e.alive && e.player is Some
}

/// A live entity tagged as an enemy.
pub open spec fn live_enemy(e: Entity) -> bool {
    e.alive && e.enemy is Some
}

pub open spec fn live_player_p() -> spec_fn(Entity) -> bool {
    |e: Entity| live_player(e)
}

pub open spec fn live_enemy_p() -> spec_fn(Entity) -> bool {
    |e: Entity| live_enemy(e)
}

/// Number of live player entities in the store.
pub open spec fn count_players(s: Seq<Entity>) -> int {
    count_where(s, live_player_p())
}

/// Number of live enemy entities in the store.
pub open spec fn count_enemies(s: Seq<Entity>) -> int {
    count_where(s, live_enemy_p())
}

} // verus!
