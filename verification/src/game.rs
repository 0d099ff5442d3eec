//! The simulation context: every per-run resource — entity store, window,
//! score, enemy count, player state, the pending-explosion queue and the
//! tick counter — and the fixed-order tick that drives one timestep.
use vstd::prelude::*;
use crate::combat::CombatState;
use crate::combat::efhp_spec;
use crate::combat::enemy_fire_hit_player_system;
use crate::combat::pfhe_upto;
use crate::combat::player_fire_hit_enemy_system;
use crate::components::ExplosionToSpawn;
use crate::components::PlayerSprite;
use crate::components::PlayerState;
use crate::components::WinSize;
use crate::components::win_wf;
use crate::enemy::enemy_entity;
use crate::enemy::enemy_fire_criteria;
use crate::enemy::enemy_fire_spawns;
use crate::enemy::enemy_fire_system;
use crate::enemy::enemy_move_all;
use crate::enemy::enemy_movement_system;
use crate::enemy::enemy_spawn_spec;
use crate::enemy::enemy_spawn_system;
use crate::formation::Formation;
use crate::formation::formation_from_window;
use crate::formation::formation_wf;
use crate::geom::Vec2;
use crate::lifecycle::animate_all;
use crate::lifecycle::animate_system;
use crate::lifecycle::boom_wf;
use crate::lifecycle::explosion_all;
use crate::lifecycle::explosion_animation_system;
use crate::lifecycle::explosion_entities;
use crate::lifecycle::explosion_to_spawn_system;
use crate::lifecycle::movable_all;
use crate::lifecycle::movable_system;
use crate::player::keyboard_spec;
use crate::player::player_animate;
use crate::player::player_animate_spec;
use crate::player::player_fire_spec;
use crate::player::player_fire_system;
use crate::player::player_keyboard_event_system;
use crate::player::player_spawn_spec;
use crate::player::player_spawn_system;
use crate::world::Entity;
use crate::world::World;
use crate::world::count_enemies;
use crate::world::count_players;
use crate::world::first_where;
use crate::world::lemma_count_where_index;
use crate::world::lemma_first_where_from_props;
use crate::world::live_player_p;
use crate::ENEMY_MAX;
use crate::ENEMY_SPAWN_PERIOD;
use crate::PLAYER_RESPAWN_DELAY;
use crate::PLAYER_SPAWN_PERIOD;
use crate::TICK_LIMIT;

verus! {

/// Keyboard state for one tick: the two steering keys as held, and the
/// fire key as an edge-triggered press.
#[derive(Clone, Copy, PartialEq, Eq, Structural, Debug)]
pub struct InputState {
    pub left: bool,
    pub right: bool,
    pub fire_just_pressed: bool,
}

/// One running game: the entity store and every global resource.
pub struct Game {
    pub world: World,
    pub win: WinSize,
    pub score: u32,
    pub enemy_count: u32,
    pub player_state: PlayerState,
    pub player_sprite: PlayerSprite,
    pub boom: Vec<ExplosionToSpawn>,
    pub t: i64,
}

/// The whole simulation state as mathematical values, over which the tick
/// is specified.
pub struct TickState {
    pub ents: Seq<Entity>,
    pub score: int,
    pub enemy_count: int,
    pub player_state: PlayerState,
    pub player_sprite: PlayerSprite,
    pub boom: Seq<ExplosionToSpawn>,
    pub t: int,
}

pub open spec fn game_state(g: Game) -> TickState {
    TickState {
        ents: g.world.ents@,
        score: g.score as int,
        enemy_count: g.enemy_count as int,
        player_state: g.player_state,
        player_sprite: g.player_sprite,
        boom: g.boom@,
        t: g.t as int,
    }
}

/// One whole timestep as a function of the starting state, the input, and
/// the tick's two random outcomes: whether the enemy fire gate passed, and
/// which formation the enemy spawn check drew. The systems compose in the
/// canonical order: spawning and respawning, input steering and fire,
/// movement and orbit motion, the two combat passes, the explosion-request
/// drain, then the frame animations.
pub open spec fn tick_spec(
    g: TickState,
    win: WinSize,
    input: InputState,
    fired: bool,
    f: Formation,
) -> TickState {
    let now = g.t + 1;
    let spawned = if now % (ENEMY_SPAWN_PERIOD as int) == 0 {
        enemy_spawn_spec(g.ents, g.enemy_count, f)
    } else {
        (g.ents, g.enemy_count)
    };
    let volleyed = if fired {
        spawned.0 + enemy_fire_spawns(spawned.0, spawned.0.len() as int)
    } else {
        spawned.0
    };
    let respawned = if now % (PLAYER_SPAWN_PERIOD as int) == 0 {
        player_spawn_spec(volleyed, g.player_state, now, win)
    } else {
        (volleyed, g.player_state)
    };
    let steered = keyboard_spec(respawned.0, g.player_sprite, input.left, input.right);
    let shot = player_fire_spec(steered.0, input.fire_just_pressed);
    let moved = movable_all(shot, win);
    let orbited = enemy_move_all(moved);
    let cmb = pfhe_upto(
        CombatState { ents: orbited, count: spawned.1, score: g.score, boom: g.boom },
        orbited.len() as int,
    );
    let hit = efhp_spec(cmb.ents, respawned.1, cmb.score, cmb.boom, now as i64);
    let drained = hit.ents + explosion_entities(hit.boom);
    let burned = explosion_all(drained);
    let cycled = animate_all(burned);
    let ranged = player_animate_spec(cycled, steered.1.state);
    TickState {
        ents: ranged,
        score: hit.score,
        enemy_count: cmb.count,
        player_state: hit.state,
        player_sprite: steered.1,
        boom: Seq::empty(),
        t: now,
    }
}

impl Game {
    /// The cross-system invariants the tick maintains: a well-formed store
    /// in a valid window; the enemy counter equal to the live enemies and
    /// capped at `ENEMY_MAX`; exactly one live player when the state says
    /// the player is on and none otherwise; queued explosion positions in
    /// range; and a shot record no later than the current tick.
    pub open spec fn wf(self) -> bool {
        &&& win_wf(self.win)
        &&& self.world.wf()
        &&& self.enemy_count as int == count_enemies(self.world.ents@)
        &&& self.enemy_count <= ENEMY_MAX
        &&& count_players(self.world.ents@) == (if self.player_state.on {
            1int
        } else {
            0int
        })
        &&& boom_wf(self.boom@)
        &&& 0 <= self.t <= TICK_LIMIT
        &&& -1 <= self.player_state.last_shot <= self.t
    }

    /// A fresh game in the given window: empty store, zero score, no
    /// enemies, no player yet (the first respawn check spawns one).
    pub fn new(win: WinSize) -> (g: Game)
        requires
            win_wf(win),
        ensures
            g.wf(),
            g.world.ents@.len() == 0,
            g.score == 0,
            g.enemy_count == 0,
            !g.player_state.on,
            g.t == 0,
            g.win == win,
    {
        Game {
            world: World::new(),
            win,
            score: 0,
            enemy_count: 0,
            player_state: PlayerState::default(),
            player_sprite: PlayerSprite::default(),
            boom: Vec::new(),
            t: 0,
        }
    }

    /// One fixed timestep. The resulting state is exactly `tick_spec` of
    /// the old state, for the Bernoulli fire-gate outcome and the randomly
    /// drawn formation of this tick (the formation constrained to the
    /// window's ranges whenever the spawn check fires below the cap). The
    /// invariants hold again afterwards — in particular the enemy
    /// population never exceeds `ENEMY_MAX` and at most one player is
    /// live — and a dead player whose respawn delay has not yet passed
    /// stays absent for the whole tick.
    #[verifier::rlimit(100)]
    pub fn tick(&mut self, input: InputState)
        requires
            old(self).wf(),
            old(self).t < TICK_LIMIT,
        ensures
            final(self).wf(),
            final(self).t == old(self).t + 1,
            final(self).win == old(self).win,
            final(self).enemy_count <= ENEMY_MAX,
            count_players(final(self).world.ents@) <= 1,
            exists|fired: bool, f: Formation|
                {
                    &&& ((old(self).t + 1) % (ENEMY_SPAWN_PERIOD as int) == 0 && old(
                        self,
                    ).enemy_count < ENEMY_MAX ==> formation_wf(f) && formation_from_window(
                        f,
                        old(self).win,
                    ))
                    &&& game_state(*final(self)) == #[trigger] tick_spec(
                        game_state(*old(self)),
                        old(self).win,
                        input,
                        fired,
                        f,
                    )
                },
            !old(self).player_state.on && old(self).player_state.last_shot != -1 && old(self).t + 1
                <= old(self).player_state.last_shot + PLAYER_RESPAWN_DELAY ==> count_players(
                final(self).world.ents@,
            ) == 0 && !final(self).player_state.on,
    {
        self.t = self.t + 1;
        let now = self.t;
        let ghost g0 = game_state(*old(self));
        let ghost win0 = self.win;
        let ghost mut fwit = (Formation {
            start: Vec2 { x: 0, y: 0 },
            pivot: Vec2 { x: 0, y: 0 },
            radius: Vec2 { x: 1, y: 1 },
            angle: 0,
            speed: 1,
        });
        if now % ENEMY_SPAWN_PERIOD == 0 {
            enemy_spawn_system(&mut self.world, &mut self.enemy_count, &self.win);
            proof {
                if g0.enemy_count < ENEMY_MAX {
                    fwit = choose|f: Formation|
                        formation_wf(f) && formation_from_window(f, win0) && self.world.ents@
                            == g0.ents.push(#[trigger] enemy_entity(f));
                }
            }
        }
        let ghost s1 = self.world.ents@;
        let ghost c1 = self.enemy_count as int;
        proof {
            assert((s1, c1) == (if (g0.t + 1) % (ENEMY_SPAWN_PERIOD as int) == 0 {
                enemy_spawn_spec(g0.ents, g0.enemy_count, fwit)
            } else {
                (g0.ents, g0.enemy_count)
            }));
        }
        let fired = enemy_fire_criteria();
        if fired {
            enemy_fire_system(&mut self.world);
        }
        let ghost s2 = self.world.ents@;
        proof {
            assert(s2 == (if fired {
                s1 + enemy_fire_spawns(s1, s1.len() as int)
            } else {
                s1
            }));
        }
        if now % PLAYER_SPAWN_PERIOD == 0 {
            player_spawn_system(&mut self.world, &mut self.player_state, now, &self.win);
        }
        let ghost s3 = self.world.ents@;
        let ghost st3 = self.player_state;
        proof {
            assert((s3, st3) == (if (g0.t + 1) % (PLAYER_SPAWN_PERIOD as int) == 0 {
                player_spawn_spec(s2, g0.player_state, g0.t + 1, win0)
            } else {
                (s2, g0.player_state)
            }));
        }
        player_keyboard_event_system(
            &mut self.world,
            &mut self.player_sprite,
            input.left,
            input.right,
        );
        let ghost s4 = self.world.ents@;
        let ghost sp4 = self.player_sprite;
        proof {
            assert((s4, sp4) == keyboard_spec(s3, g0.player_sprite, input.left, input.right));
        }
        player_fire_system(&mut self.world, input.fire_just_pressed);
        let ghost s5 = self.world.ents@;
        proof {
            assert(s5 == player_fire_spec(s4, input.fire_just_pressed));
        }
        movable_system(&mut self.world, &self.win);
        let ghost s6 = self.world.ents@;
        proof {
            assert(s6 == movable_all(s5, win0));
        }
        enemy_movement_system(&mut self.world);
        let ghost s7 = self.world.ents@;
        proof {
            assert(s7 == enemy_move_all(s6));
        }
        player_fire_hit_enemy_system(
            &mut self.world,
            &mut self.enemy_count,
            &mut self.score,
            &mut self.boom,
        );
        let ghost cmb = pfhe_upto(
            CombatState { ents: s7, count: c1, score: g0.score, boom: g0.boom },
            s7.len() as int,
        );
        proof {
            assert(self.world.ents@ == cmb.ents && self.enemy_count as int == cmb.count
                && self.score as int == cmb.score && self.boom@ == cmb.boom);
            lemma_first_where_from_props(self.world.ents@, live_player_p(), 0);
            match first_where(self.world.ents@, live_player_p()) {
                Some(pi) => {
                    lemma_count_where_index(self.world.ents@, live_player_p(), pi);
                },
                None => {},
            }
        }
        enemy_fire_hit_player_system(
            &mut self.world,
            &mut self.player_state,
            &mut self.score,
            &mut self.boom,
            now,
        );
        let ghost hit = efhp_spec(cmb.ents, st3, cmb.score, cmb.boom, (g0.t + 1) as i64);
        proof {
            assert(self.world.ents@ == hit.ents && self.player_state == hit.state
                && self.score as int == hit.score && self.boom@ == hit.boom);
        }
        explosion_to_spawn_system(&mut self.world, &mut self.boom);
        let ghost s10 = self.world.ents@;
        proof {
            assert(s10 == hit.ents + explosion_entities(hit.boom));
            assert(self.boom@ =~= Seq::<ExplosionToSpawn>::empty());
        }
        explosion_animation_system(&mut self.world);
        let ghost s11 = self.world.ents@;
        proof {
            assert(s11 == explosion_all(s10));
        }
        animate_system(&mut self.world);
        let ghost s12 = self.world.ents@;
        proof {
            assert(s12 == animate_all(s11));
        }
        player_animate(&mut self.world, &self.player_sprite);
        proof {
            assert(self.world.ents@ == player_animate_spec(s12, sp4.state));
            assert(game_state(*self) == tick_spec(g0, win0, input, fired, fwit));
            assert(((g0.t + 1) % (ENEMY_SPAWN_PERIOD as int) == 0 && g0.enemy_count < ENEMY_MAX)
                ==> formation_wf(fwit) && formation_from_window(fwit, win0));
        }
    }
}

} // verus!
