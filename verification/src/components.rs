//! Plain data components attached to entity records, one aspect each:
//! motion, extent, capability tags, timers and animation state.
use vstd::prelude::*;
use crate::geom::Vec2;
use crate::ANIMATE_FRAME_TICKS;
use crate::EXPLOSION_FRAME_TICKS;
use crate::WIN_MAX;
use crate::WIN_MIN;

verus! {

/// Per-tick displacement direction in normalized units; the realized step
/// is `BASE_STEP` fine units per unit of velocity.
#[derive(Clone, Copy, PartialEq, Eq, Structural, Debug)]
pub struct Velocity {
    pub x: i64,
    pub y: i64,
}

/// Marker: a projectile.
#[derive(Clone, Copy, PartialEq, Eq, Structural, Debug)]
pub struct Fire;

/// Width and height used for overlap tests, in fine units, before the
/// entity's scale is applied.
#[derive(Clone, Copy, PartialEq, Eq, Structural, Debug)]
pub struct SpriteSize(pub Vec2);

/// What happens to a moving entity that leaves the play area.
#[derive(Clone, Copy, PartialEq, Eq, Structural, Debug)]
pub enum OnOutsideWindow {
    Despawn,
    Wrap,
}

/// Attached to entities whose position the movement system advances; the
/// policy says what the edge of the play area does to them.
#[derive(Clone, Copy, PartialEq, Eq, Structural, Debug)]
pub struct Movable {
    pub on_outside_window: OnOutsideWindow,
}

/// Marker: the player sprite.
#[derive(Clone, Copy, PartialEq, Eq, Structural, Debug)]
pub struct Player;

/// Marker: a projectile the player fired.
#[derive(Clone, Copy, PartialEq, Eq, Structural, Debug)]
pub struct FromPlayer;

/// Marker: an enemy sprite.
#[derive(Clone, Copy, PartialEq, Eq, Structural, Debug)]
pub struct Enemy;

/// Marker: a projectile an enemy fired.
#[derive(Clone, Copy, PartialEq, Eq, Structural, Debug)]
pub struct FromEnemy;

/// Marker: a live explosion animation.
#[derive(Clone, Copy, PartialEq, Eq, Structural, Debug)]
pub struct Explosion;

/// A one-tick request to start an explosion at the carried position.
#[derive(Clone, Copy, PartialEq, Eq, Structural, Debug)]
pub struct ExplosionToSpawn(pub Vec2);

/// Repeating timer measured in whole simulation ticks.
#[derive(Clone, Copy, PartialEq, Eq, Structural, Debug)]
pub struct Timer {
    pub period: u32,
    pub elapsed: u32,
}

pub open spec fn timer_wf(t: Timer) -> bool {
    1 <= t.period && t.elapsed < t.period
}

/// Whether one more tick makes the timer's period expire.
pub open spec fn timer_fires(t: Timer) -> bool {
    t.elapsed + 1 >= t.period
}

/// The timer one tick later: back to zero on expiry, else advanced.
pub open spec fn timer_step(t: Timer) -> Timer {
    Timer {
        period: t.period,
        elapsed: if timer_fires(t) {
            0
        } else {
            (t.elapsed + 1) as u32
        },
    }
}

impl Timer {
    /// A fresh repeating timer with the given period in ticks.
    pub fn from_ticks(period: u32) -> (t: Timer)
        requires
            period >= 1,
        ensures
            t == (Timer { period, elapsed: 0 }),
            timer_wf(t),
    {
        Timer { period, elapsed: 0 }
    }

    /// Advance the timer one tick; reports whether the period expired.
    pub fn tick(&mut self) -> (fired: bool)
        requires
            timer_wf(*old(self)),
        ensures
            *final(self) == timer_step(*old(self)),
            fired == timer_fires(*old(self)),
            timer_wf(*final(self)),
    {
        self.elapsed = self.elapsed + 1;
        if self.elapsed >= self.period {
            self.elapsed = 0;
            true
        } else {
            false
        }
    }
}

/// Periodic timer that advances an explosion's frame index.
#[derive(Clone, Copy, PartialEq, Eq, Structural, Debug)]
pub struct ExplosionTimer(pub Timer);

impl Default for ExplosionTimer {
    /// The standard explosion burn rate: one frame every six ticks (0.1 s).
    fn default() -> (t: ExplosionTimer)
        ensures
            t.0 == (Timer { period: EXPLOSION_FRAME_TICKS, elapsed: 0 }),
            timer_wf(t.0),
    {
        ExplosionTimer(Timer { period: EXPLOSION_FRAME_TICKS, elapsed: 0 })
    }
}

/// Frame-cycle state: an inclusive frame range and the timer that paces it.
#[derive(Clone, Copy, PartialEq, Eq, Structural, Debug)]
pub struct Animate {
    pub range_start: u32,
    pub range_end: u32,
    pub timer: Timer,
}

pub open spec fn animate_wf(a: Animate) -> bool {
    a.range_start <= a.range_end && timer_wf(a.timer)
}

impl Default for Animate {
    /// A single-frame cycle paced at one step every thirty ticks (0.5 s).
    fn default() -> (a: Animate)
        ensures
            a == (Animate {
                range_start: 0,
                range_end: 0,
                timer: Timer { period: ANIMATE_FRAME_TICKS, elapsed: 0 },
            }),
            animate_wf(a),
    {
        Animate {
            range_start: 0,
            range_end: 0,
            timer: Timer { period: ANIMATE_FRAME_TICKS, elapsed: 0 },
        }
    }
}

/// Which frame cycle the player sprite shows.
#[derive(Clone, Copy, PartialEq, Eq, Structural, Debug)]
pub enum PlayerAnimation {
    Idle,
    Walking,
}

/// Which way the player sprite faces.
#[derive(Clone, Copy, PartialEq, Eq, Structural, Debug)]
pub enum PlayerDirection {
    Left,
    Right,
}

/// Host-facing animation state of the player sprite.
#[derive(Clone, Copy, PartialEq, Eq, Structural, Debug)]
pub struct PlayerSprite {
    pub state: PlayerAnimation,
    pub direction: PlayerDirection,
}

impl Default for PlayerSprite {
    fn default() -> (s: PlayerSprite)
        ensures
            s.state is Idle,
            s.direction is Left,
    {
        PlayerSprite { state: PlayerAnimation::Idle, direction: PlayerDirection::Left }
    }
}

/// Whether a player is alive, and when it was last shot down, in ticks
/// since start; `-1` means it has never been shot.
#[derive(Clone, Copy, PartialEq, Eq, Structural, Debug)]
pub struct PlayerState {
    pub on: bool,
    pub last_shot: i64,
}

impl Default for PlayerState {
    fn default() -> (s: PlayerState)
        ensures
            s == (PlayerState { on: false, last_shot: -1i64 }),
    {
        PlayerState { on: false, last_shot: -1 }
    }
}

impl PlayerState {
    /// Record that the player was shot down now.
    pub fn shot(&mut self, time: i64)
        ensures
            *final(self) == (PlayerState { on: false, last_shot: time }),
    {
        self.on = false;
        self.last_shot = time;
    }

    /// Record that a fresh player entity is on the field.
    pub fn spawned(&mut self)
        ensures
            *final(self) == (PlayerState { on: true, last_shot: -1i64 }),
    {
        self.on = true;
        self.last_shot = -1;
    }
}

/// Play-area dimensions in fine units.
#[derive(Clone, Copy, PartialEq, Eq, Structural, Debug)]
pub struct WinSize {
    pub width: i64,
    pub height: i64,
}

pub open spec fn win_wf(w: WinSize) -> bool {
    WIN_MIN <= w.width <= WIN_MAX && WIN_MIN <= w.height <= WIN_MAX
}

} // verus!
