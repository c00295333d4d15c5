//! The projectile in flight, and the debris of a hit.

use vstd::prelude::*;
use crate::circle::CircleF;
use crate::game_constants::{
    BANANA_ANG_SPEED, GRAVITY, LAUNCH_SPEED_MILLIS, PALETTE_LEN, PARTICLE_MAX_VEL, POWER_MAX, SCALE,
    SHOT_RADIUS, WINDOW_X, WINDOW_Y, WIND_PLAY_MILLIS,
};
use crate::geom::{div_trunc, is_direction, normalized, Vector};
use crate::physics::{
    fits, next_pos, next_speed, out_of_field, travel, update_shot, update_shot_windy,
};
use crate::round::is_wind;

verus! {

/// A projectile in flight. `spin_angle` is the turn of its sprite in degrees
/// and has no effect on the flight.
#[derive(Clone, Copy, Debug)]
pub struct Shot {
    pub circle: CircleF,
    pub velocity: Vector,
    pub spin_angle: u32,
}

/// A shot starts within this distance of the field.
pub const LAUNCH_SPAN: i64 = 100_000_000;

/// No component of a launch velocity exceeds this.
pub const LAUNCH_SPEED_MAX: i64 = 1_200_000;

/// The farthest a shot rises in one tick.
pub const RISE_MAX: i64 = 20_000_400;

/// No shot that was launched rises above this height.
pub const CEILING: i64 = -2_200_000_000;

/// Bounds of the speed of a shot that is still within the field.
pub const SPEED_X_MAX: i64 = 54_006_000;

pub const SPEED_Y_MAX: i64 = 168_018_000;

/// Largest pull of the wind on a shot per tick.
pub const PULL_MAX: i64 = 6_000;

impl Shot {
    /// The shot is one that was launched near the field and has not left it
    /// since: its position and speed lie within bounds that every tick keeps,
    /// and while it rises it is far enough below the ceiling to stay below it.
    pub open spec fn wf(self) -> bool {
        let p = self.circle.pos;
        let v = self.velocity;
        &&& self.circle.radius == SHOT_RADIUS
        &&& self.spin_angle < 360
        &&& -LAUNCH_SPAN <= p.x <= WINDOW_X + LAUNCH_SPAN
        &&& CEILING <= p.y <= WINDOW_Y + LAUNCH_SPAN
        &&& -SPEED_X_MAX <= v.x <= SPEED_X_MAX
        &&& -LAUNCH_SPEED_MAX <= v.y <= SPEED_Y_MAX
        &&& v.y < 0 ==> GRAVITY * (p.y - CEILING) >= RISE_MAX * (GRAVITY - v.y)
    }

    /// The shot one tick later, in the wind `wind`.
    pub open spec fn moved(self, wind: Vector) -> Shot {
        let p = next_pos(self.circle.pos@, self.velocity@);
        let v = next_speed(self.velocity@, pull(wind@));
        Shot {
            circle: CircleF { pos: Vector { x: p.0 as i64, y: p.1 as i64 }, radius: self.circle.radius },
            velocity: Vector { x: v.0 as i64, y: v.1 as i64 },
            spin_angle: ((self.spin_angle + BANANA_ANG_SPEED) % 360) as u32,
        }
    }
}

/// What the wind adds to a shot's speed each tick.
pub open spec fn pull(wind: (int, int)) -> (int, int) {
    (
        div_trunc(wind.0 * WIND_PLAY_MILLIS, 1000),
        div_trunc(wind.1 * WIND_PLAY_MILLIS, 1000),
    )
}

/// The shot that leaves a player: it starts `radii` projectile radii from
/// the player's centre along `dir`, at a speed proportional to `power`.
pub open spec fn launched(center: Vector, dir: Vector, radii: int, power: int) -> Shot {
    Shot {
        circle: CircleF {
            pos: Vector {
                x: (center.x + dir.x * (radii * (SHOT_RADIUS / SCALE))) as i64,
                y: (center.y + dir.y * (radii * (SHOT_RADIUS / SCALE))) as i64,
            },
            radius: SHOT_RADIUS,
        },
        velocity: Vector {
            x: div_trunc(dir.x * (LAUNCH_SPEED_MILLIS * power), 1000) as i64,
            y: div_trunc(dir.y * (LAUNCH_SPEED_MILLIS * power), 1000) as i64,
        },
        spin_angle: 0,
    }
}

/// The point lies in the field, its edges included.
pub open spec fn in_field(p: Vector) -> bool {
    0 <= p.x <= WINDOW_X && 0 <= p.y <= WINDOW_Y
}

/// The point is no farther from the field than a shot can get in one tick.
pub open spec fn in_reach(p: Vector) -> bool {
    -10_000_000_000 <= p.x <= 10_000_000_000 && -10_000_000_000 <= p.y <= 10_000_000_000
}

/// Launches a shot from the player centred at `center`.
pub fn launch(center: Vector, dir: Vector, radii: i64, power: i32) -> (shot: Shot)
    requires
        in_field(center),
        is_direction(dir@),
        0 <= radii <= 6,
        0 <= power <= POWER_MAX,
    ensures
        shot == launched(center, dir, radii as int, power as int),
        shot.wf(),
{
    let reach: i64 = radii * (SHOT_RADIUS / SCALE);
    let gain: i64 = LAUNCH_SPEED_MILLIS * (power as i64);
    assert(-60_000_000 <= dir.x * reach <= 60_000_000 && -60_000_000 <= dir.y * reach
        <= 60_000_000) by (nonlinear_arith)
        requires
            -1_000_000 <= dir.x <= 1_000_000,
            -1_000_000 <= dir.y <= 1_000_000,
            0 <= reach <= 60,
    ;
    assert(-1_200_000_000 <= dir.x * gain <= 1_200_000_000 && -1_200_000_000 <= dir.y * gain
        <= 1_200_000_000) by (nonlinear_arith)
        requires
            -1_000_000 <= dir.x <= 1_000_000,
            -1_000_000 <= dir.y <= 1_000_000,
            0 <= gain <= 1200,
    ;
    Shot {
        circle: CircleF {
            pos: Vector { x: center.x + dir.x * reach, y: center.y + dir.y * reach },
            radius: SHOT_RADIUS,
        },
        velocity: Vector { x: (dir.x * gain) / 1000, y: (dir.y * gain) / 1000 },
        spin_angle: 0,
    }
}

/// The wind's pull on a shot.
pub fn wind_pull(wind: Vector) -> (a: Vector)
    requires
        is_wind(wind@),
    ensures
        a@ == pull(wind@),
        -PULL_MAX <= a.x <= PULL_MAX,
        0 <= a.y <= PULL_MAX,
{
    Vector { x: (wind.x * WIND_PLAY_MILLIS) / 1000, y: (wind.y * WIND_PLAY_MILLIS) / 1000 }
}

/// A tick keeps a shot within its bounds for as long as it stays in the
/// field, and its position and speed are representable in any case.
pub proof fn lemma_shot_moved(shot: Shot, wind: Vector)
    requires
        shot.wf(),
        is_wind(wind@),
    ensures
        fits(next_pos(shot.circle.pos@, shot.velocity@)),
        fits(next_speed(shot.velocity@, pull(wind@))),
        shot.moved(wind).circle.pos@ == next_pos(shot.circle.pos@, shot.velocity@),
        shot.moved(wind).velocity@ == next_speed(shot.velocity@, pull(wind@)),
        !out_of_field(shot.moved(wind).circle.pos) ==> shot.moved(wind).wf(),
        in_reach(shot.moved(wind).circle.pos),
{
    let v = shot.velocity;
    assert(travel(v.x as int) == div_trunc(16667 * v.x, 1000));
    assert(travel(v.y as int) == div_trunc(16667 * v.y, 1000));
}

impl Shot {
    /// Moves the shot by one tick in the wind `wind`.
    pub fn advance(&self, wind: Vector) -> (s: Shot)
        requires
            self.wf(),
            is_wind(wind@),
        ensures
            s == self.moved(wind),
            !out_of_field(s.circle.pos) ==> s.wf(),
            in_reach(s.circle.pos),
    {
        proof {
            lemma_shot_moved(*self, wind);
        }
        let (pos, speed) = update_shot_windy(self.circle.pos, self.velocity, wind_pull(wind));
        Shot {
            circle: CircleF { pos, radius: self.circle.radius },
            velocity: speed,
            spin_angle: (self.spin_angle + BANANA_ANG_SPEED) % 360,
        }
    }
}

/// A piece of debris. `color` is an index into the palette.
#[derive(Clone, Copy, Debug, PartialEq, Eq, Structural)]
pub struct Particle {
    pub pos: Vector,
    pub velocity: Vector,
    pub color: usize,
}

/// The farthest a particle moves in one tick while the explosion lasts.
pub const DRIFT_MAX: i64 = 10_000_200;

impl Particle {
    /// The particle is one spawned in the field that has fallen for `age` ticks.
    pub open spec fn wf(self, age: int) -> bool {
        &&& self.color < PALETTE_LEN
        &&& -PARTICLE_MAX_VEL <= self.velocity.x <= PARTICLE_MAX_VEL
        &&& -PARTICLE_MAX_VEL <= self.velocity.y <= PARTICLE_MAX_VEL + age * GRAVITY
        &&& -age * DRIFT_MAX <= self.pos.x <= WINDOW_X + age * DRIFT_MAX
        &&& -age * DRIFT_MAX <= self.pos.y <= WINDOW_Y + age * DRIFT_MAX
    }

    /// The particle one tick later: it falls, and no wind moves it.
    pub open spec fn moved(self) -> Particle {
        let p = next_pos(self.pos@, self.velocity@);
        let v = next_speed(self.velocity@, (0, 0));
        Particle {
            pos: Vector { x: p.0 as i64, y: p.1 as i64 },
            velocity: Vector { x: v.0 as i64, y: v.1 as i64 },
            color: self.color,
        }
    }

    /// The particle thrown from `pos` in the direction of `(rx, ry)` at
    /// `speed`; with both `rx` and `ry` zero it is dropped at rest.
    pub open spec fn thrown(pos: Vector, rx: int, ry: int, speed: int, color: usize) -> Particle {
        let d = if rx == 0 && ry == 0 {
            (0int, 0int)
        } else {
            normalized((rx, ry))
        };
        Particle {
            pos,
            velocity: Vector {
                x: div_trunc(d.0 * speed, SCALE as int) as i64,
                y: div_trunc(d.1 * speed, SCALE as int) as i64,
            },
            color,
        }
    }

    /// Makes the particle for one set of draws.
    pub fn spark(pos: Vector, rx: i64, ry: i64, speed: i64, color: usize) -> (p: Particle)
        requires
            in_field(pos),
            0 <= speed <= PARTICLE_MAX_VEL,
            color < PALETTE_LEN,
        ensures
            p == Particle::thrown(pos, rx as int, ry as int, speed as int, color),
            p.wf(0),
    {
        let d = if rx == 0 && ry == 0 {
            Vector { x: 0, y: 0 }
        } else {
            Vector { x: rx, y: ry }.normalize()
        };
        assert(-300_000_000_000 <= d.x * speed <= 300_000_000_000 && -300_000_000_000 <= d.y
            * speed <= 300_000_000_000) by (nonlinear_arith)
            requires
                -1_000_000 <= d.x <= 1_000_000,
                -1_000_000 <= d.y <= 1_000_000,
                0 <= speed <= 300_000,
        ;
        Particle {
            pos,
            velocity: Vector { x: (d.x * speed) / SCALE, y: (d.y * speed) / SCALE },
            color,
        }
    }

    /// Moves the particle by one tick.
    pub fn advance(&self, age: u32) -> (p: Particle)
        requires
            self.wf(age as int),
            age <= 24,
        ensures
            p == self.moved(),
            p.wf(age + 1),
    {
        proof {
            assert(travel(self.velocity.x as int) == div_trunc(16667 * self.velocity.x, 1000));
            assert(travel(self.velocity.y as int) == div_trunc(16667 * self.velocity.y, 1000));
            assert(age * GRAVITY <= 24 * 12_000 && age * DRIFT_MAX <= 24 * 10_000_200 && (age + 1)
                * DRIFT_MAX == age * DRIFT_MAX + 10_000_200 && (age + 1) * GRAVITY == age
                * GRAVITY + 12_000 && age * GRAVITY >= 0 && age * DRIFT_MAX >= 0)
                by (nonlinear_arith)
                requires
                    0 <= age <= 24,
                    GRAVITY == 12_000,
                    DRIFT_MAX == 10_000_200,
            ;
        }
        let (pos, velocity) = update_shot(self.pos, self.velocity);
        Particle { pos, velocity, color: self.color }
    }
}

} // verus!
