//! Kinematic flight controller for ships and other actors.
//!
//! A `ShipController` holds per-actor kinematic state and, once per
//! frame, turns the frame's accumulated command intents into new
//! velocities, position, rotation speed and roll, resolving the
//! candidate position against the terrain height field.  Translational
//! velocity carries momentum (damped, never reset); rotational
//! velocity is recomputed from scratch every frame.  That asymmetry is
//! deliberate and preserved exactly.

use vstd::prelude::*;

use crate::fixed_point::FP_ONE;
use crate::fixed_point::FpVec2;
use crate::fixed_point::FpVec3;
use crate::fixed_point::abs_i;
use crate::fixed_point::fdiv;
use crate::fixed_point::fmul;
use crate::fixed_point::max_i;
use crate::fixed_point::min_i;
use crate::fixed_point::norm2;
use crate::fixed_point::tdiv;
use crate::height_map_data::COORD_LIMIT;
use crate::height_map_data::HeightMapData;

verus! {

/// Downward acceleration applied to airborne actors, in fixed-point
/// world units per second squared (9.8, rounded to the nearest
/// representable value).
pub const GRAVITY: i64 = 642253;

/// Largest magnitude accepted for a tuning value of a controller
/// archetype.
pub const CFG_LIMIT: i64 = 0x4000_0000;

/// Largest accepted multiplier-type tuning value (boost factor, roll
/// angle): at most 16 whole units.
pub const FACTOR_LIMIT: i64 = 1048576;

/// Largest frame duration accepted by the integrator: 16 seconds.
pub const DT_LIMIT: i64 = 1048576;

/// Largest magnitude the stored roll angle may take.
pub const ROLL_LIMIT: i64 = 0x400_0000;

/// Largest magnitude of a vertical velocity the integrator accepts
/// without risking its own arithmetic bounds.
pub const FLOAT_VEL_LIMIT: i64 = 0x1000_0000_0000;

/// Controller archetypes selectable at load time.
#[derive(Clone, Copy, Debug, PartialEq, Eq, Structural)]
pub enum ShipControllerDataType {
    ShipController,
    TankController,
}

/// Per-archetype tuning values, loaded once and shared read-only by
/// every controller of the archetype.
#[derive(Clone, Debug)]
pub struct ShipControllerData {
    pub _controller_data_name: String,
    pub _controller_data_type: ShipControllerDataType,
    pub _max_ground_speed: i64,
    pub _forward_acceleration: i64,
    pub _side_acceleration: i64,
    pub _floating_acceleration: i64,
    pub _damping: i64,
    pub _side_step_roll: i64,
    pub _side_step_roll_speed: i64,
    pub _boost_acceleration: i64,
    pub _max_rotation_speed: i64,
    pub _rotation_acceleration: i64,
    pub _rotation_damping: i64,
}

impl ShipControllerData {
    /// Tuning values a controller can integrate without overflow:
    /// nonnegative, within the archetype caps, with a positive
    /// side-roll angle (it is divided by during roll easing).
    pub open spec fn wf(self) -> bool {
        &&& 0 <= self._max_ground_speed <= CFG_LIMIT
        &&& 0 <= self._forward_acceleration <= CFG_LIMIT
        &&& 0 <= self._side_acceleration <= CFG_LIMIT
        &&& 0 <= self._floating_acceleration <= CFG_LIMIT
        &&& 0 <= self._damping <= CFG_LIMIT
        &&& 1 <= self._side_step_roll <= FACTOR_LIMIT
        &&& 0 <= self._side_step_roll_speed <= CFG_LIMIT
        &&& 0 <= self._boost_acceleration <= FACTOR_LIMIT
        &&& 0 <= self._max_rotation_speed <= CFG_LIMIT
        &&& 0 <= self._rotation_acceleration <= CFG_LIMIT
        &&& 0 <= self._rotation_damping <= CFG_LIMIT
    }
}

impl Default for ShipControllerData {
    /// The light-ship tuning table (values in fixed point: a speed of
    /// `50.0` is `3276800`).
    fn default() -> (r: ShipControllerData)
        ensures
            r.wf(),
            r._controller_data_name@ == Seq::<char>::empty(),
            r._controller_data_type == ShipControllerDataType::ShipController,
            r._max_ground_speed == 3276800,
            r._forward_acceleration == 3276800,
            r._side_acceleration == 3276800,
            r._floating_acceleration == 1966080,
            r._damping == 1966080,
            r._side_step_roll == 19661,
            r._side_step_roll_speed == 131072,
            r._boost_acceleration == 98304,
            r._max_rotation_speed == 655360,
            r._rotation_acceleration == 32768,
            r._rotation_damping == 6554,
    {
        ShipControllerData {
            _controller_data_name: String::new(),
            _controller_data_type: ShipControllerDataType::ShipController,
            _max_ground_speed: 3276800,
            _forward_acceleration: 3276800,
            _side_acceleration: 3276800,
            _floating_acceleration: 1966080,
            _damping: 1966080,
            _side_step_roll: 19661,
            _side_step_roll_speed: 131072,
            _boost_acceleration: 98304,
            _max_rotation_speed: 655360,
            _rotation_acceleration: 32768,
            _rotation_damping: 6554,
        }
    }
}

/// Builds the tuning table for an archetype.  Both archetypes share
/// the default tuning and differ in their data name.
pub fn create_controller_data(controller_type: ShipControllerDataType) -> (r: ShipControllerData)
    ensures
        r.wf(),
        controller_type == ShipControllerDataType::ShipController ==> r._controller_data_name@
            == "LightShipController"@,
        controller_type == ShipControllerDataType::TankController ==> r._controller_data_name@
            == "LightTankController"@,
        r._controller_data_type == controller_type,
{
    match controller_type {
        ShipControllerDataType::ShipController => {
            let mut d = ShipControllerData::default();
            d._controller_data_name = "LightShipController".to_owned();
            d._controller_data_type = ShipControllerDataType::ShipController;
            d
        },
        ShipControllerDataType::TankController => {
            let mut d = ShipControllerData::default();
            d._controller_data_name = "LightTankController".to_owned();
            d._controller_data_type = ShipControllerDataType::TankController;
            d
        },
    }
}

/// What the controller reads from its actor's transform each frame:
/// position, the horizontal components of the left and front axes, and
/// the current roll angle.
#[derive(Clone, Copy, Debug, PartialEq, Eq, Structural)]
pub struct TransformData {
    pub _position: FpVec3,
    pub _left: FpVec2,
    pub _front: FpVec2,
    pub _roll: i64,
}

impl TransformData {
    /// A transform the integrator can consume: axis components within
    /// one unit, position and roll within the world limits.
    pub open spec fn wf(self) -> bool {
        &&& abs_i(self._position.x as int) <= COORD_LIMIT
        &&& abs_i(self._position.y as int) <= COORD_LIMIT
        &&& abs_i(self._position.z as int) <= COORD_LIMIT
        &&& abs_i(self._left.x as int) <= FP_ONE
        &&& abs_i(self._left.z as int) <= FP_ONE
        &&& abs_i(self._front.x as int) <= FP_ONE
        &&& abs_i(self._front.z as int) <= FP_ONE
        &&& abs_i(self._roll as int) <= ROLL_LIMIT
    }
}

/// Per-actor kinematic state, updated once per frame.
#[derive(Clone, Debug)]
pub struct ShipController {
    pub _controller_data: ShipControllerData,
    pub _prev_ground_velocity: FpVec2,
    pub _ground_velocity: FpVec2,
    pub _prev_floating_velocity: i64,
    pub _floating_velocity: i64,
    pub _floating_height: i64,
    pub _acceleration: FpVec3,
    pub _rotation_velocity: FpVec2,
    pub _rotation_acceleration: FpVec2,
    pub _position: FpVec3,
    pub _roll: i64,
    pub _boost: bool,
    pub _on_ground: bool,
}

impl ShipController {
    /// State the integrator preserves: velocities within their caps,
    /// pending commands within one unit (translation) or the tuning
    /// cap (rotation), and a well-formed tuning table.
    pub open spec fn wf(self) -> bool {
        &&& self._controller_data.wf()
        &&& abs_i(self._ground_velocity.x as int) <= CFG_LIMIT
        &&& abs_i(self._ground_velocity.z as int) <= CFG_LIMIT
        &&& abs_i(self._floating_velocity as int) <= 2 * FLOAT_VEL_LIMIT
        &&& 0 <= self._floating_height <= COORD_LIMIT
        &&& abs_i(self._acceleration.x as int) <= FP_ONE
        &&& abs_i(self._acceleration.y as int) <= FP_ONE
        &&& abs_i(self._acceleration.z as int) <= FP_ONE
        &&& abs_i(self._rotation_velocity.x as int) <= CFG_LIMIT
        &&& abs_i(self._rotation_velocity.z as int) <= CFG_LIMIT
        &&& abs_i(self._rotation_acceleration.x as int) <= CFG_LIMIT
        &&& abs_i(self._rotation_acceleration.z as int) <= CFG_LIMIT
        &&& abs_i(self._roll as int) <= ROLL_LIMIT
    }

    /// Creates a controller at rest for an actor with the given
    /// vertical clearance, owning a copy of the archetype tuning.
    pub fn create_ship_controller(controller_data: ShipControllerData, floating_height: i64) -> (r:
        ShipController)
        requires
            controller_data.wf(),
            0 <= floating_height <= COORD_LIMIT,
        ensures
            r.wf(),
            r._controller_data == controller_data,
            r._ground_velocity == (FpVec2 { x: 0, z: 0 }),
            r._floating_velocity == 0,
            r._floating_height == floating_height,
            r._acceleration == (FpVec3 { x: 0, y: 0, z: 0 }),
            r._rotation_velocity == (FpVec2 { x: 0, z: 0 }),
            r._rotation_acceleration == (FpVec2 { x: 0, z: 0 }),
            r._position == (FpVec3 { x: 0, y: 0, z: 0 }),
            r._roll == 0,
            r._boost == false,
            r._on_ground == false,
            r._prev_ground_velocity == (FpVec2 { x: 0, z: 0 }),
            r._prev_floating_velocity == 0,
    {
        ShipController {
            _controller_data: controller_data,
            _prev_ground_velocity: FpVec2::zeros(),
            _ground_velocity: FpVec2::zeros(),
            _prev_floating_velocity: 0,
            _floating_velocity: 0,
            _floating_height: floating_height,
            _acceleration: FpVec3::zeros(),
            _rotation_acceleration: FpVec2::zeros(),
            _rotation_velocity: FpVec2::zeros(),
            _position: FpVec3::zeros(),
            _roll: 0,
            _boost: false,
            _on_ground: false,
        }
    }

    /// Requests boost for the coming frame.
    pub fn boost_on(&mut self)
        ensures
            final(self)._boost == true,
            *final(self) == (ShipController { _boost: true, ..*old(self) }),
    {
        self._boost = true;
    }

    /// Commands full forward acceleration for the coming frame.
    pub fn acceleration_forward(&mut self)
        ensures
            *final(self) == (ShipController {
                _acceleration: FpVec3 { z: FP_ONE, ..old(self)._acceleration },
                ..*old(self)
            }),
    {
        self._acceleration.z = FP_ONE;
    }

    /// Commands full backward acceleration for the coming frame.
    pub fn acceleration_backward(&mut self)
        ensures
            *final(self) == (ShipController {
                _acceleration: FpVec3 { z: (-FP_ONE) as i64, ..old(self)._acceleration },
                ..*old(self)
            }),
    {
        self._acceleration.z = -FP_ONE;
    }

    /// Commands full leftward acceleration for the coming frame.
    pub fn acceleration_left(&mut self)
        ensures
            *final(self) == (ShipController {
                _acceleration: FpVec3 { x: FP_ONE, ..old(self)._acceleration },
                ..*old(self)
            }),
    {
        self._acceleration.x = FP_ONE;
    }

    /// Commands full rightward acceleration for the coming frame.
    pub fn acceleration_right(&mut self)
        ensures
            *final(self) == (ShipController {
                _acceleration: FpVec3 { x: (-FP_ONE) as i64, ..old(self)._acceleration },
                ..*old(self)
            }),
    {
        self._acceleration.x = -FP_ONE;
    }

    /// Commands full upward acceleration for the coming frame.
    pub fn acceleration_up(&mut self)
        ensures
            *final(self) == (ShipController {
                _acceleration: FpVec3 { y: FP_ONE, ..old(self)._acceleration },
                ..*old(self)
            }),
    {
        self._acceleration.y = FP_ONE;
    }

    /// Commands full downward acceleration for the coming frame.
    pub fn acceleration_down(&mut self)
        ensures
            *final(self) == (ShipController {
                _acceleration: FpVec3 { y: (-FP_ONE) as i64, ..old(self)._acceleration },
                ..*old(self)
            }),
    {
        self._acceleration.y = -FP_ONE;
    }

    /// Commands pitch acceleration for the coming frame.
    pub fn acceleration_pitch(&mut self, acceleration: i64)
        requires
            abs_i(acceleration as int) <= CFG_LIMIT,
        ensures
            *final(self) == (ShipController {
                _rotation_acceleration: FpVec2 {
                    x: acceleration,
                    ..old(self)._rotation_acceleration
                },
                ..*old(self)
            }),
    {
        self._rotation_acceleration.x = acceleration;
    }

    /// Commands yaw acceleration for the coming frame.
    pub fn acceleration_yaw(&mut self, acceleration: i64)
        requires
            abs_i(acceleration as int) <= CFG_LIMIT,
        ensures
            *final(self) == (ShipController {
                _rotation_acceleration: FpVec2 {
                    z: acceleration,
                    ..old(self)._rotation_acceleration
                },
                ..*old(self)
            }),
    {
        self._rotation_acceleration.z = acceleration;
    }

    /// Current pitch speed.
    pub fn get_velocity_pitch(&self) -> (r: i64)
        ensures
            r == self._rotation_velocity.x,
    {
        self._rotation_velocity.x
    }

    /// Current yaw speed.
    pub fn get_velocity_yaw(&self) -> (r: i64)
        ensures
            r == self._rotation_velocity.z,
    {
        self._rotation_velocity.z
    }

    /// Current position.
    pub fn get_position(&self) -> (r: &FpVec3)
        ensures
            r == self._position,
    {
        &self._position
    }

    /// Current roll angle.
    pub fn get_roll(&self) -> (r: i64)
        ensures
            r == self._roll,
    {
        self._roll
    }
}

/// Boost factor for the frame: the tuning multiplier while boost is
/// requested, otherwise one.
pub open spec fn s_boost_factor(boost_accel: int, boost: bool) -> int {
    if boost {
        boost_accel
    } else {
        FP_ONE as int
    }
}

/// `x` component of the normalized direction `(x, z)`; a zero vector
/// contributes nothing rather than dividing by zero.
pub open spec fn s_norm_x(x: int, z: int) -> int {
    if norm2(x, z) == 0 {
        0
    } else {
        fdiv(x, norm2(x, z))
    }
}

/// `z` component of the normalized direction `(x, z)`.
pub open spec fn s_norm_z(x: int, z: int) -> int {
    if norm2(x, z) == 0 {
        0
    } else {
        fdiv(z, norm2(x, z))
    }
}

/// Velocity increment of one command axis: direction component times
/// command times tuning acceleration times frame time, boosted last.
pub open spec fn s_axis_delta(n: int, a: int, accel: int, dt: int, bf: int) -> int {
    fmul(fmul(fmul(fmul(n, a), accel), dt), bf)
}

/// Ground speed after damping and the speed cap.
pub open spec fn s_damp_speed(sp: int, damping: int, max_speed: int, dt: int) -> int {
    min_i(max_speed, max_i(0, sp - fmul(damping, dt)))
}

impl ShipController {
    /// Ground velocity after the frame's side and forward commands.
    pub open spec fn s_gv_after_commands(self, t: TransformData, dt: int) -> (int, int) {
        let bf = s_boost_factor(self._controller_data._boost_acceleration as int, self._boost);
        let sxc = if self._acceleration.x != 0 {
            s_axis_delta(
                s_norm_x(t._left.x as int, t._left.z as int),
                self._acceleration.x as int,
                self._controller_data._side_acceleration as int,
                dt,
                bf,
            )
        } else {
            0
        };
        let szc = if self._acceleration.x != 0 {
            s_axis_delta(
                s_norm_z(t._left.x as int, t._left.z as int),
                self._acceleration.x as int,
                self._controller_data._side_acceleration as int,
                dt,
                bf,
            )
        } else {
            0
        };
        let fxc = if self._acceleration.z != 0 {
            s_axis_delta(
                s_norm_x(t._front.x as int, t._front.z as int),
                self._acceleration.z as int,
                self._controller_data._forward_acceleration as int,
                dt,
                bf,
            )
        } else {
            0
        };
        let fzc = if self._acceleration.z != 0 {
            s_axis_delta(
                s_norm_z(t._front.x as int, t._front.z as int),
                self._acceleration.z as int,
                self._controller_data._forward_acceleration as int,
                dt,
                bf,
            )
        } else {
            0
        };
        (self._ground_velocity.x + sxc + fxc, self._ground_velocity.z + szc + fzc)
    }

    /// Roll angle the frame steers toward: opposite the side command,
    /// at the tuned side-step angle.
    pub open spec fn s_goal_roll(self) -> int {
        if self._acceleration.x != 0 {
            -fmul(self._controller_data._side_step_roll as int, self._acceleration.x as int)
        } else {
            0
        }
    }

    /// Vertical velocity after the frame's vertical command.
    pub open spec fn s_fv_after_commands(self, dt: int) -> int {
        let bf = s_boost_factor(self._controller_data._boost_acceleration as int, self._boost);
        if self._acceleration.y != 0 {
            self._floating_velocity + s_axis_delta(
                FP_ONE as int,
                self._acceleration.y as int,
                self._controller_data._floating_acceleration as int,
                dt,
                bf,
            )
        } else {
            self._floating_velocity as int
        }
    }

    /// Ground velocity after command accumulation, damping and the
    /// speed cap, direction preserved.
    pub open spec fn s_gv_damped(self, t: TransformData, dt: int) -> (int, int) {
        let (gx, gz) = self.s_gv_after_commands(t, dt);
        if gx == 0 && gz == 0 {
            (0, 0)
        } else {
            let sp = norm2(gx, gz);
            let sp2 = s_damp_speed(
                sp,
                self._controller_data._damping as int,
                self._controller_data._max_ground_speed as int,
                dt,
            );
            (tdiv(gx * sp2, sp), tdiv(gz * sp2, sp))
        }
    }

    /// Vertical velocity after gravity: applied only without a vertical
    /// command and while airborne.
    pub open spec fn s_fv_with_gravity(self, dt: int) -> int {
        let f = self.s_fv_after_commands(dt);
        if self._acceleration.y == 0 && !self._on_ground {
            f - fmul(GRAVITY as int, dt)
        } else {
            f
        }
    }

    /// Candidate position: the transform position advanced by the
    /// frame's velocities.
    pub open spec fn s_candidate(self, t: TransformData, dt: int) -> (int, int, int) {
        let (gx, gz) = self.s_gv_damped(t, dt);
        let fv = self.s_fv_with_gravity(dt);
        (
            t._position.x + fmul(gx, dt),
            t._position.y + fmul(fv, dt),
            t._position.z + fmul(gz, dt),
        )
    }

    /// Position, vertical velocity and ground flag after resolving the
    /// candidate against the height field: a candidate below the
    /// terrain (plus clearance) is clamped onto it and grounded.  A
    /// motionless grounded actor is left untouched.
    pub open spec fn s_resolved(self, t: TransformData, hm: HeightMapData, dt: int) -> (
        int,
        int,
        int,
        int,
        bool,
    ) {
        let (cx, cy, cz) = self.s_candidate(t, dt);
        let fv = self.s_fv_with_gravity(dt);
        if cx == t._position.x && cy == t._position.y && cz == t._position.z && self._on_ground {
            (self._position.x as int, self._position.y as int, self._position.z as int, fv, true)
        } else {
            let floor = hm.s_height_bilinear(cx, cz, 0) + self._floating_height;
            if cy < floor {
                (cx, floor, cz, 0, true)
            } else {
                (cx, cy, cz, fv, false)
            }
        }
    }

    /// Rotation velocity for the frame: recomputed from the frame's
    /// rotation command alone (no inertia), clamped to the tuned
    /// maximum with its direction preserved.
    pub open spec fn s_rv_next(self) -> (int, int) {
        if self._rotation_acceleration.x != 0 || self._rotation_acceleration.z != 0 {
            let rvx = fmul(
                self._rotation_acceleration.x as int,
                self._controller_data._rotation_acceleration as int,
            );
            let rvz = fmul(
                self._rotation_acceleration.z as int,
                self._controller_data._rotation_acceleration as int,
            );
            let rn = norm2(rvx, rvz);
            if (self._controller_data._max_rotation_speed as int) < rn {
                (
                    tdiv(rvx * self._controller_data._max_rotation_speed, rn),
                    tdiv(rvz * self._controller_data._max_rotation_speed, rn),
                )
            } else {
                (rvx, rvz)
            }
        } else {
            (0, 0)
        }
    }

    /// Roll after one frame of easing: step toward the goal at the
    /// tuned rate, scaled by how far from neutral the roll still is,
    /// snapping to the goal whenever the step would reach or overshoot
    /// it.  With the goal already met, the stored roll is kept.
    pub open spec fn s_roll_next(self, t: TransformData, dt: int) -> int {
        let goal = self.s_goal_roll();
        let roll = t._roll as int;
        if goal == roll {
            self._roll as int
        } else {
            let diff = goal - roll;
            let mag = abs_i(diff);
            let rs = fmul(self._controller_data._side_step_roll_speed as int, dt);
            if mag < rs {
                goal
            } else {
                let step = tdiv(rs * mag, self._controller_data._side_step_roll as int);
                if step >= mag {
                    goal
                } else if diff >= 0 {
                    roll + step
                } else {
                    roll - step
                }
            }
        }
    }

    /// The controller after one whole frame: damped ground velocity,
    /// resolved position, fresh rotation velocity, eased roll, and all
    /// pending commands cleared.
    pub open spec fn s_updated(self, t: TransformData, hm: HeightMapData, dt: int)
        -> ShipController {
        let (gx, gz) = self.s_gv_damped(t, dt);
        let (px, py, pz, fv, og) = self.s_resolved(t, hm, dt);
        let (rvx, rvz) = self.s_rv_next();
        ShipController {
            _controller_data: self._controller_data,
            _prev_ground_velocity: FpVec2 { x: gx as i64, z: gz as i64 },
            _ground_velocity: FpVec2 { x: gx as i64, z: gz as i64 },
            _prev_floating_velocity: fv as i64,
            _floating_velocity: fv as i64,
            _floating_height: self._floating_height,
            _acceleration: FpVec3 { x: 0, y: 0, z: 0 },
            _rotation_velocity: FpVec2 { x: rvx as i64, z: rvz as i64 },
            _rotation_acceleration: FpVec2 { x: 0, z: 0 },
            _position: FpVec3 { x: px as i64, y: py as i64, z: pz as i64 },
            _roll: self.s_roll_next(t, dt) as i64,
            _boost: false,
            _on_ground: og,
        }
    }
}

impl ShipController {
    /// Ground velocity for the frame: commands applied, then damping
    /// and the speed cap.
    #[verifier::rlimit(100)]
    #[verifier::spinoff_prover]
    fn step_ground_velocity(&self, t: &TransformData, dt: i64) -> (r: (i64, i64))
        requires
            self.wf(),
            t.wf(),
            0 <= dt <= DT_LIMIT,
        ensures
            (r.0 as int, r.1 as int) == self.s_gv_damped(*t, dt as int),
            abs_i(r.0 as int) <= CFG_LIMIT,
            abs_i(r.1 as int) <= CFG_LIMIT,
    {
        let bf: i64 = if self._boost {
            self._controller_data._boost_acceleration
        } else {
            FP_ONE
        };
        let mut gx: i64 = self._ground_velocity.x;
        let mut gz: i64 = self._ground_velocity.z;
        if self._acceleration.x != 0 {
            let nd = normalize2(t._left.x, t._left.z);
            let d0 = axis_delta(
                nd.0,
                self._acceleration.x,
                self._controller_data._side_acceleration,
                dt,
                bf,
            );
            let d1 = axis_delta(
                nd.1,
                self._acceleration.x,
                self._controller_data._side_acceleration,
                dt,
                bf,
            );
            gx = gx + d0;
            gz = gz + d1;
        }
        if self._acceleration.z != 0 {
            let nd = normalize2(t._front.x, t._front.z);
            let d0 = axis_delta(
                nd.0,
                self._acceleration.z,
                self._controller_data._forward_acceleration,
                dt,
                bf,
            );
            let d1 = axis_delta(
                nd.1,
                self._acceleration.z,
                self._controller_data._forward_acceleration,
                dt,
                bf,
            );
            gx = gx + d0;
            gz = gz + d1;
        }
        proof {
            assert((gx as int, gz as int) == self.s_gv_after_commands(*t, dt as int));
        }
        if gx != 0 || gz != 0 {
            proof {
                crate::fixed_point::lemma_norm2_bounds(gx as int, gz as int);
                crate::fixed_point::lemma_fmul_bound(
                    self._controller_data._damping as int,
                    dt as int,
                    CFG_LIMIT as int,
                    DT_LIMIT as int,
                );
            }
            let sp: i64 = crate::fixed_point::fx_norm2(gx, gz);
            let dmp: i64 = crate::fixed_point::fx_mul(self._controller_data._damping, dt);
            let mut spd: i64 = sp - dmp;
            if spd < 0 {
                spd = 0;
            }
            let sp2: i64 = if self._controller_data._max_ground_speed < spd {
                self._controller_data._max_ground_speed
            } else {
                spd
            };
            proof {
                crate::fixed_point::lemma_scale_component(gx as int, sp2 as int, sp as int);
                crate::fixed_point::lemma_scale_component(gz as int, sp2 as int, sp as int);
            }
            let ox: i64 = crate::fixed_point::fx_mul_div(gx, sp2, sp);
            let oz: i64 = crate::fixed_point::fx_mul_div(gz, sp2, sp);
            (ox, oz)
        } else {
            (0, 0)
        }
    }

    /// Vertical velocity for the frame: command applied, then gravity
    /// while airborne and uncommanded.
    #[verifier::rlimit(100)]
    #[verifier::spinoff_prover]
    fn step_float_velocity(&self, dt: i64) -> (r: i64)
        requires
            self.wf(),
            abs_i(self._floating_velocity as int) <= FLOAT_VEL_LIMIT,
            0 <= dt <= DT_LIMIT,
        ensures
            r as int == self.s_fv_with_gravity(dt as int),
            abs_i(r as int) <= 2 * FLOAT_VEL_LIMIT,
    {
        let bf: i64 = if self._boost {
            self._controller_data._boost_acceleration
        } else {
            FP_ONE
        };
        let mut fv: i64 = self._floating_velocity;
        if self._acceleration.y != 0 {
            let dv = axis_delta(
                FP_ONE,
                self._acceleration.y,
                self._controller_data._floating_acceleration,
                dt,
                bf,
            );
            fv = fv + dv;
        }
        if self._acceleration.y == 0 && !self._on_ground {
            proof {
                crate::fixed_point::lemma_fmul_bound(
                    GRAVITY as int,
                    dt as int,
                    FACTOR_LIMIT as int,
                    DT_LIMIT as int,
                );
            }
            fv = fv - crate::fixed_point::fx_mul(GRAVITY, dt);
        }
        fv
    }

    /// Rotation velocity for the frame: from the frame's command
    /// alone, clamped to the tuned maximum with direction preserved.
    #[verifier::rlimit(100)]
    #[verifier::spinoff_prover]
    fn step_rotation(&self) -> (r: (i64, i64))
        requires
            self.wf(),
        ensures
            (r.0 as int, r.1 as int) == self.s_rv_next(),
            abs_i(r.0 as int) <= CFG_LIMIT,
            abs_i(r.1 as int) <= CFG_LIMIT,
    {
        if self._rotation_acceleration.x != 0 || self._rotation_acceleration.z != 0 {
            proof {
                crate::fixed_point::lemma_fmul_bound(
                    self._rotation_acceleration.x as int,
                    self._controller_data._rotation_acceleration as int,
                    CFG_LIMIT as int,
                    CFG_LIMIT as int,
                );
                crate::fixed_point::lemma_fmul_bound(
                    self._rotation_acceleration.z as int,
                    self._controller_data._rotation_acceleration as int,
                    CFG_LIMIT as int,
                    CFG_LIMIT as int,
                );
            }
            let rvx: i64 = crate::fixed_point::fx_mul(
                self._rotation_acceleration.x,
                self._controller_data._rotation_acceleration,
            );
            let rvz: i64 = crate::fixed_point::fx_mul(
                self._rotation_acceleration.z,
                self._controller_data._rotation_acceleration,
            );
            proof {
                crate::fixed_point::lemma_norm2_bounds(rvx as int, rvz as int);
            }
            let rn: i64 = crate::fixed_point::fx_norm2(rvx, rvz);
            if self._controller_data._max_rotation_speed < rn {
                proof {
                    crate::fixed_point::lemma_scale_component(
                        rvx as int,
                        self._controller_data._max_rotation_speed as int,
                        rn as int,
                    );
                    crate::fixed_point::lemma_scale_component(
                        rvz as int,
                        self._controller_data._max_rotation_speed as int,
                        rn as int,
                    );
                }
                let nx: i64 = crate::fixed_point::fx_mul_div(
                    rvx,
                    self._controller_data._max_rotation_speed,
                    rn,
                );
                let nz: i64 = crate::fixed_point::fx_mul_div(
                    rvz,
                    self._controller_data._max_rotation_speed,
                    rn,
                );
                (nx, nz)
            } else {
                (rvx, rvz)
            }
        } else {
            (0, 0)
        }
    }

    /// Roll for the frame: one easing step toward the side-step goal.
    #[verifier::rlimit(100)]
    #[verifier::spinoff_prover]
    fn step_roll(&self, t: &TransformData, dt: i64) -> (r: i64)
        requires
            self.wf(),
            t.wf(),
            0 <= dt <= DT_LIMIT,
        ensures
            r as int == self.s_roll_next(*t, dt as int),
            abs_i(r as int) <= ROLL_LIMIT,
    {
        let goal_roll: i64 = if self._acceleration.x != 0 {
            proof {
                crate::fixed_point::lemma_fmul_shrink(
                    self._controller_data._side_step_roll as int,
                    self._acceleration.x as int,
                );
            }
            -crate::fixed_point::fx_mul(
                self._controller_data._side_step_roll,
                self._acceleration.x,
            )
        } else {
            0
        };
        let roll_t: i64 = t._roll;
        if goal_roll != roll_t {
            let diff: i64 = goal_roll - roll_t;
            let mag: i64 = if diff >= 0 {
                diff
            } else {
                -diff
            };
            proof {
                crate::fixed_point::lemma_fmul_bound(
                    self._controller_data._side_step_roll_speed as int,
                    dt as int,
                    CFG_LIMIT as int,
                    DT_LIMIT as int,
                );
            }
            let rs: i64 = crate::fixed_point::fx_mul(
                self._controller_data._side_step_roll_speed,
                dt,
            );
            if mag < rs {
                goal_roll
            } else {
                proof {
                    crate::fixed_point::lemma_mul_abs(rs as int, mag as int);
                    crate::fixed_point::lemma_tdiv_mag(
                        rs as int * mag as int,
                        self._controller_data._side_step_roll as int,
                    );
                    assert(abs_i(rs as int) * abs_i(mag as int) <= 0x4_0000_0000 * 0x800_0000)
                        by (nonlinear_arith)
                        requires
                            0 <= abs_i(rs as int) <= 0x4_0000_0000,
                            0 <= abs_i(mag as int) <= 0x800_0000,
                    ;
                }
                let st: i64 = crate::fixed_point::fx_mul_div(
                    rs,
                    mag,
                    self._controller_data._side_step_roll,
                );
                if st >= mag {
                    goal_roll
                } else if diff >= 0 {
                    roll_t + st
                } else {
                    roll_t - st
                }
            }
        } else {
            self._roll
        }
    }

    /// Integrates one frame: applies the frame's commands to the
    /// velocities, damps and caps ground speed, applies gravity while
    /// airborne, advances the transform position, clamps it onto the
    /// terrain (plus the actor's clearance), recomputes rotation
    /// velocity from the frame's command alone, eases roll toward the
    /// side-step goal, and clears all pending commands.
    ///
    /// The whole effect is pinned down by `s_updated`.  Callers keep
    /// the vertical velocity within `FLOAT_VEL_LIMIT`; the update
    /// itself may carry it up to twice that before the next ground
    /// contact resets it.
    #[verifier::rlimit(100)]
    #[verifier::spinoff_prover]
    pub fn update_controller(
        &mut self,
        delta_time: i64,
        transform: &TransformData,
        height_map_data: &HeightMapData,
    )
        requires
            old(self).wf(),
            abs_i(old(self)._floating_velocity as int) <= FLOAT_VEL_LIMIT,
            transform.wf(),
            height_map_data.wf(),
            0 <= delta_time <= DT_LIMIT,
        ensures
            *final(self) == old(self).s_updated(*transform, *height_map_data, delta_time as int),
            final(self).wf(),
    {
        let dt: i64 = delta_time;
        let gv = self.step_ground_velocity(transform, dt);
        let gx: i64 = gv.0;
        let gz: i64 = gv.1;
        let mut fv: i64 = self.step_float_velocity(dt);
        let rv = self.step_rotation();
        let new_roll: i64 = self.step_roll(transform, dt);
        proof {
            crate::fixed_point::lemma_fmul_bound(
                gx as int,
                dt as int,
                CFG_LIMIT as int,
                DT_LIMIT as int,
            );
            crate::fixed_point::lemma_fmul_bound(
                gz as int,
                dt as int,
                CFG_LIMIT as int,
                DT_LIMIT as int,
            );
            crate::fixed_point::lemma_fmul_bound(
                fv as int,
                dt as int,
                2 * FLOAT_VEL_LIMIT as int,
                DT_LIMIT as int,
            );
        }
        let cx: i64 = transform._position.x + crate::fixed_point::fx_mul(gx, dt);
        let cy: i64 = transform._position.y + crate::fixed_point::fx_mul(fv, dt);
        let cz: i64 = transform._position.z + crate::fixed_point::fx_mul(gz, dt);
        if cx != transform._position.x || cy != transform._position.y || cz
            != transform._position.z || !self._on_ground {
            self._on_ground = false;
            let cand = FpVec3 { x: cx, y: cy, z: cz };
            let fl: i64 = height_map_data.get_height_bilinear(&cand, 0) + self._floating_height;
            if cy < fl {
                self._position = FpVec3 { x: cx, y: fl, z: cz };
                fv = 0;
                self._on_ground = true;
            } else {
                self._position = FpVec3 { x: cx, y: cy, z: cz };
            }
        }
        self._ground_velocity = FpVec2 { x: gx, z: gz };
        self._prev_ground_velocity = FpVec2 { x: gx, z: gz };
        self._floating_velocity = fv;
        self._prev_floating_velocity = fv;
        self._rotation_velocity = FpVec2 { x: rv.0, z: rv.1 };
        self._roll = new_roll;
        self._acceleration = FpVec3::zeros();
        self._rotation_acceleration = FpVec2::zeros();
        self._boost = false;
        proof {
            let u = old(self).s_updated(*transform, *height_map_data, dt as int);
            assert(*self == u);
        }
    }
}

/// Normalized horizontal direction, with the zero vector mapped to
/// zero contribution.
fn normalize2(x: i64, z: i64) -> (r: (i64, i64))
    requires
        abs_i(x as int) <= FP_ONE,
        abs_i(z as int) <= FP_ONE,
    ensures
        r.0 == s_norm_x(x as int, z as int),
        r.1 == s_norm_z(x as int, z as int),
        abs_i(r.0 as int) <= FP_ONE,
        abs_i(r.1 as int) <= FP_ONE,
{
    let n: i64 = crate::fixed_point::fx_norm2(x, z);
    if n == 0 {
        proof {
            crate::fixed_point::lemma_norm2_bounds(x as int, z as int);
        }
        (0, 0)
    } else {
        proof {
            crate::fixed_point::lemma_norm2_bounds(x as int, z as int);
            crate::fixed_point::lemma_scale_component(x as int, FP_ONE as int, n as int);
            crate::fixed_point::lemma_scale_component(z as int, FP_ONE as int, n as int);
        }
        (crate::fixed_point::fx_div(x, n), crate::fixed_point::fx_div(z, n))
    }
}

/// One command axis's velocity increment.
fn axis_delta(n: i64, a: i64, accel: i64, dt: i64, bf: i64) -> (r: i64)
    requires
        abs_i(n as int) <= FP_ONE,
        abs_i(a as int) <= FP_ONE,
        0 <= accel <= CFG_LIMIT,
        0 <= dt <= DT_LIMIT,
        0 <= bf <= FACTOR_LIMIT,
    ensures
        r == s_axis_delta(n as int, a as int, accel as int, dt as int, bf as int),
        abs_i(r as int) <= 0x40_0000_0000,
{
    proof {
        crate::fixed_point::lemma_fmul_bound(n as int, a as int, FP_ONE as int, FP_ONE as int);
    }
    let f1: i64 = crate::fixed_point::fx_mul(n, a);
    proof {
        crate::fixed_point::lemma_fmul_bound(f1 as int, accel as int, FP_ONE as int, CFG_LIMIT as int);
    }
    let f2: i64 = crate::fixed_point::fx_mul(f1, accel);
    proof {
        crate::fixed_point::lemma_fmul_bound(f2 as int, dt as int, CFG_LIMIT as int, DT_LIMIT as int);
    }
    let f3: i64 = crate::fixed_point::fx_mul(f2, dt);
    proof {
        crate::fixed_point::lemma_fmul_bound(
            f3 as int,
            bf as int,
            0x4_0000_0000 as int,
            FACTOR_LIMIT as int,
        );
    }
    crate::fixed_point::fx_mul(f3, bf)
}

impl ShipController {
    /// With no commands pending, one frame zeroes the rotation
    /// velocity outright, never increases the magnitude of either
    /// ground-velocity component, keeps a resting ground velocity at
    /// rest, and, whenever a whole damping tick applies, strictly
    /// shrinks every nonzero component — so repeated command-free
    /// frames drive the ground velocity to exactly zero.
    pub proof fn lemma_zero_input_decay(self, t: TransformData, dt: int)
        requires
            self.wf(),
            t.wf(),
            0 <= dt <= DT_LIMIT,
            self._acceleration.x == 0,
            self._acceleration.y == 0,
            self._acceleration.z == 0,
            self._rotation_acceleration.x == 0,
            self._rotation_acceleration.z == 0,
        ensures
            self.s_rv_next() == (0int, 0int),
            ({
                let (gx, gz) = self.s_gv_damped(t, dt);
                let ox = self._ground_velocity.x as int;
                let oz = self._ground_velocity.z as int;
                let tick = fmul(self._controller_data._damping as int, dt);
                &&& abs_i(gx) <= abs_i(ox)
                &&& abs_i(gz) <= abs_i(oz)
                &&& (ox == 0 && oz == 0 ==> gx == 0 && gz == 0)
                &&& (tick >= 1 && ox != 0 ==> abs_i(gx) <= abs_i(ox) - 1)
                &&& (tick >= 1 && oz != 0 ==> abs_i(gz) <= abs_i(oz) - 1)
            }),
    {
        let ox = self._ground_velocity.x as int;
        let oz = self._ground_velocity.z as int;
        assert(self.s_gv_after_commands(t, dt) == (ox, oz));
        if ox == 0 && oz == 0 {
        } else {
            let sp = norm2(ox, oz);
            let tick = fmul(self._controller_data._damping as int, dt);
            let sp2 = s_damp_speed(
                sp,
                self._controller_data._damping as int,
                self._controller_data._max_ground_speed as int,
                dt,
            );
            crate::fixed_point::lemma_norm2_bounds(ox, oz);
            crate::fixed_point::lemma_fmul_bound(
                self._controller_data._damping as int,
                dt,
                CFG_LIMIT as int,
                DT_LIMIT as int,
            );
            Self::lemma_component_decay(ox, sp, sp2, tick >= 1);
            Self::lemma_component_decay(oz, sp, sp2, tick >= 1);
        }
    }

    /// Scaling a component by `sp2 / sp` never grows it, and shrinks
    /// it strictly when a whole damping tick was subtracted.
    proof fn lemma_component_decay(c: int, sp: int, sp2: int, ticked: bool)
        requires
            1 <= sp,
            abs_i(c) <= sp,
            0 <= sp2 <= sp,
            ticked ==> sp2 <= sp - 1,
        ensures
            abs_i(tdiv(c * sp2, sp)) <= abs_i(c),
            ticked && c != 0 ==> abs_i(tdiv(c * sp2, sp)) <= abs_i(c) - 1,
    {
        let a = abs_i(c);
        crate::fixed_point::lemma_mul_abs(c, sp2);
        crate::fixed_point::lemma_tdiv_mag(c * sp2, sp);
        crate::fixed_point::lemma_tdiv_scale_le(a, sp2, sp);
        if ticked && c != 0 {
            assert(a * sp2 <= a * (sp - 1)) by (nonlinear_arith)
                requires
                    a >= 1,
                    sp2 <= sp - 1,
            ;
            assert(a * (sp - 1) == (a - 1) * sp + (sp - a)) by (nonlinear_arith);
            vstd::arithmetic::div_mod::lemma_fundamental_div_mod_converse(
                a * (sp - 1),
                sp,
                a - 1,
                sp - a,
            );
            crate::fixed_point::lemma_tdiv_mono(a * sp2, a * (sp - 1), sp);
            assert(tdiv(a * (sp - 1), sp) == a - 1);
        }
    }

    /// Boost scaling: a frame that only differs by the boost flag adds
    /// command increments that are exactly the unboosted increments
    /// scaled by the boost multiplier — for the ground velocity (with
    /// a single translational axis commanded) and for the vertical
    /// velocity.
    pub proof fn lemma_boost_scaling(self, t: TransformData, dt: int)
        requires
            self.wf(),
            t.wf(),
            0 <= dt <= DT_LIMIT,
            self._acceleration.z == 0,
        ensures
            ({
                let b = ShipController { _boost: true, ..self };
                let n = ShipController { _boost: false, ..self };
                let (bx, bz) = b.s_gv_after_commands(t, dt);
                let (nx, nz) = n.s_gv_after_commands(t, dt);
                let boost = self._controller_data._boost_acceleration as int;
                let ox = self._ground_velocity.x as int;
                let oz = self._ground_velocity.z as int;
                &&& bx - ox == fmul(nx - ox, boost)
                &&& bz - oz == fmul(nz - oz, boost)
                &&& b.s_fv_after_commands(dt) - self._floating_velocity == fmul(
                    n.s_fv_after_commands(dt) - self._floating_velocity,
                    boost,
                )
            }),
    {
        let boost = self._controller_data._boost_acceleration as int;
        if self._acceleration.x != 0 {
            Self::lemma_axis_boost(
                s_norm_x(t._left.x as int, t._left.z as int),
                self._acceleration.x as int,
                self._controller_data._side_acceleration as int,
                dt,
                boost,
            );
            Self::lemma_axis_boost(
                s_norm_z(t._left.x as int, t._left.z as int),
                self._acceleration.x as int,
                self._controller_data._side_acceleration as int,
                dt,
                boost,
            );
        } else {
            assert(fmul(0, boost) == 0);
        }
        if self._acceleration.y != 0 {
            Self::lemma_axis_boost(
                FP_ONE as int,
                self._acceleration.y as int,
                self._controller_data._floating_acceleration as int,
                dt,
                boost,
            );
        } else {
            assert(fmul(0, boost) == 0);
        }
    }

    /// One command axis's boosted increment is its plain increment
    /// scaled by the boost factor.
    proof fn lemma_axis_boost(n: int, a: int, accel: int, dt: int, boost: int)
        ensures
            s_axis_delta(n, a, accel, dt, boost) == fmul(
                s_axis_delta(n, a, accel, dt, FP_ONE as int),
                boost,
            ),
    {
        crate::fixed_point::lemma_fmul_one(fmul(fmul(fmul(n, a), accel), dt));
    }

    /// Roll easing never overshoots: one frame keeps the roll between
    /// its current value and the goal (snapping exactly onto the goal
    /// when the step would reach or pass it), loses exactly the step
    /// it took otherwise, holds a met goal, and reaches the goal in a
    /// single frame whenever the frame's easing rate covers the tuned
    /// side-step angle.
    pub proof fn lemma_roll_no_overshoot(self, t: TransformData, dt: int)
        requires
            self.wf(),
            t.wf(),
            0 <= dt <= DT_LIMIT,
        ensures
            ({
                let goal = self.s_goal_roll();
                let roll = t._roll as int;
                let next = self.s_roll_next(t, dt);
                let rs = fmul(self._controller_data._side_step_roll_speed as int, dt);
                let step = tdiv(rs * abs_i(goal - roll), self._controller_data._side_step_roll as int);
                &&& goal == roll ==> next == self._roll
                &&& goal != roll ==> abs_i(next - goal) <= abs_i(roll - goal)
                &&& goal != roll ==> (next - goal) * (roll - goal) >= 0
                &&& goal != roll ==> (next == goal || abs_i(next - goal) == abs_i(roll - goal)
                    - step)
                &&& (goal != roll && rs >= self._controller_data._side_step_roll) ==> next == goal
            }),
    {
        let goal = self.s_goal_roll();
        let roll = t._roll as int;
        let next = self.s_roll_next(t, dt);
        if goal != roll {
            let diff = goal - roll;
            let mag = abs_i(diff);
            let rs = fmul(self._controller_data._side_step_roll_speed as int, dt);
            let cfg_roll = self._controller_data._side_step_roll as int;
            crate::fixed_point::lemma_fmul_bound(
                self._controller_data._side_step_roll_speed as int,
                dt,
                CFG_LIMIT as int,
                DT_LIMIT as int,
            );
            if mag < rs {
                assert((next - goal) * (roll - goal) == 0) by (nonlinear_arith)
                    requires
                        next == goal,
                ;
            } else {
                let step = tdiv(rs * mag, cfg_roll);
                crate::fixed_point::lemma_mul_abs(rs, mag);
                crate::fixed_point::lemma_tdiv_mag(rs * mag, cfg_roll);
                if rs >= cfg_roll {
                    assert(rs * mag >= cfg_roll * mag) by (nonlinear_arith)
                        requires
                            rs >= cfg_roll,
                            mag >= 0,
                    ;
                    crate::fixed_point::lemma_tdiv_mono(cfg_roll * mag, rs * mag, cfg_roll);
                    crate::fixed_point::lemma_tdiv_exact(mag, cfg_roll);
                    assert(cfg_roll * mag == mag * cfg_roll) by (nonlinear_arith);
                    assert(step >= mag);
                }
                if step >= mag {
                    assert((next - goal) * (roll - goal) == 0) by (nonlinear_arith)
                        requires
                            next == goal,
                    ;
                } else {
                    assert(step >= 0) by {
                        assert(rs * mag >= 0) by (nonlinear_arith)
                            requires
                                rs >= 0,
                                mag >= 0,
                        ;
                        crate::fixed_point::lemma_tdiv_mag(rs * mag, cfg_roll);
                    }
                    if diff >= 0 {
                        assert(next == roll + step);
                        assert(abs_i(next - goal) == mag - step);
                        assert((next - goal) * (roll - goal) >= 0) by (nonlinear_arith)
                            requires
                                next - goal <= 0,
                                roll - goal <= 0,
                        ;
                    } else {
                        assert(next == roll - step);
                        assert(abs_i(next - goal) == mag - step);
                        assert((next - goal) * (roll - goal) >= 0) by (nonlinear_arith)
                            requires
                                next - goal >= 0,
                                roll - goal >= 0,
                        ;
                    }
                }
            }
        }
    }
}

} // verus!
