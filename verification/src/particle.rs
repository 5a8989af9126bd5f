//! A particle: a point mass with kinematic state, a per-step force
//! accumulator, and a semi-implicit Euler integrator.

use vstd::prelude::*;
use crate::fixed::{
    SCALE, in_i64, fmul_spec, fdiv_spec, fpow_spec, fmul, fdiv, fpow, lemma_tdiv_le_abs,
    lemma_scale_unit_bound,
};
use crate::vector::{Vector3, add_scaled_spec, add_scaled_fits, scale_spec, sqmag_spec};

verus! {

/// A point mass.
///
/// The inverse mass is the canonical stored quantity of the integrator:
/// zero denotes an immovable (infinite-mass) particle, and avoids any
/// division by zero during a step. Damping is the per-unit-time velocity
/// attenuation, a fixed-point scalar in [0, SCALE].
#[derive(Clone, Copy, Debug, PartialEq, Eq, Structural)]
pub struct Particle {
    /// The linear position of the particle.
    pub position: Vector3,
    /// The linear velocity of the particle.
    pub velocity: Vector3,
    /// Constant acceleration, primarily gravity.
    pub acceleration: Vector3,
    /// Velocity kept per unit of time, in [0, SCALE]; removes energy added
    /// through numerical instability in the integrator.
    pub damping: i64,
    /// The mass; zero or negative is the sentinel for an immovable particle.
    pub mass: i64,
    /// Zero for an immovable particle, 1/mass otherwise. Not recomputed
    /// when the mass is assigned directly: callers ask for that explicitly.
    pub inverse_mass: i64,
    /// The force accumulated for the next integration step only; zeroed at
    /// each step.
    pub force_accum: Vector3,
}

/// The inverse mass that belongs to a given mass.
pub open spec fn inverse_of(mass: int) -> int {
    if mass > 0 {
        fdiv_spec(SCALE as int, mass)
    } else {
        0
    }
}

/// Every intermediate of one integration step stays within the scalar range.
pub open spec fn integrate_fits(p: Particle, dt: int) -> bool {
    &&& add_scaled_fits(p.position, p.velocity, dt)
    &&& add_scaled_fits(p.acceleration, p.force_accum, dt)
    &&& add_scaled_fits(p.velocity, add_scaled_spec(p.acceleration, p.force_accum, dt), dt)
}

/// The velocity after one step: the accumulated force joins the constant
/// acceleration scaled by the duration, the result advances the velocity,
/// and damping attenuates it.
pub open spec fn velocity_after(p: Particle, dt: int) -> Vector3 {
    scale_spec(
        add_scaled_spec(p.velocity, add_scaled_spec(p.acceleration, p.force_accum, dt), dt),
        fpow_spec(p.damping as int, dt),
    )
}

/// The added force stays within the accumulator's scalar range.
pub open spec fn accum_fits(p: Particle, f: Vector3) -> bool {
    &&& in_i64(p.force_accum.x + f.x)
    &&& in_i64(p.force_accum.y + f.y)
    &&& in_i64(p.force_accum.z + f.z)
}

/// The particle with a force added to its accumulator; nothing else moves.
pub open spec fn with_force_added(p: Particle, f: Vector3) -> Particle {
    Particle {
        force_accum: Vector3 {
            x: (p.force_accum.x + f.x) as i64,
            y: (p.force_accum.y + f.y) as i64,
            z: (p.force_accum.z + f.z) as i64,
        },
        ..p
    }
}

/// The kinetic energy: half the mass times the squared speed.
pub open spec fn kinetic_energy_spec(p: Particle) -> int {
    fmul_spec(fmul_spec((SCALE as int) / 2, p.mass as int), sqmag_spec(p.velocity))
}

/// A damping of exactly one attenuates nothing: the velocity one step
/// leaves behind is the undamped velocity update, whatever the duration.
pub proof fn lemma_full_damping_keeps_velocity(p: Particle, dt: int)
    requires
        p.damping == SCALE,
        dt >= 0,
    ensures
        velocity_after(p, dt) == add_scaled_spec(p.velocity, add_scaled_spec(p.acceleration,
            p.force_accum, dt), dt),
{
    crate::fixed::lemma_fpow_one(dt);
    let v2 = add_scaled_spec(p.velocity, add_scaled_spec(p.acceleration, p.force_accum, dt), dt);
    crate::fixed::lemma_tdiv_mul_cancel(v2.x as int, SCALE as int);
    crate::fixed::lemma_tdiv_mul_cancel(v2.y as int, SCALE as int);
    crate::fixed::lemma_tdiv_mul_cancel(v2.z as int, SCALE as int);
}

impl Particle {
    /// A particle with the given initial state. The inverse mass is derived
    /// here: zero whenever the mass is not positive.
    pub fn new(position: Vector3, velocity: Vector3, acceleration: Vector3, damping: i64,
        mass: i64) -> (r: Particle)
        requires
            0 <= damping <= SCALE,
        ensures
            r.position == position,
            r.velocity == velocity,
            r.acceleration == acceleration,
            r.damping == damping,
            r.mass == mass,
            r.inverse_mass as int == inverse_of(mass as int),
            r.force_accum == (Vector3 { x: 0, y: 0, z: 0 }),
    {
        let inverse_mass: i64 = if mass > 0 {
            proof {
                lemma_tdiv_le_abs(SCALE as int * SCALE as int, mass as int);
            }
            fdiv(SCALE, mass)
        } else {
            0
        };
        Particle {
            position,
            velocity,
            acceleration,
            damping,
            mass,
            inverse_mass,
            force_accum: Vector3::default(),
        }
    }

    /// One semi-implicit Euler step: advance the position by the velocity,
    /// fold the accumulated force into the acceleration scaled by the
    /// duration, advance the velocity, damp it, and clear the accumulator.
    /// An immovable particle is left entirely unchanged.
    pub fn integrate(&mut self, duration: i64)
        requires
            old(self).inverse_mass > 0 ==> {
                &&& duration > 0
                &&& 0 <= old(self).damping <= SCALE
                &&& integrate_fits(*old(self), duration as int)
            },
        ensures
            old(self).inverse_mass <= 0 ==> *final(self) == *old(self),
            old(self).inverse_mass > 0 ==> {
                &&& final(self).position == add_scaled_spec(old(self).position,
                    old(self).velocity, duration as int)
                &&& final(self).velocity == velocity_after(*old(self), duration as int)
                &&& final(self).acceleration == old(self).acceleration
                &&& final(self).damping == old(self).damping
                &&& final(self).mass == old(self).mass
                &&& final(self).inverse_mass == old(self).inverse_mass
                &&& final(self).force_accum == (Vector3 { x: 0, y: 0, z: 0 })
            },
    {
        // An immovable particle does not integrate.
        if self.inverse_mass <= 0 {
            return;
        }
        // Advance the position from the current velocity.
        self.position.add_scaled_vector(&self.velocity, duration);
        // Fold the accumulated force, scaled by the duration, into the
        // constant acceleration.
        let mut resulting_acc: Vector3 = self.acceleration;
        resulting_acc.add_scaled_vector(&self.force_accum, duration);
        // Advance the velocity from the resulting acceleration.
        self.velocity.add_scaled_vector(&resulting_acc, duration);
        // Impose drag.
        let pf = fpow(self.damping, duration);
        proof {
            lemma_scale_unit_bound(self.velocity.x as int, pf as int);
            lemma_scale_unit_bound(self.velocity.y as int, pf as int);
            lemma_scale_unit_bound(self.velocity.z as int, pf as int);
        }
        self.velocity = self.velocity.mul_scalar(pf);
        // Clear the forces.
        self.clear_accumulator();
    }

    /// Zeroes the force accumulator.
    pub fn clear_accumulator(&mut self)
        ensures
            *final(self) == (Particle { force_accum: Vector3 { x: 0, y: 0, z: 0 }, ..*old(self) }),
    {
        self.force_accum = Vector3::default();
    }

    /// Half the mass times the squared speed.
    pub fn calculate_kinetic_energy(&self) -> (r: i64)
        requires
            sqmag_spec(self.velocity) <= i64::MAX,
            in_i64(kinetic_energy_spec(*self)),
        ensures
            r as int == kinetic_energy_spec(*self),
    {
        let half: i64 = 32768;
        proof {
            lemma_scale_unit_bound(self.mass as int, half as int);
            assert(fmul_spec(self.mass as int, half as int) == fmul_spec(half as int,
                self.mass as int)) by (nonlinear_arith)
                requires true,
            ;
        }
        let hm = fmul(half, self.mass);
        fmul(hm, self.velocity.square_magnitude())
    }

    /// Adds a force for the next integration step only; contributions from
    /// any number of generators are additive.
    pub fn add_force(&mut self, force: Vector3)
        requires
            in_i64(old(self).force_accum.x + force.x),
            in_i64(old(self).force_accum.y + force.y),
            in_i64(old(self).force_accum.z + force.z),
        ensures
            final(self).force_accum.x == old(self).force_accum.x + force.x,
            final(self).force_accum.y == old(self).force_accum.y + force.y,
            final(self).force_accum.z == old(self).force_accum.z + force.z,
            final(self).position == old(self).position,
            final(self).velocity == old(self).velocity,
            final(self).acceleration == old(self).acceleration,
            final(self).damping == old(self).damping,
            final(self).mass == old(self).mass,
            final(self).inverse_mass == old(self).inverse_mass,
    {
        let f = self.force_accum.add_vector(&force);
        self.force_accum = f;
    }

    /// Adds a force to the accumulator, reporting whether it fit; the
    /// particle is untouched where it did not.
    pub fn add_force_checked(&mut self, force: Vector3) -> (applied: bool)
        ensures
            applied == accum_fits(*old(self), force),
            applied ==> *final(self) == with_force_added(*old(self), force),
            !applied ==> *final(self) == *old(self),
    {
        match self.force_accum.add_checked(&force) {
            Some(sum) => {
                self.force_accum = sum;
                true
            },
            None => false,
        }
    }

    /// Assigns the mass. The inverse mass is deliberately not recomputed:
    /// callers request that explicitly through `set_inverse_mass`.
    pub fn set_mass(&mut self, mass: i64)
        ensures
            *final(self) == (Particle { mass, ..*old(self) }),
    {
        self.mass = mass;
    }

    pub fn set_velocity(&mut self, x: i64, y: i64, z: i64)
        ensures
            *final(self) == (Particle { velocity: Vector3 { x, y, z }, ..*old(self) }),
    {
        self.velocity = Vector3::new(x, y, z);
    }

    pub fn set_acceleration(&mut self, x: i64, y: i64, z: i64)
        ensures
            *final(self) == (Particle { acceleration: Vector3 { x, y, z }, ..*old(self) }),
    {
        self.acceleration = Vector3::new(x, y, z);
    }

    pub fn set_position(&mut self, x: i64, y: i64, z: i64)
        ensures
            *final(self) == (Particle { position: Vector3 { x, y, z }, ..*old(self) }),
    {
        self.position = Vector3::new(x, y, z);
    }

    /// Recomputes the inverse mass from the current mass: zero for an
    /// immovable particle, 1/mass otherwise.
    pub fn set_inverse_mass(&mut self)
        ensures
            *final(self) == (Particle {
                inverse_mass: inverse_of(old(self).mass as int) as i64,
                ..*old(self)
            }),
    {
        if self.mass > 0 {
            proof {
                lemma_tdiv_le_abs(SCALE as int * SCALE as int, self.mass as int);
            }
            self.inverse_mass = fdiv(SCALE, self.mass);
        } else {
            self.inverse_mass = 0;
        }
    }

    pub fn get_mass(&self) -> (r: i64)
        ensures
            r == self.mass,
    {
        self.mass
    }

    pub fn get_velocity(&self) -> (r: Vector3)
        ensures
            r == self.velocity,
    {
        self.velocity
    }

    pub fn get_acceleration(&self) -> (r: Vector3)
        ensures
            r == self.acceleration,
    {
        self.acceleration
    }

    pub fn get_position(&self) -> (r: Vector3)
        ensures
            r == self.position,
    {
        self.position
    }

    pub fn get_inverse_mass(&self) -> (r: i64)
        ensures
            r == self.inverse_mass,
    {
        self.inverse_mass
    }

    /// A particle responds to forces exactly when its mass is positive (and,
    /// with bounded integers, necessarily finite).
    pub fn has_finite_mass(&self) -> (r: bool)
        ensures
            r == (self.mass > 0),
    {
        self.mass > 0
    }
}

} // verus!
