//! Force generators: pluggable rules that compute one force contribution
//! per step and add it to a particle's accumulator.
//!
//! Every generator's `update_force` is total: a degenerate case (a zero
//! direction, a negative square root) or a value that would leave the
//! scalar range applies no force and leaves the particle untouched. Each
//! contract names the exact outcome through a `*_force` specification that
//! reads only the particle's position, velocity and mass — never its
//! accumulator — so contributions from several generators are additive.

use vstd::prelude::*;
use crate::fixed::{
    SCALE, in_i64, tdiv, abs1, fmul_spec, fdiv_spec, fsqrt_spec, cos_fx_spec, sin_fx_spec,
    exp_neg_spec, fmul, fsqrt, ftrunc_div, cos_fx, sin_fx, exp_neg, checked_fmul, checked_fdiv,
    checked_add64, checked_sub64, checked_int_mul, div_trunc, lemma_scale_unit_bound,
};
use crate::vector::{
    Vector3, sq_raw, mag_spec, norm_spec, scale_spec, scale_fits, add_spec, add_fits, sub_spec,
    sub_fits,
};
use crate::particle::{Particle, accum_fits, with_force_added};

verus! {

/// A force a generator decided on, or nothing where it applies no force.
/// Applying it adds it to the accumulator where the sum fits.
pub open spec fn apply_force(p: Particle, fo: Option<Vector3>) -> Particle {
    match fo {
        None => p,
        Some(f) => if accum_fits(p, f) {
            with_force_added(p, f)
        } else {
            p
        },
    }
}

/// A constant gravitational field.
#[derive(Clone, Copy, Debug, PartialEq, Eq, Structural)]
pub struct ParticleGravity {
    /// Acceleration due to gravity.
    pub gravity: Vector3,
}

/// The force gravity applies: the field scaled by the mass, skipping
/// immovable particles.
pub open spec fn gravity_force(gen: ParticleGravity, p: Particle) -> Option<Vector3> {
    if p.mass <= 0 {
        None
    } else if !scale_fits(gen.gravity, p.mass as int) {
        None
    } else {
        Some(scale_spec(gen.gravity, p.mass as int))
    }
}

impl ParticleGravity {
    pub fn new(gravity: &Vector3) -> (r: ParticleGravity)
        ensures
            r.gravity == *gravity,
    {
        ParticleGravity { gravity: *gravity }
    }

    /// Applies the mass-scaled gravitational force.
    pub fn update_force(&self, particle: &mut Particle, _duration: i64)
        ensures
            *final(particle) == apply_force(*old(particle), gravity_force(*self, *old(particle))),
    {
        if !particle.has_finite_mass() {
            return;
        }
        let m = particle.get_mass();
        match self.gravity.scale_checked(m) {
            Some(f) => {
                let _applied = particle.add_force_checked(f);
            },
            None => {},
        }
    }
}

/// Drag proportional to the speed and to the squared speed.
#[derive(Clone, Copy, Debug, PartialEq, Eq, Structural)]
pub struct ParticleDrag {
    /// The velocity drag coefficient.
    pub k1: i64,
    /// The velocity-squared drag coefficient.
    pub k2: i64,
}

/// The drag force: `-(k1 |v| + k2 |v|^2)` along the velocity's direction.
/// A particle at rest feels no drag.
pub open spec fn drag_force(gen: ParticleDrag, p: Particle) -> Option<Vector3> {
    let v = p.velocity;
    if sq_raw(v) >= 0x4000_0000_0000_0000_0000_0000_0000_0000 {
        None
    } else if mag_spec(v) == 0 {
        None
    } else {
        let m = mag_spec(v);
        if !in_i64(fmul_spec(gen.k1 as int, m)) {
            None
        } else if !in_i64(fmul_spec(gen.k2 as int, m)) {
            None
        } else if !in_i64(fmul_spec(fmul_spec(gen.k2 as int, m), m)) {
            None
        } else if !in_i64(fmul_spec(gen.k1 as int, m) + fmul_spec(fmul_spec(gen.k2 as int, m),
        m)) {
            None
        } else {
            let coef = fmul_spec(gen.k1 as int, m) + fmul_spec(fmul_spec(gen.k2 as int, m), m);
            if !in_i64(-coef) {
                None
            } else if !scale_fits(norm_spec(v), -coef) {
                None
            } else {
                Some(scale_spec(norm_spec(v), -coef))
            }
        }
    }
}

impl ParticleDrag {
    pub fn new(k1: i64, k2: i64) -> (r: ParticleDrag)
        ensures
            r.k1 == k1,
            r.k2 == k2,
    {
        ParticleDrag { k1, k2 }
    }

    /// Applies the drag force along the direction opposite the velocity.
    pub fn update_force(&self, particle: &mut Particle, _duration: i64)
        ensures
            *final(particle) == apply_force(*old(particle), drag_force(*self, *old(particle))),
    {
        let v = particle.get_velocity();
        let m = match v.magnitude_checked() {
            Some(m) => m,
            None => { return; },
        };
        if m == 0 {
            return;
        }
        let c1 = match checked_fmul(self.k1, m) {
            Some(c) => c,
            None => { return; },
        };
        let t = match checked_fmul(self.k2, m) {
            Some(c) => c,
            None => { return; },
        };
        let c2 = match checked_fmul(t, m) {
            Some(c) => c,
            None => { return; },
        };
        let coef = match checked_add64(c1, c2) {
            Some(c) => c,
            None => { return; },
        };
        if coef == i64::MIN {
            return;
        }
        let mut dir = v;
        proof {
            crate::vector::lemma_mag_zero(v);
        }
        dir.normalize();
        let f = match dir.scale_checked(-coef) {
            Some(f) => f,
            None => { return; },
        };
        let _applied = particle.add_force_checked(f);
    }
}

/// A spring between this particle and a snapshot of another.
#[derive(Clone, Copy, Debug, PartialEq, Eq, Structural)]
pub struct ParticleSpring {
    /// The particle at the other end of the spring.
    pub other: Particle,
    /// The spring constant.
    pub spring_constant: i64,
    /// The rest length of the spring.
    pub rest_length: i64,
}

/// The spring force: the spring constant times how far the spring is from
/// its rest length, pulling along the line between the ends.
pub open spec fn spring_force(gen: ParticleSpring, p: Particle) -> Option<Vector3> {
    if !sub_fits(p.position, gen.other.position) {
        None
    } else {
        let d = sub_spec(p.position, gen.other.position);
        if sq_raw(d) >= 0x4000_0000_0000_0000_0000_0000_0000_0000 {
            None
        } else if mag_spec(d) == 0 {
            None
        } else {
            let m = mag_spec(d);
            if !in_i64(m - gen.rest_length) {
                None
            } else if !in_i64(-(m - gen.rest_length)) {
                None
            } else if !in_i64(fmul_spec(abs1(m - gen.rest_length), gen.spring_constant as int)) {
                None
            } else {
                let coef = fmul_spec(abs1(m - gen.rest_length), gen.spring_constant as int);
                if !in_i64(-coef) {
                    None
                } else if !scale_fits(norm_spec(d), -coef) {
                    None
                } else {
                    Some(scale_spec(norm_spec(d), -coef))
                }
            }
        }
    }
}

impl ParticleSpring {
    pub fn new(other: Particle, spring_constant: i64, rest_length: i64) -> (r: ParticleSpring)
        ensures
            r.other == other,
            r.spring_constant == spring_constant,
            r.rest_length == rest_length,
    {
        ParticleSpring { other, spring_constant, rest_length }
    }

    /// Applies the spring force toward the other end.
    pub fn update_force(&self, particle: &mut Particle, _duration: i64)
        ensures
            *final(particle) == apply_force(*old(particle), spring_force(*self, *old(particle))),
    {
        let d = match particle.get_position().sub_checked(&self.other.get_position()) {
            Some(d) => d,
            None => { return; },
        };
        let m = match d.magnitude_checked() {
            Some(m) => m,
            None => { return; },
        };
        if m == 0 {
            return;
        }
        let diff = match checked_sub64(m, self.rest_length) {
            Some(c) => c,
            None => { return; },
        };
        if diff == i64::MIN {
            return;
        }
        let ad = if diff < 0 { -diff } else { diff };
        let coef = match checked_fmul(ad, self.spring_constant) {
            Some(c) => c,
            None => { return; },
        };
        if coef == i64::MIN {
            return;
        }
        let mut dir = d;
        proof {
            crate::vector::lemma_mag_zero(d);
        }
        dir.normalize();
        let f = match dir.scale_checked(-coef) {
            Some(f) => f,
            None => { return; },
        };
        let _applied = particle.add_force_checked(f);
    }
}

/// A spring anchored to a fixed point in space.
#[derive(Clone, Copy, Debug, PartialEq, Eq, Structural)]
pub struct ParticleAnchoredSpring {
    /// The location of the anchored end of the spring.
    pub anchor: Vector3,
    /// The spring constant.
    pub spring_constant: i64,
    /// The rest length of the spring.
    pub rest_length: i64,
}

/// The anchored-spring force: the spring constant times the rest length
/// minus the distance, along the direction away from the anchor.
pub open spec fn anchored_spring_force(gen: ParticleAnchoredSpring, p: Particle) -> Option<
    Vector3,
> {
    if !sub_fits(p.position, gen.anchor) {
        None
    } else {
        let d = sub_spec(p.position, gen.anchor);
        if sq_raw(d) >= 0x4000_0000_0000_0000_0000_0000_0000_0000 {
            None
        } else if mag_spec(d) == 0 {
            None
        } else {
            let m = mag_spec(d);
            if !in_i64(gen.rest_length - m) {
                None
            } else if !in_i64(fmul_spec(gen.rest_length - m, gen.spring_constant as int)) {
                None
            } else {
                let coef = fmul_spec(gen.rest_length - m, gen.spring_constant as int);
                if !scale_fits(norm_spec(d), coef) {
                    None
                } else {
                    Some(scale_spec(norm_spec(d), coef))
                }
            }
        }
    }
}

impl ParticleAnchoredSpring {
    pub fn new(anchor: Vector3, spring_constant: i64, rest_length: i64) -> (r:
        ParticleAnchoredSpring)
        ensures
            r.anchor == anchor,
            r.spring_constant == spring_constant,
            r.rest_length == rest_length,
    {
        ParticleAnchoredSpring { anchor, spring_constant, rest_length }
    }

    /// Moves the anchor.
    pub fn set_anchor(&mut self, anchor_update: Vector3)
        ensures
            *final(self) == (ParticleAnchoredSpring { anchor: anchor_update, ..*old(self) }),
    {
        self.anchor.update_by_vector3(anchor_update);
    }

    /// Applies the anchored-spring force.
    pub fn update_force(&self, particle: &mut Particle, _duration: i64)
        ensures
            *final(particle) == apply_force(*old(particle), anchored_spring_force(*self,
                *old(particle))),
    {
        let d = match particle.get_position().sub_checked(&self.anchor) {
            Some(d) => d,
            None => { return; },
        };
        let m = match d.magnitude_checked() {
            Some(m) => m,
            None => { return; },
        };
        if m == 0 {
            return;
        }
        let diff = match checked_sub64(self.rest_length, m) {
            Some(c) => c,
            None => { return; },
        };
        let coef = match checked_fmul(diff, self.spring_constant) {
            Some(c) => c,
            None => { return; },
        };
        let mut dir = d;
        proof {
            crate::vector::lemma_mag_zero(d);
        }
        dir.normalize();
        let f = match dir.scale_checked(coef) {
            Some(f) => f,
            None => { return; },
        };
        let _applied = particle.add_force_checked(f);
    }
}

/// An elastic bungee between this particle and a snapshot of another; it
/// pulls only when extended past its rest length.
#[derive(Clone, Copy, Debug, PartialEq, Eq, Structural)]
pub struct ParticleBungee {
    /// The particle at the other end of the bungee.
    pub other: Particle,
    /// The spring constant.
    pub spring_constant: i64,
    /// The length at which the bungee starts to pull.
    pub rest_length: i64,
}

/// The bungee force: nothing while the separation is within the rest
/// length (a slack rope), otherwise a spring force on the extension.
pub open spec fn bungee_force(gen: ParticleBungee, p: Particle) -> Option<Vector3> {
    if !sub_fits(p.position, gen.other.position) {
        None
    } else {
        let d = sub_spec(p.position, gen.other.position);
        if sq_raw(d) >= 0x4000_0000_0000_0000_0000_0000_0000_0000 {
            None
        } else {
            let m = mag_spec(d);
            if m <= gen.rest_length {
                None
            } else if m == 0 {
                None
            } else if !in_i64(gen.rest_length - m) {
                None
            } else if !in_i64(fmul_spec(gen.spring_constant as int, gen.rest_length - m)) {
                None
            } else {
                let coef = fmul_spec(gen.spring_constant as int, gen.rest_length - m);
                if !in_i64(-coef) {
                    None
                } else if !scale_fits(norm_spec(d), -coef) {
                    None
                } else {
                    Some(scale_spec(norm_spec(d), -coef))
                }
            }
        }
    }
}

impl ParticleBungee {
    pub fn new(other: Particle, spring_constant: i64, rest_length: i64) -> (r: ParticleBungee)
        ensures
            r.other == other,
            r.spring_constant == spring_constant,
            r.rest_length == rest_length,
    {
        ParticleBungee { other, spring_constant, rest_length }
    }

    /// Applies the bungee force, or none at all while the bungee is slack:
    /// a separation within the rest length leaves the particle, and in
    /// particular its force accumulator, exactly as it was.
    pub fn update_force(&self, particle: &mut Particle, _duration: i64)
        ensures
            *final(particle) == apply_force(*old(particle), bungee_force(*self, *old(particle))),
            sub_fits(old(particle).position, self.other.position) && sq_raw(sub_spec(
                old(particle).position, self.other.position))
                < 0x4000_0000_0000_0000_0000_0000_0000_0000 && mag_spec(sub_spec(
                old(particle).position, self.other.position)) <= self.rest_length
                ==> *final(particle) == *old(particle),
    {
        let d = match particle.get_position().sub_checked(&self.other.get_position()) {
            Some(d) => d,
            None => { return; },
        };
        let m = match d.magnitude_checked() {
            Some(m) => m,
            None => { return; },
        };
        // Check whether the bungee is compressed.
        if m <= self.rest_length {
            return;
        }
        if m == 0 {
            return;
        }
        let diff = match checked_sub64(self.rest_length, m) {
            Some(c) => c,
            None => { return; },
        };
        let coef = match checked_fmul(self.spring_constant, diff) {
            Some(c) => c,
            None => { return; },
        };
        if coef == i64::MIN {
            return;
        }
        let mut dir = d;
        proof {
            crate::vector::lemma_mag_zero(d);
        }
        dir.normalize();
        let f = match dir.scale_checked(-coef) {
            Some(f) => f,
            None => { return; },
        };
        let _applied = particle.add_force_checked(f);
    }
}

/// Buoyancy from a liquid plane parallel to the XZ plane.
#[derive(Clone, Copy, Debug, PartialEq, Eq, Structural)]
pub struct ParticleBuoyancy {
    /// The submersion depth at which the object generates its maximum
    /// buoyancy force.
    pub max_depth: i64,
    /// The volume of the object.
    pub volume: i64,
    /// The height of the liquid plane above y = 0.
    pub water_height: i64,
    /// The density of the liquid.
    pub liquid_density: i64,
}

/// The buoyancy force, straight up: nothing when fully surfaced, density
/// times volume when fully submerged, and the linear interpolation between
/// the two in between.
pub open spec fn buoyancy_force(gen: ParticleBuoyancy, p: Particle) -> Option<Vector3> {
    let depth = p.position.y as int;
    if depth >= gen.water_height + gen.max_depth {
        None
    } else if !in_i64(fmul_spec(gen.liquid_density as int, gen.volume as int)) {
        None
    } else {
        let dv = fmul_spec(gen.liquid_density as int, gen.volume as int);
        if depth <= gen.water_height - gen.max_depth {
            Some(Vector3 { x: 0, y: dv as i64, z: 0 })
        } else {
            let frac = tdiv((gen.water_height + gen.max_depth - depth) * SCALE,
                2 * gen.max_depth);
            Some(Vector3 { x: 0, y: fmul_spec(dv, frac) as i64, z: 0 })
        }
    }
}

impl ParticleBuoyancy {
    pub fn new(max_depth: i64, volume: i64, water_height: i64, liquid_density: i64) -> (r:
        ParticleBuoyancy)
        ensures
            r.max_depth == max_depth,
            r.volume == volume,
            r.water_height == water_height,
            r.liquid_density == liquid_density,
    {
        ParticleBuoyancy { max_depth, volume, water_height, liquid_density }
    }

    /// Applies the buoyancy force for the particle's current depth.
    pub fn update_force(&self, particle: &mut Particle, _duration: i64)
        ensures
            *final(particle) == apply_force(*old(particle), buoyancy_force(*self,
                *old(particle))),
    {
        let depth: i64 = particle.get_position().y;
        // Out of the water entirely.
        if (depth as i128) >= (self.water_height as i128) + (self.max_depth as i128) {
            return;
        }
        let dv = match checked_fmul(self.liquid_density, self.volume) {
            Some(c) => c,
            None => { return; },
        };
        // At maximum depth.
        if (depth as i128) <= (self.water_height as i128) - (self.max_depth as i128) {
            let _applied = particle.add_force_checked(Vector3 { x: 0, y: dv, z: 0 });
            return;
        }
        // Partly submerged: interpolate on the depth fraction.
        let num: i128 = (self.water_height as i128) + (self.max_depth as i128) - (depth as i128);
        let den: i128 = 2 * (self.max_depth as i128);
        proof {
            lemma_buoyancy_frac(self.water_height as int, self.max_depth as int, depth as int);
            assert(num * (SCALE as int) <= 0x4_0000_0000_0000_0000_0000 && num * (SCALE as int)
                > 0) by (nonlinear_arith)
                requires 0 < num < 0x2_0000_0000_0000_0000, SCALE == 65536i64,
            ;
        }
        let frac: i64 = div_trunc(num * (SCALE as i128), den) as i64;
        proof {
            lemma_scale_unit_bound(dv as int, frac as int);
        }
        let fy = fmul(dv, frac);
        let _applied = particle.add_force_checked(Vector3 { x: 0, y: fy, z: 0 });
    }
}

/// In the partly-submerged band the interpolation fraction lies in [0, SCALE).
proof fn lemma_buoyancy_frac(wh: int, md: int, depth: int)
    requires
        depth < wh + md,
        depth > wh - md,
    ensures
        md > 0,
        0 < wh + md - depth < 2 * md,
        0 <= tdiv((wh + md - depth) * SCALE, 2 * md) < SCALE,
{
    let num = wh + md - depth;
    assert(num * SCALE > 0 && abs1(num * SCALE) == num * (SCALE as int) && num * (SCALE as int)
        < (2 * md) * (SCALE as int) && (2 * md) * (SCALE as int) == (SCALE as int) * (2 * md))
        by (nonlinear_arith)
        requires 0 < num < 2 * md, SCALE == 65536i64,
    ;
    vstd::arithmetic::div_mod::lemma_multiply_divide_lt(num * SCALE, 2 * md, SCALE as int);
    vstd::arithmetic::div_mod::lemma_div_pos_is_pos(num * SCALE, 2 * md);
}

/// A stiff spring to a fixed anchor, faked through the closed-form damped
/// harmonic oscillator evaluated over the step.
#[derive(Clone, Copy, Debug, PartialEq, Eq, Structural)]
pub struct ParticleFakeSpring {
    /// The location of the anchored end of the spring.
    pub anchor: Vector3,
    /// The spring constant.
    pub spring_constant: i64,
    /// The damping on the oscillation of the spring.
    pub damping: i64,
}

/// The faked stiff-spring force: the analytic damped-harmonic position at
/// the end of the step is predicted, and the force that would produce that
/// discrepancy is applied, scaled by the mass. Degenerate parameters (an
/// immovable particle, a negative discriminant, a zero frequency, negative
/// damping) apply no force.
pub open spec fn fake_spring_force(gen: ParticleFakeSpring, p: Particle, dt: int) -> Option<
    Vector3,
> {
    if p.mass <= 0 {
        None
    } else if !sub_fits(p.position, gen.anchor) {
        None
    } else if gen.damping < 0 {
        None
    } else if !in_i64(4 * gen.spring_constant) {
        None
    } else if !in_i64(fmul_spec(gen.damping as int, gen.damping as int)) {
        None
    } else if !in_i64(4 * gen.spring_constant - fmul_spec(gen.damping as int,
    gen.damping as int)) {
        None
    } else {
        let pos = sub_spec(p.position, gen.anchor);
        let inner = 4 * gen.spring_constant - fmul_spec(gen.damping as int, gen.damping as int);
        if inner < 0 {
            None
        } else {
            let gamma = tdiv(fsqrt_spec(inner), 2);
            if gamma == 0 {
                None
            } else if !in_i64(fdiv_spec(gen.damping as int, 2 * gamma)) {
                None
            } else if !in_i64(fdiv_spec(SCALE as int, gamma)) {
                None
            } else if !scale_fits(pos, fdiv_spec(gen.damping as int, 2 * gamma)) {
                None
            } else if !scale_fits(p.velocity, fdiv_spec(SCALE as int, gamma)) {
                None
            } else {
                let ca = scale_spec(pos, fdiv_spec(gen.damping as int, 2 * gamma));
                let cb = scale_spec(p.velocity, fdiv_spec(SCALE as int, gamma));
                if !add_fits(ca, cb) {
                    None
                } else if !in_i64(fmul_spec(gamma, dt)) {
                    None
                } else {
                    let cvec = add_spec(ca, cb);
                    let ang = fmul_spec(gamma, dt);
                    if !scale_fits(pos, cos_fx_spec(ang)) {
                        None
                    } else if !scale_fits(cvec, sin_fx_spec(ang)) {
                        None
                    } else if !add_fits(scale_spec(pos, cos_fx_spec(ang)), scale_spec(cvec,
                    sin_fx_spec(ang))) {
                        None
                    } else if !in_i64(fmul_spec(dt, gen.damping as int)) {
                        None
                    } else {
                        let target0 = add_spec(scale_spec(pos, cos_fx_spec(ang)), scale_spec(
                            cvec, sin_fx_spec(ang)));
                        let ef = exp_neg_spec(-tdiv(fmul_spec(dt, gen.damping as int), 2));
                        let target = scale_spec(target0, ef);
                        if !in_i64(fdiv_spec(SCALE as int, dt)) {
                            None
                        } else if !in_i64(fmul_spec(fdiv_spec(SCALE as int, dt), dt)) {
                            None
                        } else {
                            let coef = fmul_spec(fdiv_spec(SCALE as int, dt), dt);
                            if !sub_fits(target, pos) {
                                None
                            } else if !scale_fits(sub_spec(target, pos), coef) {
                                None
                            } else if !scale_fits(p.velocity, dt) {
                                None
                            } else if !sub_fits(scale_spec(sub_spec(target, pos), coef),
                            scale_spec(p.velocity, dt)) {
                                None
                            } else {
                                let acc = sub_spec(scale_spec(sub_spec(target, pos), coef),
                                    scale_spec(p.velocity, dt));
                                if !scale_fits(acc, p.mass as int) {
                                    None
                                } else {
                                    Some(scale_spec(acc, p.mass as int))
                                }
                            }
                        }
                    }
                }
            }
        }
    }
}

impl ParticleFakeSpring {
    pub fn new(anchor: Vector3, spring_constant: i64, damping: i64) -> (r: ParticleFakeSpring)
        ensures
            r.anchor == anchor,
            r.spring_constant == spring_constant,
            r.damping == damping,
    {
        ParticleFakeSpring { anchor, spring_constant, damping }
    }

    /// Applies the faked stiff-spring force over the step.
    pub fn update_force(&self, particle: &mut Particle, duration: i64)
        requires
            duration > 0,
        ensures
            *final(particle) == apply_force(*old(particle), fake_spring_force(*self,
                *old(particle), duration as int)),
    {
        if !particle.has_finite_mass() {
            return;
        }
        let pos = match particle.get_position().sub_checked(&self.anchor) {
            Some(d) => d,
            None => { return; },
        };
        if self.damping < 0 {
            return;
        }
        let k4 = match checked_int_mul(4, self.spring_constant) {
            Some(c) => c,
            None => { return; },
        };
        let dd = match checked_fmul(self.damping, self.damping) {
            Some(c) => c,
            None => { return; },
        };
        let inner = match checked_sub64(k4, dd) {
            Some(c) => c,
            None => { return; },
        };
        if inner < 0 {
            return;
        }
        let root = fsqrt(inner);
        let gamma = ftrunc_div(root, 2);
        if gamma == 0 {
            return;
        }
        let c1 = match checked_fdiv(self.damping, 2 * gamma) {
            Some(c) => c,
            None => { return; },
        };
        let c2 = match checked_fdiv(SCALE, gamma) {
            Some(c) => c,
            None => { return; },
        };
        let ca = match pos.scale_checked(c1) {
            Some(v) => v,
            None => { return; },
        };
        let cb = match particle.get_velocity().scale_checked(c2) {
            Some(v) => v,
            None => { return; },
        };
        let cvec = match ca.add_checked(&cb) {
            Some(v) => v,
            None => { return; },
        };
        let ang = match checked_fmul(gamma, duration) {
            Some(c) => c,
            None => { return; },
        };
        let cosv = cos_fx(ang);
        let sinv = sin_fx(ang);
        let ta = match pos.scale_checked(cosv) {
            Some(v) => v,
            None => { return; },
        };
        let tb = match cvec.scale_checked(sinv) {
            Some(v) => v,
            None => { return; },
        };
        let target0 = match ta.add_checked(&tb) {
            Some(v) => v,
            None => { return; },
        };
        let ed = match checked_fmul(duration, self.damping) {
            Some(c) => c,
            None => { return; },
        };
        proof {
            vstd::arithmetic::div_mod::lemma_div_pos_is_pos((duration as int)
                * (self.damping as int), SCALE as int);
            assert((duration as int) * (self.damping as int) >= 0) by (nonlinear_arith)
                requires duration > 0, self.damping >= 0,
            ;
            vstd::arithmetic::div_mod::lemma_div_pos_is_pos(ed as int, 2);
            vstd::arithmetic::div_mod::lemma_div_nonincreasing(ed as int, 2);
        }
        let half_ed = ftrunc_div(ed, 2);
        let ef = exp_neg(-half_ed);
        proof {
            lemma_scale_unit_bound(target0.x as int, ef as int);
            lemma_scale_unit_bound(target0.y as int, ef as int);
            lemma_scale_unit_bound(target0.z as int, ef as int);
        }
        let target = target0.mul_scalar(ef);
        let inv_dt = match checked_fdiv(SCALE, duration) {
            Some(c) => c,
            None => { return; },
        };
        let coef = match checked_fmul(inv_dt, duration) {
            Some(c) => c,
            None => { return; },
        };
        let disp = match target.sub_checked(&pos) {
            Some(v) => v,
            None => { return; },
        };
        let t2 = match disp.scale_checked(coef) {
            Some(v) => v,
            None => { return; },
        };
        let t3 = match particle.get_velocity().scale_checked(duration) {
            Some(v) => v,
            None => { return; },
        };
        let accel = match t2.sub_checked(&t3) {
            Some(v) => v,
            None => { return; },
        };
        let f = match accel.scale_checked(particle.get_mass()) {
            Some(v) => v,
            None => { return; },
        };
        let _applied = particle.add_force_checked(f);
    }
}

/// The closed set of force laws, as one sum type; the registry stores these.
#[derive(Clone, Copy, Debug, PartialEq, Eq, Structural)]
pub enum ParticleForceGenerator {
    Gravity(ParticleGravity),
    Drag(ParticleDrag),
    Spring(ParticleSpring),
    AnchoredSpring(ParticleAnchoredSpring),
    Bungee(ParticleBungee),
    Buoyancy(ParticleBuoyancy),
    FakeSpring(ParticleFakeSpring),
}

/// The force any generator decides on for a particle; it reads only the
/// particle's position, velocity and mass, never its accumulator.
pub open spec fn generator_force(g: ParticleForceGenerator, p: Particle, dt: int) -> Option<
    Vector3,
> {
    match g {
        ParticleForceGenerator::Gravity(x) => gravity_force(x, p),
        ParticleForceGenerator::Drag(x) => drag_force(x, p),
        ParticleForceGenerator::Spring(x) => spring_force(x, p),
        ParticleForceGenerator::AnchoredSpring(x) => anchored_spring_force(x, p),
        ParticleForceGenerator::Bungee(x) => bungee_force(x, p),
        ParticleForceGenerator::Buoyancy(x) => buoyancy_force(x, p),
        ParticleForceGenerator::FakeSpring(x) => fake_spring_force(x, p, dt),
    }
}

/// One generator pass over one particle.
pub open spec fn generator_update(g: ParticleForceGenerator, p: Particle, dt: int) -> Particle {
    apply_force(p, generator_force(g, p, dt))
}

impl ParticleForceGenerator {
    /// Computes this generator's force for the particle and adds it to the
    /// particle's accumulator; nothing else of the particle moves.
    pub fn update_force(&self, particle: &mut Particle, duration: i64)
        requires
            duration > 0,
        ensures
            *final(particle) == generator_update(*self, *old(particle), duration as int),
    {
        match self {
            ParticleForceGenerator::Gravity(x) => x.update_force(particle, duration),
            ParticleForceGenerator::Drag(x) => x.update_force(particle, duration),
            ParticleForceGenerator::Spring(x) => x.update_force(particle, duration),
            ParticleForceGenerator::AnchoredSpring(x) => x.update_force(particle, duration),
            ParticleForceGenerator::Bungee(x) => x.update_force(particle, duration),
            ParticleForceGenerator::Buoyancy(x) => x.update_force(particle, duration),
            ParticleForceGenerator::FakeSpring(x) => x.update_force(particle, duration),
        }
    }
}

/// A generator's force does not depend on what is already accumulated: the
/// same particle with more force accumulated is offered the same force.
pub proof fn lemma_force_ignores_accum(g: ParticleForceGenerator, p: Particle, f: Vector3,
    dt: int)
    ensures
        generator_force(g, with_force_added(p, f), dt) == generator_force(g, p, dt),
{
    let p2 = with_force_added(p, f);
    assert(p2.position == p.position && p2.velocity == p.velocity && p2.mass == p.mass
        && p2.acceleration == p.acceleration && p2.damping == p.damping && p2.inverse_mass
        == p.inverse_mass);
}

} // verus!
