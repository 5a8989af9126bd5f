// The force laws of each generator variant, on exact grid values.

use cyclone::forcegen::{
    ParticleAnchoredSpring, ParticleBungee, ParticleBuoyancy, ParticleDrag, ParticleFakeSpring,
    ParticleGravity, ParticleSpring,
};
use cyclone::particle::Particle;
use cyclone::vector::Vector3;

const ONE: i64 = 65536;

fn resting(position: Vector3, mass: i64) -> Particle {
    Particle::new(position, Vector3::default(), Vector3::default(), ONE, mass)
}

#[test]
fn gravity_scales_by_mass() {
    let g = ParticleGravity::new(&Vector3::new(0, -10 * ONE, 0));
    let mut p = resting(Vector3::default(), 2 * ONE);
    g.update_force(&mut p, ONE);
    assert_eq!(p.force_accum, Vector3::new(0, -20 * ONE, 0));
}

#[test]
fn gravity_skips_where_force_would_overflow() {
    // The mass-scaled field leaves the scalar range: no force is applied.
    let g = ParticleGravity::new(&Vector3::new(i64::MAX, 0, 0));
    let mut p = resting(Vector3::default(), 2 * ONE);
    g.update_force(&mut p, ONE);
    assert_eq!(p.force_accum, Vector3::default());
}

#[test]
fn gravity_skips_infinite_mass() {
    let g = ParticleGravity::new(&Vector3::new(0, -10 * ONE, 0));
    let mut p = resting(Vector3::default(), 0);
    g.update_force(&mut p, ONE);
    assert_eq!(p.force_accum, Vector3::default());
}

#[test]
fn drag_formula() {
    // k1 = 0.5, k2 = 0, speed 2 along x: coefficient 1.0 against motion.
    let d = ParticleDrag::new(ONE / 2, 0);
    let mut p = resting(Vector3::default(), ONE);
    p.set_velocity(2 * ONE, 0, 0);
    d.update_force(&mut p, ONE);
    assert_eq!(p.force_accum, Vector3::new(-ONE, 0, 0));
}

#[test]
fn drag_quadratic_term() {
    // k1 = 0, k2 = 1: coefficient |v|^2 = 4.
    let d = ParticleDrag::new(0, ONE);
    let mut p = resting(Vector3::default(), ONE);
    p.set_velocity(2 * ONE, 0, 0);
    d.update_force(&mut p, ONE);
    assert_eq!(p.force_accum, Vector3::new(-4 * ONE, 0, 0));
}

#[test]
fn drag_skips_particle_at_rest() {
    let d = ParticleDrag::new(ONE, ONE);
    let mut p = resting(Vector3::default(), ONE);
    d.update_force(&mut p, ONE);
    assert_eq!(p.force_accum, Vector3::default());
}

#[test]
fn spring_pulls_on_extension() {
    // Both ends one axis apart at distance 2, rest length 1, k = 1.
    let other = resting(Vector3::default(), ONE);
    let s = ParticleSpring::new(other, ONE, ONE);
    let mut p = resting(Vector3::new(2 * ONE, 0, 0), ONE);
    s.update_force(&mut p, ONE);
    assert_eq!(p.force_accum, Vector3::new(-ONE, 0, 0));
}

#[test]
fn anchored_spring_force() {
    let s = ParticleAnchoredSpring::new(Vector3::default(), ONE, ONE);
    let mut p = resting(Vector3::new(2 * ONE, 0, 0), ONE);
    s.update_force(&mut p, ONE);
    // (rest - distance) * k = -1 along the outward direction
    assert_eq!(p.force_accum, Vector3::new(-ONE, 0, 0));
}

#[test]
fn anchored_spring_set_anchor() {
    let mut s = ParticleAnchoredSpring::new(Vector3::default(), ONE, ONE);
    s.set_anchor(Vector3::new(ONE, 0, 0));
    let mut p = resting(Vector3::new(3 * ONE, 0, 0), ONE);
    s.update_force(&mut p, ONE);
    assert_eq!(p.force_accum, Vector3::new(-ONE, 0, 0));
}

#[test]
fn bungee_slack_applies_no_force() {
    // Separation 1.0 within rest length 2.0: the accumulator is untouched.
    let other = resting(Vector3::new(ONE, 0, 0), ONE);
    let b = ParticleBungee::new(other, ONE, 2 * ONE);
    let mut p = resting(Vector3::default(), ONE);
    p.add_force(Vector3::new(100, 0, 0));
    b.update_force(&mut p, ONE);
    assert_eq!(p.force_accum, Vector3::new(100, 0, 0));
}

#[test]
fn bungee_taut_applies_spring_force() {
    // Separation 1.0 past rest length 0.5, k = 1.
    let other = resting(Vector3::new(ONE, 0, 0), ONE);
    let b = ParticleBungee::new(other, ONE, ONE / 2);
    let mut p = resting(Vector3::default(), ONE);
    b.update_force(&mut p, ONE);
    assert_eq!(p.force_accum, Vector3::new(-ONE / 2, 0, 0));
}

#[test]
fn buoyancy_fully_surfaced() {
    let b = ParticleBuoyancy::new(ONE, ONE / 2, 0, 2 * ONE);
    let mut p = resting(Vector3::new(0, 2 * ONE, 0), ONE);
    b.update_force(&mut p, ONE);
    assert_eq!(p.force_accum, Vector3::default());
}

#[test]
fn buoyancy_fully_submerged() {
    // density 2.0, volume 0.5: maximum force 1.0 straight up.
    let b = ParticleBuoyancy::new(ONE, ONE / 2, 0, 2 * ONE);
    let mut p = resting(Vector3::new(0, -2 * ONE, 0), ONE);
    b.update_force(&mut p, ONE);
    assert_eq!(p.force_accum, Vector3::new(0, ONE, 0));
}

#[test]
fn buoyancy_partly_submerged_interpolates() {
    // Depth exactly at the water height: half the maximum force.
    let b = ParticleBuoyancy::new(ONE, ONE / 2, 0, 2 * ONE);
    let mut p = resting(Vector3::default(), ONE);
    b.update_force(&mut p, ONE);
    assert_eq!(p.force_accum, Vector3::new(0, ONE / 2, 0));
}

#[test]
fn fake_spring_undamped_step() {
    // k = 1, damping 0, unit displacement, dt = 1: gamma = 1 and the force
    // is mass * (cos(1) - 1) on this grid.
    let fs = ParticleFakeSpring::new(Vector3::default(), ONE, 0);
    let mut p = resting(Vector3::new(ONE, 0, 0), ONE);
    fs.update_force(&mut p, ONE);
    assert_eq!(p.force_accum, Vector3::new(-30127, 0, 0));
}

#[test]
fn fake_spring_skips_infinite_mass() {
    let fs = ParticleFakeSpring::new(Vector3::default(), ONE, 0);
    let mut p = resting(Vector3::new(ONE, 0, 0), 0);
    fs.update_force(&mut p, ONE);
    assert_eq!(p.force_accum, Vector3::default());
}

#[test]
fn fake_spring_zero_frequency_skips() {
    // 4k == damping^2 gives gamma == 0: no force.
    let fs = ParticleFakeSpring::new(Vector3::default(), ONE, 2 * ONE);
    let mut p = resting(Vector3::new(ONE, 0, 0), ONE);
    fs.update_force(&mut p, ONE);
    assert_eq!(p.force_accum, Vector3::default());
}
