// The force registry: associations by arena index, driven once per step.

use cyclone::forcegen::{ParticleForceGenerator, ParticleGravity};
use cyclone::particle::Particle;
use cyclone::registry::ParticleForceRegistry;
use cyclone::vector::Vector3;

const ONE: i64 = 65536;

fn resting(mass: i64) -> Particle {
    Particle::new(
        Vector3::default(),
        Vector3::default(),
        Vector3::default(),
        ONE,
        mass,
    )
}

fn gravity(y: i64) -> ParticleForceGenerator {
    ParticleForceGenerator::Gravity(ParticleGravity::new(&Vector3::new(0, y, 0)))
}

#[test]
fn two_generators_on_one_particle_add_their_forces() {
    let mut particles = vec![resting(ONE)];
    let mut registry = ParticleForceRegistry::new();
    registry.add(0, gravity(-642253));
    registry.add(0, gravity(2 * ONE));
    registry.update_forces(&mut particles, ONE);
    // the sum of the two individually computed forces
    assert_eq!(particles[0].force_accum, Vector3::new(0, -642253 + 2 * ONE, 0));
}

#[test]
fn update_forces_reaches_the_registered_particle() {
    // The arena holds the real particles: the force lands on the same
    // instance the caller integrates, not on a copy.
    let mut particles = vec![resting(ONE), resting(2 * ONE)];
    let mut registry = ParticleForceRegistry::new();
    registry.add(1, gravity(-ONE));
    registry.update_forces(&mut particles, ONE);
    assert_eq!(particles[0].force_accum, Vector3::default());
    assert_eq!(particles[1].force_accum, Vector3::new(0, -2 * ONE, 0));
    particles[1].integrate(ONE);
    assert_eq!(particles[1].get_velocity(), Vector3::new(0, -2 * ONE, 0));
}

#[test]
fn update_forces_ignores_out_of_range_index() {
    let mut particles = vec![resting(ONE)];
    let mut registry = ParticleForceRegistry::new();
    registry.add(7, gravity(-ONE));
    registry.update_forces(&mut particles, ONE);
    assert_eq!(particles[0].force_accum, Vector3::default());
}

#[test]
fn remove_drops_first_matching_association() {
    let mut particles = vec![resting(ONE)];
    let mut registry = ParticleForceRegistry::new();
    let g = gravity(-ONE);
    registry.add(0, g);
    registry.add(0, g);
    assert_eq!(registry.len(), 2);
    registry.remove(0, &g);
    assert_eq!(registry.len(), 1);
    registry.update_forces(&mut particles, ONE);
    assert_eq!(particles[0].force_accum, Vector3::new(0, -ONE, 0));
}

#[test]
fn remove_of_unregistered_pair_is_noop() {
    let mut registry = ParticleForceRegistry::new();
    registry.add(0, gravity(-ONE));
    registry.remove(0, &gravity(ONE));
    registry.remove(3, &gravity(-ONE));
    assert_eq!(registry.len(), 1);
}

#[test]
fn clear_empties_registry_but_not_particles() {
    let mut particles = vec![resting(ONE)];
    particles[0].add_force(Vector3::new(5, 0, 0));
    let mut registry = ParticleForceRegistry::new();
    registry.add(0, gravity(-ONE));
    registry.clear();
    assert_eq!(registry.len(), 0);
    registry.update_forces(&mut particles, ONE);
    assert_eq!(particles[0].force_accum, Vector3::new(5, 0, 0));
}

#[test]
fn generators_run_in_registration_order_deterministically() {
    let mut a = vec![resting(ONE)];
    let mut b = vec![resting(ONE)];
    let mut r1 = ParticleForceRegistry::new();
    r1.add(0, gravity(-ONE));
    r1.add(0, gravity(3 * ONE));
    let mut r2 = ParticleForceRegistry::new();
    r2.add(0, gravity(3 * ONE));
    r2.add(0, gravity(-ONE));
    r1.update_forces(&mut a, ONE);
    r2.update_forces(&mut b, ONE);
    // additive contributions commute in the final sum
    assert_eq!(a[0].force_accum, b[0].force_accum);
    assert_eq!(a[0].force_accum, Vector3::new(0, 2 * ONE, 0));
}
