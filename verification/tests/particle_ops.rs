// Particle state and the semi-implicit Euler integrator.

use cyclone::particle::Particle;
use cyclone::vector::Vector3;

const ONE: i64 = 65536;

fn particle_at_rest(mass: i64) -> Particle {
    Particle::new(
        Vector3::default(),
        Vector3::default(),
        Vector3::default(),
        ONE,
        mass,
    )
}

#[test]
fn new_derives_inverse_mass() {
    let p = particle_at_rest(2 * ONE);
    assert_eq!(p.get_mass(), 2 * ONE);
    assert_eq!(p.get_inverse_mass(), ONE / 2);
    assert!(p.has_finite_mass());
}

#[test]
fn zero_mass_is_immovable_sentinel() {
    let p = particle_at_rest(0);
    assert_eq!(p.get_inverse_mass(), 0);
    assert!(!p.has_finite_mass());
}

#[test]
fn infinite_mass_particle_unaffected_by_integrate() {
    let mut p = Particle::new(
        Vector3::new(ONE, 2 * ONE, 3 * ONE),
        Vector3::new(4 * ONE, 5 * ONE, 6 * ONE),
        Vector3::new(0, -10 * ONE, 0),
        ONE,
        0,
    );
    p.add_force(Vector3::new(100, 100, 100));
    let before = p;
    p.integrate(ONE);
    assert_eq!(p, before);
    assert_eq!(p.get_position(), Vector3::new(ONE, 2 * ONE, 3 * ONE));
    assert_eq!(p.get_velocity(), Vector3::new(4 * ONE, 5 * ONE, 6 * ONE));
}

#[test]
fn gravity_step_validates_integration_formula() {
    // Mass 1, zero velocity, zero base acceleration, damping 1.0, one
    // accumulated force of (0, -9.8, 0), one step of 1.0.
    let g: i64 = -642253; // -9.8 on the grid
    let mut p = particle_at_rest(ONE);
    let grav = cyclone::forcegen::ParticleGravity::new(&Vector3::new(0, g, 0));
    grav.update_force(&mut p, ONE);
    assert_eq!(p.force_accum, Vector3::new(0, g, 0));
    p.integrate(ONE);
    // velocity = (acceleration + accum * dt) * dt = (0, -9.8, 0)
    assert_eq!(p.get_velocity(), Vector3::new(0, g, 0));
    // the position advances by the velocity before the velocity update
    assert_eq!(p.get_position(), Vector3::new(0, 0, 0));
    // the accumulator is cleared for the next step
    assert_eq!(p.force_accum, Vector3::default());
    // a second step now moves the position by the velocity
    p.integrate(ONE);
    assert_eq!(p.get_position(), Vector3::new(0, g, 0));
}

#[test]
fn integrate_applies_damping_each_step() {
    // damping 0.5, dt 1.0: the velocity halves.
    let mut p = Particle::new(
        Vector3::default(),
        Vector3::new(4 * ONE, 0, 0),
        Vector3::default(),
        ONE / 2,
        ONE,
    );
    p.integrate(ONE);
    assert_eq!(p.get_velocity(), Vector3::new(2 * ONE, 0, 0));
    assert_eq!(p.get_position(), Vector3::new(4 * ONE, 0, 0));
}

#[test]
fn kinetic_energy_example() {
    // mass 1, velocity (1, -1, 2): 0.5 * 1 * 6 == 3.0
    let p = Particle::new(
        Vector3::default(),
        Vector3::new(ONE, -ONE, 2 * ONE),
        Vector3::default(),
        ONE,
        ONE,
    );
    assert_eq!(p.calculate_kinetic_energy(), 3 * ONE);
}

#[test]
fn add_force_accumulates() {
    let mut p = particle_at_rest(ONE);
    p.add_force(Vector3::new(10, 20, 30));
    p.add_force(Vector3::new(1, 2, 3));
    assert_eq!(p.force_accum, Vector3::new(11, 22, 33));
    p.clear_accumulator();
    assert_eq!(p.force_accum, Vector3::default());
}

#[test]
fn set_mass_needs_explicit_inverse_recompute() {
    let mut p = particle_at_rest(ONE);
    p.set_mass(2 * ONE);
    // the stored inverse is stale until asked for
    assert_eq!(p.get_inverse_mass(), ONE);
    p.set_inverse_mass();
    assert_eq!(p.get_inverse_mass(), ONE / 2);
    // a non-positive mass makes the particle immovable
    p.set_mass(0);
    p.set_inverse_mass();
    assert_eq!(p.get_inverse_mass(), 0);
}

#[test]
fn setters_and_getters() {
    let mut p = particle_at_rest(ONE);
    p.set_position(1, 2, 3);
    p.set_velocity(4, 5, 6);
    p.set_acceleration(7, 8, 9);
    assert_eq!(p.get_position(), Vector3::new(1, 2, 3));
    assert_eq!(p.get_velocity(), Vector3::new(4, 5, 6));
    assert_eq!(p.get_acceleration(), Vector3::new(7, 8, 9));
}
