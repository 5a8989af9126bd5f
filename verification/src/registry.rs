//! The force registry: associations between particles and force
//! generators, driven once per simulation step.
//!
//! The registry holds stable indices into the caller's particle arena, not
//! copies of the particles, so every force lands on the same particle the
//! caller later integrates.

use vstd::prelude::*;
use crate::vector::Vector3;
use crate::particle::{Particle, accum_fits, with_force_added};
use crate::forcegen::{ParticleForceGenerator, generator_force, generator_update};

verus! {

/// One association: the particle at an arena index, and a generator that
/// applies to it. The registry owns the association, not the particle.
#[derive(Clone, Copy, Debug, PartialEq, Eq, Structural)]
pub struct ParticleForceRegistration {
    /// The index of the particle in the caller's arena.
    pub particle: usize,
    /// The force generator registered for it.
    pub force_gen: ParticleForceGenerator,
}

/// Keeps all the force generators and the particles they apply to.
pub struct ParticleForceRegistry {
    registrations: Vec<ParticleForceRegistration>,
}

impl View for ParticleForceRegistry {
    type V = Seq<ParticleForceRegistration>;

    closed spec fn view(&self) -> Seq<ParticleForceRegistration> {
        self.registrations@
    }
}

/// The index of the first occurrence of `r`, or -1 where there is none.
pub open spec fn find_reg(s: Seq<ParticleForceRegistration>, r: ParticleForceRegistration) -> int
    decreases s.len(),
{
    if s.len() == 0 {
        -1
    } else if s[0] == r {
        0
    } else {
        let t = find_reg(s.subrange(1, s.len() as int), r);
        if t == -1 {
            -1
        } else {
            t + 1
        }
    }
}

/// Where the first `i` entries miss `r` and entry `i` hits it, `i` is the
/// first occurrence.
proof fn lemma_find_reg_hit(s: Seq<ParticleForceRegistration>, r: ParticleForceRegistration,
    i: int)
    requires
        0 <= i < s.len(),
        s[i] == r,
        forall|j: int| 0 <= j < i ==> s[j] != r,
    ensures
        find_reg(s, r) == i,
    decreases s.len(),
{
    if i == 0 {
    } else {
        let t = s.subrange(1, s.len() as int);
        assert(forall|j: int| 0 <= j < i - 1 ==> t[j] != r);
        lemma_find_reg_hit(t, r, i - 1);
    }
}

/// Where no entry is `r`, the search misses.
proof fn lemma_find_reg_miss(s: Seq<ParticleForceRegistration>, r: ParticleForceRegistration)
    requires
        forall|j: int| 0 <= j < s.len() ==> s[j] != r,
    ensures
        find_reg(s, r) == -1,
    decreases s.len(),
{
    if s.len() > 0 {
        lemma_find_reg_miss(s.subrange(1, s.len() as int), r);
    }
}

/// One registration applied to the arena: the registered generator updates
/// the particle at its index; an index outside the arena does nothing.
pub open spec fn apply_reg(ps: Seq<Particle>, r: ParticleForceRegistration, dt: int) -> Seq<
    Particle,
> {
    if r.particle < ps.len() {
        ps.update(r.particle as int, generator_update(r.force_gen, ps[r.particle as int], dt))
    } else {
        ps
    }
}

/// Every registration applied to the arena, in registration order.
pub open spec fn run_all(regs: Seq<ParticleForceRegistration>, ps: Seq<Particle>, dt: int) -> Seq<
    Particle,
>
    decreases regs.len(),
{
    if regs.len() == 0 {
        ps
    } else {
        run_all(regs.subrange(1, regs.len() as int), apply_reg(ps, regs[0], dt), dt)
    }
}

/// A registry pass never adds or removes particles: only their accumulated
/// forces move.
pub proof fn lemma_run_all_len(regs: Seq<ParticleForceRegistration>, ps: Seq<Particle>, dt: int)
    ensures
        run_all(regs, ps, dt).len() == ps.len(),
    decreases regs.len(),
{
    if regs.len() > 0 {
        lemma_run_all_len(regs.subrange(1, regs.len() as int), apply_reg(ps, regs[0], dt), dt);
    }
}

/// A registry pass touches nothing but force accumulators: every particle
/// keeps its position, velocity, acceleration, damping and mass. Only
/// integration moves a particle.
pub proof fn lemma_run_all_moves_only_accum(regs: Seq<ParticleForceRegistration>,
    ps: Seq<Particle>, dt: int)
    ensures
        forall|i: int| 0 <= i < ps.len() ==> {
            let q = #[trigger] run_all(regs, ps, dt)[i];
            &&& q.position == ps[i].position
            &&& q.velocity == ps[i].velocity
            &&& q.acceleration == ps[i].acceleration
            &&& q.damping == ps[i].damping
            &&& q.mass == ps[i].mass
            &&& q.inverse_mass == ps[i].inverse_mass
        },
    decreases regs.len(),
{
    if regs.len() > 0 {
        let ps2 = apply_reg(ps, regs[0], dt);
        assert(ps2.len() == ps.len());
        assert forall|i: int| 0 <= i < ps.len() implies ps2[i].position == ps[i].position
            && ps2[i].velocity == ps[i].velocity && ps2[i].acceleration == ps[i].acceleration
            && ps2[i].damping == ps[i].damping && ps2[i].mass == ps[i].mass
            && ps2[i].inverse_mass == ps[i].inverse_mass by {
            // Case split on whether the generator applies a force: either
            // way only the accumulator field moves.
            if i == regs[0].particle && regs[0].particle < ps.len() {
                let g = regs[0].force_gen;
                match generator_force(g, ps[i], dt) {
                    None => {},
                    Some(f) => {},
                }
            }
        }
        let tail = regs.subrange(1, regs.len() as int);
        lemma_run_all_moves_only_accum(tail, ps2, dt);
        assert(run_all(regs, ps, dt) == run_all(tail, ps2, dt));
        assert forall|i: int| 0 <= i < ps.len() implies {
            let q = #[trigger] run_all(regs, ps, dt)[i];
            &&& q.position == ps[i].position
            &&& q.velocity == ps[i].velocity
            &&& q.acceleration == ps[i].acceleration
            &&& q.damping == ps[i].damping
            &&& q.mass == ps[i].mass
            &&& q.inverse_mass == ps[i].inverse_mass
        } by {
            assert(run_all(tail, ps2, dt)[i] == run_all(regs, ps, dt)[i]);
        }
    }
}

impl ParticleForceRegistry {
    /// An empty registry.
    pub fn new() -> (r: ParticleForceRegistry)
        ensures
            r@ == Seq::<ParticleForceRegistration>::empty(),
    {
        ParticleForceRegistry { registrations: Vec::new() }
    }

    /// How many associations are registered.
    pub fn len(&self) -> (r: usize)
        ensures
            r == self@.len(),
    {
        self.registrations.len()
    }

    /// Registers the given force generator to apply to the particle at the
    /// given arena index.
    pub fn add(&mut self, particle: usize, force_gen: ParticleForceGenerator)
        ensures
            final(self)@ == old(self)@.push(ParticleForceRegistration { particle, force_gen }),
    {
        self.registrations.push(ParticleForceRegistration { particle, force_gen });
    }

    /// Removes the first matching association, if one is registered; a pair
    /// that is not registered leaves the registry unchanged.
    pub fn remove(&mut self, particle: usize, force_gen: &ParticleForceGenerator)
        ensures
            ({
                let reg = ParticleForceRegistration { particle, force_gen: *force_gen };
                let at = find_reg(old(self)@, reg);
                if at == -1 {
                    final(self)@ == old(self)@
                } else {
                    final(self)@ == old(self)@.remove(at)
                }
            }),
    {
        let ghost reg0 = ParticleForceRegistration { particle: particle, force_gen: *force_gen };
        let n = self.registrations.len();
        let mut i: usize = 0;
        while i < n
            invariant
                i <= n,
                n == self@.len(),
                self@ == old(self)@,
                reg0 == (ParticleForceRegistration { particle: particle, force_gen: *force_gen }),
                forall|j: int| 0 <= j < i ==> self@[j] != reg0,
            decreases n - i,
        {
            let entry = self.registrations[i];
            if entry.particle == particle && entry.force_gen == *force_gen {
                proof {
                    assert(self@[i as int] == reg0);
                    lemma_find_reg_hit(self@, reg0, i as int);
                }
                let _removed = self.registrations.remove(i);
                return;
            }
            i = i + 1;
        }
        proof {
            lemma_find_reg_miss(self@, reg0);
        }
    }

    /// Clears all registrations; the particles and the generators
    /// themselves are unaffected.
    pub fn clear(&mut self)
        ensures
            final(self)@ == Seq::<ParticleForceRegistration>::empty(),
    {
        self.registrations.clear();
    }

    /// Calls every registered generator, in registration order, to update
    /// the force of its particle in the caller's arena.
    pub fn update_forces(&self, particles: &mut Vec<Particle>, duration: i64)
        requires
            duration > 0,
        ensures
            final(particles)@ == run_all(self@, old(particles)@, duration as int),
    {
        let n = self.registrations.len();
        let mut i: usize = 0;
        proof {
            assert(self@.subrange(0, n as int) =~= self@);
        }
        while i < n
            invariant
                i <= n,
                n == self@.len(),
                duration > 0,
                run_all(self@.subrange(i as int, n as int), particles@, duration as int)
                    == run_all(self@, old(particles)@, duration as int),
            decreases n - i,
        {
            let ghost pre = particles@;
            let ghost tail = self@.subrange(i as int, n as int);
            let reg = self.registrations[i];
            if reg.particle < particles.len() {
                let idx = reg.particle;
                let mut p = particles[idx];
                reg.force_gen.update_force(&mut p, duration);
                particles.set(idx, p);
            }
            proof {
                assert(tail[0] == self@[i as int]);
                assert(tail.subrange(1, tail.len() as int) =~= self@.subrange(i as int + 1,
                    n as int));
                assert(particles@ == apply_reg(pre, reg, duration as int));
            }
            i = i + 1;
        }
        proof {
            assert(self@.subrange(n as int, n as int) =~= Seq::<
                ParticleForceRegistration,
            >::empty());
        }
    }
}

/// Two generators registered to the same particle contribute additively:
/// after one pass of the registry the particle's accumulated force is its
/// old accumulator plus the vector sum of the two forces each generator
/// computes on the original state.
pub proof fn lemma_two_generators_additive(r1: ParticleForceRegistration,
    r2: ParticleForceRegistration, ps: Seq<Particle>, dt: int, f1: Vector3, f2: Vector3)
    requires
        r1.particle == r2.particle,
        r1.particle < ps.len(),
        generator_force(r1.force_gen, ps[r1.particle as int], dt) == Some(f1),
        generator_force(r2.force_gen, ps[r1.particle as int], dt) == Some(f2),
        accum_fits(ps[r1.particle as int], f1),
        accum_fits(with_force_added(ps[r1.particle as int], f1), f2),
    ensures
        ({
            let p = ps[r1.particle as int];
            let after = run_all(seq![r1, r2], ps, dt);
            &&& after == ps.update(r1.particle as int, with_force_added(with_force_added(p, f1),
                f2))
            &&& after[r1.particle as int].force_accum.x == p.force_accum.x + f1.x + f2.x
            &&& after[r1.particle as int].force_accum.y == p.force_accum.y + f1.y + f2.y
            &&& after[r1.particle as int].force_accum.z == p.force_accum.z + f1.z + f2.z
        }),
{
    let p = ps[r1.particle as int];
    let idx = r1.particle as int;
    let p1 = with_force_added(p, f1);
    let regs = seq![r1, r2];
    crate::forcegen::lemma_force_ignores_accum(r2.force_gen, p, f1, dt);
    let ps1 = apply_reg(ps, r1, dt);
    assert(generator_update(r1.force_gen, p, dt) == p1);
    assert(ps1 == ps.update(idx, p1));
    assert(regs.subrange(1, 2) =~= seq![r2]);
    assert(ps1[idx] == p1);
    let ps2 = apply_reg(ps1, r2, dt);
    assert(generator_update(r2.force_gen, p1, dt) == with_force_added(p1, f2));
    assert(ps2 == ps1.update(idx, with_force_added(p1, f2)));
    assert(seq![r2].subrange(1, 1) =~= Seq::<ParticleForceRegistration>::empty());
    assert(regs[0] == r1 && seq![r2][0] == r2);
    assert(run_all(Seq::<ParticleForceRegistration>::empty(), ps2, dt) == ps2);
    assert(run_all(seq![r2], ps1, dt) == ps2);
    assert(run_all(regs, ps, dt) == run_all(regs.subrange(1, 2), ps1, dt));
    assert(run_all(regs, ps, dt) == ps2);
    assert(ps2 =~= ps.update(idx, with_force_added(p1, f2)));
}

} // verus!
