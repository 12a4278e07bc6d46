//! The internal integrator: semi-implicit Euler under gravity, with one
//! discrete contact against the ground plane per tick.

use vstd::prelude::*;
use crate::config::Config;
use crate::geometry::{SCALE, Vec3i, lemma_fraction_bounded, scale_by_fraction, scale_fraction};
use crate::particle::{Particle, ParticleStore};

verus! {

/// `v` is representable as an `i64`.
pub open spec fn in_i64(v: int) -> bool {
    i64::MIN <= v <= i64::MAX
}

/// Vertical velocity after gravity has acted for `dt` milliseconds.
pub open spec fn fall_velocity(p: Particle, c: Config, dt: u64) -> int {
    p.velocity.y - c.gravity * dt
}

/// The vertical position predicted for the end of the tick lies below the ground.
pub open spec fn touches_ground(p: Particle, c: Config, dt: u64) -> bool {
    p.position.y + fall_velocity(p, c, dt) < c.ground_height
}

/// Every value that a step of `p` computes is representable.
pub open spec fn step_fits(p: Particle, c: Config, dt: u64) -> bool {
    &&& in_i64(c.gravity * dt)
    &&& in_i64(fall_velocity(p, c, dt))
    &&& fall_velocity(p, c, dt) > i64::MIN
    &&& in_i64(p.position.y + fall_velocity(p, c, dt))
    &&& in_i64(p.position.x + p.velocity.x)
    &&& in_i64(p.position.z + p.velocity.z)
}

/// The particle after one tick of `dt` milliseconds.
///
/// Velocity is updated before position. On contact the particle is clamped
/// to the ground, moves horizontally by its velocity from before damping,
/// and then has its horizontal velocity damped and its vertical velocity
/// reversed and scaled by restitution.
pub open spec fn step(p: Particle, c: Config, dt: u64) -> Particle {
    let vy = fall_velocity(p, c, dt);
    let moved_x = (p.position.x + p.velocity.x) as i64;
    let moved_z = (p.position.z + p.velocity.z) as i64;
    if touches_ground(p, c, dt) {
        Particle {
            position: Vec3i { x: moved_x, y: c.ground_height, z: moved_z },
            velocity: Vec3i {
                x: scale_fraction(p.velocity.x as int, c.horizontal_damping as int) as i64,
                y: scale_fraction(-vy, c.restitution as int) as i64,
                z: scale_fraction(p.velocity.z as int, c.horizontal_damping as int) as i64,
            },
            ..p
        }
    } else {
        Particle {
            position: Vec3i { x: moved_x, y: (p.position.y + vy) as i64, z: moved_z },
            velocity: Vec3i { x: p.velocity.x, y: vy as i64, z: p.velocity.z },
            ..p
        }
    }
}

/// A step moves a particle and changes its velocity only: its handle, its
/// creation time and its expiration time stay as they were.
pub proof fn lemma_step_keeps_identity(p: Particle, c: Config, dt: u64)
    ensures
        step(p, c, dt).id == p.id,
        step(p, c, dt).spawn_time == p.spawn_time,
        step(p, c, dt).expire_time == p.expire_time,
{
}

/// Every particle of `s` after one tick of `dt` milliseconds, in the same order.
pub open spec fn stepped(s: Seq<Particle>, c: Config, dt: u64) -> Seq<Particle> {
    s.map_values(|p: Particle| step(p, c, dt))
}

/// Every particle of `s` can take a step.
pub open spec fn all_steps_fit(s: Seq<Particle>, c: Config, dt: u64) -> bool {
    forall|i: int| 0 <= i < s.len() ==> step_fits(#[trigger] s[i], c, dt)
}

/// Tells whether every value that a step of `p` computes is representable.
pub fn fits_step(p: &Particle, c: &Config, dt: u64) -> (r: bool)
    requires
        c.wf(),
    ensures
        r == step_fits(*p, *c, dt),
{
    let lo: i128 = i64::MIN as i128;
    let hi: i128 = i64::MAX as i128;
    assert(0 <= c.gravity * dt <= i64::MAX * u64::MAX) by (nonlinear_arith)
        requires
            0 <= c.gravity <= i64::MAX,
            0 <= dt <= u64::MAX,
    ;
    let g: i128 = (c.gravity as i128) * (dt as i128);
    if g > hi {
        return false;
    }
    let vy: i128 = p.velocity.y as i128 - g;
    let ny: i128 = p.position.y as i128 + vy;
    let nx: i128 = p.position.x as i128 + p.velocity.x as i128;
    let nz: i128 = p.position.z as i128 + p.velocity.z as i128;
    lo < vy && vy <= hi && lo <= ny && ny <= hi && lo <= nx && nx <= hi && lo <= nz && nz <= hi
}

/// Tells whether every particle of the store can take a step.
pub fn can_advance(store: &ParticleStore, c: &Config, dt: u64) -> (r: bool)
    requires
        c.wf(),
    ensures
        r == all_steps_fit(store@, *c, dt),
{
    let n = store.len();
    let mut i: usize = 0;
    while i < n
        invariant
            c.wf(),
            n == store@.len(),
            i <= n,
            all_steps_fit(store@.subrange(0, i as int), *c, dt),
        decreases n - i,
    {
        if !fits_step(store.get(i), c, dt) {
            assert(store@.subrange(0, n as int)[i as int] == store@[i as int]);
            assert(!all_steps_fit(store@, *c, dt));
            return false;
        }
        assert forall|k: int| 0 <= k < i + 1 implies step_fits(
            #[trigger] store@.subrange(0, i + 1)[k],
            *c,
            dt,
        ) by {
            if k < i {
                assert(store@.subrange(0, i + 1)[k] == store@.subrange(0, i as int)[k]);
            }
        }
        i = i + 1;
    }
    assert(store@.subrange(0, n as int) =~= store@);
    true
}

/// One tick of the integrator on a single particle.
pub fn step_particle(p: &Particle, c: &Config, dt: u64) -> (r: Particle)
    requires
        c.wf(),
        step_fits(*p, *c, dt),
    ensures
        r == step(*p, *c, dt),
{
    assert(0 <= c.gravity * dt) by (nonlinear_arith)
        requires
            0 <= c.gravity,
            0 <= dt,
    ;
    let g: i64 = ((c.gravity as i128) * (dt as i128)) as i64;
    let vy: i64 = p.velocity.y - g;
    let next_y: i64 = p.position.y + vy;
    let moved_x: i64 = p.position.x + p.velocity.x;
    let moved_z: i64 = p.position.z + p.velocity.z;
    if next_y < c.ground_height {
        let bounce: i64 = scale_by_fraction(-vy, c.restitution);
        let vx: i64 = scale_by_fraction(p.velocity.x, c.horizontal_damping);
        let vz: i64 = scale_by_fraction(p.velocity.z, c.horizontal_damping);
        Particle {
            position: Vec3i { x: moved_x, y: c.ground_height, z: moved_z },
            velocity: Vec3i { x: vx, y: bounce, z: vz },
            ..*p
        }
    } else {
        Particle {
            position: Vec3i { x: moved_x, y: next_y, z: moved_z },
            velocity: Vec3i { x: p.velocity.x, y: vy, z: p.velocity.z },
            ..*p
        }
    }
}

/// Advances every particle of the store by one tick of `dt` milliseconds.
/// Handles, times and the store's order are untouched.
pub fn advance(store: &mut ParticleStore, c: &Config, dt: u64)
    requires
        old(store).wf(),
        c.wf(),
        all_steps_fit(old(store)@, *c, dt),
    ensures
        final(store).wf(),
        final(store).spec_next_id() == old(store).spec_next_id(),
        final(store)@ == stepped(old(store)@, *c, dt),
        final(store)@.len() == old(store)@.len(),
        forall|i: int|
            0 <= i < old(store)@.len() ==> #[trigger] final(store)@[i] == step(
                old(store)@[i],
                *c,
                dt,
            ),
{
    let ghost s = store@;
    let n = store.len();
    let mut i: usize = 0;
    while i < n
        invariant
            c.wf(),
            n == s.len(),
            i <= n,
            store.wf(),
            store.spec_next_id() == old(store).spec_next_id(),
            s == old(store)@,
            all_steps_fit(s, *c, dt),
            store@.len() == n,
            forall|k: int| 0 <= k < i ==> #[trigger] store@[k] == step(s[k], *c, dt),
            forall|k: int| i <= k < n ==> #[trigger] store@[k] == s[k],
        decreases n - i,
    {
        let p = *store.get(i);
        assert(step_fits(s[i as int], *c, dt));
        let q = step_particle(&p, c, dt);
        store.set_motion(i, q.position, q.velocity);
        i = i + 1;
    }
    assert(store@ =~= stepped(s, *c, dt));
}

/// Every ground contact made while moving down damps the vertical motion:
/// the particle leaves upward with its impact speed scaled by restitution,
/// which for a restitution strictly between zero and one is strictly less
/// than the impact speed. Applied contact after contact, each rebound is
/// slower than the impact that caused it.
pub proof fn lemma_contact_damps(p: Particle, c: Config, dt: u64)
    requires
        c.wf(),
        step_fits(p, c, dt),
        touches_ground(p, c, dt),
        fall_velocity(p, c, dt) < 0,
    ensures
        step(p, c, dt).position.y == c.ground_height,
        step(p, c, dt).velocity.y == scale_fraction(-fall_velocity(p, c, dt), c.restitution as int),
        0 <= step(p, c, dt).velocity.y <= -fall_velocity(p, c, dt),
        0 < c.restitution < SCALE ==> step(p, c, dt).velocity.y < -fall_velocity(p, c, dt),
{
    lemma_fraction_bounded(-fall_velocity(p, c, dt), c.restitution as int);
}

/// A particle resting exactly on the ground while moving down makes contact
/// within the tick: it stays on the ground and leaves upward with its
/// incoming vertical speed scaled by restitution. A restitution strictly
/// between zero and one makes the outgoing speed strictly smaller than the
/// incoming one, so each bounce carries less energy than the fall before it.
pub proof fn lemma_ground_bounce(p: Particle, c: Config, dt: u64)
    requires
        c.wf(),
        step_fits(p, c, dt),
        p.position.y == c.ground_height,
        p.velocity.y < 0,
    ensures
        touches_ground(p, c, dt),
        step(p, c, dt).position.y == c.ground_height,
        fall_velocity(p, c, dt) <= p.velocity.y,
        step(p, c, dt).velocity.y == scale_fraction(-fall_velocity(p, c, dt), c.restitution as int),
        0 <= step(p, c, dt).velocity.y <= -fall_velocity(p, c, dt),
        0 < c.restitution < SCALE ==> step(p, c, dt).velocity.y < -fall_velocity(p, c, dt),
{
    assert(0 <= c.gravity * dt) by (nonlinear_arith)
        requires
            0 <= c.gravity,
            0 <= dt,
    ;
    lemma_fraction_bounded(-fall_velocity(p, c, dt), c.restitution as int);
}

} // verus!
