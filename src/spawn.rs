//! The spawn scheduler: admits a batch of particles whenever its deadline has
//! passed, and sets the next deadline one interval after the admission.

use vstd::prelude::*;
use crate::config::Config;
use crate::geometry::{SCALE, Vec3i, is_isqrt, isqrt};
use crate::particle::{Particle, ParticleStore};
use crate::random::UniformSource;

verus! {

/// A horizontal direction component drawn from `r`, in `[-SCALE, SCALE]`.
pub open spec fn horizontal_draw(r: u64) -> int {
    (r as int) % (2 * SCALE + 1) - SCALE as int
}

/// A coordinate drawn from `r` in `[lo, hi]`.
pub open spec fn axis_draw(lo: i64, hi: i64, r: u64) -> int {
    lo + (r as int) % (hi - lo + 1)
}

/// The position drawn from `rx`, `ry`, `rz` inside the spawn box.
pub open spec fn spawn_position(c: Config, rx: u64, ry: u64, rz: u64) -> Vec3i {
    Vec3i {
        x: axis_draw(c.spawn_min.x, c.spawn_max.x, rx) as i64,
        y: axis_draw(c.spawn_min.y, c.spawn_max.y, ry) as i64,
        z: axis_draw(c.spawn_min.z, c.spawn_max.z, rz) as i64,
    }
}

/// Length of the direction `(dx, SCALE, dz)`, rounded down.
pub open spec fn direction_length(dx: int, dz: int) -> int {
    choose|r: int| #[trigger] is_isqrt(dx * dx + SCALE * SCALE + dz * dz, r)
}

/// The component `d` of a direction of length `len`, scaled to `speed`,
/// rounded toward zero.
pub open spec fn launch_component(d: int, speed: int, len: int) -> int {
    if d >= 0 {
        (d * speed) / len
    } else {
        -(((-d) * speed) / len)
    }
}

/// The velocity of magnitude `speed` along the direction `(dx, SCALE, dz)`.
pub open spec fn launch_velocity(dx: int, dz: int, speed: int) -> Vec3i {
    let len = direction_length(dx, dz);
    Vec3i {
        x: launch_component(dx, speed, len) as i64,
        y: launch_component(SCALE as int, speed, len) as i64,
        z: launch_component(dz, speed, len) as i64,
    }
}

/// The position and velocity that the five draws give a new particle.
pub open spec fn motion_from(c: Config, d: (u64, u64, u64, u64, u64)) -> (Vec3i, Vec3i) {
    (
        spawn_position(c, d.2, d.3, d.4),
        launch_velocity(horizontal_draw(d.0), horizontal_draw(d.1), c.initial_speed as int),
    )
}

/// `position` lies in the spawn box and no component of `velocity` exceeds
/// the initial speed in magnitude.
pub open spec fn launch_bounds(c: Config, position: Vec3i, velocity: Vec3i) -> bool {
    &&& c.spawn_min.x <= position.x <= c.spawn_max.x
    &&& c.spawn_min.y <= position.y <= c.spawn_max.y
    &&& c.spawn_min.z <= position.z <= c.spawn_max.z
    &&& -c.initial_speed <= velocity.x <= c.initial_speed
    &&& -c.initial_speed <= velocity.y <= c.initial_speed
    &&& -c.initial_speed <= velocity.z <= c.initial_speed
}

/// `p` is a particle that an admission at `now` can create: created at
/// `now`, expiring one lifetime later, with the motion of some draws.
pub open spec fn spawned_at(p: Particle, c: Config, now: u64) -> bool {
    &&& p.spawn_time == now
    &&& p.expire_time == now + c.particle_lifetime
    &&& launch_bounds(c, p.position, p.velocity)
    &&& exists|d: (u64, u64, u64, u64, u64)| #[trigger] motion_from(c, d) == (p.position, p.velocity)
}

/// `a` comes no later than `b`; no deadline at all comes first.
pub open spec fn deadline_le(a: Option<u64>, b: Option<u64>) -> bool {
    match (a, b) {
        (None, _) => true,
        (Some(_), None) => false,
        (Some(x), Some(y)) => x <= y,
    }
}

/// Deadlines compared call after call stay in order: a deadline that came
/// no later than a second, which came no later than a third, came no later
/// than the third.
pub proof fn lemma_deadline_le_transitive(a: Option<u64>, b: Option<u64>, c: Option<u64>)
    requires
        deadline_le(a, b),
        deadline_le(b, c),
    ensures
        deadline_le(a, c),
{
}

proof fn lemma_isqrt_unique(n: int, a: int, b: int)
    requires
        is_isqrt(n, a),
        is_isqrt(n, b),
    ensures
        a == b,
{
    if a < b {
        assert((a + 1) * (a + 1) <= b * b) by (nonlinear_arith)
            requires
                0 <= a + 1 <= b,
        ;
    } else if b < a {
        assert((b + 1) * (b + 1) <= a * a) by (nonlinear_arith)
            requires
                0 <= b + 1 <= a,
        ;
    }
}

/// A direction component never exceeds the direction's length.
proof fn lemma_component_within_length(d: int, n: int, len: int)
    requires
        d * d <= n,
        is_isqrt(n, len),
    ensures
        -len <= d <= len,
{
    if d > len {
        assert((len + 1) * (len + 1) <= d * d) by (nonlinear_arith)
            requires
                0 <= len + 1 <= d,
        ;
    } else if d < -len {
        assert((len + 1) * (len + 1) <= d * d) by (nonlinear_arith)
            requires
                0 <= len + 1 <= -d,
        ;
    }
}

/// The horizontal direction component that the draw `r` gives.
pub fn direction_from_draw(r: u64) -> (d: i64)
    ensures
        d == horizontal_draw(r),
        -(SCALE as int) <= d <= SCALE,
{
    ((r % (2 * SCALE + 1)) as i64) - (SCALE as i64)
}

/// The coordinate in `[lo, hi]` that the draw `r` gives.
pub fn coordinate_from_draw(lo: i64, hi: i64, r: u64) -> (v: i64)
    requires
        lo <= hi,
    ensures
        v == axis_draw(lo, hi, r),
        lo <= v <= hi,
{
    let width: u128 = ((hi as i128) - (lo as i128) + 1) as u128;
    let offset: u128 = (r as u128) % width;
    ((lo as i128) + (offset as i128)) as i64
}

/// One component of a launch velocity.
fn launch_component_exec(d: i64, speed: i64, len: u64) -> (r: i64)
    requires
        -(len as int) <= d <= len,
        0 < len <= 2 * SCALE,
        0 <= speed,
    ensures
        r == launch_component(d as int, speed as int, len as int),
        -speed <= r <= speed,
{
    let m: u64 = if d >= 0 { d as u64 } else { (-(d as i128)) as u64 };
    assert(m * speed <= len * speed) by (nonlinear_arith)
        requires
            m <= len,
            0 <= speed,
    ;
    assert((len * speed) / (len as int) == speed) by (nonlinear_arith)
        requires
            0 < len,
    ;
    assert((m * speed) / (len as int) <= (len * speed) / (len as int)) by (nonlinear_arith)
        requires
            m * speed <= len * speed,
            0 < len,
    ;
    assert(0 <= (m * speed) / (len as int)) by (nonlinear_arith)
        requires
            0 <= m * speed,
            0 < len,
    ;
    assert(m * speed <= 2000 * i64::MAX) by (nonlinear_arith)
        requires
            m <= 2000,
            0 <= speed <= i64::MAX,
    ;
    let q: u128 = ((m as u128) * (speed as u128)) / (len as u128);
    if d >= 0 {
        q as i64
    } else {
        -(q as i64)
    }
}

/// The velocity of magnitude `speed` along `(dx, SCALE, dz)`.
pub fn launch_velocity_of(dx: i64, dz: i64, speed: i64) -> (v: Vec3i)
    requires
        -(SCALE as int) <= dx <= SCALE,
        -(SCALE as int) <= dz <= SCALE,
        0 <= speed,
    ensures
        v == launch_velocity(dx as int, dz as int, speed as int),
        -speed <= v.x <= speed,
        -speed <= v.y <= speed,
        -speed <= v.z <= speed,
{
    let ghost n: int = dx * dx + SCALE * SCALE + dz * dz;
    assert(0 <= dx * dx <= SCALE * SCALE && 0 <= dz * dz <= SCALE * SCALE) by (nonlinear_arith)
        requires
            -(SCALE as int) <= dx <= SCALE,
            -(SCALE as int) <= dz <= SCALE,
    ;
    let s: i64 = SCALE as i64;
    let sq: u64 = ((dx * dx) + (s * s) + (dz * dz)) as u64;
    let len: u64 = isqrt(sq);
    proof {
        let l = choose|r: int| #[trigger] is_isqrt(n, r);
        lemma_isqrt_unique(n, l, len as int);
        lemma_component_within_length(dx as int, n, len as int);
        lemma_component_within_length(dz as int, n, len as int);
        lemma_component_within_length(SCALE as int, n, len as int);
        assert(len * len <= 3 * SCALE * SCALE);
        if len > 2 * SCALE {
            assert(len * len > 4 * SCALE * SCALE) by (nonlinear_arith)
                requires
                    len > 2 * SCALE,
            ;
        }
    }
    Vec3i {
        x: launch_component_exec(dx, speed, len),
        y: launch_component_exec(s, speed, len),
        z: launch_component_exec(dz, speed, len),
    }
}

/// The position and velocity that five draws give a new particle: two for
/// the horizontal direction, then one per axis of the spawn box.
pub fn motion_from_draws(c: &Config, d: (u64, u64, u64, u64, u64)) -> (r: (Vec3i, Vec3i))
    requires
        c.wf(),
    ensures
        r == motion_from(*c, d),
        launch_bounds(*c, r.0, r.1),
{
    let dx = direction_from_draw(d.0);
    let dz = direction_from_draw(d.1);
    let velocity = launch_velocity_of(dx, dz, c.initial_speed);
    let position = Vec3i {
        x: coordinate_from_draw(c.spawn_min.x, c.spawn_max.x, d.2),
        y: coordinate_from_draw(c.spawn_min.y, c.spawn_max.y, d.3),
        z: coordinate_from_draw(c.spawn_min.z, c.spawn_max.z, d.4),
    };
    (position, velocity)
}

/// The scheduler's state that persists across ticks.
#[derive(Clone, Copy, Debug, PartialEq, Eq, Structural)]
pub struct SpawnScheduler {
    /// The time after which the next batch is admitted; none before the first.
    pub next_spawn_deadline: Option<u64>,
}

impl SpawnScheduler {
    pub fn new() -> (r: SpawnScheduler)
        ensures
            r.next_spawn_deadline is None,
    {
        SpawnScheduler { next_spawn_deadline: None }
    }

    /// A batch is admitted at `now`.
    pub open spec fn is_due(&self, now: u64) -> bool {
        match self.next_spawn_deadline {
            None => true,
            Some(d) => now > d,
        }
    }

    /// Admits a batch of `batch_size` particles if the deadline has passed,
    /// and then moves the deadline to one interval after `now`. Otherwise
    /// nothing changes. Returns whether a batch was admitted.
    pub fn maybe_spawn<R: UniformSource>(
        &mut self,
        now: u64,
        c: &Config,
        store: &mut ParticleStore,
        rng: &mut R,
    ) -> (admitted: bool)
        requires
            c.wf(),
            old(store).wf(),
            now + c.spawn_interval <= u64::MAX,
            now + c.particle_lifetime <= u64::MAX,
            old(store).spec_next_id() + c.batch_size <= u64::MAX,
        ensures
            admitted == old(self).is_due(now),
            final(store).wf(),
            deadline_le(old(self).next_spawn_deadline, final(self).next_spawn_deadline),
            !admitted ==> *final(self) == *old(self) && final(store)@ == old(store)@
                && final(store).spec_next_id() == old(store).spec_next_id() && *final(rng)
                == *old(rng),
            admitted ==> final(self).next_spawn_deadline == Some((now + c.spawn_interval) as u64),
            admitted ==> final(store)@.len() == old(store)@.len() + c.batch_size,
            admitted ==> final(store).spec_next_id() == old(store).spec_next_id() + c.batch_size,
            admitted ==> final(store)@.subrange(0, old(store)@.len() as int) == old(store)@,
            admitted ==> forall|k: int|
                old(store)@.len() <= k < final(store)@.len() ==> {
                    &&& spawned_at(#[trigger] final(store)@[k], *c, now)
                    &&& final(store)@[k].id == old(store).spec_next_id() + (k - old(store)@.len())
                },
    {
        let due = match self.next_spawn_deadline {
            None => true,
            Some(d) => now > d,
        };
        if !due {
            return false;
        }
        let ghost s0 = store@;
        let ghost id0 = store.spec_next_id();
        let mut made: u64 = 0;
        while made < c.batch_size
            invariant
                c.wf(),
                made <= c.batch_size,
                now + c.particle_lifetime <= u64::MAX,
                id0 + c.batch_size <= u64::MAX,
                store.wf(),
                store.spec_next_id() == id0 + made,
                store@.len() == s0.len() + made,
                store@.subrange(0, s0.len() as int) == s0,
                forall|k: int|
                    s0.len() <= k < store@.len() ==> {
                        &&& spawned_at(#[trigger] store@[k], *c, now)
                        &&& store@[k].id == id0 + (k - s0.len())
                    },
            decreases c.batch_size - made,
        {
            let d = (rng.next_u64(), rng.next_u64(), rng.next_u64(), rng.next_u64(), rng.next_u64());
            let (position, velocity) = motion_from_draws(c, d);
            let ghost before = store@;
            store.insert(position, velocity, now, now + c.particle_lifetime);
            proof {
                assert(store@.subrange(0, s0.len() as int) =~= before.subrange(0, s0.len() as int));
                assert(motion_from(*c, d) == (store@.last().position, store@.last().velocity));
                assert forall|k: int| s0.len() <= k < store@.len() implies {
                    &&& spawned_at(#[trigger] store@[k], *c, now)
                    &&& store@[k].id == id0 + (k - s0.len())
                } by {
                    if k < store@.len() - 1 {
                        assert(store@[k] == before[k]);
                    }
                }
            }
            made = made + 1;
        }
        self.next_spawn_deadline = Some(now + c.spawn_interval);
        true
    }
}

} // verus!
