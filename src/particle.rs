//! Particle records and the store that owns them while they are live.

use vstd::prelude::*;
use crate::geometry::Vec3i;

verus! {

/// One live particle.
#[derive(Clone, Copy, Debug, PartialEq, Eq, Structural)]
pub struct Particle {
    /// Handle, unique among all particles a store has ever held.
    pub id: u64,
    pub position: Vec3i,
    pub velocity: Vec3i,
    /// Time of creation, in milliseconds.
    pub spawn_time: u64,
    /// Time from which the particle is due for removal, in milliseconds.
    pub expire_time: u64,
}

/// A particle stays live while `now` is before its expiration time.
pub open spec fn is_live(p: Particle, now: u64) -> bool {
    now < p.expire_time
}

/// The particles of `s` that are still live at `now`, in their order in `s`.
pub open spec fn live_at(s: Seq<Particle>, now: u64) -> Seq<Particle> {
    s.filter(|p: Particle| is_live(p, now))
}

/// Number of particles of `s` that are due for removal at `now`.
pub open spec fn expired_count(s: Seq<Particle>, now: u64) -> int {
    s.len() - live_at(s, now).len()
}

/// Handles increase strictly along the sequence and stay below `bound`.
pub open spec fn ids_ordered(s: Seq<Particle>, bound: u64) -> bool {
    &&& forall|i: int, j: int| 0 <= i < j < s.len() ==> s[i].id < s[j].id
    &&& forall|i: int| 0 <= i < s.len() ==> s[i].id < bound
}

/// The collection of live particles. Handles are issued in increasing order
/// and never reused.
pub struct ParticleStore {
    particles: Vec<Particle>,
    next_id: u64,
}

impl View for ParticleStore {
    type V = Seq<Particle>;

    closed spec fn view(&self) -> Seq<Particle> {
        self.particles@
    }
}

impl ParticleStore {
    /// The handle the next inserted particle receives.
    pub closed spec fn spec_next_id(&self) -> u64 {
        self.next_id
    }

    /// Every held handle is below the next one to issue, in increasing order.
    pub closed spec fn wf(&self) -> bool {
        ids_ordered(self.particles@, self.next_id)
    }

    pub fn new() -> (r: ParticleStore)
        ensures
            r.wf(),
            r@ == Seq::<Particle>::empty(),
            r.spec_next_id() == 0,
    {
        ParticleStore { particles: Vec::new(), next_id: 0 }
    }

    #[verifier::when_used_as_spec(spec_next_id)]
    pub fn next_id(&self) -> (r: u64)
        ensures
            r == self.spec_next_id(),
    {
        self.next_id
    }

    pub fn len(&self) -> (r: usize)
        ensures
            r == self@.len(),
    {
        self.particles.len()
    }

    /// The particle at position `i` of the store's order.
    pub fn get(&self, i: usize) -> (r: &Particle)
        requires
            i < self@.len(),
        ensures
            *r == self@[i as int],
    {
        &self.particles[i]
    }

    /// Proves that distinct positions of a well-formed store hold distinct handles.
    pub proof fn lemma_ids_unique(&self, i: int, j: int)
        requires
            self.wf(),
            0 <= i < self@.len(),
            0 <= j < self@.len(),
            i != j,
        ensures
            self@[i].id != self@[j].id,
    {
    }

    /// Proves that every held handle lies below the next one to issue, so a
    /// handle issued later differs from every handle held now or removed before.
    pub proof fn lemma_ids_below_next(&self)
        requires
            self.wf(),
        ensures
            forall|i: int| 0 <= i < self@.len() ==> #[trigger] self@[i].id < self.spec_next_id(),
    {
    }

    /// Appends a particle under a fresh handle and returns the handle.
    pub(crate) fn insert(
        &mut self,
        position: Vec3i,
        velocity: Vec3i,
        spawn_time: u64,
        expire_time: u64,
    ) -> (id: u64)
        requires
            old(self).wf(),
            old(self).spec_next_id() < u64::MAX,
        ensures
            final(self).wf(),
            id == old(self).spec_next_id(),
            final(self).spec_next_id() == old(self).spec_next_id() + 1,
            final(self)@ == old(self)@.push(
                Particle { id, position, velocity, spawn_time, expire_time },
            ),
    {
        let id = self.next_id;
        self.particles.push(Particle { id, position, velocity, spawn_time, expire_time });
        self.next_id = id + 1;
        id
    }

    /// Replaces the position and velocity of the particle at `i`; its handle
    /// and times stay.
    pub(crate) fn set_motion(&mut self, i: usize, position: Vec3i, velocity: Vec3i)
        requires
            old(self).wf(),
            i < old(self)@.len(),
        ensures
            final(self).wf(),
            final(self).spec_next_id() == old(self).spec_next_id(),
            final(self)@ == old(self)@.update(
                i as int,
                Particle { position, velocity, ..old(self)@[i as int] },
            ),
    {
        let p = self.particles[i];
        self.particles[i] = Particle { position, velocity, ..p };
        assert(forall|k: int|
            0 <= k < self.particles@.len() ==> self.particles@[k].id == old(self).particles@[k].id);
    }

    /// Removes every particle whose expiration time is at or before `now`,
    /// keeping the order of the others.
    pub fn reap(&mut self, now: u64)
        requires
            old(self).wf(),
        ensures
            final(self).wf(),
            final(self).spec_next_id() == old(self).spec_next_id(),
            final(self)@ == live_at(old(self)@, now),
    {
        let ghost s = self.particles@;
        let n = self.particles.len();
        let mut kept: Vec<Particle> = Vec::new();
        let mut i: usize = 0;
        while i < n
            invariant
                n == s.len(),
                s == self.particles@,
                ids_ordered(s, self.next_id),
                i <= n,
                kept@ == live_at(s.subrange(0, i as int), now),
                ids_ordered(kept@, self.next_id),
                forall|k: int, j: int|
                    0 <= k < kept@.len() && i <= j < n ==> kept@[k].id < s[j].id,
            decreases n - i,
        {
            let p = self.particles[i];
            proof {
                assert(s.subrange(0, i + 1).drop_last() =~= s.subrange(0, i as int));
                reveal(Seq::filter);
            }
            if now < p.expire_time {
                kept.push(p);
            }
            i = i + 1;
        }
        assert(s.subrange(0, n as int) =~= s);
        self.particles = kept;
    }
}

/// A sequence whose particles are all live at `now` is left whole by reaping.
pub proof fn lemma_live_at_keeps_live(s: Seq<Particle>, now: u64)
    requires
        forall|i: int| 0 <= i < s.len() ==> is_live(#[trigger] s[i], now),
    ensures
        live_at(s, now) == s,
    decreases s.len(),
{
    reveal(Seq::filter);
    if s.len() > 0 {
        lemma_live_at_keeps_live(s.drop_last(), now);
        assert(s.drop_last().push(s.last()) =~= s);
    }
}

/// Reaping depends only on expiration times: two sequences whose particles
/// expire at the same times position by position keep equally many.
pub proof fn lemma_live_count_by_expiry(s: Seq<Particle>, t: Seq<Particle>, now: u64)
    requires
        s.len() == t.len(),
        forall|i: int| 0 <= i < s.len() ==> #[trigger] s[i].expire_time == t[i].expire_time,
    ensures
        live_at(s, now).len() == live_at(t, now).len(),
    decreases s.len(),
{
    reveal(Seq::filter);
    if s.len() > 0 {
        assert forall|i: int| 0 <= i < s.drop_last().len() implies #[trigger] s.drop_last()[i].expire_time
            == t.drop_last()[i].expire_time by {
            assert(s[i].expire_time == t[i].expire_time);
        }
        lemma_live_count_by_expiry(s.drop_last(), t.drop_last(), now);
        assert(s.last().expire_time == t[t.len() - 1].expire_time);
    }
}

/// Reaping twice at the same time removes nothing the second time.
pub proof fn lemma_reap_idempotent(s: Seq<Particle>, now: u64)
    ensures
        live_at(live_at(s, now), now) == live_at(s, now),
{
    let kept = live_at(s, now);
    assert forall|i: int| 0 <= i < kept.len() implies is_live(#[trigger] kept[i], now) by {
        s.lemma_filter_pred(|p: Particle| is_live(p, now), i);
    }
    lemma_live_at_keeps_live(kept, now);
}

/// Once `now` has reached a particle's expiration time, reaping at `now`
/// leaves no copy of it.
pub proof fn lemma_reaped_absent(s: Seq<Particle>, now: u64, p: Particle)
    requires
        p.expire_time <= now,
    ensures
        !live_at(s, now).contains(p),
{
    let kept = live_at(s, now);
    if kept.contains(p) {
        let i = choose|i: int| 0 <= i < kept.len() && kept[i] == p;
        s.lemma_filter_pred(|q: Particle| is_live(q, now), i);
    }
}

} // verus!
