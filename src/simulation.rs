//! One simulation tick: spawn, then integrate, then reap, in that order.

use vstd::prelude::*;
use crate::config::{Config, ConfigError};
use crate::particle::{
    Particle, ParticleStore, expired_count, is_live, live_at, lemma_live_at_keeps_live,
    lemma_live_count_by_expiry,
};
use crate::physics::{advance, all_steps_fit, can_advance, in_i64, step, step_fits, stepped};
use crate::random::UniformSource;
use crate::spawn::{SpawnScheduler, deadline_le, launch_bounds, spawned_at};

verus! {

/// A step of any particle that a spawn can create fits in `i64`.
pub open spec fn fresh_steps_fit(c: Config, dt: u64) -> bool {
    let g = c.gravity * dt;
    let v = c.initial_speed as int;
    &&& in_i64(g)
    &&& -v - g > i64::MIN
    &&& in_i64(v - g)
    &&& in_i64(c.spawn_min.y - v - g)
    &&& in_i64(c.spawn_max.y + v - g)
    &&& in_i64(c.spawn_min.x - v)
    &&& in_i64(c.spawn_max.x + v)
    &&& in_i64(c.spawn_min.z - v)
    &&& in_i64(c.spawn_max.z + v)
}

proof fn lemma_fresh_step_fits(p: Particle, c: Config, dt: u64)
    requires
        c.wf(),
        fresh_steps_fit(c, dt),
        launch_bounds(c, p.position, p.velocity),
    ensures
        step_fits(p, c, dt),
{
}

/// A fountain: its parameters, fixed at creation, its scheduler and its
/// live particles.
pub struct Simulation {
    config: Config,
    scheduler: SpawnScheduler,
    store: ParticleStore,
}

impl Simulation {
    pub closed spec fn spec_config(&self) -> Config {
        self.config
    }

    pub closed spec fn spec_scheduler(&self) -> SpawnScheduler {
        self.scheduler
    }

    pub closed spec fn spec_store(&self) -> ParticleStore {
        self.store
    }

    pub fn config(&self) -> (r: &Config)
        ensures
            *r == self.spec_config(),
    {
        &self.config
    }

    pub fn scheduler(&self) -> (r: &SpawnScheduler)
        ensures
            *r == self.spec_scheduler(),
    {
        &self.scheduler
    }

    /// Read access to the live particles.
    pub fn store(&self) -> (r: &ParticleStore)
        ensures
            *r == self.spec_store(),
    {
        &self.store
    }

    /// The simulation's parameters are valid and its store is well formed.
    pub open spec fn wf(&self) -> bool {
        self.spec_config().wf() && self.spec_store().wf()
    }

    /// Everything a tick at `now` of `dt` milliseconds computes is representable.
    pub open spec fn tick_fits(&self, now: u64, dt: u64) -> bool {
        &&& now + self.spec_config().spawn_interval <= u64::MAX
        &&& now + self.spec_config().particle_lifetime <= u64::MAX
        &&& self.spec_store().spec_next_id() + self.spec_config().batch_size <= u64::MAX
        &&& all_steps_fit(self.spec_store()@, self.spec_config(), dt)
        &&& fresh_steps_fit(self.spec_config(), dt)
    }

    /// Starts an empty fountain, or reports why `config` cannot drive one.
    pub fn new(config: Config) -> (r: Result<Simulation, ConfigError>)
        ensures
            r is Ok <==> config.wf(),
            r is Err ==> Some(r->Err_0) == config.first_error(),
            r is Ok ==> {
                let s = r->Ok_0;
                &&& s.wf()
                &&& s.spec_config() == config
                &&& s.spec_scheduler().next_spawn_deadline is None
                &&& s.spec_store()@ == Seq::<Particle>::empty()
                &&& s.spec_store().spec_next_id() == 0
            },
    {
        match config.validate() {
            Ok(()) => Ok(Simulation {
                config,
                scheduler: SpawnScheduler::new(),
                store: ParticleStore::new(),
            }),
            Err(e) => Err(e),
        }
    }

    /// Tells whether a tick at `now` of `dt` milliseconds stays in range.
    pub fn can_tick(&self, now: u64, dt: u64) -> (r: bool)
        requires
            self.wf(),
        ensures
            r == self.tick_fits(now, dt),
    {
        let c = &self.config;
        if now > u64::MAX - c.spawn_interval || now > u64::MAX - c.particle_lifetime {
            return false;
        }
        if self.store.next_id() > u64::MAX - c.batch_size {
            return false;
        }
        if !can_advance(&self.store, c, dt) {
            return false;
        }
        let lo: i128 = i64::MIN as i128;
        let hi: i128 = i64::MAX as i128;
        assert(0 <= c.gravity * dt <= i64::MAX * u64::MAX) by (nonlinear_arith)
            requires
                0 <= c.gravity <= i64::MAX,
                0 <= dt <= u64::MAX,
        ;
        let g: i128 = (c.gravity as i128) * (dt as i128);
        if g > hi {
            return false;
        }
        let v: i128 = c.initial_speed as i128;
        let checks: bool = lo < -v - g && v - g <= hi
            && lo <= c.spawn_min.y as i128 - v - g && c.spawn_max.y as i128 + v - g <= hi
            && lo <= c.spawn_min.x as i128 - v && c.spawn_max.x as i128 + v <= hi
            && lo <= c.spawn_min.z as i128 - v && c.spawn_max.z as i128 + v <= hi;
        checks
    }

    /// Runs one tick at time `now`, `dt` milliseconds after the previous one:
    /// admits a batch if due, advances every particle, and removes those
    /// that have expired. Returns whether a batch was admitted.
    ///
    /// The store afterwards holds the old particles followed by the new
    /// batch, each stepped once, less those expired at `now`.
    pub fn tick<R: UniformSource>(&mut self, now: u64, dt: u64, rng: &mut R) -> (admitted: bool)
        requires
            old(self).wf(),
            old(self).tick_fits(now, dt),
        ensures
            final(self).wf(),
            final(self).spec_config() == old(self).spec_config(),
            admitted == old(self).spec_scheduler().is_due(now),
            deadline_le(
                old(self).spec_scheduler().next_spawn_deadline,
                final(self).spec_scheduler().next_spawn_deadline,
            ),
            admitted ==> final(self).spec_scheduler().next_spawn_deadline == Some(
                (now + old(self).spec_config().spawn_interval) as u64,
            ),
            !admitted ==> final(self).spec_scheduler() == old(self).spec_scheduler(),
            exists|fresh: Seq<Particle>|
                {
                    &&& fresh.len() == (if admitted {
                        old(self).spec_config().batch_size as int
                    } else {
                        0int
                    })
                    &&& forall|k: int|
                        0 <= k < fresh.len() ==> spawned_at(
                            #[trigger] fresh[k],
                            old(self).spec_config(),
                            now,
                        ) && fresh[k].id == old(self).spec_store().spec_next_id() + k
                    &&& final(self).spec_store()@ == live_at(
                        stepped(old(self).spec_store()@ + fresh, old(self).spec_config(), dt),
                        now,
                    )
                },
            final(self).spec_store().spec_next_id() == old(self).spec_store().spec_next_id() + (
            if admitted {
                old(self).spec_config().batch_size as int
            } else {
                0int
            }),
            final(self).spec_store()@.len() == old(self).spec_store()@.len() + (if admitted {
                old(self).spec_config().batch_size as int
            } else {
                0int
            }) - expired_count(old(self).spec_store()@, now),
            forall|i: int|
                0 <= i < final(self).spec_store()@.len() ==> is_live(
                    #[trigger] final(self).spec_store()@[i],
                    now,
                ),
    {
        let ghost s0 = self.store@;
        let admitted = self.scheduler.maybe_spawn(now, &self.config, &mut self.store, rng);
        let ghost s1 = self.store@;
        let ghost fresh = s1.subrange(s0.len() as int, s1.len() as int);
        proof {
            assert(s1 =~= s0 + fresh);
            assert forall|k: int| 0 <= k < fresh.len() implies spawned_at(
                #[trigger] fresh[k],
                self.config,
                now,
            ) && fresh[k].id == old(self).store.spec_next_id() + k by {
                assert(fresh[k] == s1[s0.len() + k]);
            }
            assert forall|i: int| 0 <= i < fresh.len() implies is_live(#[trigger] fresh[i], now) by {
                assert(fresh[i] == s1[s0.len() + i]);
            }
            lemma_live_at_keeps_live(fresh, now);
            Seq::filter_distributes_over_add(s0, fresh, |p: Particle| is_live(p, now));
            assert forall|i: int| 0 <= i < s1.len() implies step_fits(#[trigger] s1[i], self.config, dt) by {
                if i >= s0.len() {
                    lemma_fresh_step_fits(s1[i], self.config, dt);
                } else {
                    assert(s1[i] == s1.subrange(0, s0.len() as int)[i]);
                }
            }
        }
        advance(&mut self.store, &self.config, dt);
        let ghost s2 = self.store@;
        proof {
            assert forall|i: int| 0 <= i < s1.len() implies #[trigger] s1[i].expire_time
                == s2[i].expire_time by {
                assert(s2[i] == step(s1[i], self.config, dt));
            }
            lemma_live_count_by_expiry(s1, s2, now);
        }
        self.store.reap(now);
        proof {
            let kept = self.store@;
            assert forall|i: int| 0 <= i < kept.len() implies is_live(#[trigger] kept[i], now) by {
                s2.lemma_filter_pred(|p: Particle| is_live(p, now), i);
            }
        }
        admitted
    }
}

} // verus!
