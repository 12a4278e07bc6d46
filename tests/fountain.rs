use particles::config::{Config, ConfigError};
use particles::geometry::{isqrt, scale_by_fraction, Vec3i, SCALE};
use particles::particle::ParticleStore;
use particles::physics::{advance, can_advance, step_particle};
use particles::random::{SeededRandom, ThreadRandom, UniformSource};
use particles::simulation::Simulation;
use particles::spawn::{
    coordinate_from_draw, direction_from_draw, launch_velocity_of, motion_from_draws,
    SpawnScheduler,
};

fn fountain() -> Config {
    Config {
        spawn_interval: 100,
        batch_size: 30,
        particle_lifetime: 10_000,
        particle_radius: 200,
        spawn_min: Vec3i::new(1000, 4000, 1000),
        spawn_max: Vec3i::new(3000, 5000, 3000),
        initial_speed: 2000,
        gravity: 1,
        ground_height: 0,
        restitution: 400,
        horizontal_damping: 900,
    }
}

fn store_with(c: &Config, now: u64, rng: &mut SeededRandom) -> ParticleStore {
    let mut store = ParticleStore::new();
    let mut sched = SpawnScheduler::new();
    assert!(sched.maybe_spawn(now, c, &mut store, rng));
    store
}

#[test]
fn spawn_schedule_admits_batches_on_deadline() {
    let c = fountain();
    let mut store = ParticleStore::new();
    let mut sched = SpawnScheduler::new();
    let mut rng = SeededRandom::new(7);
    assert!(sched.maybe_spawn(0, &c, &mut store, &mut rng));
    assert_eq!(store.len(), 30);
    assert_eq!(sched.next_spawn_deadline, Some(100));
    assert!(!sched.maybe_spawn(50, &c, &mut store, &mut rng));
    assert_eq!(store.len(), 30);
    assert_eq!(sched.next_spawn_deadline, Some(100));
    assert!(sched.maybe_spawn(101, &c, &mut store, &mut rng));
    assert_eq!(sched.next_spawn_deadline, Some(201));
    assert_eq!(store.len(), 60);
}

#[test]
fn spawn_at_exact_deadline_is_a_no_op() {
    let c = fountain();
    let mut store = ParticleStore::new();
    let mut sched = SpawnScheduler::new();
    let mut rng = SeededRandom::new(1);
    sched.maybe_spawn(0, &c, &mut store, &mut rng);
    assert!(!sched.maybe_spawn(100, &c, &mut store, &mut rng));
    assert_eq!(store.len(), 30);
}

#[test]
fn deadline_never_decreases() {
    let c = fountain();
    let mut store = ParticleStore::new();
    let mut sched = SpawnScheduler::new();
    let mut rng = SeededRandom::new(3);
    let mut last: Option<u64> = None;
    for now in [0u64, 20, 99, 100, 101, 150, 400, 401, 401, 900] {
        sched.maybe_spawn(now, &c, &mut store, &mut rng);
        assert!(sched.next_spawn_deadline >= last);
        last = sched.next_spawn_deadline;
    }
    assert_eq!(last, Some(1000));
}

#[test]
fn spawned_particles_carry_fresh_ids_and_times() {
    let c = fountain();
    let mut rng = SeededRandom::new(11);
    let store = store_with(&c, 500, &mut rng);
    for i in 0..store.len() {
        let p = store.get(i);
        assert_eq!(p.id, i as u64);
        assert_eq!(p.spawn_time, 500);
        assert_eq!(p.expire_time, 10_500);
        assert!(p.position.x >= 1000 && p.position.x <= 3000);
        assert!(p.position.y >= 4000 && p.position.y <= 5000);
        assert!(p.position.z >= 1000 && p.position.z <= 3000);
        assert!(p.velocity.y > 0 && p.velocity.y <= 2000);
        assert!(p.velocity.x.abs() <= 2000 && p.velocity.z.abs() <= 2000);
    }
    assert_eq!(store.next_id(), 30);
}

#[test]
fn ground_contact_bounces_with_restitution() {
    let mut c = fountain();
    c.gravity = 0;
    let mut store = ParticleStore::new();
    let mut sched = SpawnScheduler::new();
    let mut rng = SeededRandom::new(5);
    let mut one = c;
    one.batch_size = 1;
    sched.maybe_spawn(0, &one, &mut store, &mut rng);
    let p0 = *store.get(0);
    let p = particles::particle::Particle {
        position: Vec3i::new(100, 1000, -50),
        velocity: Vec3i::new(300, -5000, -200),
        ..p0
    };
    let q = step_particle(&p, &c, 16);
    assert_eq!(q.position, Vec3i::new(400, 0, -250));
    assert_eq!(q.velocity, Vec3i::new(270, 2000, -180));
    assert_eq!(q.id, p.id);
    assert_eq!(q.expire_time, p.expire_time);
}

#[test]
fn resting_particle_bounces_lower_each_contact() {
    let c = fountain();
    let p = particles::particle::Particle {
        id: 0,
        position: Vec3i::new(0, 0, 0),
        velocity: Vec3i::new(0, -1000, 0),
        spawn_time: 0,
        expire_time: 10_000,
    };
    let q = step_particle(&p, &c, 10);
    assert_eq!(q.position.y, 0);
    assert_eq!(q.velocity.y, 404);
    assert!(q.velocity.y < 1010);
}

#[test]
fn free_flight_moves_by_updated_velocity() {
    let c = fountain();
    let p = particles::particle::Particle {
        id: 4,
        position: Vec3i::new(10, 5000, 20),
        velocity: Vec3i::new(1, 100, -2),
        spawn_time: 0,
        expire_time: 10,
    };
    let q = step_particle(&p, &c, 16);
    assert_eq!(q.velocity, Vec3i::new(1, 84, -2));
    assert_eq!(q.position, Vec3i::new(11, 5084, 18));
}

#[test]
fn advance_steps_every_particle() {
    let c = fountain();
    let mut rng = SeededRandom::new(9);
    let mut store = store_with(&c, 0, &mut rng);
    let before: Vec<_> = (0..store.len()).map(|i| *store.get(i)).collect();
    assert!(can_advance(&store, &c, 16));
    advance(&mut store, &c, 16);
    assert_eq!(store.len(), before.len());
    for (i, p) in before.iter().enumerate() {
        assert_eq!(*store.get(i), step_particle(p, &c, 16));
    }
}

#[test]
fn can_advance_rejects_overflowing_step() {
    let c = fountain();
    let mut rng = SeededRandom::new(9);
    let store = store_with(&c, 0, &mut rng);
    assert!(!can_advance(&store, &c, u64::MAX));
}

#[test]
fn reap_keeps_particle_until_its_lifetime_has_elapsed() {
    let c = fountain();
    let mut rng = SeededRandom::new(2);
    let mut one = c;
    one.batch_size = 1;
    let mut store = store_with(&one, 0, &mut rng);
    store.reap(9_999);
    assert_eq!(store.len(), 1);
    store.reap(10_000);
    assert_eq!(store.len(), 0);
}

#[test]
fn reap_twice_removes_nothing_more() {
    let c = fountain();
    let mut rng = SeededRandom::new(4);
    let mut store = ParticleStore::new();
    let mut sched = SpawnScheduler::new();
    sched.maybe_spawn(0, &c, &mut store, &mut rng);
    sched.maybe_spawn(5_000, &c, &mut store, &mut rng);
    store.reap(12_000);
    assert_eq!(store.len(), 30);
    store.reap(12_000);
    assert_eq!(store.len(), 30);
    assert_eq!(store.get(0).id, 30);
}

#[test]
fn tick_count_follows_spawns_and_expiry() {
    let c = fountain();
    let mut sim = Simulation::new(c).unwrap();
    let mut rng = SeededRandom::new(8);
    assert!(sim.can_tick(0, 0));
    assert!(sim.tick(0, 0, &mut rng));
    assert_eq!(sim.store().len(), 30);
    assert!(sim.can_tick(60, 60));
    assert!(!sim.tick(60, 60, &mut rng));
    assert_eq!(sim.store().len(), 30);
    assert!(sim.tick(120, 60, &mut rng));
    assert_eq!(sim.store().len(), 60);
    // the first batch expires at 10000, the second at 10120
    assert!(sim.tick(10_000, 9_880, &mut rng));
    assert_eq!(sim.store().len(), 60);
    for i in 0..sim.store().len() {
        assert!(sim.store().get(i).expire_time > 10_000);
    }
}

#[test]
fn fresh_particles_survive_their_own_tick() {
    let c = fountain();
    let mut sim = Simulation::new(c).unwrap();
    let mut rng = SeededRandom::new(12);
    sim.tick(0, 0, &mut rng);
    assert_eq!(sim.store().len(), 30);
}

#[test]
fn config_errors_are_reported_in_order() {
    let ok = fountain();
    assert_eq!(ok.validate(), Ok(()));
    let mut c = ok;
    c.batch_size = 0;
    c.particle_lifetime = 0;
    assert_eq!(c.validate(), Err(ConfigError::ZeroBatch));
    let mut c = ok;
    c.particle_lifetime = 0;
    assert_eq!(c.validate(), Err(ConfigError::ZeroLifetime));
    let mut c = ok;
    c.particle_radius = 0;
    assert_eq!(c.validate(), Err(ConfigError::NonPositiveRadius));
    let mut c = ok;
    c.spawn_max.y = 3999;
    assert_eq!(c.validate(), Err(ConfigError::EmptySpawnRegion));
    let mut c = ok;
    c.initial_speed = -1;
    assert_eq!(c.validate(), Err(ConfigError::NegativeSpeed));
    let mut c = ok;
    c.gravity = -1;
    assert_eq!(c.validate(), Err(ConfigError::NegativeGravity));
    let mut c = ok;
    c.horizontal_damping = SCALE + 1;
    assert_eq!(c.validate(), Err(ConfigError::CoefficientOutOfRange));
    assert!(matches!(Simulation::new(c), Err(ConfigError::CoefficientOutOfRange)));
}

#[test]
fn fraction_scaling_rounds_toward_zero() {
    assert_eq!(scale_by_fraction(5000, 400), 2000);
    assert_eq!(scale_by_fraction(-999, 500), -499);
    assert_eq!(scale_by_fraction(999, 500), 499);
    assert_eq!(scale_by_fraction(i64::MIN, 1000), i64::MIN);
    assert_eq!(scale_by_fraction(7, 0), 0);
}

#[test]
fn integer_square_root() {
    assert_eq!(isqrt(0), 0);
    assert_eq!(isqrt(1_000_000), 1000);
    assert_eq!(isqrt(3_000_000), 1732);
    assert_eq!(isqrt(u64::MAX), 4_294_967_295);
}

#[test]
fn draws_map_to_direction_and_coordinates() {
    assert_eq!(direction_from_draw(0), -1000);
    assert_eq!(direction_from_draw(2000), 1000);
    assert_eq!(direction_from_draw(2001), -1000);
    assert_eq!(coordinate_from_draw(1000, 3000, 5), 1005);
    assert_eq!(coordinate_from_draw(-5, -5, 77), -5);
    assert_eq!(coordinate_from_draw(i64::MIN, i64::MAX, u64::MAX), i64::MAX);
}

#[test]
fn launch_velocity_is_normalized_direction_times_speed() {
    assert_eq!(launch_velocity_of(0, 0, 2000), Vec3i::new(0, 2000, 0));
    // direction (1000, 1000, 0) has length 1414
    assert_eq!(launch_velocity_of(1000, 0, 2000), Vec3i::new(1414, 1414, 0));
    assert_eq!(launch_velocity_of(-1000, 1000, 1732), Vec3i::new(-1000, 1000, 1000));
    let c = fountain();
    let (pos, vel) = motion_from_draws(&c, (0, 0, 0, 1, 2));
    assert_eq!(pos, Vec3i::new(1000, 4001, 1002));
    assert_eq!(vel, launch_velocity_of(-1000, -1000, 2000));
}

#[test]
fn random_sources_produce_values() {
    let mut a = SeededRandom::new(42);
    let mut b = SeededRandom::new(42);
    let xs: Vec<u64> = (0..4).map(|_| a.next_u64()).collect();
    let ys: Vec<u64> = (0..4).map(|_| b.next_u64()).collect();
    assert_eq!(xs, ys);
    assert_ne!(xs[0], xs[1]);
    let mut t = ThreadRandom::new();
    let draws: Vec<u64> = (0..8).map(|_| t.next_u64()).collect();
    assert!(draws.iter().any(|d| *d != draws[0]));
}

#[test]
fn tick_steps_particles_when_nothing_is_due() {
    let c = fountain();
    let mut sim = Simulation::new(c).unwrap();
    let mut rng = SeededRandom::new(21);
    assert!(sim.tick(0, 0, &mut rng));
    let before: Vec<_> = (0..sim.store().len()).map(|i| *sim.store().get(i)).collect();
    assert!(sim.can_tick(40, 40));
    assert!(!sim.tick(40, 40, &mut rng));
    assert_eq!(sim.scheduler().next_spawn_deadline, Some(100));
    assert_eq!(sim.config(), &c);
    assert_eq!(sim.store().len(), before.len());
    for (i, p) in before.iter().enumerate() {
        let q = sim.store().get(i);
        assert_eq!(*q, step_particle(p, &c, 40));
        assert_ne!(q.position, p.position);
    }
}
