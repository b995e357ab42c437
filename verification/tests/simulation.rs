use fish_shoal::Agent;
use fish_shoal::Chunks;
use fish_shoal::Config;
use fish_shoal::Density;
use fish_shoal::DeltaTime;
use fish_shoal::Error;
use fish_shoal::FishShoalSimulator;
use fish_shoal::LoadChunks;
use fish_shoal::Motion;
use fish_shoal::OutOfBound;
use fish_shoal::Position;
use fish_shoal::Scalar;
use fish_shoal::SchoolingMechanism;
use fish_shoal::SimulatorOutput;
use fish_shoal::Social;
use fish_shoal::Speed;
use fish_shoal::Stress;
use fish_shoal::Swarming;
use fish_shoal::TargetSpeed;
use fish_shoal::TargetVelocity;
use fish_shoal::Vec2;
use fish_shoal::Velocity;
use fish_shoal::SCALE;

fn resting_agent(x: i64, y: i64) -> Agent {
    Agent {
        position: Position(Vec2::new(x, y)),
        velocity: Velocity(Vec2::new(SCALE, 0)),
        target_velocity: TargetVelocity(Vec2::new(0, SCALE)),
        speed: Speed(Scalar::new(90_000)),
        target_speed: TargetSpeed(Scalar::new(90_000)),
        stress: Stress::new(700),
        density: Density { value: 3 },
        social: Social { is_in_group: true },
    }
}

/// The plain-Rust mirror of the running-mean recurrence: add the value, then
/// divide the sum by the new count.
fn running_mean(points: &[(i64, i64)]) -> (i64, i64) {
    let mut acc: (i64, i64) = (0, 0);
    let mut count: i64 = 0;
    for &(px, py) in points.iter().take(6) {
        acc = (acc.0 + px, acc.1 + py);
        count += 1;
        acc = (acc.0 / count, acc.1 / count);
    }
    acc
}

fn isqrt(n: i64) -> i64 {
    let mut r: i64 = 0;
    while (r + 1) * (r + 1) <= n {
        r += 1;
    }
    r
}

fn normalize_pair(x: i64, y: i64) -> (i64, i64) {
    let len = isqrt(x * x + y * y);
    if len == 0 {
        (0, 0)
    } else {
        (x * SCALE / len, y * SCALE / len)
    }
}

#[test]
fn avoidance_matches_running_mean() {
    let neighbors = [(2_000, 0), (3_000, 1_000), (4_000, 2_000)];
    let others_positions: Vec<(usize, Vec2)> = neighbors
        .iter()
        .enumerate()
        .map(|(i, &(x, y))| (i, Vec2::new(x, y)))
        .collect();
    let others_velocities: Vec<(usize, Vec2)> = neighbors
        .iter()
        .enumerate()
        .map(|(i, _)| (i, Vec2::new(SCALE, 0)))
        .collect();

    let mut mechanism = SchoolingMechanism::setup(
        Vec2::new(0, 0),
        Vec2::new(SCALE, 0),
        Scalar::new(50_000),
        Scalar::new(100),
        others_positions,
        others_velocities,
        10 * SCALE,
        30 * SCALE,
        50 * SCALE,
    );

    assert!(mechanism.avoidance());

    let mean = running_mean(&neighbors);
    let expected = normalize_pair(-mean.0, -mean.1);
    assert_eq!(mechanism.velocity, Vec2::new(expected.0, expected.1));
    assert_eq!(mechanism.speed, Scalar::new(100_000));
    assert_eq!(mechanism.stress, Scalar::new(950));
}

#[test]
fn avoidance_mean_caps_at_six_neighbors() {
    let neighbors: Vec<(i64, i64)> =
        (0..9).map(|k| (1_000 + 100 * k as i64, 500 * k as i64)).collect();
    let others_positions: Vec<(usize, Vec2)> = neighbors
        .iter()
        .enumerate()
        .map(|(i, &(x, y))| (i, Vec2::new(x, y)))
        .collect();
    let others_velocities: Vec<(usize, Vec2)> = neighbors
        .iter()
        .enumerate()
        .map(|(i, _)| (i, Vec2::new(SCALE, 0)))
        .collect();

    let mut mechanism = SchoolingMechanism::setup(
        Vec2::new(0, 0),
        Vec2::new(SCALE, 0),
        Scalar::new(50_000),
        Scalar::new(100),
        others_positions,
        others_velocities,
        10 * SCALE,
        30 * SCALE,
        50 * SCALE,
    );

    assert!(mechanism.avoidance());

    // Only the first six neighbors enter the mean.
    let mean = running_mean(&neighbors);
    let expected = normalize_pair(-mean.0, -mean.1);
    assert_eq!(mechanism.velocity, Vec2::new(expected.0, expected.1));
}

#[test]
fn avoidance_fires_even_when_mean_is_zero() {
    // The one qualifying neighbor sits at the exact origin, so the running
    // mean is the zero vector; a qualifying neighbor exists, so avoidance
    // must still speak and steer the agent away.
    let others_positions: Vec<(usize, Vec2)> = vec![(0, Vec2::new(0, 0))];
    let others_velocities: Vec<(usize, Vec2)> = vec![(0, Vec2::new(SCALE, 0))];

    let mut mechanism = SchoolingMechanism::setup(
        Vec2::new(3 * SCALE, 4 * SCALE),
        Vec2::new(SCALE, 0),
        Scalar::new(50_000),
        Scalar::new(100),
        others_positions,
        others_velocities,
        10 * SCALE,
        30 * SCALE,
        50 * SCALE,
    );

    assert!(mechanism.avoidance());
    assert_eq!(mechanism.velocity, Vec2::new(600, 800));
    assert_eq!(mechanism.speed, Scalar::new(100_000));
    assert_eq!(mechanism.stress, Scalar::new(950));
}

#[test]
fn alignment_fires_when_opposite_headings_cancel() {
    // Two alignment-band neighbors with exactly opposite headings: the mean
    // heading is zero, yet neighbors exist, so alignment speaks (with a zero
    // heading) and attraction never gets a turn.
    let others_positions: Vec<(usize, Vec2)> =
        vec![(0, Vec2::new(20 * SCALE, 0)), (1, Vec2::new(0, 20 * SCALE))];
    let others_velocities: Vec<(usize, Vec2)> =
        vec![(0, Vec2::new(SCALE, 0)), (1, Vec2::new(-SCALE, 0))];

    let mut mechanism = SchoolingMechanism::setup(
        Vec2::new(0, 0),
        Vec2::new(SCALE, 0),
        Scalar::new(50_000),
        Scalar::new(100),
        others_positions,
        others_velocities,
        10 * SCALE,
        30 * SCALE,
        50 * SCALE,
    );

    assert!(!mechanism.avoidance());
    assert!(mechanism.alignment());
    assert_eq!(mechanism.velocity, Vec2::new(0, 0));
    assert_eq!(mechanism.speed, Scalar::new(75_000));
    assert_eq!(mechanism.stress, Scalar::new(330));
}

#[test]
fn attraction_fires_for_symmetric_neighbors() {
    // Two attraction-band neighbors placed symmetrically about the agent:
    // the mean position coincides with the agent, yet attraction speaks.
    let others_positions: Vec<(usize, Vec2)> =
        vec![(0, Vec2::new(40 * SCALE, 0)), (1, Vec2::new(-40 * SCALE, 0))];
    let others_velocities: Vec<(usize, Vec2)> =
        vec![(0, Vec2::new(SCALE, 0)), (1, Vec2::new(SCALE, 0))];

    let mut mechanism = SchoolingMechanism::setup(
        Vec2::new(0, 0),
        Vec2::new(SCALE, 0),
        Scalar::new(50_000),
        Scalar::new(100),
        others_positions,
        others_velocities,
        10 * SCALE,
        30 * SCALE,
        50 * SCALE,
    );

    assert!(!mechanism.avoidance());
    assert!(!mechanism.alignment());
    assert!(mechanism.attraction());
    assert_eq!(mechanism.velocity, Vec2::new(0, 0));
    assert_eq!(mechanism.speed, Scalar::new(100_000));
    assert_eq!(mechanism.stress, Scalar::new(500));
}

#[test]
fn avoidance_outranks_attraction_even_at_zero_mean() {
    // The close neighbor sits at the exact origin; the agent must still take
    // the avoidance outcome, never the attraction one.
    let others_positions: Vec<(usize, Vec2)> =
        vec![(0, Vec2::new(0, 0)), (1, Vec2::new(43 * SCALE, 4 * SCALE))];
    let others_velocities: Vec<(usize, Vec2)> =
        vec![(0, Vec2::new(SCALE, 0)), (1, Vec2::new(SCALE, 0))];

    let mut mechanism = SchoolingMechanism::setup(
        Vec2::new(3 * SCALE, 4 * SCALE),
        Vec2::new(0, SCALE),
        Scalar::new(50_000),
        Scalar::new(100),
        others_positions,
        others_velocities,
        10 * SCALE,
        30 * SCALE,
        50 * SCALE,
    );

    if !mechanism.avoidance() {
        if !mechanism.alignment() {
            mechanism.attraction();
        }
    }

    assert_eq!(mechanism.velocity, Vec2::new(600, 800));
    assert_eq!(mechanism.stress, Scalar::new(950));
}

#[test]
fn avoidance_outranks_attraction() {
    // One neighbor inside the avoidance radius, one inside the attraction
    // radius only: the new heading must reflect avoidance, never attraction.
    let others_positions: Vec<(usize, Vec2)> =
        vec![(0, Vec2::new(5 * SCALE, 0)), (1, Vec2::new(40 * SCALE, 0))];
    let others_velocities: Vec<(usize, Vec2)> =
        vec![(0, Vec2::new(SCALE, 0)), (1, Vec2::new(SCALE, 0))];

    let mut mechanism = SchoolingMechanism::setup(
        Vec2::new(0, 0),
        Vec2::new(0, SCALE),
        Scalar::new(50_000),
        Scalar::new(100),
        others_positions,
        others_velocities,
        10 * SCALE,
        30 * SCALE,
        50 * SCALE,
    );

    if !mechanism.avoidance() {
        if !mechanism.alignment() {
            mechanism.attraction();
        }
    }

    // Away from the close neighbor (negative x), not toward the far one.
    assert_eq!(mechanism.velocity, Vec2::new(-SCALE, 0));
    assert_eq!(mechanism.stress, Scalar::new(950));
}

#[test]
fn alignment_follows_neighbor_headings() {
    // One neighbor beyond the avoidance radius but within the alignment
    // radius: its recorded heading decides, not its position.
    let others_positions: Vec<(usize, Vec2)> = vec![(0, Vec2::new(20 * SCALE, 0))];
    let others_velocities: Vec<(usize, Vec2)> = vec![(0, Vec2::new(0, SCALE))];

    let mut mechanism = SchoolingMechanism::setup(
        Vec2::new(0, 0),
        Vec2::new(SCALE, 0),
        Scalar::new(50_000),
        Scalar::new(100),
        others_positions,
        others_velocities,
        10 * SCALE,
        30 * SCALE,
        50 * SCALE,
    );

    assert!(!mechanism.avoidance());
    assert!(mechanism.alignment());
    assert_eq!(mechanism.velocity, Vec2::new(0, SCALE));
    assert_eq!(mechanism.speed, Scalar::new(75_000));
    assert_eq!(mechanism.stress, Scalar::new(330));
}

#[test]
fn attraction_steers_toward_far_neighbors() {
    // One neighbor beyond both the avoidance and alignment radii but within
    // the attraction radius: the agent turns toward it.
    let others_positions: Vec<(usize, Vec2)> = vec![(0, Vec2::new(0, 40 * SCALE))];
    let others_velocities: Vec<(usize, Vec2)> = vec![(0, Vec2::new(SCALE, 0))];

    let mut mechanism = SchoolingMechanism::setup(
        Vec2::new(0, 0),
        Vec2::new(SCALE, 0),
        Scalar::new(50_000),
        Scalar::new(100),
        others_positions,
        others_velocities,
        10 * SCALE,
        30 * SCALE,
        50 * SCALE,
    );

    assert!(!mechanism.avoidance());
    assert!(!mechanism.alignment());
    assert!(mechanism.attraction());
    assert_eq!(mechanism.velocity, Vec2::new(0, SCALE));
    assert_eq!(mechanism.speed, Scalar::new(100_000));
    assert_eq!(mechanism.stress, Scalar::new(500));
}

#[test]
fn two_close_agents_avoid_each_other() {
    let cfg = Config::default();
    let mut agents: Vec<Agent> =
        vec![resting_agent(5 * SCALE, 5 * SCALE), resting_agent(6 * SCALE, 5 * SCALE)];
    let mut chunks = Chunks::new(cfg.attraction_radius);

    LoadChunks::system(&agents, &cfg, &mut chunks);
    Swarming::system(&mut agents, &chunks, &cfg);

    for a in &agents {
        assert_eq!(a.density.value, 1);
        assert!(a.social.is_in_group);
        assert_eq!(a.target_speed, TargetSpeed(Scalar::new(100_000)));
        assert_eq!(a.stress, Stress::new(950));
    }
    // Each steers directly away from the other.
    assert_eq!(agents[0].target_velocity, TargetVelocity(Vec2::new(-SCALE, 0)));
    assert_eq!(agents[1].target_velocity, TargetVelocity(Vec2::new(SCALE, 0)));
}

#[test]
fn idle_agent_gets_fixed_fallback() {
    let cfg = Config::default();
    let mut agents: Vec<Agent> = vec![resting_agent(5 * SCALE, 5 * SCALE)];
    let mut chunks = Chunks::new(cfg.attraction_radius);

    LoadChunks::system(&agents, &cfg, &mut chunks);
    Swarming::system(&mut agents, &chunks, &cfg);

    // Zero neighbors: not social, density zero, fixed fallback speed and
    // stress, heading target untouched — regardless of the prior state.
    assert_eq!(agents[0].density.value, 0);
    assert!(!agents[0].social.is_in_group);
    assert_eq!(agents[0].target_speed, TargetSpeed(Scalar::new(50_000)));
    assert_eq!(agents[0].stress, Stress::new(100));
    assert_eq!(agents[0].target_velocity, TargetVelocity(Vec2::new(0, SCALE)));
}

#[test]
fn motion_integrates_heading_speed_and_time() {
    let mut agents: Vec<Agent> = vec![resting_agent(100 * SCALE, 200 * SCALE)];
    agents[0].velocity = Velocity(Vec2::new(SCALE, 0));
    agents[0].speed = Speed(Scalar::new(2 * SCALE));
    let delta_time = DeltaTime { last_time: std::time::Instant::now(), delta: 500 };

    Motion::system(&mut agents, &delta_time);

    // Two units per second for half a second: one unit along x.
    assert_eq!(agents[0].position, Position(Vec2::new(101 * SCALE, 200 * SCALE)));
}

#[test]
fn boundary_wrap_keeps_agents_strictly_inside() {
    let cfg = Config::default();
    let mut agents: Vec<Agent> = vec![
        resting_agent(0, 5 * SCALE),
        resting_agent(5 * SCALE, cfg.height + 3 * SCALE),
        resting_agent(7 * SCALE, 9 * SCALE),
    ];
    agents[0].position = Position(Vec2::new(-2 * SCALE, 5 * SCALE));

    OutOfBound::system(&mut agents, &cfg);

    assert_eq!(agents[0].position.0.x, cfg.width - SCALE);
    assert_eq!(agents[1].position.0.y, SCALE);
    assert_eq!(agents[2].position.0, Vec2::new(7 * SCALE, 9 * SCALE));
    for a in &agents {
        assert!(0 < a.position.0.x && a.position.0.x < cfg.width);
        assert!(0 < a.position.0.y && a.position.0.y < cfg.height);
    }
}

#[test]
fn simulator_keeps_positions_inside_arena() {
    let mut sim: FishShoalSimulator = FishShoalSimulator::new().unwrap();
    for _ in 0..3 {
        let out: SimulatorOutput = sim.run().unwrap();
        assert_eq!(out.positions.len(), 500);
        for p in &out.positions {
            assert!(0 < p.x && p.x < sim.world.config.width);
            assert!(0 < p.y && p.y < sim.world.config.height);
        }
    }
}

#[test]
fn single_agent_stays_alone() {
    let mut sim: FishShoalSimulator = FishShoalSimulator::new().unwrap();
    let lone = Config { entity_count: 1, ..Config::default() };
    sim.update_config(lone).unwrap();

    for _ in 0..10 {
        let out: SimulatorOutput = sim.run().unwrap();
        assert_eq!(out.densities.len(), 1);
        assert_eq!(out.densities[0], 0);
        assert!(!sim.world.agents[0].social.is_in_group);
    }
}

#[test]
fn population_follows_configuration() {
    let mut sim: FishShoalSimulator = FishShoalSimulator::new().unwrap();
    assert_eq!(sim.run().unwrap().ids.len(), 500);

    sim.update_config(Config { entity_count: 600, ..Config::default() }).unwrap();
    assert_eq!(sim.run().unwrap().ids.len(), 600);

    sim.update_config(Config { entity_count: 2, ..Config::default() }).unwrap();
    assert_eq!(sim.run().unwrap().ids.len(), 2);
}

#[test]
fn invalid_configuration_is_rejected() {
    let mut sim: FishShoalSimulator = FishShoalSimulator::new().unwrap();
    let bad = Config { width: 0, ..Config::default() };

    let err: Error = sim.update_config(bad).unwrap_err();
    assert!(matches!(err, Error::Config(_)));
    assert_eq!(
        err.message(),
        "Fish Shoal Simulator failed to config: rejected: out of machine limits"
    );
    assert_eq!(sim.world.config, Config::default());
}

#[test]
fn paused_simulator_leaves_agents_alone() {
    let mut sim: FishShoalSimulator = FishShoalSimulator::new().unwrap();
    sim.update_config(Config { paused: true, ..Config::default() }).unwrap();

    let before: Vec<Vec2> = sim.run().unwrap().positions;
    let after: Vec<Vec2> = sim.run().unwrap().positions;
    assert_eq!(before, after);
}

#[test]
fn stress_rerolls_only_after_arrival() {
    let mut cfg = Config::default();
    cfg.stress_change_prob = fish_shoal::PROB_ONE;
    cfg.direction_change_prob = 0;
    cfg.speed_change_prob = 0;

    // Still under way: the stress trial is not even rolled.
    let mut agents: Vec<Agent> = vec![resting_agent(5 * SCALE, 5 * SCALE)];
    assert_ne!(agents[0].velocity.0, agents[0].target_velocity.0);
    for _ in 0..20 {
        fish_shoal::RandomBehavior::system(&mut agents, &cfg);
        assert_eq!(agents[0].stress, Stress::new(700));
    }

    // Arrived: the certain trial blends a drawn stress into the old one.
    agents[0].velocity = Velocity(agents[0].target_velocity.0);
    fish_shoal::RandomBehavior::system(&mut agents, &cfg);
    let blended: i64 = agents[0].stress.0.value;
    assert!(100 <= blended && blended <= 700);
}

#[test]
fn smoothing_snaps_when_close() {
    let mut agents: Vec<Agent> = vec![resting_agent(5 * SCALE, 5 * SCALE)];
    agents[0].velocity = Velocity(Vec2::new(SCALE, 0));
    agents[0].target_velocity = TargetVelocity(Vec2::new(SCALE, 50));
    agents[0].speed = Speed(Scalar::new(49_950));
    agents[0].target_speed = TargetSpeed(Scalar::new(50_000));
    let delta_time = DeltaTime { last_time: std::time::Instant::now(), delta: 100 };

    fish_shoal::LerpToTarget::system(&mut agents, &delta_time);

    assert_eq!(agents[0].velocity.0, Vec2::new(SCALE, 50));
    assert_eq!(agents[0].speed.0, Scalar::new(50_000));
}

#[test]
fn smoothing_interpolates_and_renormalizes() {
    let mut agents: Vec<Agent> = vec![resting_agent(5 * SCALE, 5 * SCALE)];
    agents[0].velocity = Velocity(Vec2::new(SCALE, 0));
    agents[0].target_velocity = TargetVelocity(Vec2::new(0, SCALE));
    agents[0].speed = Speed(Scalar::new(50 * SCALE));
    agents[0].target_speed = TargetSpeed(Scalar::new(80 * SCALE));
    agents[0].stress = Stress::new(SCALE);
    let delta_time = DeltaTime { last_time: std::time::Instant::now(), delta: 100 };

    fish_shoal::LerpToTarget::system(&mut agents, &delta_time);

    // factor = 1.0 * 0.1 s * 5 = 0.5: halfway to the target, renormalized.
    assert_eq!(agents[0].velocity.0, Vec2::new(707, 707));
    assert_eq!(agents[0].speed.0, Scalar::new(65 * SCALE));
}

#[test]
fn error_messages_name_the_phase() {
    assert_eq!(
        Error::Create(String::from("boom")).message(),
        "Fish Shoal Simulator failed to create: boom"
    );
    assert_eq!(
        Error::Run(String::from("boom")).message(),
        "Fish Shoal Simulator failed to run: boom"
    );
    assert_eq!(
        Error::Config(String::from("boom")).message(),
        "Fish Shoal Simulator failed to config: boom"
    );
}

#[test]
fn density_color_endpoints() {
    assert_eq!(fish_shoal::Utils::density_to_color(0), (0, 0, 255));
    assert_eq!(fish_shoal::Utils::density_to_color(3), (127, 255, 127));
    assert_eq!(fish_shoal::Utils::density_to_color(6), (255, 0, 0));
    assert_eq!(fish_shoal::Utils::density_to_color(12), (255, 0, 0));
}
