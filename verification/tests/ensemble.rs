use indecision::fixed::SCALE;
use indecision::particle::Fatiguing;
use indecision::particle::Interfering;
use indecision::particle::MonoLigand;
use indecision::simulation::Simulation;

fn unit_mono() -> MonoLigand {
    MonoLigand {
        receptor_density: SCALE,
        binding_strength: SCALE,
        on_rate: SCALE,
        off_rate: SCALE,
    }
}

#[test]
fn obstruction_factor_0_doesn_crash() {
    let particle = Fatiguing {
        total_ligands: 5,
        attachment_rate: SCALE,
        fatigued_attachment_rate: SCALE,
        deattachment_rate: SCALE,
        enter_rate: SCALE,
        initial_collision_factor: SCALE,
        obstruction_factor: 0,
        fatigued_obstruction_factor: 0,
        receptor_density: SCALE,
    };

    let mut sim = Simulation::new(particle, 1000).unwrap();
    sim.advance_until(1000 * SCALE).unwrap();
}

#[test]
fn synchronous_clock() {
    let mut sim = Simulation::new(unit_mono(), 50).unwrap();
    sim.advance_until(25 * SCALE).unwrap();
    let t0 = sim.simulations[0].time();
    for member in sim.simulations.iter() {
        assert_eq!(member.time(), t0);
    }
    assert_eq!(sim.time(), 25 * SCALE);
}

#[test]
fn parallel_advance_extends_members() {
    let mut sim = Simulation::new(unit_mono(), 20).unwrap();
    sim.advance_until(100 * SCALE).unwrap();
    assert_eq!(sim.time(), 100 * SCALE);
    for member in sim.simulations.iter() {
        // With both rates at one, transitions are frequent enough that
        // every member must have recorded some beyond its initial one.
        assert!(member.transition_history.len() > 1);
    }
}

#[test]
fn theta_within_bounds() {
    let mut sim = Simulation::new(unit_mono(), 100).unwrap();
    sim.advance_until(10 * SCALE).unwrap();
    let theta = sim.last_theta();
    assert_eq!(theta.total, 100);
    assert!(theta.attached <= theta.total);
    for theta in sim.thetas(20) {
        assert_eq!(theta.total, 100);
        assert!(theta.attached <= theta.total);
    }
}

#[test]
fn mono_ligand_stationary_theta() {
    // With equal binding and unbinding rates the stationary attachment
    // fraction is one half; the tail of the sampled thetas should sit
    // close to it.
    let mut sim = Simulation::new_seeded(unit_mono(), 2000, 2024).unwrap();
    sim.advance_until(50 * SCALE).unwrap();
    let thetas = sim.thetas(100);
    assert_eq!(thetas.len(), 100);
    let tail: Vec<f64> = thetas[50..]
        .iter()
        .map(|t| t.attached as f64 / t.total as f64)
        .collect();
    let mean = tail.iter().sum::<f64>() / tail.len() as f64;
    assert!((mean - 0.5).abs() < 0.05, "tail mean was {mean}");
}

#[test]
fn deterministic_ensemble_from_seed() {
    let mut a = Simulation::new_seeded(unit_mono(), 10, 7).unwrap();
    let mut b = Simulation::new_seeded(unit_mono(), 10, 7).unwrap();
    a.advance_until(50 * SCALE).unwrap();
    b.advance_until(50 * SCALE).unwrap();
    let ha = a.transition_histories();
    let hb = b.transition_histories();
    assert_eq!(ha.len(), hb.len());
    for (x, y) in ha.iter().zip(hb.iter()) {
        assert_eq!(x.len(), y.len());
        for (s, t) in x.iter().zip(y.iter()) {
            assert_eq!(s.time, t.time);
            assert_eq!(s.target, t.target);
        }
    }
}

#[test]
fn independent_members_diverge() {
    // Members draw from independent streams, so two members of one
    // ensemble almost surely record different histories.
    let mut sim = Simulation::new_seeded(unit_mono(), 2, 99).unwrap();
    sim.advance_until(100 * SCALE).unwrap();
    let histories = sim.transition_histories();
    let same_length = histories[0].len() == histories[1].len();
    let all_equal = same_length
        && histories[0]
            .iter()
            .zip(histories[1].iter())
            .all(|(a, b)| a.time == b.time);
    assert!(!all_equal);
}

#[test]
fn interfering_entry() {
    let particle = Interfering {
        total_ligands: 5,
        attachment_rate: SCALE,
        deattachment_rate: SCALE,
        enter_rate: SCALE / 10,
        inital_collision_factor: SCALE,
        obstruction_factor: SCALE / 2,
        receptor_density: SCALE,
    };
    let mut sim = Simulation::new_seeded(particle, 1000, 11).unwrap();
    sim.advance_until(1000 * SCALE).unwrap();
    for state in sim.last_states() {
        assert!(state.has_entered || state.has_exited);
        assert!(!(state.has_entered && state.has_exited));
    }
    let theta = sim.last_theta();
    let fraction = theta.attached as f64 / theta.total as f64;
    assert!((0.3..=0.9).contains(&fraction), "entered fraction was {fraction}");
}

#[test]
fn fatiguing_exit_invariant() {
    let particle = Fatiguing {
        total_ligands: 5,
        attachment_rate: SCALE,
        fatigued_attachment_rate: SCALE / 4,
        deattachment_rate: SCALE,
        enter_rate: SCALE / 10,
        initial_collision_factor: SCALE,
        obstruction_factor: 0,
        fatigued_obstruction_factor: 0,
        receptor_density: SCALE,
    };
    let mut sim = Simulation::new_seeded(particle, 1000, 12).unwrap();
    sim.advance_until(1000 * SCALE).unwrap();
    for states in sim.sample(10) {
        for state in states {
            assert!(!(state.has_entered && state.has_exited));
        }
    }
}

#[test]
fn sample_shape() {
    let mut sim = Simulation::new(unit_mono(), 30).unwrap();
    sim.advance_until(10 * SCALE).unwrap();
    let samples = sim.sample(8);
    assert_eq!(samples.len(), 8);
    for snapshot in samples.iter() {
        assert_eq!(snapshot.len(), 30);
    }
    let last = sim.last_states();
    assert_eq!(last.len(), 30);
}

#[test]
fn multiple_from_single() {
    let single = indecision::simulation::SimulationSingle::new(unit_mono()).unwrap();
    let sim = single.multiple(5).unwrap();
    assert_eq!(sim.simulations.len(), 5);
}
