use indecision::fixed::ExtTime;
use indecision::fixed::SCALE;
use indecision::particle::MonoLigand;
use indecision::simulation::SimulationSingle;

fn unit_mono() -> MonoLigand {
    MonoLigand {
        receptor_density: SCALE,
        binding_strength: SCALE,
        on_rate: SCALE,
        off_rate: SCALE,
    }
}

#[test]
fn state_at_time() {
    let particle = unit_mono();

    let mut sim = SimulationSingle::new(particle).unwrap();
    sim.advance_until(SCALE).unwrap();
    sim.state_at_time(0).unwrap();
}

#[test]
fn initial_history_entry() {
    let sim = SimulationSingle::new(unit_mono()).unwrap();
    assert_eq!(sim.transition_history.len(), 1);
    assert_eq!(sim.transition_history[0].time, 0);
    assert!(!sim.transition_history[0].target.is_attached);
    assert_eq!(sim.time(), 0);
}

#[test]
fn monotone_clock() {
    let mut sim = SimulationSingle::new(unit_mono()).unwrap();
    sim.advance_until(10 * SCALE).unwrap();
    assert_eq!(sim.time(), 10 * SCALE);

    // Asking for an earlier time does not move the clock back.
    sim.advance_until(5 * SCALE).unwrap();
    assert_eq!(sim.time(), 10 * SCALE);

    sim.advance_until(20 * SCALE).unwrap();
    assert_eq!(sim.time(), 20 * SCALE);
}

#[test]
fn history_strictly_increasing() {
    let mut sim = SimulationSingle::new(unit_mono()).unwrap();
    sim.advance_until(50 * SCALE).unwrap();
    let h = &sim.transition_history;
    assert!(h.len() >= 1);
    assert_eq!(h[0].time, 0);
    for i in 0..h.len() - 1 {
        assert!(h[i].time < h[i + 1].time);
    }
}

#[test]
fn history_within_schedule() {
    let mut sim = SimulationSingle::new(unit_mono()).unwrap();
    sim.advance_until(50 * SCALE).unwrap();
    let last = sim.transition_history.last().unwrap();
    assert!(last.time <= sim.time());
    match sim.next_transition.time {
        ExtTime::Finite(pt) => assert!(last.time <= pt && sim.time() < pt),
        ExtTime::Never => {}
    }
}

#[test]
fn round_trip_through_history() {
    let mut sim = SimulationSingle::new(unit_mono()).unwrap();
    sim.advance_until(50 * SCALE).unwrap();
    for tr in sim.transition_history.iter() {
        let looked_up = sim.state_at_time(tr.time).unwrap();
        assert_eq!(looked_up, tr.target);
    }
}

#[test]
fn out_of_window_lookup_is_none() {
    let sim = SimulationSingle::new(unit_mono()).unwrap();
    match sim.next_transition.time {
        ExtTime::Finite(pt) => {
            if pt < u64::MAX {
                assert!(sim.state_at_time(pt + 1).is_none());
            }
        }
        ExtTime::Never => {}
    }
}

#[test]
fn lookup_at_scheduled_time_is_in_window() {
    let sim = SimulationSingle::new(unit_mono()).unwrap();
    if let ExtTime::Finite(pt) = sim.next_transition.time {
        // The window is closed at the scheduled time: the state there is
        // still the last recorded one.
        assert_eq!(sim.state_at_time(pt), Some(sim.transition_history[0].target));
    }
}

#[test]
fn deterministic_from_seed() {
    let mut a = SimulationSingle::new_seeded(unit_mono(), 42).unwrap();
    let mut b = SimulationSingle::new_seeded(unit_mono(), 42).unwrap();
    a.advance_until(100 * SCALE).unwrap();
    b.advance_until(100 * SCALE).unwrap();
    assert_eq!(a.transition_history.len(), b.transition_history.len());
    for (x, y) in a.transition_history.iter().zip(b.transition_history.iter()) {
        assert_eq!(x.time, y.time);
        assert_eq!(x.target, y.target);
    }
}

#[test]
fn absorbing_state_stops_history() {
    // With no detachment the chain makes exactly one transition and then
    // sits in the attached state forever.
    let particle = MonoLigand {
        receptor_density: SCALE,
        binding_strength: SCALE,
        on_rate: SCALE,
        off_rate: 0,
    };
    let mut sim = SimulationSingle::new(particle).unwrap();
    sim.advance_until(100 * SCALE).unwrap();
    assert_eq!(sim.time(), 100 * SCALE);
    assert_eq!(sim.transition_history.len(), 2);
    assert!(sim.transition_history[1].target.is_attached);
    assert!(matches!(sim.next_transition.time, ExtTime::Never));
    assert!(sim.last_state().is_attached);

    let len_before = sim.transition_history.len();
    sim.advance_until(1000 * SCALE).unwrap();
    assert_eq!(sim.transition_history.len(), len_before);
}

#[test]
fn alternating_transitions_balance() {
    // A two-state chain strictly alternates, so over any window the two
    // transition directions differ by at most one.
    let mut sim = SimulationSingle::new(unit_mono()).unwrap();
    sim.advance_until(10_000 * SCALE).unwrap();
    let h = &sim.transition_history;
    let window = h.len().saturating_sub(100);
    let mut to_attached = 0i64;
    let mut to_detached = 0i64;
    for tr in h[window..].iter() {
        if tr.target.is_attached {
            to_attached += 1;
        } else {
            to_detached += 1;
        }
    }
    assert!((to_attached - to_detached).abs() <= 1);
}
