use indecision::fixed::SCALE;
use indecision::particle::event_probabilities;
use indecision::particle::ConstructionError;
use indecision::particle::Fatiguing;
use indecision::particle::Interfering;
use indecision::particle::MonoLigand;
use indecision::particle::MultiLigand;
use indecision::particle::Particle;
use indecision::particle::SimError;
use indecision::simulation::markov::MarkovChain;
use indecision::simulation::SimulationSingle;

fn unit_interfering() -> Interfering {
    Interfering {
        total_ligands: 5,
        attachment_rate: SCALE,
        deattachment_rate: SCALE,
        enter_rate: SCALE / 10,
        inital_collision_factor: SCALE,
        obstruction_factor: SCALE / 2,
        receptor_density: SCALE,
    }
}

#[test]
fn mono_ligand_toggle() {
    let detached = MonoLigand::default().new_state();
    assert!(!detached.is_attached);
    let attached = detached.toggle();
    assert!(attached.is_attached);
    assert!(!attached.toggle().is_attached);
}

#[test]
fn mono_ligand_binding_rate() {
    // With all parameters at one half, the binding rate is the fixed-point
    // product 1/8, and the unbinding rate is read off directly.
    let particle = MonoLigand {
        receptor_density: SCALE / 2,
        binding_strength: SCALE / 2,
        on_rate: SCALE / 2,
        off_rate: 3 * SCALE,
    };
    let detached = particle.new_state();
    let events = particle.events(&detached);
    assert_eq!(events.len(), 1);
    assert_eq!(events[0].rate, SCALE / 8);
    assert!(events[0].target.is_attached);

    let attached = detached.toggle();
    let events = particle.events(&attached);
    assert_eq!(events.len(), 1);
    assert_eq!(events[0].rate, 3 * SCALE);
    assert!(!events[0].target.is_attached);
}

#[test]
fn probabilities_sum_to_one() {
    let particle = unit_interfering();
    let mut state = particle.new_state();
    state = state.bind();
    state = state.bind();
    let probs = event_probabilities(&particle, &state);
    assert_eq!(probs.len(), 3);
    let den = probs[0].1.den;
    let num_sum: u128 = probs.iter().map(|(_, p)| p.num as u128).sum();
    assert_eq!(num_sum, den);
    for (_, p) in probs.iter() {
        assert_eq!(p.den, den);
    }
}

#[test]
fn probabilities_exact_for_single_event() {
    let particle = MonoLigand {
        receptor_density: SCALE / 2,
        binding_strength: SCALE,
        on_rate: 3 * SCALE,
        off_rate: SCALE,
    };
    let probs = event_probabilities(&particle, &particle.new_state());
    assert_eq!(probs.len(), 1);
    assert!(probs[0].0.is_attached);
    assert_eq!(probs[0].1.num, 3 * SCALE / 2);
    assert_eq!(probs[0].1.den, (3 * SCALE / 2) as u128);
}

#[test]
fn probabilities_of_terminal_state_are_empty() {
    let particle = unit_interfering();
    let entered = particle.new_state().bind().toggle_entered();
    assert!(entered.has_entered);
    let probs = event_probabilities(&particle, &entered);
    assert!(probs.is_empty());
}

#[test]
fn interfering_terminal_states_self_loop() {
    let particle = unit_interfering();
    let entered = particle.new_state().bind().toggle_entered();
    let events = particle.events(&entered);
    assert_eq!(events.len(), 1);
    assert_eq!(events[0].rate, 0);
    assert_eq!(events[0].target, entered);
}

#[test]
fn interfering_unbind_last_ligand_exits() {
    let one = unit_interfering().new_state().bind();
    assert_eq!(one.attached_ligands, 1);
    let exited = one.unbind();
    assert!(exited.has_exited);
    assert_eq!(exited.attached_ligands, 0);

    let two = one.bind();
    let back = two.unbind();
    assert!(!back.has_exited);
    assert_eq!(back.attached_ligands, 1);
}

#[test]
fn interfering_entry_rate_uses_obstruction() {
    // With two attached ligands the entry rate is
    // 2 * enter_rate * obstruction, exactly in fixed point.
    let particle = unit_interfering();
    let state = particle.new_state().bind().bind();
    let events = particle.events(&state);
    assert_eq!(events.len(), 3);
    let expected = {
        let base = 2 * (SCALE / 10) as u128;
        (base * (SCALE / 2) as u128 / SCALE as u128) as u64
    };
    assert_eq!(events[0].rate, expected);
    assert!(events[0].target.has_entered);
    // Unbinding: two ligands at unit rate each.
    assert_eq!(events[1].rate, 2 * SCALE);
    // Binding: three free ligands at unit rate and density.
    assert_eq!(events[2].rate, 3 * SCALE);
}

#[test]
fn fatiguing_unbind_feeds_fatigued_pool() {
    let particle = Fatiguing {
        total_ligands: 4,
        attachment_rate: SCALE,
        fatigued_attachment_rate: SCALE / 4,
        deattachment_rate: SCALE,
        enter_rate: SCALE,
        initial_collision_factor: SCALE,
        obstruction_factor: SCALE / 2,
        fatigued_obstruction_factor: SCALE / 2,
        receptor_density: SCALE,
    };
    let two = particle.new_state().bind_regular().bind_regular();
    let after = two.unbind();
    assert_eq!(after.attached_ligands, 1);
    assert_eq!(after.fatigued_ligands, 1);
    assert!(!after.has_exited);

    let rebound = after.bind_fatigued();
    assert_eq!(rebound.attached_ligands, 2);
    assert_eq!(rebound.fatigued_ligands, 0);

    // Losing the last attached ligand exits without fatiguing it.
    let exited = after.unbind();
    assert!(exited.has_exited);
    assert_eq!(exited.attached_ligands, 0);
    assert_eq!(exited.fatigued_ligands, 1);
}

#[test]
fn fatiguing_event_count() {
    let particle = Fatiguing {
        total_ligands: 4,
        attachment_rate: SCALE,
        fatigued_attachment_rate: SCALE / 4,
        deattachment_rate: SCALE,
        enter_rate: SCALE,
        initial_collision_factor: SCALE / 2,
        obstruction_factor: SCALE / 2,
        fatigued_obstruction_factor: SCALE / 2,
        receptor_density: SCALE,
    };
    let fresh = particle.new_state();
    // Only regular binding, scaled by the initial-collision factor.
    let events = particle.events(&fresh);
    assert_eq!(events.len(), 1);
    assert_eq!(events[0].rate, 4 * SCALE / 2);

    let with_fatigued = particle.new_state().bind_regular().bind_regular().unbind();
    let events = particle.events(&with_fatigued);
    // Entry, unbinding, regular binding and fatigued rebinding.
    assert_eq!(events.len(), 4);
}

#[test]
fn multi_ligand_construction_error() {
    let r = MultiLigand::new(
        SCALE,
        SCALE,
        vec![SCALE, SCALE, SCALE],
        vec![SCALE, SCALE],
    );
    assert_eq!(r.unwrap_err(), ConstructionError::MismatchedRateTables);
}

#[test]
fn multi_ligand_rates_follow_tables() {
    let particle = MultiLigand::new(
        SCALE / 2,
        SCALE,
        vec![2 * SCALE, 3 * SCALE],
        vec![5 * SCALE, 7 * SCALE],
    )
    .unwrap();
    assert_eq!(particle.total_ligands(), 2);

    let zero = particle.new_state();
    let events = particle.events(&zero);
    // Only binding, scaled by the receptor density at zero occupancy.
    assert_eq!(events.len(), 1);
    assert_eq!(events[0].rate, SCALE);

    let one = zero.bind();
    let events = particle.events(&one);
    assert_eq!(events.len(), 2);
    assert_eq!(events[0].rate, 3 * SCALE);
    assert_eq!(events[1].rate, 5 * SCALE);

    let two = one.bind();
    let events = particle.events(&two);
    assert_eq!(events.len(), 1);
    assert_eq!(events[0].rate, 7 * SCALE);
}

#[test]
fn multi_ligand_without_ligands_has_no_events() {
    let particle = MultiLigand::new(SCALE, SCALE, vec![], vec![]).unwrap();
    let r = SimulationSingle::new(particle);
    assert_eq!(r.err(), Some(SimError::NoEvents));
}

#[test]
fn markov_states_enumeration() {
    let mono_states = MonoLigand::default().states();
    assert_eq!(mono_states.len(), 2);
    assert!(mono_states[0].is_attached);
    assert!(!mono_states[1].is_attached);

    let multi = MultiLigand::new(SCALE, SCALE, vec![SCALE; 4], vec![SCALE; 4]).unwrap();
    let multi_states = multi.states();
    assert_eq!(multi_states.len(), 5);
    for (i, s) in multi_states.iter().enumerate() {
        assert_eq!(s.attached_ligands as usize, i);
        assert_eq!(s.total_ligands, 4);
    }

    let interfering_states = unit_interfering().states();
    assert_eq!(interfering_states.len(), 4 * 6);

    let fatiguing = Fatiguing {
        total_ligands: 3,
        ..Fatiguing::default()
    };
    // The occupancy pairs form a triangle: (3+1)(3+2)/2 cells of 4 states.
    assert_eq!(fatiguing.states().len(), 4 * 10);
}
