use sky_ecs_comparison::common::components::Lifetime;
use sky_ecs_comparison::common::gameplay::gameplay_canonical_digest;
use sky_ecs_comparison::common::gameplay::gameplay_entity_layout;
use sky_ecs_comparison::common::gameplay::GameplayFrame;
use sky_ecs_comparison::common::gameplay::GameplayTrace;
use sky_ecs_comparison::common::gameplay::GAMEPLAY_AI_START;
use sky_ecs_comparison::common::gameplay::GAMEPLAY_COMBAT_START;
use sky_ecs_comparison::common::gameplay::GAMEPLAY_EFFECT_START;
use sky_ecs_comparison::common::gameplay::GAMEPLAY_ENTITY_COUNT;
use sky_ecs_comparison::common::gameplay::GAMEPLAY_HEALTH_COUNT;
use sky_ecs_comparison::common::gameplay::GAMEPLAY_LIFETIME_COUNT;
use sky_ecs_comparison::common::gameplay::GAMEPLAY_MOVING_COUNT;
use sky_ecs_comparison::common::gameplay::GAMEPLAY_PROJECTILE_START;
use sky_ecs_comparison::common::gameplay::GAMEPLAY_STUNNED_COUNT;
use sky_ecs_comparison::common::gameplay_state::slot_state;
use sky_ecs_comparison::common::gameplay_state::slot_state_mask;
use sky_ecs_comparison::common::gameplay_state::GameplayState;

fn run_frame(state: &mut GameplayState, frame: &GameplayFrame) -> Vec<usize> {
    state.run_lifetime_phase();
    let targets = state.run_ai_source_phase(frame);
    assert!(state.status_transition_applies(frame));
    state.run_status_transition_phase(frame);
    state.run_projectile_recycle_phase(frame);
    targets
}

#[test]
fn state_model_reproduces_the_canonical_integer_checksums() {
    let trace = GameplayTrace::standard();
    let mut state = GameplayState::new(trace.initially_stunned());
    for frame in trace.frames() {
        let targets = run_frame(&mut state, frame);
        assert_eq!(targets.len(), frame.ai_slots.len());
        let digest = state.digest();
        assert_eq!(digest.moving_count, GAMEPLAY_MOVING_COUNT);
        assert_eq!(digest.health_count, GAMEPLAY_HEALTH_COUNT);
        assert_eq!(digest.lifetime_count, GAMEPLAY_LIFETIME_COUNT);
        assert_eq!(digest.stunned_count, GAMEPLAY_STUNNED_COUNT);
    }
    let digest = state.digest();
    let canonical = gameplay_canonical_digest();
    assert_eq!(digest.component_mask_checksum, canonical.component_mask_checksum);
    assert_eq!(digest.cooldown_checksum, canonical.cooldown_checksum);
    assert_eq!(digest.lifetime_checksum, canonical.lifetime_checksum);
    assert_eq!(digest.target_slot_checksum, canonical.target_slot_checksum);
    assert_eq!(digest.owner_slot_checksum, canonical.owner_slot_checksum);
    assert_eq!(digest.generation_checksum, canonical.generation_checksum);
    assert_eq!(state.cooldown_trace_checksum(), canonical.cooldown_trace_checksum);
}

#[test]
fn a_fresh_state_holds_the_initial_stun() {
    let trace = GameplayTrace::standard();
    let state = GameplayState::new(trace.initially_stunned());
    assert_eq!(state.len(), GAMEPLAY_ENTITY_COUNT);
    assert_eq!(state.digest().stunned_count, GAMEPLAY_STUNNED_COUNT);
    for &slot in trace.initially_stunned() {
        assert!(state.slot(slot).layout.stunned);
    }
    assert!(!state.slot(0).layout.stunned);
    assert_eq!(state.cooldown_trace_checksum(), 0);
}

#[test]
fn refused_status_transitions_are_reported() {
    let trace = GameplayTrace::standard();
    let state = GameplayState::new(trace.initially_stunned());
    let frame = &trace.frames()[0];
    assert!(state.status_transition_applies(frame));
    let mut reversed = frame.clone();
    std::mem::swap(&mut reversed.add_stunned, &mut reversed.remove_stunned);
    assert!(!state.status_transition_applies(&reversed));
    let mut twice = frame.clone();
    twice.add_stunned.push(twice.add_stunned[0]);
    assert!(!state.status_transition_applies(&twice));
    let mut outside = frame.clone();
    outside.remove_stunned.push(GAMEPLAY_ENTITY_COUNT);
    assert!(!state.status_transition_applies(&outside));
}

#[test]
fn lifetimes_count_down_and_effects_restart() {
    let mut state = GameplayState::new(&[]);
    for _ in 0..64 {
        state.run_lifetime_phase();
    }
    assert_eq!(
        state.slot(GAMEPLAY_PROJECTILE_START).layout.lifetime,
        Some(Lifetime(0))
    );
    assert_eq!(state.slot(GAMEPLAY_EFFECT_START).layout.lifetime, Some(Lifetime(192)));
    state.run_lifetime_phase();
    assert_eq!(
        state.slot(GAMEPLAY_PROJECTILE_START).layout.lifetime,
        Some(Lifetime(0))
    );
    for _ in 0..191 {
        state.run_lifetime_phase();
    }
    assert_eq!(state.slot(GAMEPLAY_EFFECT_START).layout.lifetime, Some(Lifetime(256)));
}

#[test]
fn recycling_starts_a_new_generation() {
    let trace = GameplayTrace::standard();
    let mut state = GameplayState::new(trace.initially_stunned());
    let frame = &trace.frames()[0];
    state.run_lifetime_phase();
    state.run_projectile_recycle_phase(frame);
    let slot = frame.recycle_projectiles[0];
    assert_eq!(state.slot(slot), slot_state(slot, 1, false));
    assert_eq!(state.slot(slot).layout, gameplay_entity_layout(slot, false));
    let untouched = slot + 1;
    assert_eq!(state.slot(untouched).generation, 0);
}

#[test]
fn ai_sources_record_targets_and_cool_down() {
    let trace = GameplayTrace::standard();
    let mut state = GameplayState::new(trace.initially_stunned());
    let frame = &trace.frames()[0];
    let first = frame.ai_slots[0];
    let before = state.slot(first).layout.cooldown.unwrap().0;
    let targets = state.run_ai_source_phase(frame);
    assert_eq!(
        Some(targets[0] as u32),
        state.slot(first).layout.target.map(|target| target.0)
    );
    assert_eq!(
        state.slot(first).layout.cooldown.unwrap().0,
        before.saturating_sub(1)
    );
    assert_ne!(state.cooldown_trace_checksum(), 0);
}

#[test]
fn state_masks_carry_the_tags() {
    let plain = slot_state(GAMEPLAY_COMBAT_START, 0, false);
    let tagged = slot_state(GAMEPLAY_COMBAT_START + 3, 0, false);
    assert_eq!(slot_state_mask(&tagged) & !slot_state_mask(&plain), (1 << 12) | (1 << 13));
    let ai = slot_state(GAMEPLAY_AI_START, 7, true);
    assert_eq!(ai.generation, 7);
    assert!(ai.layout.stunned);
}

#[test]
fn tags_split_the_layouts_into_at_least_32_archetypes() {
    let mut masks = std::collections::BTreeSet::new();
    for slot in 0..GAMEPLAY_ENTITY_COUNT {
        masks.insert(slot_state_mask(&slot_state(slot, 0, false)));
    }
    let trace = GameplayTrace::standard();
    for &slot in trace.initially_stunned() {
        masks.insert(slot_state_mask(&slot_state(slot, 0, true)));
    }
    assert!(masks.len() >= 32);
}

#[test]
fn phase_checks_accept_the_standard_trace_and_refuse_bad_frames() {
    let trace = GameplayTrace::standard();
    assert!(GameplayState::stun_list_fits(trace.initially_stunned()));
    assert!(!GameplayState::stun_list_fits(&[GAMEPLAY_ENTITY_COUNT]));
    let state = GameplayState::new(trace.initially_stunned());
    let frame = &trace.frames()[0];
    assert!(state.ai_source_phase_applies(frame));
    assert!(state.projectile_recycle_phase_applies(frame));
    let mut bad = frame.clone();
    bad.ai_slots = vec![0];
    assert!(!state.ai_source_phase_applies(&bad));
    bad.ai_slots = vec![GAMEPLAY_ENTITY_COUNT];
    assert!(!state.ai_source_phase_applies(&bad));
    bad.recycle_projectiles = vec![GAMEPLAY_ENTITY_COUNT];
    assert!(!state.projectile_recycle_phase_applies(&bad));
}

#[test]
fn the_standard_trace_runner_matches_a_phase_by_phase_run() {
    let trace = GameplayTrace::standard();
    let mut state = GameplayState::new(trace.initially_stunned());
    for frame in trace.frames() {
        run_frame(&mut state, frame);
    }
    let expected = state.digest();
    let after = GameplayState::after_standard_trace();
    let digest = after.digest();
    assert_eq!(digest, expected);
    assert_eq!(after.cooldown_trace_checksum(), state.cooldown_trace_checksum());
    assert_eq!(digest.stunned_count, GAMEPLAY_STUNNED_COUNT);
    let canonical = gameplay_canonical_digest();
    assert_eq!(digest.generation_checksum, canonical.generation_checksum);
    assert_eq!(after.cooldown_trace_checksum(), canonical.cooldown_trace_checksum);
}
