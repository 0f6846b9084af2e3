use sky_ecs_comparison::common::components::Cooldown;
use sky_ecs_comparison::common::components::Lifetime;
use sky_ecs_comparison::common::components::OwnerSlot;
use sky_ecs_comparison::common::components::TargetSlot;
use sky_ecs_comparison::common::gameplay::gameplay_ai_lookup_checksum;
use sky_ecs_comparison::common::gameplay::gameplay_ai_target_slot;
use sky_ecs_comparison::common::gameplay::gameplay_ai_trace_checksum;
use sky_ecs_comparison::common::gameplay::gameplay_canonical_digest;
use sky_ecs_comparison::common::gameplay::gameplay_component_mask;
use sky_ecs_comparison::common::gameplay::gameplay_contract_checkpoints;
use sky_ecs_comparison::common::gameplay::gameplay_entity_layout;
use sky_ecs_comparison::common::gameplay::gameplay_mix_checksum;
use sky_ecs_comparison::common::gameplay::gameplay_position_bits;
use sky_ecs_comparison::common::gameplay::gameplay_slot_spec;
use sky_ecs_comparison::common::gameplay::GameplayKind;
use sky_ecs_comparison::common::gameplay::GameplayTrace;
use sky_ecs_comparison::common::gameplay::GameplayValueChecksums;
use sky_ecs_comparison::common::gameplay::GAMEPLAY_AI_LOOKUPS_PER_FRAME;
use sky_ecs_comparison::common::gameplay::GAMEPLAY_AI_START;
use sky_ecs_comparison::common::gameplay::GAMEPLAY_COMBAT_START;
use sky_ecs_comparison::common::gameplay::GAMEPLAY_EFFECT_COUNT;
use sky_ecs_comparison::common::gameplay::GAMEPLAY_EFFECT_START;
use sky_ecs_comparison::common::gameplay::GAMEPLAY_ENTITY_COUNT;
use sky_ecs_comparison::common::gameplay::GAMEPLAY_FRAME_COUNT;
use sky_ecs_comparison::common::gameplay::GAMEPLAY_HEALTH_COUNT;
use sky_ecs_comparison::common::gameplay::GAMEPLAY_LIFETIME_COUNT;
use sky_ecs_comparison::common::gameplay::GAMEPLAY_MASK_COOLDOWN;
use sky_ecs_comparison::common::gameplay::GAMEPLAY_MASK_HEALTH;
use sky_ecs_comparison::common::gameplay::GAMEPLAY_MASK_POSITION;
use sky_ecs_comparison::common::gameplay::GAMEPLAY_MASK_STUNNED;
use sky_ecs_comparison::common::gameplay::GAMEPLAY_MASK_TAG_A;
use sky_ecs_comparison::common::gameplay::GAMEPLAY_MASK_TAG_B;
use sky_ecs_comparison::common::gameplay::GAMEPLAY_MASK_TARGET;
use sky_ecs_comparison::common::gameplay::GAMEPLAY_MASK_VELOCITY;
use sky_ecs_comparison::common::gameplay::GAMEPLAY_MOVING_COUNT;
use sky_ecs_comparison::common::gameplay::GAMEPLAY_PROJECTILE_LIFETIME_FRAMES;
use sky_ecs_comparison::common::gameplay::GAMEPLAY_PROJECTILE_RECYCLES_PER_FRAME;
use sky_ecs_comparison::common::gameplay::GAMEPLAY_PROJECTILE_START;
use sky_ecs_comparison::common::gameplay::GAMEPLAY_STATIC_START;
use sky_ecs_comparison::common::gameplay::GAMEPLAY_STATUS_CHANGES_PER_FRAME;
use sky_ecs_comparison::common::gameplay::GAMEPLAY_STATUS_DURATION_FRAMES;
use sky_ecs_comparison::common::gameplay::GAMEPLAY_STUNNED_COUNT;
use sky_ecs_comparison::common::gameplay_phase::GameplayPhase;

#[test]
fn gameplay_layout_matches_published_contract() {
    assert_eq!(
        GAMEPLAY_EFFECT_START + GAMEPLAY_EFFECT_COUNT,
        GAMEPLAY_ENTITY_COUNT
    );
    assert_eq!(GAMEPLAY_MOVING_COUNT, 53_248);
    assert_eq!(GAMEPLAY_HEALTH_COUNT, 24_576);
    assert_eq!(GAMEPLAY_LIFETIME_COUNT, 12_288);

    let trace = GameplayTrace::standard();
    assert_eq!(trace.frames().len(), GAMEPLAY_FRAME_COUNT);
    assert_eq!(trace.initially_stunned().len(), GAMEPLAY_STUNNED_COUNT);
    for frame in trace.frames() {
        assert_eq!(frame.ai_slots.len(), GAMEPLAY_AI_LOOKUPS_PER_FRAME);
        assert_eq!(
            frame.remove_stunned.len(),
            GAMEPLAY_STATUS_CHANGES_PER_FRAME
        );
        assert_eq!(frame.add_stunned.len(), GAMEPLAY_STATUS_CHANGES_PER_FRAME);
        assert_eq!(
            frame.recycle_projectiles.len(),
            GAMEPLAY_PROJECTILE_RECYCLES_PER_FRAME
        );
    }
}

#[test]
fn structural_cohorts_have_real_lifetimes() {
    let trace = GameplayTrace::standard();
    for frame in trace.frames() {
        assert!(frame
            .add_stunned
            .iter()
            .all(|slot| !frame.remove_stunned.contains(slot)));
    }
    assert_eq!(
        trace.frames()[0].add_stunned,
        trace.frames()[GAMEPLAY_STATUS_DURATION_FRAMES].remove_stunned
    );
    assert_eq!(
        trace.frames()[0].recycle_projectiles,
        trace.frames()[GAMEPLAY_PROJECTILE_LIFETIME_FRAMES].recycle_projectiles
    );
}

#[test]
fn standard_trace_never_removes_an_absent_stun() {
    let trace = GameplayTrace::standard();
    let mut stunned = vec![false; GAMEPLAY_ENTITY_COUNT];
    for &slot in trace.initially_stunned() {
        assert!(!stunned[slot]);
        stunned[slot] = true;
    }
    for frame in trace.frames() {
        assert_eq!(frame.index, frame.index % GAMEPLAY_FRAME_COUNT);
        for &slot in &frame.remove_stunned {
            assert!(stunned[slot]);
            stunned[slot] = false;
        }
        for &slot in &frame.add_stunned {
            assert!(!stunned[slot]);
            stunned[slot] = true;
        }
        assert_eq!(
            stunned.iter().filter(|flag| **flag).count(),
            GAMEPLAY_STUNNED_COUNT
        );
    }
}

#[test]
fn frames_act_on_the_right_populations() {
    let trace = GameplayTrace::standard();
    for (index, frame) in trace.frames().iter().enumerate() {
        assert_eq!(frame.index, index);
        for &slot in &frame.ai_slots {
            assert_eq!(gameplay_slot_spec(slot).kind, GameplayKind::Ai);
        }
        for &slot in frame.add_stunned.iter().chain(&frame.remove_stunned) {
            assert!((GAMEPLAY_COMBAT_START..GAMEPLAY_AI_START).contains(&slot));
        }
        for &slot in &frame.recycle_projectiles {
            assert_eq!(gameplay_slot_spec(slot).kind, GameplayKind::Projectile);
        }
    }
}

#[test]
fn slot_specs_follow_the_ranges() {
    assert_eq!(gameplay_slot_spec(0).kind, GameplayKind::Mover);
    assert_eq!(gameplay_slot_spec(GAMEPLAY_COMBAT_START).kind, GameplayKind::Enemy);
    assert_eq!(gameplay_slot_spec(GAMEPLAY_AI_START - 1).kind, GameplayKind::Ally);
    assert_eq!(gameplay_slot_spec(GAMEPLAY_AI_START).kind, GameplayKind::Ai);
    assert_eq!(
        gameplay_slot_spec(GAMEPLAY_PROJECTILE_START).kind,
        GameplayKind::Projectile
    );
    assert_eq!(gameplay_slot_spec(GAMEPLAY_STATIC_START).kind, GameplayKind::Static);
    assert_eq!(
        gameplay_slot_spec(GAMEPLAY_ENTITY_COUNT - 1).kind,
        GameplayKind::Effect
    );
    assert_eq!(gameplay_slot_spec(7).variant, 3);
    assert_eq!(gameplay_slot_spec(7).slot, 7);
}

#[test]
fn ai_targets_stay_below_the_projectiles() {
    for slot in GAMEPLAY_AI_START..GAMEPLAY_PROJECTILE_START {
        assert!(gameplay_ai_target_slot(slot) < GAMEPLAY_PROJECTILE_START);
    }
    assert_eq!(
        gameplay_ai_target_slot(GAMEPLAY_AI_START),
        GAMEPLAY_AI_START
            .wrapping_mul(1_103_515_245)
            .wrapping_add(12_345)
            % GAMEPLAY_PROJECTILE_START
    );
}

#[test]
fn entity_layouts_match_their_kinds() {
    let mover = gameplay_entity_layout(0, false);
    assert!(mover.velocity && !mover.health && mover.lifetime.is_none() && !mover.stunned);

    let enemy = gameplay_entity_layout(GAMEPLAY_COMBAT_START, true);
    assert!(enemy.velocity && enemy.health && enemy.damage && enemy.enemy && !enemy.ally);
    assert!(enemy.stunned);

    let ai = gameplay_entity_layout(GAMEPLAY_AI_START + 40, false);
    assert_eq!(
        ai.target,
        Some(TargetSlot(gameplay_ai_target_slot(GAMEPLAY_AI_START + 40) as u32))
    );
    assert_eq!(ai.cooldown, Some(Cooldown(8)));

    let projectile = gameplay_entity_layout(GAMEPLAY_PROJECTILE_START + 3, false);
    assert_eq!(projectile.lifetime, Some(Lifetime(64)));
    assert_eq!(
        projectile.owner,
        Some(OwnerSlot((GAMEPLAY_COMBAT_START + 3) as u32))
    );

    let effect = gameplay_entity_layout(GAMEPLAY_EFFECT_START, false);
    assert_eq!(effect.lifetime, Some(Lifetime(256)));
    assert!(!effect.velocity);
}

#[test]
fn population_counts_follow_from_the_layouts() {
    let mut moving = 0;
    let mut health = 0;
    let mut lifetime = 0;
    for slot in 0..GAMEPLAY_ENTITY_COUNT {
        let layout = gameplay_entity_layout(slot, false);
        moving += usize::from(layout.velocity);
        health += usize::from(layout.health);
        lifetime += usize::from(layout.lifetime.is_some());
    }
    assert_eq!(moving, GAMEPLAY_MOVING_COUNT);
    assert_eq!(health, GAMEPLAY_HEALTH_COUNT);
    assert_eq!(lifetime, GAMEPLAY_LIFETIME_COUNT);
}

#[test]
fn component_masks_record_components_and_tags() {
    let ai_slot = GAMEPLAY_AI_START + 3;
    let layout = gameplay_entity_layout(ai_slot, true);
    let mask = gameplay_component_mask(&layout, ai_slot);
    assert_eq!(
        mask,
        GAMEPLAY_MASK_POSITION
            | GAMEPLAY_MASK_VELOCITY
            | GAMEPLAY_MASK_HEALTH
            | GAMEPLAY_MASK_TARGET
            | GAMEPLAY_MASK_COOLDOWN
            | GAMEPLAY_MASK_STUNNED
            | GAMEPLAY_MASK_TAG_A
            | GAMEPLAY_MASK_TAG_B
    );
    let static_layout = gameplay_entity_layout(GAMEPLAY_STATIC_START, false);
    assert_eq!(
        gameplay_component_mask(&static_layout, GAMEPLAY_STATIC_START),
        GAMEPLAY_MASK_POSITION
    );
    assert_eq!(
        gameplay_component_mask(&static_layout, GAMEPLAY_STATIC_START + 2),
        GAMEPLAY_MASK_POSITION | GAMEPLAY_MASK_TAG_B
    );
}

#[test]
fn mix_checksum_matches_its_formula() {
    let expected = 5u64
        .rotate_left(7)
        .wrapping_add(3u64.wrapping_mul(0x9e37_79b9_7f4a_7c15))
        ^ 11u64.wrapping_mul(0xbf58_476d_1ce4_e5b9);
    assert_eq!(gameplay_mix_checksum(5, 3, 11), expected);
    assert_eq!(gameplay_mix_checksum(0, 0, 0), 0);
    assert_ne!(gameplay_mix_checksum(0, 1, 0), gameplay_mix_checksum(0, 0, 1));
}

#[test]
fn trace_and_lookup_checksums_chain_mixes() {
    let step = gameplay_mix_checksum(gameplay_mix_checksum(gameplay_mix_checksum(9, 2, 40), 40, 7), 7, 3);
    assert_eq!(gameplay_ai_trace_checksum(9, 2, 40, 7, 3), step);

    let bits = gameplay_position_bits(1, 2, 3);
    assert_eq!(bits, 1u64 ^ 2u64.rotate_left(21) ^ 3u64.rotate_left(42));
    let lookup = gameplay_mix_checksum(gameplay_mix_checksum(4, 10, 20), 20, bits);
    assert_eq!(gameplay_ai_lookup_checksum(4, 10, 20, 1, 2, 3), lookup);
}

#[test]
fn value_checksums_fold_each_component() {
    let mut checksums = GameplayValueChecksums::default();
    assert_eq!(
        (checksums.velocity, checksums.damage, checksums.regen, checksums.cooldown),
        (0, 0, 0, 0)
    );
    checksums.observe(3, Some((1, 2, 4)), None, Some(9), Some(&Cooldown(5)));
    assert_eq!(
        checksums.velocity,
        gameplay_mix_checksum(0, 3, 1 ^ (2 << 1) ^ (4 << 2))
    );
    assert_eq!(checksums.damage, 0);
    assert_eq!(checksums.regen, gameplay_mix_checksum(0, 3, 9));
    assert_eq!(checksums.cooldown, gameplay_mix_checksum(0, 3, 5));

    let before = checksums.velocity;
    checksums.observe_damage(4, 1.0f32.to_bits());
    assert_eq!(checksums.velocity, before);
    assert_eq!(
        checksums.damage,
        gameplay_mix_checksum(0, 4, u64::from(1.0f32.to_bits()))
    );
}

#[test]
fn canonical_digest_reports_the_published_counts() {
    let digest = gameplay_canonical_digest();
    assert_eq!(digest.actual_entity_count, GAMEPLAY_ENTITY_COUNT);
    assert_eq!(digest.unique_mapped_entity_count, GAMEPLAY_ENTITY_COUNT);
    assert_eq!(digest.moving_count, GAMEPLAY_MOVING_COUNT);
    assert_eq!(digest.health_count, GAMEPLAY_HEALTH_COUNT);
    assert_eq!(digest.lifetime_count, GAMEPLAY_LIFETIME_COUNT);
    assert_eq!(digest.stunned_count, GAMEPLAY_STUNNED_COUNT);
    assert_eq!(digest.ai_lookup_checksum, 6_326_298_520_588_265_962);
}

#[test]
fn checkpoints_and_phases_are_listed_in_order() {
    assert_eq!(
        gameplay_contract_checkpoints(),
        [0, 1, 7, 8, 15, 16, 63, 64, 127, 255]
    );
    let names: Vec<_> = GameplayPhase::all().iter().map(|phase| phase.name()).collect();
    assert_eq!(names.len(), 5);
    let mut unique = names.clone();
    unique.sort_unstable();
    unique.dedup();
    assert_eq!(unique.len(), names.len());
}

#[test]
fn mix_checksum_examples_and_injectivity() {
    assert_eq!(gameplay_mix_checksum(0, 1, 0), 0x9e37_79b9_7f4a_7c15);
    assert_eq!(gameplay_mix_checksum(0, 0, 1), 0xbf58_476d_1ce4_e5b9);
    assert_eq!(gameplay_mix_checksum(1, 0, 0), 128);
    let base = gameplay_mix_checksum(77, 5, 1000);
    for value in 0..64u64 {
        if value != 1000 {
            assert_ne!(gameplay_mix_checksum(77, 5, value), base);
        }
    }
    for checksum in 0..64u64 {
        if checksum != 77 {
            assert_ne!(gameplay_mix_checksum(checksum, 5, 1000), base);
        }
    }
}
