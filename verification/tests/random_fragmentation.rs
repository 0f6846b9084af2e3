use std::collections::BTreeSet;

use sky_ecs_comparison::common::random_fragment_component_counts;
use sky_ecs_comparison::common::random_fragment_workloads;
use sky_ecs_comparison::common::random_fragmentation::add_full_position_checksum;
use sky_ecs_comparison::common::random_fragmentation::component_change_orders;
use sky_ecs_comparison::common::random_fragmentation::count_masks_containing;
use sky_ecs_comparison::common::random_fragmentation::deterministic_orders;
use sky_ecs_comparison::common::random_fragmentation::deterministic_shuffle;
use sky_ecs_comparison::common::random_fragmentation::deterministic_shuffle_with_seed;
use sky_ecs_comparison::common::random_fragmentation::entity_deletion_order;
use sky_ecs_comparison::common::random_fragmentation::entity_order_with_seed;
use sky_ecs_comparison::common::random_fragmentation::expected_random_fragment_checksum;
use sky_ecs_comparison::common::random_fragmentation::generational_entity_key;
use sky_ecs_comparison::common::random_fragmentation::random_fragment_masks;
use sky_ecs_comparison::common::random_fragmentation::random_fragment_masks_for;
use sky_ecs_comparison::common::random_fragmentation::random_fragment_match_count;
use sky_ecs_comparison::common::random_fragmentation::random_fragment_transition_shapes;
use sky_ecs_comparison::common::random_fragmentation::sample_entities;
use sky_ecs_comparison::common::random_fragmentation::COMPONENT_ADD_SEED;
use sky_ecs_comparison::common::random_fragmentation::DEFAULT_SHUFFLE_SEED;
use sky_ecs_comparison::common::RANDOM_FRAGMENT_ENTITY_COUNT;
use sky_ecs_comparison::common::RANDOM_ORDER_COUNT;

#[test]
fn random_fragmentation_random_fragment_workload_is_stable() {
    let masks = random_fragment_masks(16);
    assert_eq!(masks.len(), RANDOM_FRAGMENT_ENTITY_COUNT);
    assert_eq!(random_fragment_match_count(&masks, 4), 4_103);
    for (component_count, term_count) in random_fragment_workloads() {
        let inactive_mask = if component_count == 16 {
            0
        } else {
            u16::MAX << component_count
        };
        let masks = random_fragment_masks(component_count);
        assert!(masks.iter().all(|mask| *mask & inactive_mask == 0));
        assert!(random_fragment_match_count(&masks, term_count) > 0);
    }
}

#[test]
fn transition_shapes_include_ordered_prefixes() {
    let shapes = random_fragment_transition_shapes(&[0b1010, 0b0111], 4);
    assert_eq!(
        shapes,
        BTreeSet::from([0b0000, 0b0010, 0b0001, 0b0011, 0b0111, 0b1010])
    );
}

#[test]
fn entity_deletion_order_is_a_stable_permutation() {
    let order = entity_deletion_order(1_000);
    assert_ne!(order, (0..1_000).collect::<Vec<_>>());

    let mut sorted = order;
    sorted.sort_unstable();
    assert_eq!(sorted, (0..1_000).collect::<Vec<_>>());
}

#[test]
fn component_change_orders_are_distinct_permutations() {
    let (add_order, remove_order) = component_change_orders(1_000);
    assert_ne!(add_order, remove_order);

    for mut order in [add_order, remove_order] {
        order.sort_unstable();
        assert_eq!(order, (0..1_000).collect::<Vec<_>>());
    }
}

#[test]
fn shuffling_permutes_and_repeats() {
    let mut first: Vec<u32> = (0..64).collect();
    let mut second = first.clone();
    deterministic_shuffle(&mut first);
    deterministic_shuffle_with_seed(&mut second, DEFAULT_SHUFFLE_SEED);
    assert_eq!(first, second);
    assert_ne!(first, (0..64).collect::<Vec<_>>());
    let mut sorted = first.clone();
    sorted.sort_unstable();
    assert_eq!(sorted, (0..64).collect::<Vec<_>>());

    let mut other_seed: Vec<u32> = (0..64).collect();
    deterministic_shuffle_with_seed(&mut other_seed, 1);
    assert_ne!(other_seed, first);
}

#[test]
fn shuffling_short_slices_keeps_them() {
    let mut empty: Vec<u8> = Vec::new();
    deterministic_shuffle(&mut empty);
    assert!(empty.is_empty());
    let mut single = vec![7u8];
    deterministic_shuffle(&mut single);
    assert_eq!(single, vec![7]);
}

#[test]
fn deterministic_orders_are_distinct_shuffles() {
    let entities: Vec<usize> = (0..100).collect();
    let orders = deterministic_orders(&entities);
    assert_eq!(orders.len(), RANDOM_ORDER_COUNT);
    for (index, order) in orders.iter().enumerate() {
        let mut sorted = order.clone();
        sorted.sort_unstable();
        assert_eq!(sorted, entities);
        for other in &orders[index + 1..] {
            assert_ne!(order, other);
        }
    }
}

#[test]
fn seeded_entity_orders_match_shuffles() {
    let order = entity_order_with_seed(50, COMPONENT_ADD_SEED);
    let mut expected: Vec<usize> = (0..50).collect();
    deterministic_shuffle_with_seed(&mut expected, COMPONENT_ADD_SEED);
    assert_eq!(order, expected);
    assert_eq!(component_change_orders(50).0, expected);
}

#[test]
fn sampled_entities_are_evenly_spaced_before_shuffling() {
    let entities: Vec<usize> = (0..100).collect();
    let mut sample = sample_entities(&entities, 10);
    sample.sort_unstable();
    assert_eq!(sample, (0..10).map(|index| index * 10).collect::<Vec<_>>());
    assert_eq!(sample_entities(&entities, 1), vec![0]);
}

#[test]
fn generational_keys_put_the_generation_above_the_index() {
    assert_eq!(generational_entity_key(5, 0), 5);
    assert_eq!(generational_entity_key(5, 3), (3u64 << 32) | 5);
    assert_eq!(generational_entity_key(u32::MAX, u32::MAX), u64::MAX);
}

#[test]
fn masks_for_other_populations_share_the_stream() {
    let small = random_fragment_masks_for(16, 128);
    let full = random_fragment_masks(16);
    assert_eq!(small.len(), 128);
    assert_eq!(&full[..128], &small[..]);
    assert!(random_fragment_masks_for(1, 32).iter().all(|mask| *mask <= 1));
    assert!(random_fragment_masks_for(3, 0).is_empty());
}

#[test]
fn match_counts_follow_the_query_width() {
    let masks = [0b1111_1111u16, 0b0000_1111, 0b0000_0001, 0b0000_0000, 0b1111_0000];
    assert_eq!(random_fragment_match_count(&masks, 1), 3);
    assert_eq!(random_fragment_match_count(&masks, 4), 2);
    assert_eq!(random_fragment_match_count(&masks, 8), 1);
    assert_eq!(count_masks_containing(&masks, 0b1_0000), 2);
    assert_eq!(count_masks_containing(&masks, 0), masks.len());
}

#[test]
fn wider_queries_match_no_more_entities() {
    for component_count in random_fragment_component_counts() {
        let masks = random_fragment_masks(component_count);
        let one = random_fragment_match_count(&masks, 1);
        let four = random_fragment_match_count(&masks, 4);
        let eight = random_fragment_match_count(&masks, 8);
        assert!(eight <= four && four <= one);
    }
}

#[test]
fn checksum_covers_only_matched_entities() {
    let keys = [1u64, 2, 3];
    let masks = [0b1111u16, 0b0111, 0b1111];
    let with_all = expected_random_fragment_checksum(&keys, &masks, 4);
    let unmatched_changed =
        expected_random_fragment_checksum(&[1, 99, 3], &masks, 4);
    assert_eq!(with_all, unmatched_changed);
    let matched_changed = expected_random_fragment_checksum(&[1, 2, 4], &masks, 4);
    assert_ne!(with_all, matched_changed);
    assert_eq!(expected_random_fragment_checksum(&[], &[], 4), 0);
}

#[test]
fn transition_shapes_always_include_the_empty_shape() {
    assert_eq!(random_fragment_transition_shapes(&[], 16), BTreeSet::from([0]));
    let shapes = random_fragment_transition_shapes(&[0b1], 1);
    assert_eq!(shapes, BTreeSet::from([0b0, 0b1]));
}

#[test]
fn full_position_checksums_add_every_coordinate() {
    let (x, y, z) = (1.0f32.to_bits(), 2.0f32.to_bits(), 3.0f32.to_bits());
    assert_eq!(
        add_full_position_checksum(5, x, y, z),
        5 + u64::from(x) + u64::from(y) + u64::from(z)
    );
    assert_eq!(add_full_position_checksum(u64::MAX, 1, 0, 0), 0);
}

#[test]
fn match_counts_shrink_as_terms_grow() {
    let masks = [0b1111u16, 0b0111, 0xFFFF, 0b0001];
    assert_eq!(random_fragment_match_count(&masks, 1), 4);
    assert_eq!(random_fragment_match_count(&masks, 4), 2);
    assert_eq!(random_fragment_match_count(&masks, 8), 1);
    let masks = random_fragment_masks(10);
    let one = random_fragment_match_count(&masks, 1);
    let four = random_fragment_match_count(&masks, 4);
    let eight = random_fragment_match_count(&masks, 8);
    assert!(eight <= four && four <= one && one <= masks.len());
}

#[test]
fn fragment_checksum_is_key_sum_plus_term_weight() {
    let masks = random_fragment_masks(8);
    let keys: Vec<u64> = (0..masks.len() as u64)
        .map(|i| i.wrapping_mul(0x9e37_79b9_7f4a_7c15))
        .collect();
    for term_count in [1usize, 4, 8] {
        let query = (1u16 << term_count) - 1;
        let mut key_sum: u64 = 0;
        for (key, mask) in keys.iter().zip(&masks) {
            if mask & query == query {
                key_sum = key_sum.wrapping_add(*key);
            }
        }
        let count = random_fragment_match_count(&masks, term_count) as u64;
        assert_eq!(
            expected_random_fragment_checksum(&keys, &masks, term_count),
            key_sum.wrapping_add(10 * term_count as u64 * count)
        );
    }
}
