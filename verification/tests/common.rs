use sky_ecs_comparison::common::add_position_checksum;
use sky_ecs_comparison::common::position_checksum_value;
use sky_ecs_comparison::common::random_fragment_component_counts;
use sky_ecs_comparison::common::random_fragment_masks;
use sky_ecs_comparison::common::random_fragment_match_count;
use sky_ecs_comparison::common::schedule_system_counts;
use sky_ecs_comparison::common::RANDOM_FRAGMENT_ENTITY_COUNT;
use sky_ecs_comparison::common::RANDOM_FRAGMENT_QUERY_MASK;

#[test]
fn common_random_fragment_workload_is_stable() {
    let masks = random_fragment_masks(16);
    assert_eq!(masks.len(), RANDOM_FRAGMENT_ENTITY_COUNT);
    assert_eq!(random_fragment_match_count(&masks), 4_103);
    for component_count in random_fragment_component_counts() {
        let inactive_mask = if component_count == 16 {
            0
        } else {
            u16::MAX << component_count
        };
        assert!(random_fragment_masks(component_count)
            .iter()
            .all(|mask| *mask & inactive_mask == 0));
    }
}

#[test]
fn the_default_query_reads_the_first_four_components() {
    assert_eq!(RANDOM_FRAGMENT_QUERY_MASK, 0b1111);
    let masks = [0b1111u16, 0b0111, 0b1_1111, 0b1000];
    assert_eq!(random_fragment_match_count(&masks), 2);
    assert_eq!(random_fragment_match_count(&[]), 0);
}

#[test]
fn workload_tables_hold_the_published_values() {
    assert_eq!(random_fragment_component_counts(), [6, 8, 10, 16]);
    assert_eq!(schedule_system_counts(), [1, 4, 16]);
}

#[test]
fn position_checksums_add_and_multiply_bit_patterns() {
    let bits = 1.5f32.to_bits();
    assert_eq!(add_position_checksum(7, bits), 7 + u64::from(bits));
    assert_eq!(add_position_checksum(u64::MAX, 1), 0);
    assert_eq!(position_checksum_value(bits, 3), 3 * u64::from(bits));
    let mut folded = 0;
    for _ in 0..5 {
        folded = add_position_checksum(folded, bits);
    }
    assert_eq!(folded, position_checksum_value(bits, 5));
    assert_eq!(position_checksum_value(u32::MAX, 0), 0);
}
