//! Workload definitions shared by every engine adapter: component ids,
//! workload sizes and the deterministic generators.

pub mod catalog;
pub mod components;
pub mod fixtures;
pub mod gameplay;
pub mod gameplay_phase;
pub mod gameplay_state;
pub mod random_fragmentation;

use vstd::prelude::*;

pub use components::IsAlly;
pub use components::IsEnemy;
pub use random_fragmentation::add_position_checksum;
pub use random_fragmentation::deterministic_orders;
pub use random_fragmentation::deterministic_shuffle;
pub use random_fragmentation::deterministic_shuffle_with_seed;
pub use random_fragmentation::position_checksum_value;
pub use random_fragmentation::random_fragment_masks;
pub use random_fragmentation::random_fragment_masks_for;

use random_fragmentation::count_masks_containing;
use random_fragmentation::count_matching;

verus! {

pub const SIMPLE_ENTITY_COUNT: usize = 10_000;
pub const WARM_RANDOM_ENTITY_COUNT: usize = 100_000;
pub const COLD_RANDOM_ENTITY_COUNT: usize = 1_000_000;
pub const RANDOM_ORDER_COUNT: usize = 4;
pub const REPEATED_ITERATION_COUNT: usize = 32;
pub const LARGE_ITERATION_ENTITY_COUNT: usize = 100_000;
pub const FRAGMENTED_VARIANT_COUNT: usize = 26;
pub const FRAGMENTED_ENTITIES_PER_VARIANT: usize = 400;
pub const RANDOM_FRAGMENT_ENTITY_COUNT: usize = 65_536;
pub const RANDOM_FRAGMENT_QUERY_MASK: u16 = 0b1111;
pub const HEAVY_ENTITY_COUNT: usize = 1_000;
pub const HEAVY_INVERT_COUNT: usize = 100;
pub const ENTITY_OP_COUNT: usize = 1_000;
pub const MIXED_FRAME_MOVERS: usize = 16_000;
pub const MIXED_FRAME_ENEMIES: usize = 4_000;
pub const MIXED_FRAME_ALLIES: usize = 4_000;
pub const MIXED_FRAME_HEAVY: usize = 1_000;
pub const MIXED_FRAME_RANDOM_COUNT: usize = 512;
pub const MIXED_FRAME_CHURN_COUNT: usize = 256;
pub const MIXED_FRAME_SPAWN_COUNT: usize = 64;
pub const MIXED_FRAME_INVERT_COUNT: usize = 8;
pub const MIXED_PHASE_HEALTH_REPEAT: usize = 8;
pub const MIXED_PHASE_SPAWN_REPEAT: usize = 32;
pub const CONTRACT_ENTITY_COUNT: usize = 128;
pub const CONTRACT_RANDOM_FRAGMENT_ENTITY_COUNT: usize = 2_048;
/// Entity count for system schedule benchmarks.
pub const SCHEDULE_ENTITY_COUNT: usize = 10_000;
/// Entity count for the head-to-head hot-path benchmarks.
pub const HOT_PATH_ENTITY_COUNT: usize = 5_000_000;

/// The component counts of the random-fragmentation populations.
pub fn random_fragment_component_counts() -> (r: [usize; 4])
    ensures
        r@ == seq![6usize, 8, 10, 16],
{
    let r: [usize; 4] = [6, 8, 10, 16];
    assert(r@ =~= seq![6usize, 8, 10, 16]);
    r
}

/// The (component count, term count) pairs of the random-fragmentation
/// benchmarks.
pub fn random_fragment_workloads() -> (r: [(usize, usize); 10])
    ensures
        r@ == seq![
            (6usize, 1usize),
            (6, 4),
            (8, 1),
            (8, 4),
            (10, 1),
            (10, 4),
            (10, 8),
            (16, 1),
            (16, 4),
            (16, 8),
        ],
{
    let r: [(usize, usize); 10] = [
        (6, 1),
        (6, 4),
        (8, 1),
        (8, 4),
        (10, 1),
        (10, 4),
        (10, 8),
        (16, 1),
        (16, 4),
        (16, 8),
    ];
    assert(r@ =~= seq![
        (6usize, 1usize),
        (6, 4),
        (8, 1),
        (8, 4),
        (10, 1),
        (10, 4),
        (10, 8),
        (16, 1),
        (16, 4),
        (16, 8),
    ]);
    r
}

/// The system counts of the schedule-scaling benchmarks.
pub fn schedule_system_counts() -> (r: [usize; 3])
    ensures
        r@ == seq![1usize, 4, 16],
{
    let r: [usize; 3] = [1, 4, 16];
    assert(r@ =~= seq![1usize, 4, 16]);
    r
}

/// The number of entities that the four-term random-fragment query
/// ([`RANDOM_FRAGMENT_QUERY_MASK`]) matches.
pub fn random_fragment_match_count(masks: &[u16]) -> (r: usize)
    ensures
        r == count_matching(masks@, RANDOM_FRAGMENT_QUERY_MASK),
        r <= masks@.len(),
{
    count_masks_containing(masks, RANDOM_FRAGMENT_QUERY_MASK)
}

} // verus!
