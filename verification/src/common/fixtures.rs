//! Workload sizes shared by every engine adapter.

use vstd::prelude::*;

verus! {

pub const SIMPLE_ENTITY_COUNT: usize = 10_000;
pub const WARM_RANDOM_ENTITY_COUNT: usize = 100_000;
pub const RANDOM_ORDER_COUNT: usize = 4;
pub const LARGE_ITERATION_ENTITY_COUNT: usize = 100_000;
pub const VERY_LARGE_ITERATION_ENTITY_COUNT: usize = 1_000_000;
pub const FRAGMENTED_VARIANT_COUNT: usize = 26;
pub const FRAGMENTED_ENTITIES_PER_VARIANT: usize = 400;
pub const RANDOM_FRAGMENT_ENTITY_COUNT: usize = 65_536;
pub const HEAVY_ENTITY_COUNT: usize = 1_000;
pub const HEAVY_INVERT_COUNT: usize = 100;
pub const ENTITY_OP_COUNT: usize = 1_000;
pub const MIXED_FRAME_MOVERS: usize = 16_000;
pub const MIXED_FRAME_ENEMIES: usize = 4_000;
pub const MIXED_FRAME_ALLIES: usize = 4_000;
pub const MIXED_FRAME_HEAVY: usize = 1_000;
pub const MIXED_FRAME_RANDOM_COUNT: usize = 512;
pub const MIXED_FRAME_CHURN_COUNT: usize = 256;
pub const MIXED_FRAME_SPAWN_COUNT: usize = 64;
pub const MIXED_FRAME_INVERT_COUNT: usize = 8;
pub const MIXED_PHASE_HEALTH_REPEAT: usize = 8;
pub const MIXED_PHASE_SPAWN_REPEAT: usize = 32;
pub const CONTRACT_ENTITY_COUNT: usize = 128;
pub const CONTRACT_RANDOM_FRAGMENT_ENTITY_COUNT: usize = 2_048;
pub const SCHEDULE_ENTITY_COUNT: usize = 10_000;
pub const HOT_PATH_ENTITY_COUNT: usize = 5_000_000;

} // verus!
