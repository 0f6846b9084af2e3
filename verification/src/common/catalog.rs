//! The canonical benchmark catalog: every benchmark family, its class, the
//! number of work items a run processes, and the engines that run it.

use vstd::prelude::*;

use crate::engine::all_engines;
use crate::engine::engines_without_freecs;
use crate::engine::Engine;
use crate::text::chars_equal;
use crate::text::ends_with_seq;
use crate::text::lemma_last_occurrence_sound;
use crate::text::is_digit;
use crate::text::lemma_parse_short_digits;
use crate::text::lemma_not_contains;
use crate::text::lemma_last_occurrence_at;
use crate::text::lemma_matches_occurs;
use crate::text::no_match_in;
use crate::text::matches_from;
use crate::text::chars_of;
use crate::text::contains_seq;
use crate::text::contains_str;
use crate::text::parse_usize_chars;
use crate::text::parse_usize_spec;
use crate::text::rsplit_once_chars;
use crate::text::lemma_rsplit_once_last_slash;
use crate::text::rsplit_once_seq;
use crate::text::split_once_chars;
use crate::text::split_once_seq;
use crate::text::starts_with_seq;
use crate::text::starts_with_str;
use crate::text::strip_prefix_chars;
use crate::text::strip_prefix_seq;

use super::fixtures::RANDOM_FRAGMENT_ENTITY_COUNT;
use super::random_fragmentation::count_matching;
use super::random_fragmentation::fragment_masks;
use super::random_fragmentation::query_mask;
use super::random_fragmentation::random_fragment_masks;
use super::random_fragmentation::random_fragment_match_count;

verus! {

/// How a benchmark family is presented in the published comparison.
#[derive(Clone, Copy, Debug, PartialEq, Eq, Structural)]
pub enum BenchmarkClass {
    Comparable,
    Scenario,
    Diagnostic,
}

/// The report name of a class.
pub open spec fn class_name(class: BenchmarkClass) -> Seq<char> {
    match class {
        BenchmarkClass::Comparable => "comparable"@,
        BenchmarkClass::Scenario => "scenario"@,
        BenchmarkClass::Diagnostic => "diagnostic"@,
    }
}

impl BenchmarkClass {
    /// The report name of this class.
    pub fn name(self) -> (r: &'static str)
        ensures
            r@ == class_name(self),
    {
        match self {
            BenchmarkClass::Comparable => "comparable",
            BenchmarkClass::Scenario => "scenario",
            BenchmarkClass::Diagnostic => "diagnostic",
        }
    }
}

/// The number of items that one run of a family processes.
#[derive(Clone, Copy, Debug, PartialEq, Eq, Structural)]
pub enum WorkItems {
    /// Not counted per item.
    NoItems,
    /// A fixed number of items.
    Fixed(usize),
    /// The entities that a query over the first `term_count` components
    /// matches in the standard random-fragmentation population.
    RandomFragment { component_count: usize, term_count: usize },
}

/// The work-item descriptions that can be resolved.
pub open spec fn work_items_valid(work_items: WorkItems) -> bool {
    match work_items {
        WorkItems::RandomFragment { component_count, term_count } => {
            &&& 1 <= component_count <= 16
            &&& (term_count == 1 || term_count == 4 || term_count == 8)
        },
        _ => true,
    }
}

/// The resolved number of work items.
pub open spec fn resolve_work_items(work_items: WorkItems) -> Option<usize> {
    match work_items {
        WorkItems::NoItems => None,
        WorkItems::Fixed(count) => Some(count),
        WorkItems::RandomFragment { component_count, term_count } => Some(
            count_matching(
                fragment_masks(component_count as nat, RANDOM_FRAGMENT_ENTITY_COUNT as nat),
                query_mask(term_count as nat),
            ) as usize,
        ),
    }
}

impl WorkItems {
    /// The number of work items of one run. A random-fragment count is
    /// computed from the standard mask population, for a component count
    /// between 1 and 16 and a term count of 1, 4 or 8.
    pub fn resolve(self) -> (r: Option<usize>)
        requires
            work_items_valid(self),
        ensures
            r == resolve_work_items(self),
    {
        match self {
            WorkItems::NoItems => None,
            WorkItems::Fixed(count) => Some(count),
            WorkItems::RandomFragment { component_count, term_count } => {
                let masks = random_fragment_masks(component_count);
                Some(random_fragment_match_count(masks.as_slice(), term_count))
            },
        }
    }
}

/// One family of the catalog.
#[derive(Clone, Debug, PartialEq, Eq)]
pub struct BenchmarkSpec {
    pub family: &'static str,
    pub class: BenchmarkClass,
    pub work_items: WorkItems,
    pub engines: Vec<Engine>,
}

/// The mathematical content of a catalog entry.
pub struct BenchmarkEntry {
    pub family: Seq<char>,
    pub class: BenchmarkClass,
    pub work_items: WorkItems,
    pub engines: Seq<Engine>,
}

impl View for BenchmarkSpec {
    type V = BenchmarkEntry;

    open spec fn view(&self) -> BenchmarkEntry {
        BenchmarkEntry {
            family: self.family@,
            class: self.class,
            work_items: self.work_items,
            engines: self.engines@,
        }
    }
}

/// A comparable family with a fixed item count, run by every engine.
pub open spec fn fixed_entry(family: Seq<char>, count: usize) -> BenchmarkEntry {
    fixed_class_entry(family, count, BenchmarkClass::Comparable)
}

/// A family of the given class with a fixed item count, run by every engine.
pub open spec fn fixed_class_entry(family: Seq<char>, count: usize, class: BenchmarkClass) -> BenchmarkEntry {
    BenchmarkEntry { family, class, work_items: WorkItems::Fixed(count), engines: all_engines() }
}

/// A family of the given class without an item count, run by every engine.
pub open spec fn no_items_entry(family: Seq<char>, class: BenchmarkClass) -> BenchmarkEntry {
    BenchmarkEntry { family, class, work_items: WorkItems::NoItems, engines: all_engines() }
}

/// A comparable random-fragmentation family, run by every engine.
pub open spec fn random_entry(family: Seq<char>, component_count: usize, term_count: usize) -> BenchmarkEntry {
    BenchmarkEntry {
        family,
        class: BenchmarkClass::Comparable,
        work_items: WorkItems::RandomFragment { component_count, term_count },
        engines: all_engines(),
    }
}

/// A comparable random-fragmentation family that FreeCS does not run.
pub open spec fn random_without_freecs_entry(
    family: Seq<char>,
    component_count: usize,
    term_count: usize,
) -> BenchmarkEntry {
    BenchmarkEntry {
        family,
        class: BenchmarkClass::Comparable,
        work_items: WorkItems::RandomFragment { component_count, term_count },
        engines: engines_without_freecs(),
    }
}

fn fixed(family: &'static str, count: usize) -> (r: BenchmarkSpec)
    ensures
        r@ == fixed_entry(family@, count),
{
    BenchmarkSpec {
        family,
        class: BenchmarkClass::Comparable,
        work_items: WorkItems::Fixed(count),
        engines: Engine::all(),
    }
}

fn fixed_class(family: &'static str, count: usize, class: BenchmarkClass) -> (r: BenchmarkSpec)
    ensures
        r@ == fixed_class_entry(family@, count, class),
{
    BenchmarkSpec { family, class, work_items: WorkItems::Fixed(count), engines: Engine::all() }
}

fn no_items(family: &'static str, class: BenchmarkClass) -> (r: BenchmarkSpec)
    ensures
        r@ == no_items_entry(family@, class),
{
    BenchmarkSpec { family, class, work_items: WorkItems::NoItems, engines: Engine::all() }
}

fn random(family: &'static str, component_count: usize, term_count: usize) -> (r: BenchmarkSpec)
    ensures
        r@ == random_entry(family@, component_count, term_count),
{
    BenchmarkSpec {
        family,
        class: BenchmarkClass::Comparable,
        work_items: WorkItems::RandomFragment { component_count, term_count },
        engines: Engine::all(),
    }
}

fn random_without_freecs(family: &'static str, component_count: usize, term_count: usize) -> (r:
    BenchmarkSpec)
    ensures
        r@ == random_without_freecs_entry(family@, component_count, term_count),
{
    let engines = vec![Engine::Sky, Engine::Hecs, Engine::Bevy, Engine::FlecsC, Engine::Shipyard];
    assert(engines@ =~= engines_without_freecs());
    BenchmarkSpec {
        family,
        class: BenchmarkClass::Comparable,
        work_items: WorkItems::RandomFragment { component_count, term_count },
        engines,
    }
}

/// The number of canonical families.
pub const CANONICAL_BENCHMARK_COUNT: usize = 44;

/// The number of diagnostic gameplay-phase families.
pub const GAMEPLAY_PHASE_BENCHMARK_COUNT: usize = 5;

/// The number of families in the whole catalog.
pub const CATALOG_LEN: usize = 49;

/// Entry `i` of the catalog: the canonical families first, then the
/// gameplay-phase families.
pub open spec fn catalog_entry(i: int) -> BenchmarkEntry {
    if i == 0 {
        fixed_class_entry("scenario_native_bulk_construction/insert_10k"@, 10_000, BenchmarkClass::Scenario)
    } else if i == 1 {
        fixed_entry("prepared_construction/single_insert_10k"@, 10_000)
    } else if i == 2 {
        fixed_entry("prepared_iteration/simple_10k"@, 10_000)
    } else if i == 3 {
        fixed_entry("prepared_iteration_large/simple_100k"@, 100_000)
    } else if i == 4 {
        fixed_entry("prepared_iteration_1m/simple_1m"@, 1_000_000)
    } else if i == 5 {
        fixed_entry("prepared_fragmented_iteration/fragmented_26x400"@, 10_400)
    } else if i == 6 {
        random_entry("prepared_random_fragmented_iteration/random_6_tags_1_term"@, 6, 1)
    } else if i == 7 {
        random_entry("prepared_random_fragmented_iteration/random_6_tags_4_terms"@, 6, 4)
    } else if i == 8 {
        random_entry("prepared_random_fragmented_iteration/random_8_tags_1_term"@, 8, 1)
    } else if i == 9 {
        random_entry("prepared_random_fragmented_iteration/random_8_tags_4_terms"@, 8, 4)
    } else if i == 10 {
        random_entry("prepared_random_fragmented_iteration/random_10_tags_1_term"@, 10, 1)
    } else if i == 11 {
        random_entry("prepared_random_fragmented_iteration/random_10_tags_4_terms"@, 10, 4)
    } else if i == 12 {
        random_entry("prepared_random_fragmented_iteration/random_10_tags_8_terms"@, 10, 8)
    } else if i == 13 {
        random_without_freecs_entry("prepared_random_fragmented_iteration/random_16_tags_1_term"@, 16, 1)
    } else if i == 14 {
        random_without_freecs_entry("prepared_random_fragmented_iteration/random_16_tags_4_terms"@, 16, 4)
    } else if i == 15 {
        random_without_freecs_entry("prepared_random_fragmented_iteration/random_16_tags_8_terms"@, 16, 8)
    } else if i == 16 {
        random_entry("prepared_random_fragmented_iteration/random_6_components_1_term"@, 6, 1)
    } else if i == 17 {
        random_entry("prepared_random_fragmented_iteration/random_6_components_4_terms"@, 6, 4)
    } else if i == 18 {
        random_entry("prepared_random_fragmented_iteration/random_8_components_1_term"@, 8, 1)
    } else if i == 19 {
        random_entry("prepared_random_fragmented_iteration/random_8_components_4_terms"@, 8, 4)
    } else if i == 20 {
        random_entry("prepared_random_fragmented_iteration/random_10_components_1_term"@, 10, 1)
    } else if i == 21 {
        random_entry("prepared_random_fragmented_iteration/random_10_components_4_terms"@, 10, 4)
    } else if i == 22 {
        random_entry("prepared_random_fragmented_iteration/random_10_components_8_terms"@, 10, 8)
    } else if i == 23 {
        random_without_freecs_entry("prepared_random_fragmented_iteration/random_16_components_1_term"@, 16, 1)
    } else if i == 24 {
        random_without_freecs_entry("prepared_random_fragmented_iteration/random_16_components_4_terms"@, 16, 4)
    } else if i == 25 {
        random_without_freecs_entry("prepared_random_fragmented_iteration/random_16_components_8_terms"@, 16, 8)
    } else if i == 26 {
        no_items_entry("diagnostic_heavy_compute/heavy"@, BenchmarkClass::Diagnostic)
    } else if i == 27 {
        fixed_entry("entity_id_random_access/hot_10k"@, 10_000)
    } else if i == 28 {
        fixed_entry("entity_id_random_access/warm_100k"@, 100_000)
    } else if i == 29 {
        fixed_class_entry("scenario_fixed_sequence_access/build_10k"@, 10_000, BenchmarkClass::Scenario)
    } else if i == 30 {
        fixed_class_entry("scenario_fixed_sequence_access/steady_10k"@, 10_000, BenchmarkClass::Scenario)
    } else if i == 31 {
        fixed_class_entry("scenario_fixed_sequence_access/amortized_10k_x1"@, 10_000, BenchmarkClass::Scenario)
    } else if i == 32 {
        fixed_class_entry("scenario_fixed_sequence_access/amortized_10k_x4"@, 40_000, BenchmarkClass::Scenario)
    } else if i == 33 {
        fixed_class_entry("scenario_fixed_sequence_access/amortized_10k_x16"@, 160_000, BenchmarkClass::Scenario)
    } else if i == 34 {
        fixed_class_entry("scenario_fixed_sequence_access/amortized_10k_x64"@, 640_000, BenchmarkClass::Scenario)
    } else if i == 35 {
        fixed_class_entry("scenario_fixed_sequence_access/build_100k"@, 100_000, BenchmarkClass::Scenario)
    } else if i == 36 {
        fixed_class_entry("scenario_fixed_sequence_access/steady_100k"@, 100_000, BenchmarkClass::Scenario)
    } else if i == 37 {
        fixed_class_entry("scenario_fixed_sequence_access/amortized_100k_x1"@, 100_000, BenchmarkClass::Scenario)
    } else if i == 38 {
        fixed_class_entry("scenario_fixed_sequence_access/amortized_100k_x4"@, 400_000, BenchmarkClass::Scenario)
    } else if i == 39 {
        fixed_class_entry("scenario_fixed_sequence_access/amortized_100k_x16"@, 1_600_000, BenchmarkClass::Scenario)
    } else if i == 40 {
        fixed_class_entry("scenario_fixed_sequence_access/amortized_100k_x64"@, 6_400_000, BenchmarkClass::Scenario)
    } else if i == 41 {
        fixed_entry("entity_ops/spawn_despawn_1k"@, 1_000)
    } else if i == 42 {
        fixed_entry("entity_ops/add_remove_component_1k"@, 1_000)
    } else if i == 43 {
        no_items_entry("scenario_gameplay_frame/frame"@, BenchmarkClass::Scenario)
    } else if i == 44 {
        no_items_entry("diagnostic_gameplay_phases/iteration"@, BenchmarkClass::Diagnostic)
    } else if i == 45 {
        no_items_entry("diagnostic_gameplay_phases/ai_source_lookup"@, BenchmarkClass::Diagnostic)
    } else if i == 46 {
        no_items_entry("diagnostic_gameplay_phases/target_position_lookup"@, BenchmarkClass::Diagnostic)
    } else if i == 47 {
        no_items_entry("diagnostic_gameplay_phases/status_transition"@, BenchmarkClass::Diagnostic)
    } else if i == 48 {
        no_items_entry("diagnostic_gameplay_phases/projectile_recycle"@, BenchmarkClass::Diagnostic)
    } else {
        no_items_entry(Seq::empty(), BenchmarkClass::Diagnostic)
    }
}

/// The canonical families.
pub open spec fn canonical_catalog() -> Seq<BenchmarkEntry> {
    Seq::new(CANONICAL_BENCHMARK_COUNT as nat, |i: int| catalog_entry(i))
}

/// The diagnostic gameplay-phase families.
pub open spec fn gameplay_phase_catalog() -> Seq<BenchmarkEntry> {
    Seq::new(GAMEPLAY_PHASE_BENCHMARK_COUNT as nat, |i: int| catalog_entry(i + CANONICAL_BENCHMARK_COUNT))
}

/// The canonical families followed by the gameplay-phase families.
pub open spec fn full_catalog() -> Seq<BenchmarkEntry> {
    Seq::new(CATALOG_LEN as nat, |i: int| catalog_entry(i))
}

/// Entry `i` of the catalog.
fn catalog_entry_at(i: usize) -> (r: BenchmarkSpec)
    requires
        i < CATALOG_LEN,
    ensures
        r@ == catalog_entry(i as int),
{
    match i {
        0 => fixed_class("scenario_native_bulk_construction/insert_10k", 10_000, BenchmarkClass::Scenario),
        1 => fixed("prepared_construction/single_insert_10k", 10_000),
        2 => fixed("prepared_iteration/simple_10k", 10_000),
        3 => fixed("prepared_iteration_large/simple_100k", 100_000),
        4 => fixed("prepared_iteration_1m/simple_1m", 1_000_000),
        5 => fixed("prepared_fragmented_iteration/fragmented_26x400", 10_400),
        6 => random("prepared_random_fragmented_iteration/random_6_tags_1_term", 6, 1),
        7 => random("prepared_random_fragmented_iteration/random_6_tags_4_terms", 6, 4),
        8 => random("prepared_random_fragmented_iteration/random_8_tags_1_term", 8, 1),
        9 => random("prepared_random_fragmented_iteration/random_8_tags_4_terms", 8, 4),
        10 => random("prepared_random_fragmented_iteration/random_10_tags_1_term", 10, 1),
        11 => random("prepared_random_fragmented_iteration/random_10_tags_4_terms", 10, 4),
        12 => random("prepared_random_fragmented_iteration/random_10_tags_8_terms", 10, 8),
        13 => random_without_freecs("prepared_random_fragmented_iteration/random_16_tags_1_term", 16, 1),
        14 => random_without_freecs("prepared_random_fragmented_iteration/random_16_tags_4_terms", 16, 4),
        15 => random_without_freecs("prepared_random_fragmented_iteration/random_16_tags_8_terms", 16, 8),
        16 => random("prepared_random_fragmented_iteration/random_6_components_1_term", 6, 1),
        17 => random("prepared_random_fragmented_iteration/random_6_components_4_terms", 6, 4),
        18 => random("prepared_random_fragmented_iteration/random_8_components_1_term", 8, 1),
        19 => random("prepared_random_fragmented_iteration/random_8_components_4_terms", 8, 4),
        20 => random("prepared_random_fragmented_iteration/random_10_components_1_term", 10, 1),
        21 => random("prepared_random_fragmented_iteration/random_10_components_4_terms", 10, 4),
        22 => random("prepared_random_fragmented_iteration/random_10_components_8_terms", 10, 8),
        23 => random_without_freecs("prepared_random_fragmented_iteration/random_16_components_1_term", 16, 1),
        24 => random_without_freecs("prepared_random_fragmented_iteration/random_16_components_4_terms", 16, 4),
        25 => random_without_freecs("prepared_random_fragmented_iteration/random_16_components_8_terms", 16, 8),
        26 => no_items("diagnostic_heavy_compute/heavy", BenchmarkClass::Diagnostic),
        27 => fixed("entity_id_random_access/hot_10k", 10_000),
        28 => fixed("entity_id_random_access/warm_100k", 100_000),
        29 => fixed_class("scenario_fixed_sequence_access/build_10k", 10_000, BenchmarkClass::Scenario),
        30 => fixed_class("scenario_fixed_sequence_access/steady_10k", 10_000, BenchmarkClass::Scenario),
        31 => fixed_class("scenario_fixed_sequence_access/amortized_10k_x1", 10_000, BenchmarkClass::Scenario),
        32 => fixed_class("scenario_fixed_sequence_access/amortized_10k_x4", 40_000, BenchmarkClass::Scenario),
        33 => fixed_class("scenario_fixed_sequence_access/amortized_10k_x16", 160_000, BenchmarkClass::Scenario),
        34 => fixed_class("scenario_fixed_sequence_access/amortized_10k_x64", 640_000, BenchmarkClass::Scenario),
        35 => fixed_class("scenario_fixed_sequence_access/build_100k", 100_000, BenchmarkClass::Scenario),
        36 => fixed_class("scenario_fixed_sequence_access/steady_100k", 100_000, BenchmarkClass::Scenario),
        37 => fixed_class("scenario_fixed_sequence_access/amortized_100k_x1", 100_000, BenchmarkClass::Scenario),
        38 => fixed_class("scenario_fixed_sequence_access/amortized_100k_x4", 400_000, BenchmarkClass::Scenario),
        39 => fixed_class("scenario_fixed_sequence_access/amortized_100k_x16", 1_600_000, BenchmarkClass::Scenario),
        40 => fixed_class("scenario_fixed_sequence_access/amortized_100k_x64", 6_400_000, BenchmarkClass::Scenario),
        41 => fixed("entity_ops/spawn_despawn_1k", 1_000),
        42 => fixed("entity_ops/add_remove_component_1k", 1_000),
        43 => no_items("scenario_gameplay_frame/frame", BenchmarkClass::Scenario),
        44 => no_items("diagnostic_gameplay_phases/iteration", BenchmarkClass::Diagnostic),
        45 => no_items("diagnostic_gameplay_phases/ai_source_lookup", BenchmarkClass::Diagnostic),
        46 => no_items("diagnostic_gameplay_phases/target_position_lookup", BenchmarkClass::Diagnostic),
        47 => no_items("diagnostic_gameplay_phases/status_transition", BenchmarkClass::Diagnostic),
        _ => no_items("diagnostic_gameplay_phases/projectile_recycle", BenchmarkClass::Diagnostic),
    }
}

/// Every catalog entry describes work items that can be resolved.
pub proof fn lemma_catalog_work_items_valid()
    ensures
        forall|i: int| 0 <= i < CATALOG_LEN ==> work_items_valid(#[trigger] catalog_entry(i).work_items),
{
}

/// No two catalog entries share a family, so looking an entry's family up
/// gives back that entry.
pub proof fn lemma_catalog_families_unique()
    ensures
        forall|i: int|
            0 <= i < CATALOG_LEN ==> find_family_from(#[trigger] catalog_entry(i).family, 0) == Some(i),
        forall|i: int|
            0 <= i < CATALOG_LEN ==> lookup_family(#[trigger] catalog_entry(i).family) == Some(
                catalog_entry(i),
            ),
        forall|i: int, j: int|
            0 <= i < CATALOG_LEN && 0 <= j < CATALOG_LEN && i != j ==> #[trigger] catalog_entry(i).family
                != #[trigger] catalog_entry(j).family,
{
    reveal_strlit("scenario_native_bulk_construction/insert_10k");
    reveal_strlit("prepared_construction/single_insert_10k");
    reveal_strlit("prepared_iteration/simple_10k");
    reveal_strlit("prepared_iteration_large/simple_100k");
    reveal_strlit("prepared_iteration_1m/simple_1m");
    reveal_strlit("prepared_fragmented_iteration/fragmented_26x400");
    reveal_strlit("prepared_random_fragmented_iteration/random_6_tags_1_term");
    reveal_strlit("prepared_random_fragmented_iteration/random_6_tags_4_terms");
    reveal_strlit("prepared_random_fragmented_iteration/random_8_tags_1_term");
    reveal_strlit("prepared_random_fragmented_iteration/random_8_tags_4_terms");
    reveal_strlit("prepared_random_fragmented_iteration/random_10_tags_1_term");
    reveal_strlit("prepared_random_fragmented_iteration/random_10_tags_4_terms");
    reveal_strlit("prepared_random_fragmented_iteration/random_10_tags_8_terms");
    reveal_strlit("prepared_random_fragmented_iteration/random_16_tags_1_term");
    reveal_strlit("prepared_random_fragmented_iteration/random_16_tags_4_terms");
    reveal_strlit("prepared_random_fragmented_iteration/random_16_tags_8_terms");
    reveal_strlit("prepared_random_fragmented_iteration/random_6_components_1_term");
    reveal_strlit("prepared_random_fragmented_iteration/random_6_components_4_terms");
    reveal_strlit("prepared_random_fragmented_iteration/random_8_components_1_term");
    reveal_strlit("prepared_random_fragmented_iteration/random_8_components_4_terms");
    reveal_strlit("prepared_random_fragmented_iteration/random_10_components_1_term");
    reveal_strlit("prepared_random_fragmented_iteration/random_10_components_4_terms");
    reveal_strlit("prepared_random_fragmented_iteration/random_10_components_8_terms");
    reveal_strlit("prepared_random_fragmented_iteration/random_16_components_1_term");
    reveal_strlit("prepared_random_fragmented_iteration/random_16_components_4_terms");
    reveal_strlit("prepared_random_fragmented_iteration/random_16_components_8_terms");
    reveal_strlit("diagnostic_heavy_compute/heavy");
    reveal_strlit("entity_id_random_access/hot_10k");
    reveal_strlit("entity_id_random_access/warm_100k");
    reveal_strlit("scenario_fixed_sequence_access/build_10k");
    reveal_strlit("scenario_fixed_sequence_access/steady_10k");
    reveal_strlit("scenario_fixed_sequence_access/amortized_10k_x1");
    reveal_strlit("scenario_fixed_sequence_access/amortized_10k_x4");
    reveal_strlit("scenario_fixed_sequence_access/amortized_10k_x16");
    reveal_strlit("scenario_fixed_sequence_access/amortized_10k_x64");
    reveal_strlit("scenario_fixed_sequence_access/build_100k");
    reveal_strlit("scenario_fixed_sequence_access/steady_100k");
    reveal_strlit("scenario_fixed_sequence_access/amortized_100k_x1");
    reveal_strlit("scenario_fixed_sequence_access/amortized_100k_x4");
    reveal_strlit("scenario_fixed_sequence_access/amortized_100k_x16");
    reveal_strlit("scenario_fixed_sequence_access/amortized_100k_x64");
    reveal_strlit("entity_ops/spawn_despawn_1k");
    reveal_strlit("entity_ops/add_remove_component_1k");
    reveal_strlit("scenario_gameplay_frame/frame");
    reveal_strlit("diagnostic_gameplay_phases/iteration");
    reveal_strlit("diagnostic_gameplay_phases/ai_source_lookup");
    reveal_strlit("diagnostic_gameplay_phases/target_position_lookup");
    reveal_strlit("diagnostic_gameplay_phases/status_transition");
    reveal_strlit("diagnostic_gameplay_phases/projectile_recycle");
    // The length and a few characters tell every family from every other.
    assert({
        let f = catalog_entry(0).family;
        f.len() == 44 && f[0] == 's' && f[31] == 'o'
    });
    assert({
        let f = catalog_entry(1).family;
        f.len() == 39 && f[0] == 'p' && f[31] == 's'
    });
    assert({
        let f = catalog_entry(2).family;
        f.len() == 29 && f[0] == 'p'
    });
    assert({
        let f = catalog_entry(3).family;
        f.len() == 36 && f[0] == 'p' && f[31] == '_'
    });
    assert({
        let f = catalog_entry(4).family;
        f.len() == 31 && f[0] == 'p'
    });
    assert({
        let f = catalog_entry(5).family;
        f.len() == 47 && f[0] == 'p' && f[31] == 'r' && f[44] == '4' && f[45] == '0'
            && f[46] == '0'
    });
    assert({
        let f = catalog_entry(6).family;
        f.len() == 57 && f[0] == 'p' && f[31] == 'a' && f[44] == '6' && f[45] == '_'
            && f[46] == 't' && f[47] == 'a' && f[52] == '_'
    });
    assert({
        let f = catalog_entry(7).family;
        f.len() == 58 && f[0] == 'p' && f[31] == 'a' && f[44] == '6' && f[45] == '_'
            && f[46] == 't' && f[47] == 'a' && f[52] == '_'
    });
    assert({
        let f = catalog_entry(8).family;
        f.len() == 57 && f[0] == 'p' && f[31] == 'a' && f[44] == '8' && f[45] == '_'
            && f[46] == 't' && f[47] == 'a' && f[52] == '_'
    });
    assert({
        let f = catalog_entry(9).family;
        f.len() == 58 && f[0] == 'p' && f[31] == 'a' && f[44] == '8' && f[45] == '_'
            && f[46] == 't' && f[47] == 'a' && f[52] == '_'
    });
    assert({
        let f = catalog_entry(10).family;
        f.len() == 58 && f[0] == 'p' && f[31] == 'a' && f[44] == '1' && f[45] == '0'
            && f[46] == '_' && f[47] == 't' && f[52] == '1'
    });
    assert({
        let f = catalog_entry(11).family;
        f.len() == 59 && f[0] == 'p' && f[31] == 'a' && f[44] == '1' && f[45] == '0'
            && f[46] == '_' && f[47] == 't' && f[52] == '4' && f[58] == 's'
    });
    assert({
        let f = catalog_entry(12).family;
        f.len() == 59 && f[0] == 'p' && f[31] == 'a' && f[44] == '1' && f[45] == '0'
            && f[46] == '_' && f[47] == 't' && f[52] == '8' && f[58] == 's'
    });
    assert({
        let f = catalog_entry(13).family;
        f.len() == 58 && f[0] == 'p' && f[31] == 'a' && f[44] == '1' && f[45] == '6'
            && f[46] == '_' && f[47] == 't' && f[52] == '1'
    });
    assert({
        let f = catalog_entry(14).family;
        f.len() == 59 && f[0] == 'p' && f[31] == 'a' && f[44] == '1' && f[45] == '6'
            && f[46] == '_' && f[47] == 't' && f[52] == '4' && f[58] == 's'
    });
    assert({
        let f = catalog_entry(15).family;
        f.len() == 59 && f[0] == 'p' && f[31] == 'a' && f[44] == '1' && f[45] == '6'
            && f[46] == '_' && f[47] == 't' && f[52] == '8' && f[58] == 's'
    });
    assert({
        let f = catalog_entry(16).family;
        f.len() == 63 && f[0] == 'p' && f[31] == 'a' && f[44] == '6' && f[45] == '_'
            && f[46] == 'c' && f[47] == 'o' && f[52] == 'e' && f[58] == '_'
    });
    assert({
        let f = catalog_entry(17).family;
        f.len() == 64 && f[0] == 'p' && f[31] == 'a' && f[44] == '6' && f[45] == '_'
            && f[46] == 'c' && f[47] == 'o' && f[52] == 'e' && f[58] == '_'
    });
    assert({
        let f = catalog_entry(18).family;
        f.len() == 63 && f[0] == 'p' && f[31] == 'a' && f[44] == '8' && f[45] == '_'
            && f[46] == 'c' && f[47] == 'o' && f[52] == 'e' && f[58] == '_'
    });
    assert({
        let f = catalog_entry(19).family;
        f.len() == 64 && f[0] == 'p' && f[31] == 'a' && f[44] == '8' && f[45] == '_'
            && f[46] == 'c' && f[47] == 'o' && f[52] == 'e' && f[58] == '_'
    });
    assert({
        let f = catalog_entry(20).family;
        f.len() == 64 && f[0] == 'p' && f[31] == 'a' && f[44] == '1' && f[45] == '0'
            && f[46] == '_' && f[47] == 'c' && f[52] == 'n' && f[58] == '1'
    });
    assert({
        let f = catalog_entry(21).family;
        f.len() == 65 && f[0] == 'p' && f[31] == 'a' && f[44] == '1' && f[45] == '0'
            && f[46] == '_' && f[47] == 'c' && f[52] == 'n' && f[58] == '4'
    });
    assert({
        let f = catalog_entry(22).family;
        f.len() == 65 && f[0] == 'p' && f[31] == 'a' && f[44] == '1' && f[45] == '0'
            && f[46] == '_' && f[47] == 'c' && f[52] == 'n' && f[58] == '8'
    });
    assert({
        let f = catalog_entry(23).family;
        f.len() == 64 && f[0] == 'p' && f[31] == 'a' && f[44] == '1' && f[45] == '6'
            && f[46] == '_' && f[47] == 'c' && f[52] == 'n' && f[58] == '1'
    });
    assert({
        let f = catalog_entry(24).family;
        f.len() == 65 && f[0] == 'p' && f[31] == 'a' && f[44] == '1' && f[45] == '6'
            && f[46] == '_' && f[47] == 'c' && f[52] == 'n' && f[58] == '4'
    });
    assert({
        let f = catalog_entry(25).family;
        f.len() == 65 && f[0] == 'p' && f[31] == 'a' && f[44] == '1' && f[45] == '6'
            && f[46] == '_' && f[47] == 'c' && f[52] == 'n' && f[58] == '8'
    });
    assert({
        let f = catalog_entry(26).family;
        f.len() == 30 && f[0] == 'd'
    });
    assert({
        let f = catalog_entry(27).family;
        f.len() == 31 && f[0] == 'e'
    });
    assert({
        let f = catalog_entry(28).family;
        f.len() == 33 && f[0] == 'e' && f[31] == '0'
    });
    assert({
        let f = catalog_entry(29).family;
        f.len() == 40 && f[0] == 's' && f[31] == 'b'
    });
    assert({
        let f = catalog_entry(30).family;
        f.len() == 41 && f[0] == 's' && f[31] == 's'
    });
    assert({
        let f = catalog_entry(31).family;
        f.len() == 47 && f[0] == 's' && f[31] == 'a' && f[44] == '_' && f[45] == 'x'
            && f[46] == '1'
    });
    assert({
        let f = catalog_entry(32).family;
        f.len() == 47 && f[0] == 's' && f[31] == 'a' && f[44] == '_' && f[45] == 'x'
            && f[46] == '4'
    });
    assert({
        let f = catalog_entry(33).family;
        f.len() == 48 && f[0] == 's' && f[31] == 'a' && f[44] == '_' && f[45] == 'x'
            && f[46] == '1' && f[47] == '6'
    });
    assert({
        let f = catalog_entry(34).family;
        f.len() == 48 && f[0] == 's' && f[31] == 'a' && f[44] == '_' && f[45] == 'x'
            && f[46] == '6' && f[47] == '4'
    });
    assert({
        let f = catalog_entry(35).family;
        f.len() == 41 && f[0] == 's' && f[31] == 'b'
    });
    assert({
        let f = catalog_entry(36).family;
        f.len() == 42 && f[0] == 's' && f[31] == 's'
    });
    assert({
        let f = catalog_entry(37).family;
        f.len() == 48 && f[0] == 's' && f[31] == 'a' && f[44] == 'k' && f[45] == '_'
            && f[46] == 'x' && f[47] == '1'
    });
    assert({
        let f = catalog_entry(38).family;
        f.len() == 48 && f[0] == 's' && f[31] == 'a' && f[44] == 'k' && f[45] == '_'
            && f[46] == 'x' && f[47] == '4'
    });
    assert({
        let f = catalog_entry(39).family;
        f.len() == 49 && f[0] == 's' && f[31] == 'a' && f[44] == 'k' && f[45] == '_'
            && f[46] == 'x' && f[47] == '1'
    });
    assert({
        let f = catalog_entry(40).family;
        f.len() == 49 && f[0] == 's' && f[31] == 'a' && f[44] == 'k' && f[45] == '_'
            && f[46] == 'x' && f[47] == '6'
    });
    assert({
        let f = catalog_entry(41).family;
        f.len() == 27 && f[0] == 'e'
    });
    assert({
        let f = catalog_entry(42).family;
        f.len() == 34 && f[0] == 'e' && f[31] == '_'
    });
    assert({
        let f = catalog_entry(43).family;
        f.len() == 29 && f[0] == 's'
    });
    assert({
        let f = catalog_entry(44).family;
        f.len() == 36 && f[0] == 'd' && f[31] == 'a'
    });
    assert({
        let f = catalog_entry(45).family;
        f.len() == 43 && f[0] == 'd' && f[31] == 'o'
    });
    assert({
        let f = catalog_entry(46).family;
        f.len() == 49 && f[0] == 'd' && f[31] == 'e' && f[44] == 'o' && f[45] == 'o'
            && f[46] == 'k' && f[47] == 'u'
    });
    assert({
        let f = catalog_entry(47).family;
        f.len() == 44 && f[0] == 'd' && f[31] == 'u'
    });
    assert({
        let f = catalog_entry(48).family;
        f.len() == 45 && f[0] == 'd' && f[31] == 'e' && f[44] == 'e'
    });
    assert(find_family_from(catalog_entry(0).family, 0) == Some(0int)) by {
        reveal_with_fuel(find_family_from, 2);
    }
    assert(find_family_from(catalog_entry(1).family, 0) == Some(1int)) by {
        reveal_with_fuel(find_family_from, 3);
    }
    assert(find_family_from(catalog_entry(2).family, 0) == Some(2int)) by {
        reveal_with_fuel(find_family_from, 4);
    }
    assert(find_family_from(catalog_entry(3).family, 0) == Some(3int)) by {
        reveal_with_fuel(find_family_from, 5);
    }
    assert(find_family_from(catalog_entry(4).family, 0) == Some(4int)) by {
        reveal_with_fuel(find_family_from, 6);
    }
    assert(find_family_from(catalog_entry(5).family, 0) == Some(5int)) by {
        reveal_with_fuel(find_family_from, 7);
    }
    assert(find_family_from(catalog_entry(6).family, 0) == Some(6int)) by {
        reveal_with_fuel(find_family_from, 8);
    }
    assert(find_family_from(catalog_entry(7).family, 0) == Some(7int)) by {
        reveal_with_fuel(find_family_from, 9);
    }
    assert(find_family_from(catalog_entry(8).family, 0) == Some(8int)) by {
        reveal_with_fuel(find_family_from, 10);
    }
    assert(find_family_from(catalog_entry(9).family, 0) == Some(9int)) by {
        reveal_with_fuel(find_family_from, 11);
    }
    assert(find_family_from(catalog_entry(10).family, 0) == Some(10int)) by {
        reveal_with_fuel(find_family_from, 12);
    }
    assert(find_family_from(catalog_entry(11).family, 0) == Some(11int)) by {
        reveal_with_fuel(find_family_from, 13);
    }
    assert(find_family_from(catalog_entry(12).family, 0) == Some(12int)) by {
        reveal_with_fuel(find_family_from, 14);
    }
    assert(find_family_from(catalog_entry(13).family, 0) == Some(13int)) by {
        reveal_with_fuel(find_family_from, 15);
    }
    assert(find_family_from(catalog_entry(14).family, 0) == Some(14int)) by {
        reveal_with_fuel(find_family_from, 16);
    }
    assert(find_family_from(catalog_entry(15).family, 0) == Some(15int)) by {
        reveal_with_fuel(find_family_from, 17);
    }
    assert(find_family_from(catalog_entry(16).family, 0) == Some(16int)) by {
        reveal_with_fuel(find_family_from, 18);
    }
    assert(find_family_from(catalog_entry(17).family, 0) == Some(17int)) by {
        reveal_with_fuel(find_family_from, 19);
    }
    assert(find_family_from(catalog_entry(18).family, 0) == Some(18int)) by {
        reveal_with_fuel(find_family_from, 20);
    }
    assert(find_family_from(catalog_entry(19).family, 0) == Some(19int)) by {
        reveal_with_fuel(find_family_from, 21);
    }
    assert(find_family_from(catalog_entry(20).family, 0) == Some(20int)) by {
        reveal_with_fuel(find_family_from, 22);
    }
    assert(find_family_from(catalog_entry(21).family, 0) == Some(21int)) by {
        reveal_with_fuel(find_family_from, 23);
    }
    assert(find_family_from(catalog_entry(22).family, 0) == Some(22int)) by {
        reveal_with_fuel(find_family_from, 24);
    }
    assert(find_family_from(catalog_entry(23).family, 0) == Some(23int)) by {
        reveal_with_fuel(find_family_from, 25);
    }
    assert(find_family_from(catalog_entry(24).family, 0) == Some(24int)) by {
        reveal_with_fuel(find_family_from, 26);
    }
    assert(find_family_from(catalog_entry(25).family, 0) == Some(25int)) by {
        reveal_with_fuel(find_family_from, 27);
    }
    assert(find_family_from(catalog_entry(26).family, 0) == Some(26int)) by {
        reveal_with_fuel(find_family_from, 28);
    }
    assert(find_family_from(catalog_entry(27).family, 0) == Some(27int)) by {
        reveal_with_fuel(find_family_from, 29);
    }
    assert(find_family_from(catalog_entry(28).family, 0) == Some(28int)) by {
        reveal_with_fuel(find_family_from, 30);
    }
    assert(find_family_from(catalog_entry(29).family, 0) == Some(29int)) by {
        reveal_with_fuel(find_family_from, 31);
    }
    assert(find_family_from(catalog_entry(30).family, 0) == Some(30int)) by {
        reveal_with_fuel(find_family_from, 32);
    }
    assert(find_family_from(catalog_entry(31).family, 0) == Some(31int)) by {
        reveal_with_fuel(find_family_from, 33);
    }
    assert(find_family_from(catalog_entry(32).family, 0) == Some(32int)) by {
        reveal_with_fuel(find_family_from, 34);
    }
    assert(find_family_from(catalog_entry(33).family, 0) == Some(33int)) by {
        reveal_with_fuel(find_family_from, 35);
    }
    assert(find_family_from(catalog_entry(34).family, 0) == Some(34int)) by {
        reveal_with_fuel(find_family_from, 36);
    }
    assert(find_family_from(catalog_entry(35).family, 0) == Some(35int)) by {
        reveal_with_fuel(find_family_from, 37);
    }
    assert(find_family_from(catalog_entry(36).family, 0) == Some(36int)) by {
        reveal_with_fuel(find_family_from, 38);
    }
    assert(find_family_from(catalog_entry(37).family, 0) == Some(37int)) by {
        reveal_with_fuel(find_family_from, 39);
    }
    assert(find_family_from(catalog_entry(38).family, 0) == Some(38int)) by {
        reveal_with_fuel(find_family_from, 40);
    }
    assert(find_family_from(catalog_entry(39).family, 0) == Some(39int)) by {
        reveal_with_fuel(find_family_from, 41);
    }
    assert(find_family_from(catalog_entry(40).family, 0) == Some(40int)) by {
        reveal_with_fuel(find_family_from, 42);
    }
    assert(find_family_from(catalog_entry(41).family, 0) == Some(41int)) by {
        reveal_with_fuel(find_family_from, 43);
    }
    assert(find_family_from(catalog_entry(42).family, 0) == Some(42int)) by {
        reveal_with_fuel(find_family_from, 44);
    }
    assert(find_family_from(catalog_entry(43).family, 0) == Some(43int)) by {
        reveal_with_fuel(find_family_from, 45);
    }
    assert(find_family_from(catalog_entry(44).family, 0) == Some(44int)) by {
        reveal_with_fuel(find_family_from, 46);
    }
    assert(find_family_from(catalog_entry(45).family, 0) == Some(45int)) by {
        reveal_with_fuel(find_family_from, 47);
    }
    assert(find_family_from(catalog_entry(46).family, 0) == Some(46int)) by {
        reveal_with_fuel(find_family_from, 48);
    }
    assert(find_family_from(catalog_entry(47).family, 0) == Some(47int)) by {
        reveal_with_fuel(find_family_from, 49);
    }
    assert(find_family_from(catalog_entry(48).family, 0) == Some(48int)) by {
        reveal_with_fuel(find_family_from, 50);
    }
    assert forall|i: int| 0 <= i < CATALOG_LEN implies find_family_from(
        #[trigger] catalog_entry(i).family,
        0,
    ) == Some(i) by {
        if i == 0 {
        } else if i == 1 {
        } else if i == 2 {
        } else if i == 3 {
        } else if i == 4 {
        } else if i == 5 {
        } else if i == 6 {
        } else if i == 7 {
        } else if i == 8 {
        } else if i == 9 {
        } else if i == 10 {
        } else if i == 11 {
        } else if i == 12 {
        } else if i == 13 {
        } else if i == 14 {
        } else if i == 15 {
        } else if i == 16 {
        } else if i == 17 {
        } else if i == 18 {
        } else if i == 19 {
        } else if i == 20 {
        } else if i == 21 {
        } else if i == 22 {
        } else if i == 23 {
        } else if i == 24 {
        } else if i == 25 {
        } else if i == 26 {
        } else if i == 27 {
        } else if i == 28 {
        } else if i == 29 {
        } else if i == 30 {
        } else if i == 31 {
        } else if i == 32 {
        } else if i == 33 {
        } else if i == 34 {
        } else if i == 35 {
        } else if i == 36 {
        } else if i == 37 {
        } else if i == 38 {
        } else if i == 39 {
        } else if i == 40 {
        } else if i == 41 {
        } else if i == 42 {
        } else if i == 43 {
        } else if i == 44 {
        } else if i == 45 {
        } else if i == 46 {
        } else if i == 47 {
        } else {
        }
    }
}

/// Whether an entry has class `class`.
pub open spec fn has_class(class: BenchmarkClass) -> spec_fn(BenchmarkEntry) -> bool {
    |entry: BenchmarkEntry| entry.class == class
}

/// The canonical families of class `class`, in catalog order.
pub open spec fn canonical_of_class(class: BenchmarkClass) -> Seq<BenchmarkEntry> {
    canonical_catalog().filter(has_class(class))
}

/// How many of the first `n` catalog entries have class `class`.
spec fn class_count_below(class: BenchmarkClass, n: int) -> nat
    decreases n,
{
    if n <= 0 {
        0
    } else {
        class_count_below(class, n - 1) + if catalog_entry(n - 1).class == class {
            1nat
        } else {
            0nat
        }
    }
}

/// Filtering the first `n` canonical families by class keeps
/// `class_count_below(class, n)` of them.
proof fn lemma_canonical_prefix_class_count(class: BenchmarkClass, n: int)
    requires
        0 <= n <= CANONICAL_BENCHMARK_COUNT,
    ensures
        canonical_catalog().take(n).filter(has_class(class)).len() == class_count_below(class, n),
    decreases n,
{
    reveal(Seq::filter);
    if n > 0 {
        lemma_canonical_prefix_class_count(class, n - 1);
        assert(canonical_catalog().take(n).drop_last() =~= canonical_catalog().take(n - 1));
    }
}

/// The canonical families split into 29 comparable, 14 scenario and 1
/// diagnostic families.
pub proof fn lemma_canonical_class_split()
    ensures
        canonical_of_class(BenchmarkClass::Comparable).len() == 29,
        canonical_of_class(BenchmarkClass::Scenario).len() == 14,
        canonical_of_class(BenchmarkClass::Diagnostic).len() == 1,
{
    assert(canonical_catalog().take(CANONICAL_BENCHMARK_COUNT as int) =~= canonical_catalog());
    lemma_canonical_prefix_class_count(BenchmarkClass::Comparable, CANONICAL_BENCHMARK_COUNT as int);
    lemma_canonical_prefix_class_count(BenchmarkClass::Scenario, CANONICAL_BENCHMARK_COUNT as int);
    lemma_canonical_prefix_class_count(BenchmarkClass::Diagnostic, CANONICAL_BENCHMARK_COUNT as int);
    reveal_with_fuel(class_count_below, 45);
}

/// The population size that a family's name ends with: `_1m`, `_100k`,
/// `_10k` or `_1k`.
pub open spec fn named_entity_count(family: Seq<char>) -> Option<usize> {
    if ends_with_seq(family, "_1m"@) {
        Some(1_000_000)
    } else if ends_with_seq(family, "_100k"@) {
        Some(100_000)
    } else if ends_with_seq(family, "_10k"@) {
        Some(10_000)
    } else if ends_with_seq(family, "_1k"@) {
        Some(1_000)
    } else {
        None
    }
}

/// A fixed item count agrees with the population its family names.
pub open spec fn fixed_count_follows_name(entry: BenchmarkEntry) -> bool {
    match (entry.work_items, named_entity_count(entry.family)) {
        (WorkItems::Fixed(count), Some(named)) => count == named,
        _ => true,
    }
}

/// Every catalog family with a fixed item count whose name ends in a
/// population size (`_1k`, `_10k`, `_100k`, `_1m`) processes exactly that
/// many items per run.
pub proof fn lemma_fixed_counts_follow_names()
    ensures
        forall|i: int| 0 <= i < CATALOG_LEN ==> #[trigger] fixed_count_follows_name(catalog_entry(i)),
{
    reveal_strlit("_1m");
    reveal_strlit("_100k");
    reveal_strlit("_10k");
    reveal_strlit("_1k");
    assert forall|i: int| 0 <= i < CATALOG_LEN implies #[trigger] fixed_count_follows_name(
        catalog_entry(i),
    ) by {
        if i == 0 {
            reveal_strlit("scenario_native_bulk_construction/insert_10k");
            let f = catalog_entry(0).family;
            assert(!matches_from(f, "_1m"@, 41, 0)) by {
                reveal_with_fuel(matches_from, 5);
            }
            lemma_matches_occurs(f, "_1m"@, 41);
            assert(!matches_from(f, "_100k"@, 39, 0)) by {
                reveal_with_fuel(matches_from, 7);
            }
            lemma_matches_occurs(f, "_100k"@, 39);
            assert(matches_from(f, "_10k"@, 40, 0)) by {
                reveal_with_fuel(matches_from, 6);
            }
            lemma_matches_occurs(f, "_10k"@, 40);
        } else if i == 1 {
            reveal_strlit("prepared_construction/single_insert_10k");
            let f = catalog_entry(1).family;
            assert(!matches_from(f, "_1m"@, 36, 0)) by {
                reveal_with_fuel(matches_from, 5);
            }
            lemma_matches_occurs(f, "_1m"@, 36);
            assert(!matches_from(f, "_100k"@, 34, 0)) by {
                reveal_with_fuel(matches_from, 7);
            }
            lemma_matches_occurs(f, "_100k"@, 34);
            assert(matches_from(f, "_10k"@, 35, 0)) by {
                reveal_with_fuel(matches_from, 6);
            }
            lemma_matches_occurs(f, "_10k"@, 35);
        } else if i == 2 {
            reveal_strlit("prepared_iteration/simple_10k");
            let f = catalog_entry(2).family;
            assert(!matches_from(f, "_1m"@, 26, 0)) by {
                reveal_with_fuel(matches_from, 5);
            }
            lemma_matches_occurs(f, "_1m"@, 26);
            assert(!matches_from(f, "_100k"@, 24, 0)) by {
                reveal_with_fuel(matches_from, 7);
            }
            lemma_matches_occurs(f, "_100k"@, 24);
            assert(matches_from(f, "_10k"@, 25, 0)) by {
                reveal_with_fuel(matches_from, 6);
            }
            lemma_matches_occurs(f, "_10k"@, 25);
        } else if i == 3 {
            reveal_strlit("prepared_iteration_large/simple_100k");
            let f = catalog_entry(3).family;
            assert(!matches_from(f, "_1m"@, 33, 0)) by {
                reveal_with_fuel(matches_from, 5);
            }
            lemma_matches_occurs(f, "_1m"@, 33);
            assert(matches_from(f, "_100k"@, 31, 0)) by {
                reveal_with_fuel(matches_from, 7);
            }
            lemma_matches_occurs(f, "_100k"@, 31);
        } else if i == 4 {
            reveal_strlit("prepared_iteration_1m/simple_1m");
            let f = catalog_entry(4).family;
            assert(matches_from(f, "_1m"@, 28, 0)) by {
                reveal_with_fuel(matches_from, 5);
            }
            lemma_matches_occurs(f, "_1m"@, 28);
        } else if i == 5 {
            reveal_strlit("prepared_fragmented_iteration/fragmented_26x400");
            let f = catalog_entry(5).family;
            assert(!matches_from(f, "_1m"@, 44, 0)) by {
                reveal_with_fuel(matches_from, 5);
            }
            lemma_matches_occurs(f, "_1m"@, 44);
            assert(!matches_from(f, "_100k"@, 42, 0)) by {
                reveal_with_fuel(matches_from, 7);
            }
            lemma_matches_occurs(f, "_100k"@, 42);
            assert(!matches_from(f, "_10k"@, 43, 0)) by {
                reveal_with_fuel(matches_from, 6);
            }
            lemma_matches_occurs(f, "_10k"@, 43);
            assert(!matches_from(f, "_1k"@, 44, 0)) by {
                reveal_with_fuel(matches_from, 5);
            }
            lemma_matches_occurs(f, "_1k"@, 44);
        } else if i == 27 {
            reveal_strlit("entity_id_random_access/hot_10k");
            let f = catalog_entry(27).family;
            assert(!matches_from(f, "_1m"@, 28, 0)) by {
                reveal_with_fuel(matches_from, 5);
            }
            lemma_matches_occurs(f, "_1m"@, 28);
            assert(!matches_from(f, "_100k"@, 26, 0)) by {
                reveal_with_fuel(matches_from, 7);
            }
            lemma_matches_occurs(f, "_100k"@, 26);
            assert(matches_from(f, "_10k"@, 27, 0)) by {
                reveal_with_fuel(matches_from, 6);
            }
            lemma_matches_occurs(f, "_10k"@, 27);
        } else if i == 28 {
            reveal_strlit("entity_id_random_access/warm_100k");
            let f = catalog_entry(28).family;
            assert(!matches_from(f, "_1m"@, 30, 0)) by {
                reveal_with_fuel(matches_from, 5);
            }
            lemma_matches_occurs(f, "_1m"@, 30);
            assert(matches_from(f, "_100k"@, 28, 0)) by {
                reveal_with_fuel(matches_from, 7);
            }
            lemma_matches_occurs(f, "_100k"@, 28);
        } else if i == 29 {
            reveal_strlit("scenario_fixed_sequence_access/build_10k");
            let f = catalog_entry(29).family;
            assert(!matches_from(f, "_1m"@, 37, 0)) by {
                reveal_with_fuel(matches_from, 5);
            }
            lemma_matches_occurs(f, "_1m"@, 37);
            assert(!matches_from(f, "_100k"@, 35, 0)) by {
                reveal_with_fuel(matches_from, 7);
            }
            lemma_matches_occurs(f, "_100k"@, 35);
            assert(matches_from(f, "_10k"@, 36, 0)) by {
                reveal_with_fuel(matches_from, 6);
            }
            lemma_matches_occurs(f, "_10k"@, 36);
        } else if i == 30 {
            reveal_strlit("scenario_fixed_sequence_access/steady_10k");
            let f = catalog_entry(30).family;
            assert(!matches_from(f, "_1m"@, 38, 0)) by {
                reveal_with_fuel(matches_from, 5);
            }
            lemma_matches_occurs(f, "_1m"@, 38);
            assert(!matches_from(f, "_100k"@, 36, 0)) by {
                reveal_with_fuel(matches_from, 7);
            }
            lemma_matches_occurs(f, "_100k"@, 36);
            assert(matches_from(f, "_10k"@, 37, 0)) by {
                reveal_with_fuel(matches_from, 6);
            }
            lemma_matches_occurs(f, "_10k"@, 37);
        } else if i == 31 {
            reveal_strlit("scenario_fixed_sequence_access/amortized_10k_x1");
            let f = catalog_entry(31).family;
            assert(!matches_from(f, "_1m"@, 44, 0)) by {
                reveal_with_fuel(matches_from, 5);
            }
            lemma_matches_occurs(f, "_1m"@, 44);
            assert(!matches_from(f, "_100k"@, 42, 0)) by {
                reveal_with_fuel(matches_from, 7);
            }
            lemma_matches_occurs(f, "_100k"@, 42);
            assert(!matches_from(f, "_10k"@, 43, 0)) by {
                reveal_with_fuel(matches_from, 6);
            }
            lemma_matches_occurs(f, "_10k"@, 43);
            assert(!matches_from(f, "_1k"@, 44, 0)) by {
                reveal_with_fuel(matches_from, 5);
            }
            lemma_matches_occurs(f, "_1k"@, 44);
        } else if i == 32 {
            reveal_strlit("scenario_fixed_sequence_access/amortized_10k_x4");
            let f = catalog_entry(32).family;
            assert(!matches_from(f, "_1m"@, 44, 0)) by {
                reveal_with_fuel(matches_from, 5);
            }
            lemma_matches_occurs(f, "_1m"@, 44);
            assert(!matches_from(f, "_100k"@, 42, 0)) by {
                reveal_with_fuel(matches_from, 7);
            }
            lemma_matches_occurs(f, "_100k"@, 42);
            assert(!matches_from(f, "_10k"@, 43, 0)) by {
                reveal_with_fuel(matches_from, 6);
            }
            lemma_matches_occurs(f, "_10k"@, 43);
            assert(!matches_from(f, "_1k"@, 44, 0)) by {
                reveal_with_fuel(matches_from, 5);
            }
            lemma_matches_occurs(f, "_1k"@, 44);
        } else if i == 33 {
            reveal_strlit("scenario_fixed_sequence_access/amortized_10k_x16");
            let f = catalog_entry(33).family;
            assert(!matches_from(f, "_1m"@, 45, 0)) by {
                reveal_with_fuel(matches_from, 5);
            }
            lemma_matches_occurs(f, "_1m"@, 45);
            assert(!matches_from(f, "_100k"@, 43, 0)) by {
                reveal_with_fuel(matches_from, 7);
            }
            lemma_matches_occurs(f, "_100k"@, 43);
            assert(!matches_from(f, "_10k"@, 44, 0)) by {
                reveal_with_fuel(matches_from, 6);
            }
            lemma_matches_occurs(f, "_10k"@, 44);
            assert(!matches_from(f, "_1k"@, 45, 0)) by {
                reveal_with_fuel(matches_from, 5);
            }
            lemma_matches_occurs(f, "_1k"@, 45);
        } else if i == 34 {
            reveal_strlit("scenario_fixed_sequence_access/amortized_10k_x64");
            let f = catalog_entry(34).family;
            assert(!matches_from(f, "_1m"@, 45, 0)) by {
                reveal_with_fuel(matches_from, 5);
            }
            lemma_matches_occurs(f, "_1m"@, 45);
            assert(!matches_from(f, "_100k"@, 43, 0)) by {
                reveal_with_fuel(matches_from, 7);
            }
            lemma_matches_occurs(f, "_100k"@, 43);
            assert(!matches_from(f, "_10k"@, 44, 0)) by {
                reveal_with_fuel(matches_from, 6);
            }
            lemma_matches_occurs(f, "_10k"@, 44);
            assert(!matches_from(f, "_1k"@, 45, 0)) by {
                reveal_with_fuel(matches_from, 5);
            }
            lemma_matches_occurs(f, "_1k"@, 45);
        } else if i == 35 {
            reveal_strlit("scenario_fixed_sequence_access/build_100k");
            let f = catalog_entry(35).family;
            assert(!matches_from(f, "_1m"@, 38, 0)) by {
                reveal_with_fuel(matches_from, 5);
            }
            lemma_matches_occurs(f, "_1m"@, 38);
            assert(matches_from(f, "_100k"@, 36, 0)) by {
                reveal_with_fuel(matches_from, 7);
            }
            lemma_matches_occurs(f, "_100k"@, 36);
        } else if i == 36 {
            reveal_strlit("scenario_fixed_sequence_access/steady_100k");
            let f = catalog_entry(36).family;
            assert(!matches_from(f, "_1m"@, 39, 0)) by {
                reveal_with_fuel(matches_from, 5);
            }
            lemma_matches_occurs(f, "_1m"@, 39);
            assert(matches_from(f, "_100k"@, 37, 0)) by {
                reveal_with_fuel(matches_from, 7);
            }
            lemma_matches_occurs(f, "_100k"@, 37);
        } else if i == 37 {
            reveal_strlit("scenario_fixed_sequence_access/amortized_100k_x1");
            let f = catalog_entry(37).family;
            assert(!matches_from(f, "_1m"@, 45, 0)) by {
                reveal_with_fuel(matches_from, 5);
            }
            lemma_matches_occurs(f, "_1m"@, 45);
            assert(!matches_from(f, "_100k"@, 43, 0)) by {
                reveal_with_fuel(matches_from, 7);
            }
            lemma_matches_occurs(f, "_100k"@, 43);
            assert(!matches_from(f, "_10k"@, 44, 0)) by {
                reveal_with_fuel(matches_from, 6);
            }
            lemma_matches_occurs(f, "_10k"@, 44);
            assert(!matches_from(f, "_1k"@, 45, 0)) by {
                reveal_with_fuel(matches_from, 5);
            }
            lemma_matches_occurs(f, "_1k"@, 45);
        } else if i == 38 {
            reveal_strlit("scenario_fixed_sequence_access/amortized_100k_x4");
            let f = catalog_entry(38).family;
            assert(!matches_from(f, "_1m"@, 45, 0)) by {
                reveal_with_fuel(matches_from, 5);
            }
            lemma_matches_occurs(f, "_1m"@, 45);
            assert(!matches_from(f, "_100k"@, 43, 0)) by {
                reveal_with_fuel(matches_from, 7);
            }
            lemma_matches_occurs(f, "_100k"@, 43);
            assert(!matches_from(f, "_10k"@, 44, 0)) by {
                reveal_with_fuel(matches_from, 6);
            }
            lemma_matches_occurs(f, "_10k"@, 44);
            assert(!matches_from(f, "_1k"@, 45, 0)) by {
                reveal_with_fuel(matches_from, 5);
            }
            lemma_matches_occurs(f, "_1k"@, 45);
        } else if i == 39 {
            reveal_strlit("scenario_fixed_sequence_access/amortized_100k_x16");
            let f = catalog_entry(39).family;
            assert(!matches_from(f, "_1m"@, 46, 0)) by {
                reveal_with_fuel(matches_from, 5);
            }
            lemma_matches_occurs(f, "_1m"@, 46);
            assert(!matches_from(f, "_100k"@, 44, 0)) by {
                reveal_with_fuel(matches_from, 7);
            }
            lemma_matches_occurs(f, "_100k"@, 44);
            assert(!matches_from(f, "_10k"@, 45, 0)) by {
                reveal_with_fuel(matches_from, 6);
            }
            lemma_matches_occurs(f, "_10k"@, 45);
            assert(!matches_from(f, "_1k"@, 46, 0)) by {
                reveal_with_fuel(matches_from, 5);
            }
            lemma_matches_occurs(f, "_1k"@, 46);
        } else if i == 40 {
            reveal_strlit("scenario_fixed_sequence_access/amortized_100k_x64");
            let f = catalog_entry(40).family;
            assert(!matches_from(f, "_1m"@, 46, 0)) by {
                reveal_with_fuel(matches_from, 5);
            }
            lemma_matches_occurs(f, "_1m"@, 46);
            assert(!matches_from(f, "_100k"@, 44, 0)) by {
                reveal_with_fuel(matches_from, 7);
            }
            lemma_matches_occurs(f, "_100k"@, 44);
            assert(!matches_from(f, "_10k"@, 45, 0)) by {
                reveal_with_fuel(matches_from, 6);
            }
            lemma_matches_occurs(f, "_10k"@, 45);
            assert(!matches_from(f, "_1k"@, 46, 0)) by {
                reveal_with_fuel(matches_from, 5);
            }
            lemma_matches_occurs(f, "_1k"@, 46);
        } else if i == 41 {
            reveal_strlit("entity_ops/spawn_despawn_1k");
            let f = catalog_entry(41).family;
            assert(!matches_from(f, "_1m"@, 24, 0)) by {
                reveal_with_fuel(matches_from, 5);
            }
            lemma_matches_occurs(f, "_1m"@, 24);
            assert(!matches_from(f, "_100k"@, 22, 0)) by {
                reveal_with_fuel(matches_from, 7);
            }
            lemma_matches_occurs(f, "_100k"@, 22);
            assert(!matches_from(f, "_10k"@, 23, 0)) by {
                reveal_with_fuel(matches_from, 6);
            }
            lemma_matches_occurs(f, "_10k"@, 23);
            assert(matches_from(f, "_1k"@, 24, 0)) by {
                reveal_with_fuel(matches_from, 5);
            }
            lemma_matches_occurs(f, "_1k"@, 24);
        } else if i == 42 {
            reveal_strlit("entity_ops/add_remove_component_1k");
            let f = catalog_entry(42).family;
            assert(!matches_from(f, "_1m"@, 31, 0)) by {
                reveal_with_fuel(matches_from, 5);
            }
            lemma_matches_occurs(f, "_1m"@, 31);
            assert(!matches_from(f, "_100k"@, 29, 0)) by {
                reveal_with_fuel(matches_from, 7);
            }
            lemma_matches_occurs(f, "_100k"@, 29);
            assert(!matches_from(f, "_10k"@, 30, 0)) by {
                reveal_with_fuel(matches_from, 6);
            }
            lemma_matches_occurs(f, "_10k"@, 30);
            assert(matches_from(f, "_1k"@, 31, 0)) by {
                reveal_with_fuel(matches_from, 5);
            }
            lemma_matches_occurs(f, "_1k"@, 31);
        }
    }
}

/// The canonical families, in catalog order.
pub fn canonical_benchmarks() -> (r: Vec<BenchmarkSpec>)
    ensures
        r@.len() == CANONICAL_BENCHMARK_COUNT,
        forall|i: int| 0 <= i < r@.len() ==> #[trigger] r@[i]@ == canonical_catalog()[i],
{
    catalog_range(0, CANONICAL_BENCHMARK_COUNT)
}

/// The diagnostic gameplay-phase families, in catalog order.
pub fn gameplay_phase_benchmarks() -> (r: Vec<BenchmarkSpec>)
    ensures
        r@.len() == GAMEPLAY_PHASE_BENCHMARK_COUNT,
        forall|i: int| 0 <= i < r@.len() ==> #[trigger] r@[i]@ == gameplay_phase_catalog()[i],
{
    catalog_range(CANONICAL_BENCHMARK_COUNT, CATALOG_LEN)
}

/// Catalog entries `from..to`.
fn catalog_range(from: usize, to: usize) -> (r: Vec<BenchmarkSpec>)
    requires
        from <= to <= CATALOG_LEN,
    ensures
        r@.len() == to - from,
        forall|i: int| 0 <= i < r@.len() ==> #[trigger] r@[i]@ == catalog_entry(i + from),
{
    let mut r: Vec<BenchmarkSpec> = Vec::new();
    let mut i: usize = from;
    while i < to
        invariant
            from <= i <= to <= CATALOG_LEN,
            r@.len() == i - from,
            forall|k: int| 0 <= k < r@.len() ==> #[trigger] r@[k]@ == catalog_entry(k + from),
        decreases to - i,
    {
        r.push(catalog_entry_at(i));
        i = i + 1;
    }
    r
}

/// The index of the first catalog entry at or after `i` whose family is `family`.
pub open spec fn find_family_from(family: Seq<char>, i: int) -> Option<int>
    decreases CATALOG_LEN - i,
{
    if i < 0 || i >= CATALOG_LEN {
        None
    } else if catalog_entry(i).family == family {
        Some(i)
    } else {
        find_family_from(family, i + 1)
    }
}

/// The catalog entry of `family`, if the catalog holds one.
pub open spec fn lookup_family(family: Seq<char>) -> Option<BenchmarkEntry> {
    match find_family_from(family, 0) {
        Some(i) => Some(catalog_entry(i)),
        None => None,
    }
}

/// The catalog entry of the family whose characters are `family`.
fn find_spec_chars(family: &Vec<char>) -> (r: Option<BenchmarkSpec>)
    ensures
        match r {
            Some(spec) => lookup_family(family@) == Some(spec@),
            None => lookup_family(family@) is None,
        },
{
    let mut i: usize = 0;
    while i < CATALOG_LEN
        invariant
            i <= CATALOG_LEN,
            find_family_from(family@, 0) == find_family_from(family@, i as int),
        decreases CATALOG_LEN - i,
    {
        let spec = catalog_entry_at(i);
        let candidate = chars_of(spec.family);
        if chars_equal(&candidate, family) {
            return Some(spec);
        }
        i = i + 1;
    }
    None
}

/// The catalog entry of `family` (the first one, searching the canonical
/// families before the gameplay-phase families).
pub fn benchmark_spec(family: &str) -> (r: Option<BenchmarkSpec>)
    ensures
        match r {
            Some(spec) => lookup_family(family@) == Some(spec@),
            None => lookup_family(family@) is None,
        },
{
    let chars = chars_of(family);
    find_spec_chars(&chars)
}

/// The family part of a full benchmark identifier `family/engine`.
pub open spec fn family_of(full_id: Seq<char>) -> Option<Seq<char>> {
    match rsplit_once_seq(full_id, seq!['/']) {
        Some((family, _)) => Some(family),
        None => None,
    }
}

/// The number of work items of the benchmark `full_id`.
pub open spec fn work_items_of(full_id: Seq<char>) -> Option<usize> {
    match family_of(full_id) {
        Some(family) => match lookup_family(family) {
            Some(entry) => resolve_work_items(entry.work_items),
            None => None,
        },
        None => None,
    }
}

/// The family part of `full_id`, split at its last `/`.
fn family_chars(full_id: &str) -> (r: Option<Vec<char>>)
    ensures
        match r {
            Some(family) => family_of(full_id@) == Some(family@),
            None => family_of(full_id@) is None,
        },
{
    let id = chars_of(full_id);
    let slash = vec!['/'];
    assert(slash@ =~= seq!['/']);
    match rsplit_once_chars(&id, &slash) {
        Some((family, _)) => Some(family),
        None => None,
    }
}

/// The number of work items of the benchmark `full_id`: `None` when the
/// identifier has no `/`, when its family is not in the catalog, or when
/// the family counts no items.
pub fn benchmark_work_items(full_id: &str) -> (r: Option<usize>)
    ensures
        r == work_items_of(full_id@),
{
    let family = match family_chars(full_id) {
        Some(family) => family,
        None => return None,
    };
    match find_spec_chars(&family) {
        Some(spec) => {
            proof {
                lemma_catalog_work_items_valid();
                lemma_find_family_in_range(family@, 0);
            }
            spec.work_items.resolve()
        },
        None => None,
    }
}

/// The class of the benchmark `full_id`.
pub open spec fn class_of(full_id: Seq<char>) -> Option<BenchmarkClass> {
    match family_of(full_id) {
        Some(family) => match lookup_family(family) {
            Some(entry) => Some(entry.class),
            None => None,
        },
        None => None,
    }
}

/// The class of the benchmark `full_id`: `None` when the identifier has no
/// `/` or its family is not in the catalog.
pub fn benchmark_class(full_id: &str) -> (r: Option<BenchmarkClass>)
    ensures
        r == class_of(full_id@),
{
    let family = match family_chars(full_id) {
        Some(family) => family,
        None => return None,
    };
    match find_spec_chars(&family) {
        Some(spec) => Some(spec.class),
        None => None,
    }
}

/// What `find_family_from` returns is an index of the catalog.
pub proof fn lemma_find_family_in_range(family: Seq<char>, i: int)
    ensures
        find_family_from(family, i) matches Some(k) ==> i <= k < CATALOG_LEN && catalog_entry(k).family
            == family,
    decreases CATALOG_LEN - i,
{
    if 0 <= i < CATALOG_LEN && catalog_entry(i).family != family {
        lemma_find_family_in_range(family, i + 1);
    }
}

/// The benchmark `family/engine` of a catalog family, for an engine name
/// without `/`, has the family, the class and the work items of that
/// catalog entry.
pub proof fn lemma_catalog_benchmark_id(i: int, engine: Seq<char>)
    requires
        0 <= i < CATALOG_LEN,
        !engine.contains('/'),
    ensures
        ({
            let id = catalog_entry(i).family + seq!['/'] + engine;
            &&& family_of(id) == Some(catalog_entry(i).family)
            &&& class_of(id) == Some(catalog_entry(i).class)
            &&& work_items_of(id) == resolve_work_items(catalog_entry(i).work_items)
        }),
{
    lemma_rsplit_once_last_slash(catalog_entry(i).family, engine);
    lemma_catalog_families_unique();
}

/// The prefix of the fixed-sequence scenario families.
pub open spec fn fixed_sequence_prefix() -> Seq<char> {
    "scenario_fixed_sequence_access/"@
}

/// The prefix of the amortized fixed-sequence scenario families.
pub open spec fn amortized_prefix() -> Seq<char> {
    "scenario_fixed_sequence_access/amortized_"@
}

/// The plan and the traversal count of the amortized family of catalog
/// entry `i`, read off its name.
proof fn lemma_amortized_family(i: int)
    requires
        i == 31 || i == 32 || i == 33 || i == 34 || i == 37 || i == 38 || i == 39 || i == 40,
    ensures
        ({
            let f = catalog_entry(i).family;
            let entities: int = if i < 35 { 10_000 } else { 100_000 };
            &&& strip_prefix_seq(f, amortized_prefix()) matches Some(rest) && rsplit_once_seq(rest, "_x"@) matches Some(
                (_, suffix),
            ) && parse_usize_spec(suffix) matches Some(r) && (r == 1 || r == 4 || r == 16 || r == 64)
                && catalog_entry(i).work_items == WorkItems::Fixed((entities * r) as usize)
            &&& starts_with_seq(f, fixed_sequence_prefix())
            &&& contains_seq(f, "100k"@) <==> entities == 100_000
            &&& entities == 10_000 ==> contains_seq(f, "10k"@)
        }),
{
    reveal_strlit("scenario_fixed_sequence_access/amortized_");
    reveal_strlit("scenario_fixed_sequence_access/");
    reveal_strlit("_x");
    reveal_strlit("100k");
    reveal_strlit("10k");
    if i == 31 {
        reveal_strlit("scenario_fixed_sequence_access/amortized_10k_x1");
        let f = catalog_entry(31).family;
        assert(matches_from(f, amortized_prefix(), 0, 0)) by {
            reveal_with_fuel(matches_from, 42);
        }
        lemma_matches_occurs(f, amortized_prefix(), 0);
        let rest = f.subrange(41, 47);
        assert(matches_from(rest, "_x"@, 3, 0)) by {
            reveal_with_fuel(matches_from, 3);
        }
        assert(no_match_in(rest, "_x"@, 4, 7)) by {
            reveal_with_fuel(no_match_in, 4);
            reveal_with_fuel(matches_from, 3);
        }
        lemma_last_occurrence_at(rest, "_x"@, 3);
        let suffix = rest.subrange(5, 6);
        assert forall|k: int| 0 <= k < suffix.len() implies is_digit(#[trigger] suffix[k]) by {
            if k == 0 {
            } else {
            }
        }
        lemma_parse_short_digits(suffix);
        assert(matches_from(f, fixed_sequence_prefix(), 0, 0)) by {
            reveal_with_fuel(matches_from, 32);
        }
        lemma_matches_occurs(f, fixed_sequence_prefix(), 0);
        assert(no_match_in(f, "100k"@, 0, 44)) by {
            reveal_with_fuel(no_match_in, 45);
            reveal_with_fuel(matches_from, 5);
        }
        lemma_not_contains(f, "100k"@);
        assert(matches_from(f, "10k"@, 41, 0)) by {
            reveal_with_fuel(matches_from, 4);
        }
        lemma_matches_occurs(f, "10k"@, 41);
    } else if i == 32 {
        reveal_strlit("scenario_fixed_sequence_access/amortized_10k_x4");
        let f = catalog_entry(32).family;
        assert(matches_from(f, amortized_prefix(), 0, 0)) by {
            reveal_with_fuel(matches_from, 42);
        }
        lemma_matches_occurs(f, amortized_prefix(), 0);
        let rest = f.subrange(41, 47);
        assert(matches_from(rest, "_x"@, 3, 0)) by {
            reveal_with_fuel(matches_from, 3);
        }
        assert(no_match_in(rest, "_x"@, 4, 7)) by {
            reveal_with_fuel(no_match_in, 4);
            reveal_with_fuel(matches_from, 3);
        }
        lemma_last_occurrence_at(rest, "_x"@, 3);
        let suffix = rest.subrange(5, 6);
        assert forall|k: int| 0 <= k < suffix.len() implies is_digit(#[trigger] suffix[k]) by {
            if k == 0 {
            } else {
            }
        }
        lemma_parse_short_digits(suffix);
        assert(matches_from(f, fixed_sequence_prefix(), 0, 0)) by {
            reveal_with_fuel(matches_from, 32);
        }
        lemma_matches_occurs(f, fixed_sequence_prefix(), 0);
        assert(no_match_in(f, "100k"@, 0, 44)) by {
            reveal_with_fuel(no_match_in, 45);
            reveal_with_fuel(matches_from, 5);
        }
        lemma_not_contains(f, "100k"@);
        assert(matches_from(f, "10k"@, 41, 0)) by {
            reveal_with_fuel(matches_from, 4);
        }
        lemma_matches_occurs(f, "10k"@, 41);
    } else if i == 33 {
        reveal_strlit("scenario_fixed_sequence_access/amortized_10k_x16");
        let f = catalog_entry(33).family;
        assert(matches_from(f, amortized_prefix(), 0, 0)) by {
            reveal_with_fuel(matches_from, 42);
        }
        lemma_matches_occurs(f, amortized_prefix(), 0);
        let rest = f.subrange(41, 48);
        assert(matches_from(rest, "_x"@, 3, 0)) by {
            reveal_with_fuel(matches_from, 3);
        }
        assert(no_match_in(rest, "_x"@, 4, 8)) by {
            reveal_with_fuel(no_match_in, 5);
            reveal_with_fuel(matches_from, 3);
        }
        lemma_last_occurrence_at(rest, "_x"@, 3);
        let suffix = rest.subrange(5, 7);
        assert forall|k: int| 0 <= k < suffix.len() implies is_digit(#[trigger] suffix[k]) by {
            if k == 0 {
            } else {
            }
        }
        lemma_parse_short_digits(suffix);
        assert(matches_from(f, fixed_sequence_prefix(), 0, 0)) by {
            reveal_with_fuel(matches_from, 32);
        }
        lemma_matches_occurs(f, fixed_sequence_prefix(), 0);
        assert(no_match_in(f, "100k"@, 0, 45)) by {
            reveal_with_fuel(no_match_in, 46);
            reveal_with_fuel(matches_from, 5);
        }
        lemma_not_contains(f, "100k"@);
        assert(matches_from(f, "10k"@, 41, 0)) by {
            reveal_with_fuel(matches_from, 4);
        }
        lemma_matches_occurs(f, "10k"@, 41);
    } else if i == 34 {
        reveal_strlit("scenario_fixed_sequence_access/amortized_10k_x64");
        let f = catalog_entry(34).family;
        assert(matches_from(f, amortized_prefix(), 0, 0)) by {
            reveal_with_fuel(matches_from, 42);
        }
        lemma_matches_occurs(f, amortized_prefix(), 0);
        let rest = f.subrange(41, 48);
        assert(matches_from(rest, "_x"@, 3, 0)) by {
            reveal_with_fuel(matches_from, 3);
        }
        assert(no_match_in(rest, "_x"@, 4, 8)) by {
            reveal_with_fuel(no_match_in, 5);
            reveal_with_fuel(matches_from, 3);
        }
        lemma_last_occurrence_at(rest, "_x"@, 3);
        let suffix = rest.subrange(5, 7);
        assert forall|k: int| 0 <= k < suffix.len() implies is_digit(#[trigger] suffix[k]) by {
            if k == 0 {
            } else {
            }
        }
        lemma_parse_short_digits(suffix);
        assert(matches_from(f, fixed_sequence_prefix(), 0, 0)) by {
            reveal_with_fuel(matches_from, 32);
        }
        lemma_matches_occurs(f, fixed_sequence_prefix(), 0);
        assert(no_match_in(f, "100k"@, 0, 45)) by {
            reveal_with_fuel(no_match_in, 46);
            reveal_with_fuel(matches_from, 5);
        }
        lemma_not_contains(f, "100k"@);
        assert(matches_from(f, "10k"@, 41, 0)) by {
            reveal_with_fuel(matches_from, 4);
        }
        lemma_matches_occurs(f, "10k"@, 41);
    } else if i == 37 {
        reveal_strlit("scenario_fixed_sequence_access/amortized_100k_x1");
        let f = catalog_entry(37).family;
        assert(matches_from(f, amortized_prefix(), 0, 0)) by {
            reveal_with_fuel(matches_from, 42);
        }
        lemma_matches_occurs(f, amortized_prefix(), 0);
        let rest = f.subrange(41, 48);
        assert(matches_from(rest, "_x"@, 4, 0)) by {
            reveal_with_fuel(matches_from, 3);
        }
        assert(no_match_in(rest, "_x"@, 5, 8)) by {
            reveal_with_fuel(no_match_in, 4);
            reveal_with_fuel(matches_from, 3);
        }
        lemma_last_occurrence_at(rest, "_x"@, 4);
        let suffix = rest.subrange(6, 7);
        assert forall|k: int| 0 <= k < suffix.len() implies is_digit(#[trigger] suffix[k]) by {
            if k == 0 {
            } else {
            }
        }
        lemma_parse_short_digits(suffix);
        assert(matches_from(f, fixed_sequence_prefix(), 0, 0)) by {
            reveal_with_fuel(matches_from, 32);
        }
        lemma_matches_occurs(f, fixed_sequence_prefix(), 0);
        assert(matches_from(f, "100k"@, 41, 0)) by {
            reveal_with_fuel(matches_from, 5);
        }
        lemma_matches_occurs(f, "100k"@, 41);
    } else if i == 38 {
        reveal_strlit("scenario_fixed_sequence_access/amortized_100k_x4");
        let f = catalog_entry(38).family;
        assert(matches_from(f, amortized_prefix(), 0, 0)) by {
            reveal_with_fuel(matches_from, 42);
        }
        lemma_matches_occurs(f, amortized_prefix(), 0);
        let rest = f.subrange(41, 48);
        assert(matches_from(rest, "_x"@, 4, 0)) by {
            reveal_with_fuel(matches_from, 3);
        }
        assert(no_match_in(rest, "_x"@, 5, 8)) by {
            reveal_with_fuel(no_match_in, 4);
            reveal_with_fuel(matches_from, 3);
        }
        lemma_last_occurrence_at(rest, "_x"@, 4);
        let suffix = rest.subrange(6, 7);
        assert forall|k: int| 0 <= k < suffix.len() implies is_digit(#[trigger] suffix[k]) by {
            if k == 0 {
            } else {
            }
        }
        lemma_parse_short_digits(suffix);
        assert(matches_from(f, fixed_sequence_prefix(), 0, 0)) by {
            reveal_with_fuel(matches_from, 32);
        }
        lemma_matches_occurs(f, fixed_sequence_prefix(), 0);
        assert(matches_from(f, "100k"@, 41, 0)) by {
            reveal_with_fuel(matches_from, 5);
        }
        lemma_matches_occurs(f, "100k"@, 41);
    } else if i == 39 {
        reveal_strlit("scenario_fixed_sequence_access/amortized_100k_x16");
        let f = catalog_entry(39).family;
        assert(matches_from(f, amortized_prefix(), 0, 0)) by {
            reveal_with_fuel(matches_from, 42);
        }
        lemma_matches_occurs(f, amortized_prefix(), 0);
        let rest = f.subrange(41, 49);
        assert(matches_from(rest, "_x"@, 4, 0)) by {
            reveal_with_fuel(matches_from, 3);
        }
        assert(no_match_in(rest, "_x"@, 5, 9)) by {
            reveal_with_fuel(no_match_in, 5);
            reveal_with_fuel(matches_from, 3);
        }
        lemma_last_occurrence_at(rest, "_x"@, 4);
        let suffix = rest.subrange(6, 8);
        assert forall|k: int| 0 <= k < suffix.len() implies is_digit(#[trigger] suffix[k]) by {
            if k == 0 {
            } else {
            }
        }
        lemma_parse_short_digits(suffix);
        assert(matches_from(f, fixed_sequence_prefix(), 0, 0)) by {
            reveal_with_fuel(matches_from, 32);
        }
        lemma_matches_occurs(f, fixed_sequence_prefix(), 0);
        assert(matches_from(f, "100k"@, 41, 0)) by {
            reveal_with_fuel(matches_from, 5);
        }
        lemma_matches_occurs(f, "100k"@, 41);
    } else {
        reveal_strlit("scenario_fixed_sequence_access/amortized_100k_x64");
        let f = catalog_entry(40).family;
        assert(matches_from(f, amortized_prefix(), 0, 0)) by {
            reveal_with_fuel(matches_from, 42);
        }
        lemma_matches_occurs(f, amortized_prefix(), 0);
        let rest = f.subrange(41, 49);
        assert(matches_from(rest, "_x"@, 4, 0)) by {
            reveal_with_fuel(matches_from, 3);
        }
        assert(no_match_in(rest, "_x"@, 5, 9)) by {
            reveal_with_fuel(no_match_in, 5);
            reveal_with_fuel(matches_from, 3);
        }
        lemma_last_occurrence_at(rest, "_x"@, 4);
        let suffix = rest.subrange(6, 8);
        assert forall|k: int| 0 <= k < suffix.len() implies is_digit(#[trigger] suffix[k]) by {
            if k == 0 {
            } else {
            }
        }
        lemma_parse_short_digits(suffix);
        assert(matches_from(f, fixed_sequence_prefix(), 0, 0)) by {
            reveal_with_fuel(matches_from, 32);
        }
        lemma_matches_occurs(f, fixed_sequence_prefix(), 0);
        assert(matches_from(f, "100k"@, 41, 0)) by {
            reveal_with_fuel(matches_from, 5);
        }
        lemma_matches_occurs(f, "100k"@, 41);
    }
}

/// The amortized fixed-sequence families are catalog entries 31 to 34 and
/// 37 to 40.
proof fn lemma_amortized_entries(i: int)
    requires
        0 <= i < CATALOG_LEN,
        starts_with_seq(catalog_entry(i).family, amortized_prefix()),
    ensures
        i == 31 || i == 32 || i == 33 || i == 34 || i == 37 || i == 38 || i == 39 || i == 40,
{
    reveal_strlit("scenario_fixed_sequence_access/amortized_");
    lemma_matches_occurs(catalog_entry(i).family, amortized_prefix(), 0);
    if i == 0 {
        reveal_strlit("scenario_native_bulk_construction/insert_10k");
        assert(!matches_from(catalog_entry(0).family, amortized_prefix(), 0, 0)) by {
            reveal_with_fuel(matches_from, 11);
        }
    } else if i == 1 {
        reveal_strlit("prepared_construction/single_insert_10k");
        assert(!matches_from(catalog_entry(1).family, amortized_prefix(), 0, 0)) by {
            reveal_with_fuel(matches_from, 2);
        }
    } else if i == 2 {
        reveal_strlit("prepared_iteration/simple_10k");
        assert(!matches_from(catalog_entry(2).family, amortized_prefix(), 0, 0)) by {
            reveal_with_fuel(matches_from, 2);
        }
    } else if i == 3 {
        reveal_strlit("prepared_iteration_large/simple_100k");
        assert(!matches_from(catalog_entry(3).family, amortized_prefix(), 0, 0)) by {
            reveal_with_fuel(matches_from, 2);
        }
    } else if i == 4 {
        reveal_strlit("prepared_iteration_1m/simple_1m");
        assert(!matches_from(catalog_entry(4).family, amortized_prefix(), 0, 0)) by {
            reveal_with_fuel(matches_from, 2);
        }
    } else if i == 5 {
        reveal_strlit("prepared_fragmented_iteration/fragmented_26x400");
        assert(!matches_from(catalog_entry(5).family, amortized_prefix(), 0, 0)) by {
            reveal_with_fuel(matches_from, 2);
        }
    } else if i == 6 {
        reveal_strlit("prepared_random_fragmented_iteration/random_6_tags_1_term");
        assert(!matches_from(catalog_entry(6).family, amortized_prefix(), 0, 0)) by {
            reveal_with_fuel(matches_from, 2);
        }
    } else if i == 7 {
        reveal_strlit("prepared_random_fragmented_iteration/random_6_tags_4_terms");
        assert(!matches_from(catalog_entry(7).family, amortized_prefix(), 0, 0)) by {
            reveal_with_fuel(matches_from, 2);
        }
    } else if i == 8 {
        reveal_strlit("prepared_random_fragmented_iteration/random_8_tags_1_term");
        assert(!matches_from(catalog_entry(8).family, amortized_prefix(), 0, 0)) by {
            reveal_with_fuel(matches_from, 2);
        }
    } else if i == 9 {
        reveal_strlit("prepared_random_fragmented_iteration/random_8_tags_4_terms");
        assert(!matches_from(catalog_entry(9).family, amortized_prefix(), 0, 0)) by {
            reveal_with_fuel(matches_from, 2);
        }
    } else if i == 10 {
        reveal_strlit("prepared_random_fragmented_iteration/random_10_tags_1_term");
        assert(!matches_from(catalog_entry(10).family, amortized_prefix(), 0, 0)) by {
            reveal_with_fuel(matches_from, 2);
        }
    } else if i == 11 {
        reveal_strlit("prepared_random_fragmented_iteration/random_10_tags_4_terms");
        assert(!matches_from(catalog_entry(11).family, amortized_prefix(), 0, 0)) by {
            reveal_with_fuel(matches_from, 2);
        }
    } else if i == 12 {
        reveal_strlit("prepared_random_fragmented_iteration/random_10_tags_8_terms");
        assert(!matches_from(catalog_entry(12).family, amortized_prefix(), 0, 0)) by {
            reveal_with_fuel(matches_from, 2);
        }
    } else if i == 13 {
        reveal_strlit("prepared_random_fragmented_iteration/random_16_tags_1_term");
        assert(!matches_from(catalog_entry(13).family, amortized_prefix(), 0, 0)) by {
            reveal_with_fuel(matches_from, 2);
        }
    } else if i == 14 {
        reveal_strlit("prepared_random_fragmented_iteration/random_16_tags_4_terms");
        assert(!matches_from(catalog_entry(14).family, amortized_prefix(), 0, 0)) by {
            reveal_with_fuel(matches_from, 2);
        }
    } else if i == 15 {
        reveal_strlit("prepared_random_fragmented_iteration/random_16_tags_8_terms");
        assert(!matches_from(catalog_entry(15).family, amortized_prefix(), 0, 0)) by {
            reveal_with_fuel(matches_from, 2);
        }
    } else if i == 16 {
        reveal_strlit("prepared_random_fragmented_iteration/random_6_components_1_term");
        assert(!matches_from(catalog_entry(16).family, amortized_prefix(), 0, 0)) by {
            reveal_with_fuel(matches_from, 2);
        }
    } else if i == 17 {
        reveal_strlit("prepared_random_fragmented_iteration/random_6_components_4_terms");
        assert(!matches_from(catalog_entry(17).family, amortized_prefix(), 0, 0)) by {
            reveal_with_fuel(matches_from, 2);
        }
    } else if i == 18 {
        reveal_strlit("prepared_random_fragmented_iteration/random_8_components_1_term");
        assert(!matches_from(catalog_entry(18).family, amortized_prefix(), 0, 0)) by {
            reveal_with_fuel(matches_from, 2);
        }
    } else if i == 19 {
        reveal_strlit("prepared_random_fragmented_iteration/random_8_components_4_terms");
        assert(!matches_from(catalog_entry(19).family, amortized_prefix(), 0, 0)) by {
            reveal_with_fuel(matches_from, 2);
        }
    } else if i == 20 {
        reveal_strlit("prepared_random_fragmented_iteration/random_10_components_1_term");
        assert(!matches_from(catalog_entry(20).family, amortized_prefix(), 0, 0)) by {
            reveal_with_fuel(matches_from, 2);
        }
    } else if i == 21 {
        reveal_strlit("prepared_random_fragmented_iteration/random_10_components_4_terms");
        assert(!matches_from(catalog_entry(21).family, amortized_prefix(), 0, 0)) by {
            reveal_with_fuel(matches_from, 2);
        }
    } else if i == 22 {
        reveal_strlit("prepared_random_fragmented_iteration/random_10_components_8_terms");
        assert(!matches_from(catalog_entry(22).family, amortized_prefix(), 0, 0)) by {
            reveal_with_fuel(matches_from, 2);
        }
    } else if i == 23 {
        reveal_strlit("prepared_random_fragmented_iteration/random_16_components_1_term");
        assert(!matches_from(catalog_entry(23).family, amortized_prefix(), 0, 0)) by {
            reveal_with_fuel(matches_from, 2);
        }
    } else if i == 24 {
        reveal_strlit("prepared_random_fragmented_iteration/random_16_components_4_terms");
        assert(!matches_from(catalog_entry(24).family, amortized_prefix(), 0, 0)) by {
            reveal_with_fuel(matches_from, 2);
        }
    } else if i == 25 {
        reveal_strlit("prepared_random_fragmented_iteration/random_16_components_8_terms");
        assert(!matches_from(catalog_entry(25).family, amortized_prefix(), 0, 0)) by {
            reveal_with_fuel(matches_from, 2);
        }
    } else if i == 26 {
        reveal_strlit("diagnostic_heavy_compute/heavy");
        assert(!matches_from(catalog_entry(26).family, amortized_prefix(), 0, 0)) by {
            reveal_with_fuel(matches_from, 2);
        }
    } else if i == 27 {
        reveal_strlit("entity_id_random_access/hot_10k");
        assert(!matches_from(catalog_entry(27).family, amortized_prefix(), 0, 0)) by {
            reveal_with_fuel(matches_from, 2);
        }
    } else if i == 28 {
        reveal_strlit("entity_id_random_access/warm_100k");
        assert(!matches_from(catalog_entry(28).family, amortized_prefix(), 0, 0)) by {
            reveal_with_fuel(matches_from, 2);
        }
    } else if i == 29 {
        reveal_strlit("scenario_fixed_sequence_access/build_10k");
        assert(!matches_from(catalog_entry(29).family, amortized_prefix(), 0, 0)) by {
            reveal_with_fuel(matches_from, 33);
        }
    } else if i == 30 {
        reveal_strlit("scenario_fixed_sequence_access/steady_10k");
        assert(!matches_from(catalog_entry(30).family, amortized_prefix(), 0, 0)) by {
            reveal_with_fuel(matches_from, 33);
        }
    } else if i == 35 {
        reveal_strlit("scenario_fixed_sequence_access/build_100k");
        assert(!matches_from(catalog_entry(35).family, amortized_prefix(), 0, 0)) by {
            reveal_with_fuel(matches_from, 33);
        }
    } else if i == 36 {
        reveal_strlit("scenario_fixed_sequence_access/steady_100k");
        assert(!matches_from(catalog_entry(36).family, amortized_prefix(), 0, 0)) by {
            reveal_with_fuel(matches_from, 33);
        }
    } else if i == 41 {
        reveal_strlit("entity_ops/spawn_despawn_1k");
        assert(!matches_from(catalog_entry(41).family, amortized_prefix(), 0, 0)) by {
            reveal_with_fuel(matches_from, 2);
        }
    } else if i == 42 {
        reveal_strlit("entity_ops/add_remove_component_1k");
        assert(!matches_from(catalog_entry(42).family, amortized_prefix(), 0, 0)) by {
            reveal_with_fuel(matches_from, 2);
        }
    } else if i == 43 {
        reveal_strlit("scenario_gameplay_frame/frame");
        assert(!matches_from(catalog_entry(43).family, amortized_prefix(), 0, 0)) by {
            reveal_with_fuel(matches_from, 11);
        }
    } else if i == 44 {
        reveal_strlit("diagnostic_gameplay_phases/iteration");
        assert(!matches_from(catalog_entry(44).family, amortized_prefix(), 0, 0)) by {
            reveal_with_fuel(matches_from, 2);
        }
    } else if i == 45 {
        reveal_strlit("diagnostic_gameplay_phases/ai_source_lookup");
        assert(!matches_from(catalog_entry(45).family, amortized_prefix(), 0, 0)) by {
            reveal_with_fuel(matches_from, 2);
        }
    } else if i == 46 {
        reveal_strlit("diagnostic_gameplay_phases/target_position_lookup");
        assert(!matches_from(catalog_entry(46).family, amortized_prefix(), 0, 0)) by {
            reveal_with_fuel(matches_from, 2);
        }
    } else if i == 47 {
        reveal_strlit("diagnostic_gameplay_phases/status_transition");
        assert(!matches_from(catalog_entry(47).family, amortized_prefix(), 0, 0)) by {
            reveal_with_fuel(matches_from, 2);
        }
    } else if i == 48 {
        reveal_strlit("diagnostic_gameplay_phases/projectile_recycle");
        assert(!matches_from(catalog_entry(48).family, amortized_prefix(), 0, 0)) by {
            reveal_with_fuel(matches_from, 2);
        }
    }
}

/// The amortized fixed-sequence benchmarks: for the benchmark `f/engine`
/// of a catalog family `f` that starts with the amortized prefix, and any
/// engine name without `/`, the plan is traversed 1, 4, 16 or 64 times, its
/// payload is known, and the work items are the entities of the plan (the
/// payload over the size of a pointer-sized handle) times the traversal
/// count. A benchmark that does not start with the amortized prefix has no
/// traversal count.
pub proof fn lemma_amortized_work_items(i: int, engine: Seq<char>)
    requires
        0 <= i < CATALOG_LEN,
        starts_with_seq(catalog_entry(i).family, amortized_prefix()),
        !engine.contains('/'),
    ensures
        ({
            let id = catalog_entry(i).family + seq!['/'] + engine;
            &&& amortized_traversals_of(id) matches Some(r)
            &&& r == 1 || r == 4 || r == 16 || r == 64
            &&& plan_payload_bytes_of(id) matches Some(payload)
            &&& work_items_of(id) == Some(
                (payload as int / vstd::layout::size_of::<usize>() as int * r) as usize,
            )
        }),
{
    broadcast use vstd::layout::layout_of_primitives;

    lemma_amortized_entries(i);
    lemma_amortized_family(i);
    lemma_catalog_benchmark_id(i, engine);
    let size = vstd::layout::size_of::<usize>();
    assert(size == 4 || size == 8);
    let entities: int = if i < 35 { 10_000 } else { 100_000 };
    assert((entities * size) / (size as int) == entities) by (nonlinear_arith)
        requires
            size == 4 || size == 8,
    ;
    let f = catalog_entry(i).family;
    let id = f + seq!['/'] + engine;
    let rest = strip_prefix_seq(f, amortized_prefix()).unwrap();
    let suffix = rsplit_once_seq(rest, "_x"@).unwrap().1;
    let r = parse_usize_spec(suffix).unwrap();
    assert(amortized_traversals_of(id) == Some(r));
    assert(plan_payload_bytes_of(id) == Some((entities * size) as usize));
    assert(work_items_of(id) == Some((entities * r) as usize));
}

/// A benchmark whose identifier does not start with the amortized prefix
/// has no traversal count.
pub proof fn lemma_not_amortized(full_id: Seq<char>)
    requires
        !starts_with_seq(full_id, amortized_prefix()),
    ensures
        amortized_traversals_of(full_id) is None,
{
    lemma_last_occurrence_sound(full_id, seq!['/'], full_id.len() + 1int);
    if let Some(family) = family_of(full_id) {
        let p = amortized_prefix();
        if starts_with_seq(family, p) {
            assert(full_id.subrange(0, p.len() as int) =~= family.subrange(0, p.len() as int));
        }
    }
}

/// The bytes of the prepared access plan of a fixed-sequence scenario: one
/// pointer-sized handle per entity of its 10k or 100k population.
pub open spec fn plan_payload_bytes_of(full_id: Seq<char>) -> Option<usize> {
    match family_of(full_id) {
        Some(family) => if !starts_with_seq(family, fixed_sequence_prefix()) {
            None
        } else {
            let entity_count: int = if contains_seq(family, "100k"@) {
                100_000
            } else if contains_seq(family, "10k"@) {
                10_000
            } else {
                -1
            };
            if entity_count < 0 || entity_count * vstd::layout::size_of::<usize>() > usize::MAX {
                None
            } else {
                Some((entity_count * vstd::layout::size_of::<usize>()) as usize)
            }
        },
        None => None,
    }
}

/// The plan payload of a fixed-sequence scenario benchmark, in bytes;
/// `None` for every other benchmark.
pub fn fixed_sequence_plan_payload_bytes(full_id: &str) -> (r: Option<usize>)
    ensures
        r == plan_payload_bytes_of(full_id@),
{
    let family = match family_chars(full_id) {
        Some(family) => family,
        None => return None,
    };
    if !starts_with_str(&family, "scenario_fixed_sequence_access/") {
        return None;
    }
    let entity_count: usize = if contains_str(&family, "100k") {
        100_000
    } else if contains_str(&family, "10k") {
        10_000
    } else {
        return None;
    };
    entity_count.checked_mul(std::mem::size_of::<usize>())
}

/// The traversal count `n` of an amortized fixed-sequence scenario family
/// (`..._xN`).
pub open spec fn amortized_traversals_of(full_id: Seq<char>) -> Option<usize> {
    match family_of(full_id) {
        Some(family) => match strip_prefix_seq(family, amortized_prefix()) {
            Some(rest) => match rsplit_once_seq(rest, "_x"@) {
                Some((_, suffix)) => parse_usize_spec(suffix),
                None => None,
            },
            None => None,
        },
        None => None,
    }
}

/// How many times an amortized fixed-sequence scenario traverses its plan;
/// `None` for every other benchmark.
pub fn fixed_sequence_amortized_traversals(full_id: &str) -> (r: Option<usize>)
    ensures
        r == amortized_traversals_of(full_id@),
{
    let family = match family_chars(full_id) {
        Some(family) => family,
        None => return None,
    };
    let prefix = chars_of("scenario_fixed_sequence_access/amortized_");
    let rest = match strip_prefix_chars(&family, &prefix) {
        Some(rest) => rest,
        None => return None,
    };
    let marker = chars_of("_x");
    match rsplit_once_chars(&rest, &marker) {
        Some((_, suffix)) => parse_usize_chars(&suffix),
        None => None,
    }
}

/// `group` is the group part (before the first `/`) of catalog entry `i`.
pub open spec fn is_group_of_entry(group: Seq<char>, i: int) -> bool {
    match split_once_seq(catalog_entry(i).family, seq!['/']) {
        Some((candidate, _)) => candidate == group,
        None => false,
    }
}

/// Whether `group` is the group of some catalog family.
pub fn is_canonical_group(group: &str) -> (r: bool)
    ensures
        r == exists|i: int| 0 <= i < CATALOG_LEN && #[trigger] is_group_of_entry(group@, i),
{
    let target = chars_of(group);
    let slash = vec!['/'];
    assert(slash@ =~= seq!['/']);
    let mut i: usize = 0;
    while i < CATALOG_LEN
        invariant
            i <= CATALOG_LEN,
            target@ == group@,
            slash@ == seq!['/'],
            forall|k: int| 0 <= k < i ==> !#[trigger] is_group_of_entry(group@, k),
        decreases CATALOG_LEN - i,
    {
        let spec = catalog_entry_at(i);
        let family = chars_of(spec.family);
        match split_once_chars(&family, &slash) {
            Some((candidate, _)) => {
                if chars_equal(&candidate, &target) {
                    assert(is_group_of_entry(group@, i as int));
                    return true;
                }
            },
            None => {},
        }
        i = i + 1;
    }
    false
}

} // verus!
