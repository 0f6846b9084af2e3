//! Bookkeeping of the publication protocol: the rotated engine orders of
//! the Latin-square runs, the benchmark groups and families that a
//! publication covers, the work items of each row, the command line, and
//! the completeness check of a result set.

use vstd::prelude::*;

use crate::common::random_fragmentation::count_matching;
use crate::common::random_fragmentation::fragment_masks;
use crate::common::random_fragment_masks;
use crate::common::random_fragment_match_count;
use crate::common::RANDOM_FRAGMENT_ENTITY_COUNT;
use crate::common::RANDOM_FRAGMENT_QUERY_MASK;
use crate::engine::all_engines;
use crate::engine::engine_name;
use crate::engine::lemma_engine_names_distinct;
use crate::engine::lemma_engine_parse_name;
use crate::engine::lemma_parse_engine_sound;
use crate::engine::parse_engine;
use crate::engine::Engine;
use crate::engine::ENGINE_COUNT;
use crate::text::chars_equal;
use crate::text::is_digit;
use crate::text::lemma_parse_short_digits;
use crate::text::lemma_not_contains;
use crate::text::lemma_first_occurrence_at;
use crate::text::lemma_last_occurrence_at;
use crate::text::lemma_matches_occurs;
use crate::text::no_match_in;
use crate::text::matches_from;
use crate::text::chars_less;
use crate::text::chars_of;
use crate::text::contains_seq;
use crate::text::contains_str;
use crate::text::find_first;
use crate::text::find_last;
use crate::text::lemma_seq_less_order;
use crate::text::first_occurrence;
use crate::text::parse_usize_chars;
use crate::text::parse_usize_spec;
use crate::text::parse_usize_str;
use crate::text::rsplit_once_chars;
use crate::text::rsplit_once_seq;
use crate::text::seq_less;
use crate::text::slice_chars;
use crate::text::str_equal;

verus! {

/// The number of publication runs when none is requested.
pub const DEFAULT_RUN_COUNT: usize = 7;

/// The engines of run `offset`, in run order: the publication order rotated
/// left by `offset`.
pub open spec fn rotation(offset: int) -> Seq<Engine> {
    Seq::new(ENGINE_COUNT as nat, |i: int| all_engines()[(i + offset) % ENGINE_COUNT as int])
}

/// `parts` joined with commas.
pub open spec fn join_commas(parts: Seq<Seq<char>>) -> Seq<char>
    decreases parts.len(),
{
    if parts.len() == 0 {
        Seq::empty()
    } else if parts.len() == 1 {
        parts[0]
    } else {
        join_commas(parts.drop_last()) + seq![','] + parts.last()
    }
}

/// The engine order of run `offset`, as handed to the benchmark binary.
pub open spec fn rotated_order_spec(offset: int) -> Seq<char> {
    join_commas(rotation(offset).map_values(|e: Engine| engine_name(e)))
}

/// The comma-separated engine order of run `offset` (a cyclic Latin
/// square over the engines). The offset must leave room for the engine
/// count below `usize::MAX`.
pub fn rotated_order(offset: usize) -> (r: String)
    requires
        offset <= usize::MAX - ENGINE_COUNT,
    ensures
        r@ == rotated_order_spec(offset as int),
{
    let all = Engine::all();
    let ghost names = rotation(offset as int).map_values(|e: Engine| engine_name(e));
    let mut r = String::new();
    let mut index: usize = 0;
    proof {
        reveal_strlit(",");
    }
    while index < ENGINE_COUNT
        invariant
            offset <= usize::MAX - ENGINE_COUNT,
            all@ == all_engines(),
            names == rotation(offset as int).map_values(|e: Engine| engine_name(e)),
            index <= ENGINE_COUNT,
            r@ == join_commas(names.subrange(0, index as int)),
            ","@ == seq![','],
        decreases ENGINE_COUNT - index,
    {
        let engine = all[(index + offset) % ENGINE_COUNT];
        let ghost prefix = names.subrange(0, index as int);
        if index > 0 {
            r.append(",");
        }
        r.append(engine.name());
        index = index + 1;
        proof {
            let next = names.subrange(0, index as int);
            assert(next.drop_last() =~= prefix);
            assert(next.last() == engine_name(engine));
            assert(r@ =~= join_commas(next));
        }
    }
    assert(names.subrange(0, ENGINE_COUNT as int) =~= names);
    r
}

/// The cyclic rotations form a Latin square: over the first
/// [`ENGINE_COUNT`] runs, every engine occupies every position exactly once.
pub proof fn lemma_rotations_latin_square(e: Engine, position: int)
    requires
        0 <= position < ENGINE_COUNT,
    ensures
        exists|offset: int| 0 <= offset < ENGINE_COUNT && #[trigger] rotation(offset)[position] == e,
        forall|a: int, b: int|
            0 <= a < ENGINE_COUNT && 0 <= b < ENGINE_COUNT && rotation(a)[position] == e && rotation(
                b,
            )[position] == e ==> a == b,
{
    crate::engine::lemma_engine_parse_name(e);
    let k = choose|k: int| 0 <= k < all_engines().len() && all_engines()[k] == e;
    let offset = (k - position + ENGINE_COUNT) % ENGINE_COUNT as int;
    assert((position + offset) % 6 == k);
    assert(rotation(offset)[position] == e);
    assert forall|a: int, b: int|
        0 <= a < ENGINE_COUNT && 0 <= b < ENGINE_COUNT && rotation(a)[position] == e && rotation(
            b,
        )[position] == e implies a == b by {
        let ia = (position + a) % 6;
        let ib = (position + b) % 6;
        assert(all_engines()[ia] == all_engines()[ib]);
        assert(ia == ib);
    }
}

/// The benchmark groups that the publication runs.
pub open spec fn v2_groups() -> Seq<Seq<char>> {
    seq![
        "fair_prepared_construction"@,
        "fair_prepared_iteration"@,
        "fair_prepared_iteration_repeated"@,
        "fair_prepared_iteration_large"@,
        "fair_prepared_fragmented_iteration"@,
        "fair_prepared_random_fragmented_iteration"@,
        "fair_diagnostic_heavy_compute"@,
        "fair_prepared_random_access"@,
        "fair_entity_ops"@,
        "fair_scenario_mixed_frame"@,
        "fair_scenario_mixed_frame_phases"@,
    ]
}

fn v2_group_names() -> (r: Vec<&'static str>)
    ensures
        r@.map_values(|s: &'static str| s@) == v2_groups(),
{
    let r = vec![
        "fair_prepared_construction",
        "fair_prepared_iteration",
        "fair_prepared_iteration_repeated",
        "fair_prepared_iteration_large",
        "fair_prepared_fragmented_iteration",
        "fair_prepared_random_fragmented_iteration",
        "fair_diagnostic_heavy_compute",
        "fair_prepared_random_access",
        "fair_entity_ops",
        "fair_scenario_mixed_frame",
        "fair_scenario_mixed_frame_phases",
    ];
    assert(r@.map_values(|s: &'static str| s@) =~= v2_groups());
    r
}

/// Whether `group` is one of the benchmark groups that the publication runs.
pub fn is_v2_group(group: &str) -> (r: bool)
    ensures
        r == v2_groups().contains(group@),
{
    let names = v2_group_names();
    let mut i: usize = 0;
    while i < names.len()
        invariant
            names@.map_values(|s: &'static str| s@) == v2_groups(),
            i <= names@.len(),
            forall|k: int| 0 <= k < i ==> v2_groups()[k] != group@,
        decreases names@.len() - i,
    {
        assert(names@.map_values(|s: &'static str| s@)[i as int] == names@[i as int]@);
        if str_equal(names[i], group) {
            assert(v2_groups()[i as int] == group@);
            return true;
        }
        i = i + 1;
    }
    assert forall|k: int| 0 <= k < v2_groups().len() implies v2_groups()[k] != group@ by {}
    false
}

/// The families that a complete publication must report.
pub open spec fn expected_canonical_families_spec() -> Seq<Seq<char>> {
    seq![
        "fair_prepared_construction/bulk_insert_10k"@,
        "fair_prepared_construction/single_insert_10k"@,
        "fair_prepared_iteration/simple_10k"@,
        "fair_prepared_iteration_repeated/simple_x32"@,
        "fair_prepared_iteration_large/simple_100k"@,
        "fair_prepared_fragmented_iteration/fragmented_26x400"@,
        "fair_prepared_random_fragmented_iteration/random_6_components_4_terms"@,
        "fair_prepared_random_fragmented_iteration/random_8_components_4_terms"@,
        "fair_prepared_random_fragmented_iteration/random_10_components_4_terms"@,
        "fair_prepared_random_fragmented_iteration/random_16_components_4_terms"@,
        "fair_diagnostic_heavy_compute/heavy"@,
        "fair_prepared_random_access/hot_10k"@,
        "fair_prepared_random_access/warm_100k"@,
        "fair_prepared_random_access/cold_1m"@,
        "fair_entity_ops/spawn_despawn_1k"@,
        "fair_entity_ops/add_remove_component_1k"@,
        "fair_scenario_mixed_frame/frame"@,
        "fair_scenario_mixed_frame_phases/movement"@,
        "fair_scenario_mixed_frame_phases/health"@,
        "fair_scenario_mixed_frame_phases/heavy"@,
        "fair_scenario_mixed_frame_phases/random_access"@,
        "fair_scenario_mixed_frame_phases/structural_churn"@,
        "fair_scenario_mixed_frame_phases/spawn_despawn"@,
    ]
}

/// The number of families that a complete publication reports.
pub const EXPECTED_CANONICAL_FAMILY_COUNT: usize = 23;

/// The families that a complete publication must report.
pub fn expected_canonical_families() -> (r: Vec<&'static str>)
    ensures
        r@.map_values(|s: &'static str| s@) == expected_canonical_families_spec(),
        r@.len() == EXPECTED_CANONICAL_FAMILY_COUNT,
{
    let r = vec![
        "fair_prepared_construction/bulk_insert_10k",
        "fair_prepared_construction/single_insert_10k",
        "fair_prepared_iteration/simple_10k",
        "fair_prepared_iteration_repeated/simple_x32",
        "fair_prepared_iteration_large/simple_100k",
        "fair_prepared_fragmented_iteration/fragmented_26x400",
        "fair_prepared_random_fragmented_iteration/random_6_components_4_terms",
        "fair_prepared_random_fragmented_iteration/random_8_components_4_terms",
        "fair_prepared_random_fragmented_iteration/random_10_components_4_terms",
        "fair_prepared_random_fragmented_iteration/random_16_components_4_terms",
        "fair_diagnostic_heavy_compute/heavy",
        "fair_prepared_random_access/hot_10k",
        "fair_prepared_random_access/warm_100k",
        "fair_prepared_random_access/cold_1m",
        "fair_entity_ops/spawn_despawn_1k",
        "fair_entity_ops/add_remove_component_1k",
        "fair_scenario_mixed_frame/frame",
        "fair_scenario_mixed_frame_phases/movement",
        "fair_scenario_mixed_frame_phases/health",
        "fair_scenario_mixed_frame_phases/heavy",
        "fair_scenario_mixed_frame_phases/random_access",
        "fair_scenario_mixed_frame_phases/structural_churn",
        "fair_scenario_mixed_frame_phases/spawn_despawn",
    ];
    assert(r@.map_values(|s: &'static str| s@) =~= expected_canonical_families_spec());
    r
}

/// The C compiler flags recorded for the native adapters.
pub open spec fn native_optimized_flags_spec(msvc: bool) -> Seq<char> {
    if msvc {
        "/O2 /GL /LTCG /DNDEBUG"@
    } else {
        "-O3 -flto -DNDEBUG"@
    }
}

/// The optimisation flags of the native adapters, for an MSVC target or
/// for every other target.
pub fn native_optimized_flags(msvc: bool) -> (r: &'static str)
    ensures
        r@ == native_optimized_flags_spec(msvc),
{
    if msvc {
        "/O2 /GL /LTCG /DNDEBUG"
    } else {
        "-O3 -flto -DNDEBUG"
    }
}

/// The text of `s` before the first occurrence of `pat`, or all of `s`
/// (the first item of `str::split`).
pub open spec fn first_split_item(s: Seq<char>, pat: Seq<char>) -> Seq<char> {
    match first_occurrence(s, pat) {
        Some(i) => s.subrange(0, i),
        None => s,
    }
}

/// The component count that a `.../random_N_components_4_terms/...` row names.
pub open spec fn random_component_count_of(benchmark: Seq<char>) -> Option<usize> {
    match rsplit_once_seq(benchmark, "/random_"@) {
        Some((_, suffix)) => parse_usize_spec(first_split_item(suffix, "_components_4_terms"@)),
        None => None,
    }
}

/// The row is a four-term random-fragmentation row of the publication.
pub open spec fn is_random_row(b: Seq<char>) -> bool {
    &&& !contains_seq(b, "cold_1m"@)
    &&& !contains_seq(b, "warm_100k"@)
    &&& !contains_seq(b, "simple_100k"@)
    &&& !contains_seq(b, "fragmented_26x400"@)
    &&& contains_seq(b, "random_"@)
    &&& contains_seq(b, "_components_4_terms"@)
}

/// The work-item count that the publication divides the median time of
/// row `b` by.
pub open spec fn publication_work_items(b: Seq<char>) -> Option<usize> {
    if contains_seq(b, "cold_1m"@) {
        Some(1_000_000)
    } else if contains_seq(b, "warm_100k"@) || contains_seq(b, "simple_100k"@) {
        Some(100_000)
    } else if contains_seq(b, "fragmented_26x400"@) {
        Some(10_400)
    } else if contains_seq(b, "random_"@) && contains_seq(b, "_components_4_terms"@) {
        match random_component_count_of(b) {
            Some(c) => Some(
                count_matching(
                    fragment_masks(c as nat, RANDOM_FRAGMENT_ENTITY_COUNT as nat),
                    RANDOM_FRAGMENT_QUERY_MASK,
                ) as usize,
            ),
            None => None,
        }
    } else if contains_seq(b, "simple_x32"@) {
        Some(320_000)
    } else if contains_seq(b, "10k"@) || contains_seq(b, "hot_10k"@) || contains_seq(
        b,
        "get_10000"@,
    ) {
        Some(10_000)
    } else if contains_seq(b, "get_16"@) {
        Some(16)
    } else if contains_seq(b, "get_1/"@) || contains_seq(b, "get_1_"@) {
        Some(1)
    } else if contains_seq(b, "_1k"@) {
        Some(1_000)
    } else {
        None
    }
}

/// The component count named by a random-fragmentation row.
fn random_component_count(benchmark: &Vec<char>) -> (r: Option<usize>)
    ensures
        r == random_component_count_of(benchmark@),
{
    let marker = chars_of("/random_");
    let suffix = match rsplit_once_chars(benchmark, &marker) {
        Some((_, suffix)) => suffix,
        None => return None,
    };
    let end_marker = chars_of("_components_4_terms");
    proof {
        crate::text::lemma_first_occurrence_sound(suffix@, end_marker@, 0int);
    }
    let item = match find_first(&suffix, &end_marker) {
        Some(i) => slice_chars(&suffix, 0, i),
        None => suffix,
    };
    parse_usize_chars(&item)
}

/// The rows whose work items are defined: a four-term random-fragmentation
/// row must name a component count between 1 and 16.
pub open spec fn work_items_defined_spec(b: Seq<char>) -> bool {
    is_random_row(b) ==> match random_component_count_of(b) {
        Some(c) => 1 <= c <= 16,
        None => true,
    }
}

/// The four-term random-fragmentation row of `c` components run by Sky.
pub open spec fn sky_random_row(c: int) -> Seq<char> {
    if c == 6 {
        "fair_prepared_random_fragmented_iteration/random_6_components_4_terms/sky"@
    } else if c == 8 {
        "fair_prepared_random_fragmented_iteration/random_8_components_4_terms/sky"@
    } else if c == 10 {
        "fair_prepared_random_fragmented_iteration/random_10_components_4_terms/sky"@
    } else {
        "fair_prepared_random_fragmented_iteration/random_16_components_4_terms/sky"@
    }
}

/// The work items of the random-fragmentation row of 6 components.
#[verifier::spinoff_prover]
proof fn lemma_random_row_6_work_items()
    ensures
        work_items_defined_spec(sky_random_row(6)),
        publication_work_items(sky_random_row(6)) == Some(
            count_matching(
                fragment_masks(6, RANDOM_FRAGMENT_ENTITY_COUNT as nat),
                RANDOM_FRAGMENT_QUERY_MASK,
            ) as usize,
        ),
{
    reveal_strlit("cold_1m");
    reveal_strlit("warm_100k");
    reveal_strlit("simple_100k");
    reveal_strlit("fragmented_26x400");
    reveal_strlit("random_");
    reveal_strlit("_components_4_terms");
    reveal_strlit("/random_");
    reveal_strlit("fair_prepared_random_fragmented_iteration/random_6_components_4_terms/sky");
    let s = sky_random_row(6);
    assert(no_match_in(s, "cold_1m"@, 0, 67)) by {
        reveal_with_fuel(no_match_in, 68);
        reveal_with_fuel(matches_from, 4);
    }
    lemma_not_contains(s, "cold_1m"@);
    assert(no_match_in(s, "warm_100k"@, 0, 65)) by {
        reveal_with_fuel(no_match_in, 66);
        reveal_with_fuel(matches_from, 2);
    }
    lemma_not_contains(s, "warm_100k"@);
    assert(no_match_in(s, "simple_100k"@, 0, 63)) by {
        reveal_with_fuel(no_match_in, 64);
        reveal_with_fuel(matches_from, 3);
    }
    lemma_not_contains(s, "simple_100k"@);
    assert(no_match_in(s, "fragmented_26x400"@, 0, 57)) by {
        reveal_with_fuel(no_match_in, 58);
        reveal_with_fuel(matches_from, 13);
    }
    lemma_not_contains(s, "fragmented_26x400"@);
    assert(matches_from(s, "random_"@, 14, 0)) by {
        reveal_with_fuel(matches_from, 8);
    }
    lemma_matches_occurs(s, "random_"@, 14);
    assert(matches_from(s, "_components_4_terms"@, 50, 0)) by {
        reveal_with_fuel(matches_from, 20);
    }
    lemma_matches_occurs(s, "_components_4_terms"@, 50);
    assert(matches_from(s, "/random_"@, 41, 0)) by {
        reveal_with_fuel(matches_from, 9);
    }
    assert(no_match_in(s, "/random_"@, 42, 74)) by {
        reveal_with_fuel(no_match_in, 33);
        reveal_with_fuel(matches_from, 9);
    }
    lemma_last_occurrence_at(s, "/random_"@, 41);
    let suffix = s.subrange(49, 73);
    assert(matches_from(suffix, "_components_4_terms"@, 1, 0)) by {
        reveal_with_fuel(matches_from, 20);
    }
    assert(no_match_in(suffix, "_components_4_terms"@, 0, 1)) by {
        reveal_with_fuel(no_match_in, 2);
        reveal_with_fuel(matches_from, 2);
    }
    lemma_first_occurrence_at(suffix, "_components_4_terms"@, 1);
    let item = suffix.subrange(0, 1);
    assert forall|k: int| 0 <= k < item.len() implies is_digit(#[trigger] item[k]) by {
        if k == 0 {
        } else {
        }
    }
    lemma_parse_short_digits(item);
}

/// The work items of the random-fragmentation row of 8 components.
#[verifier::spinoff_prover]
proof fn lemma_random_row_8_work_items()
    ensures
        work_items_defined_spec(sky_random_row(8)),
        publication_work_items(sky_random_row(8)) == Some(
            count_matching(
                fragment_masks(8, RANDOM_FRAGMENT_ENTITY_COUNT as nat),
                RANDOM_FRAGMENT_QUERY_MASK,
            ) as usize,
        ),
{
    reveal_strlit("cold_1m");
    reveal_strlit("warm_100k");
    reveal_strlit("simple_100k");
    reveal_strlit("fragmented_26x400");
    reveal_strlit("random_");
    reveal_strlit("_components_4_terms");
    reveal_strlit("/random_");
    reveal_strlit("fair_prepared_random_fragmented_iteration/random_8_components_4_terms/sky");
    let s = sky_random_row(8);
    assert(no_match_in(s, "cold_1m"@, 0, 67)) by {
        reveal_with_fuel(no_match_in, 68);
        reveal_with_fuel(matches_from, 4);
    }
    lemma_not_contains(s, "cold_1m"@);
    assert(no_match_in(s, "warm_100k"@, 0, 65)) by {
        reveal_with_fuel(no_match_in, 66);
        reveal_with_fuel(matches_from, 2);
    }
    lemma_not_contains(s, "warm_100k"@);
    assert(no_match_in(s, "simple_100k"@, 0, 63)) by {
        reveal_with_fuel(no_match_in, 64);
        reveal_with_fuel(matches_from, 3);
    }
    lemma_not_contains(s, "simple_100k"@);
    assert(no_match_in(s, "fragmented_26x400"@, 0, 57)) by {
        reveal_with_fuel(no_match_in, 58);
        reveal_with_fuel(matches_from, 13);
    }
    lemma_not_contains(s, "fragmented_26x400"@);
    assert(matches_from(s, "random_"@, 14, 0)) by {
        reveal_with_fuel(matches_from, 8);
    }
    lemma_matches_occurs(s, "random_"@, 14);
    assert(matches_from(s, "_components_4_terms"@, 50, 0)) by {
        reveal_with_fuel(matches_from, 20);
    }
    lemma_matches_occurs(s, "_components_4_terms"@, 50);
    assert(matches_from(s, "/random_"@, 41, 0)) by {
        reveal_with_fuel(matches_from, 9);
    }
    assert(no_match_in(s, "/random_"@, 42, 74)) by {
        reveal_with_fuel(no_match_in, 33);
        reveal_with_fuel(matches_from, 9);
    }
    lemma_last_occurrence_at(s, "/random_"@, 41);
    let suffix = s.subrange(49, 73);
    assert(matches_from(suffix, "_components_4_terms"@, 1, 0)) by {
        reveal_with_fuel(matches_from, 20);
    }
    assert(no_match_in(suffix, "_components_4_terms"@, 0, 1)) by {
        reveal_with_fuel(no_match_in, 2);
        reveal_with_fuel(matches_from, 2);
    }
    lemma_first_occurrence_at(suffix, "_components_4_terms"@, 1);
    let item = suffix.subrange(0, 1);
    assert forall|k: int| 0 <= k < item.len() implies is_digit(#[trigger] item[k]) by {
        if k == 0 {
        } else {
        }
    }
    lemma_parse_short_digits(item);
}

/// The work items of the random-fragmentation row of 10 components.
#[verifier::spinoff_prover]
proof fn lemma_random_row_10_work_items()
    ensures
        work_items_defined_spec(sky_random_row(10)),
        publication_work_items(sky_random_row(10)) == Some(
            count_matching(
                fragment_masks(10, RANDOM_FRAGMENT_ENTITY_COUNT as nat),
                RANDOM_FRAGMENT_QUERY_MASK,
            ) as usize,
        ),
{
    reveal_strlit("cold_1m");
    reveal_strlit("warm_100k");
    reveal_strlit("simple_100k");
    reveal_strlit("fragmented_26x400");
    reveal_strlit("random_");
    reveal_strlit("_components_4_terms");
    reveal_strlit("/random_");
    reveal_strlit("fair_prepared_random_fragmented_iteration/random_10_components_4_terms/sky");
    let s = sky_random_row(10);
    assert(no_match_in(s, "cold_1m"@, 0, 68)) by {
        reveal_with_fuel(no_match_in, 69);
        reveal_with_fuel(matches_from, 4);
    }
    lemma_not_contains(s, "cold_1m"@);
    assert(no_match_in(s, "warm_100k"@, 0, 66)) by {
        reveal_with_fuel(no_match_in, 67);
        reveal_with_fuel(matches_from, 2);
    }
    lemma_not_contains(s, "warm_100k"@);
    assert(no_match_in(s, "simple_100k"@, 0, 64)) by {
        reveal_with_fuel(no_match_in, 65);
        reveal_with_fuel(matches_from, 3);
    }
    lemma_not_contains(s, "simple_100k"@);
    assert(no_match_in(s, "fragmented_26x400"@, 0, 58)) by {
        reveal_with_fuel(no_match_in, 59);
        reveal_with_fuel(matches_from, 13);
    }
    lemma_not_contains(s, "fragmented_26x400"@);
    assert(matches_from(s, "random_"@, 14, 0)) by {
        reveal_with_fuel(matches_from, 8);
    }
    lemma_matches_occurs(s, "random_"@, 14);
    assert(matches_from(s, "_components_4_terms"@, 51, 0)) by {
        reveal_with_fuel(matches_from, 20);
    }
    lemma_matches_occurs(s, "_components_4_terms"@, 51);
    assert(matches_from(s, "/random_"@, 41, 0)) by {
        reveal_with_fuel(matches_from, 9);
    }
    assert(no_match_in(s, "/random_"@, 42, 75)) by {
        reveal_with_fuel(no_match_in, 34);
        reveal_with_fuel(matches_from, 9);
    }
    lemma_last_occurrence_at(s, "/random_"@, 41);
    let suffix = s.subrange(49, 74);
    assert(matches_from(suffix, "_components_4_terms"@, 2, 0)) by {
        reveal_with_fuel(matches_from, 20);
    }
    assert(no_match_in(suffix, "_components_4_terms"@, 0, 2)) by {
        reveal_with_fuel(no_match_in, 3);
        reveal_with_fuel(matches_from, 2);
    }
    lemma_first_occurrence_at(suffix, "_components_4_terms"@, 2);
    let item = suffix.subrange(0, 2);
    assert forall|k: int| 0 <= k < item.len() implies is_digit(#[trigger] item[k]) by {
        if k == 0 {
        } else {
        }
    }
    lemma_parse_short_digits(item);
}

/// The work items of the random-fragmentation row of 16 components.
#[verifier::spinoff_prover]
proof fn lemma_random_row_16_work_items()
    ensures
        work_items_defined_spec(sky_random_row(16)),
        publication_work_items(sky_random_row(16)) == Some(
            count_matching(
                fragment_masks(16, RANDOM_FRAGMENT_ENTITY_COUNT as nat),
                RANDOM_FRAGMENT_QUERY_MASK,
            ) as usize,
        ),
{
    reveal_strlit("cold_1m");
    reveal_strlit("warm_100k");
    reveal_strlit("simple_100k");
    reveal_strlit("fragmented_26x400");
    reveal_strlit("random_");
    reveal_strlit("_components_4_terms");
    reveal_strlit("/random_");
    reveal_strlit("fair_prepared_random_fragmented_iteration/random_16_components_4_terms/sky");
    let s = sky_random_row(16);
    assert(no_match_in(s, "cold_1m"@, 0, 68)) by {
        reveal_with_fuel(no_match_in, 69);
        reveal_with_fuel(matches_from, 4);
    }
    lemma_not_contains(s, "cold_1m"@);
    assert(no_match_in(s, "warm_100k"@, 0, 66)) by {
        reveal_with_fuel(no_match_in, 67);
        reveal_with_fuel(matches_from, 2);
    }
    lemma_not_contains(s, "warm_100k"@);
    assert(no_match_in(s, "simple_100k"@, 0, 64)) by {
        reveal_with_fuel(no_match_in, 65);
        reveal_with_fuel(matches_from, 3);
    }
    lemma_not_contains(s, "simple_100k"@);
    assert(no_match_in(s, "fragmented_26x400"@, 0, 58)) by {
        reveal_with_fuel(no_match_in, 59);
        reveal_with_fuel(matches_from, 13);
    }
    lemma_not_contains(s, "fragmented_26x400"@);
    assert(matches_from(s, "random_"@, 14, 0)) by {
        reveal_with_fuel(matches_from, 8);
    }
    lemma_matches_occurs(s, "random_"@, 14);
    assert(matches_from(s, "_components_4_terms"@, 51, 0)) by {
        reveal_with_fuel(matches_from, 20);
    }
    lemma_matches_occurs(s, "_components_4_terms"@, 51);
    assert(matches_from(s, "/random_"@, 41, 0)) by {
        reveal_with_fuel(matches_from, 9);
    }
    assert(no_match_in(s, "/random_"@, 42, 75)) by {
        reveal_with_fuel(no_match_in, 34);
        reveal_with_fuel(matches_from, 9);
    }
    lemma_last_occurrence_at(s, "/random_"@, 41);
    let suffix = s.subrange(49, 74);
    assert(matches_from(suffix, "_components_4_terms"@, 2, 0)) by {
        reveal_with_fuel(matches_from, 20);
    }
    assert(no_match_in(suffix, "_components_4_terms"@, 0, 2)) by {
        reveal_with_fuel(no_match_in, 3);
        reveal_with_fuel(matches_from, 2);
    }
    lemma_first_occurrence_at(suffix, "_components_4_terms"@, 2);
    let item = suffix.subrange(0, 2);
    assert forall|k: int| 0 <= k < item.len() implies is_digit(#[trigger] item[k]) by {
        if k == 0 {
        } else {
        }
    }
    lemma_parse_short_digits(item);
}

/// The four-term random-fragmentation rows of 6, 8, 10 and 16 components
/// count as many work items as the random fragment masks of that many
/// components leave entities matching the four-term query.
pub proof fn lemma_random_row_work_items(c: int)
    requires
        c == 6 || c == 8 || c == 10 || c == 16,
    ensures
        work_items_defined_spec(sky_random_row(c)),
        publication_work_items(sky_random_row(c)) == Some(
            count_matching(
                fragment_masks(c as nat, RANDOM_FRAGMENT_ENTITY_COUNT as nat),
                RANDOM_FRAGMENT_QUERY_MASK,
            ) as usize,
        ),
{
    if c == 6 {
        lemma_random_row_6_work_items();
    } else if c == 8 {
        lemma_random_row_8_work_items();
    } else if c == 10 {
        lemma_random_row_10_work_items();
    } else {
        lemma_random_row_16_work_items();
    }
}

/// Whether the work items of `benchmark` are defined.
pub fn work_items_defined(benchmark: &str) -> (r: bool)
    ensures
        r == work_items_defined_spec(benchmark@),
{
    let b = chars_of(benchmark);
    if contains_str(&b, "cold_1m") || contains_str(&b, "warm_100k") || contains_str(&b, "simple_100k")
        || contains_str(&b, "fragmented_26x400") {
        return true;
    }
    if !(contains_str(&b, "random_") && contains_str(&b, "_components_4_terms")) {
        return true;
    }
    match random_component_count(&b) {
        Some(c) => 1 <= c && c <= 16,
        None => true,
    }
}

/// The work items of a publication row. A random-fragmentation row must
/// name a component count between 1 and 16.
pub fn work_items(benchmark: &str) -> (r: Option<usize>)
    requires
        work_items_defined_spec(benchmark@),
    ensures
        r == publication_work_items(benchmark@),
{
    let b = chars_of(benchmark);
    if contains_str(&b, "cold_1m") {
        Some(1_000_000)
    } else if contains_str(&b, "warm_100k") || contains_str(&b, "simple_100k") {
        Some(100_000)
    } else if contains_str(&b, "fragmented_26x400") {
        Some(10_400)
    } else if contains_str(&b, "random_") && contains_str(&b, "_components_4_terms") {
        match random_component_count(&b) {
            Some(component_count) => {
                let masks = random_fragment_masks(component_count);
                Some(random_fragment_match_count(masks.as_slice()))
            },
            None => None,
        }
    } else if contains_str(&b, "simple_x32") {
        Some(320_000)
    } else if contains_str(&b, "10k") || contains_str(&b, "hot_10k") || contains_str(
        &b,
        "get_10000",
    ) {
        Some(10_000)
    } else if contains_str(&b, "get_16") {
        Some(16)
    } else if contains_str(&b, "get_1/") || contains_str(&b, "get_1_") {
        Some(1)
    } else if contains_str(&b, "_1k") {
        Some(1_000)
    } else {
        None
    }
}

} // verus!

verus! {

/// The publication command line.
#[derive(Clone, Debug, PartialEq, Eq)]
pub struct Options {
    pub runs: usize,
    pub filter: Option<String>,
    pub reanalyze: Option<String>,
}

/// Why a publication command line is refused.
#[derive(Clone, Debug, PartialEq, Eq)]
pub enum OptionsError {
    /// `--runs` is the last argument.
    RunsRequiresValue,
    /// The value of `--runs` is not a decimal count.
    InvalidRunCount,
    /// The value of `--runs` is not between 1 and the number of engines.
    RunsOutOfRange,
    /// `--filter` is the last argument.
    FilterRequiresValue,
    /// `--reanalyze` is the last argument.
    ReanalyzeRequiresPath,
    /// An argument that is not an option.
    UnknownArgument(String),
    /// `--reanalyze` together with `--runs` or `--filter`.
    ReanalyzeCombined,
}

/// The content of a parsed command line.
pub struct OptionsView {
    pub runs: usize,
    pub filter: Option<Seq<char>>,
    pub reanalyze: Option<Seq<char>>,
}

/// The content of a refusal.
pub enum OptionsErrorView {
    RunsRequiresValue,
    InvalidRunCount,
    RunsOutOfRange,
    FilterRequiresValue,
    ReanalyzeRequiresPath,
    UnknownArgument(Seq<char>),
    ReanalyzeCombined,
}

/// The content of an optional string.
pub open spec fn opt_chars(o: Option<String>) -> Option<Seq<char>> {
    match o {
        Some(s) => Some(s@),
        None => None,
    }
}

/// The content of a parse result.
pub open spec fn options_result_view(r: Result<Options, OptionsError>) -> Result<
    OptionsView,
    OptionsErrorView,
> {
    match r {
        Ok(o) => Ok(
            OptionsView { runs: o.runs, filter: opt_chars(o.filter), reanalyze: opt_chars(o.reanalyze) },
        ),
        Err(e) => Err(
            match e {
                OptionsError::RunsRequiresValue => OptionsErrorView::RunsRequiresValue,
                OptionsError::InvalidRunCount => OptionsErrorView::InvalidRunCount,
                OptionsError::RunsOutOfRange => OptionsErrorView::RunsOutOfRange,
                OptionsError::FilterRequiresValue => OptionsErrorView::FilterRequiresValue,
                OptionsError::ReanalyzeRequiresPath => OptionsErrorView::ReanalyzeRequiresPath,
                OptionsError::UnknownArgument(a) => OptionsErrorView::UnknownArgument(a@),
                OptionsError::ReanalyzeCombined => OptionsErrorView::ReanalyzeCombined,
            },
        ),
    }
}

/// The options read so far, once the arguments are exhausted.
pub open spec fn finish_options(
    runs: usize,
    runs_explicit: bool,
    filter: Option<Seq<char>>,
    reanalyze: Option<Seq<char>>,
) -> Result<OptionsView, OptionsErrorView> {
    if reanalyze is Some && (filter is Some || runs_explicit) {
        Err(OptionsErrorView::ReanalyzeCombined)
    } else {
        Ok(OptionsView { runs, filter, reanalyze })
    }
}

/// Reading the arguments from index `i` on, with the options read so far.
pub open spec fn parse_args_from(
    args: Seq<Seq<char>>,
    i: int,
    runs: usize,
    runs_explicit: bool,
    filter: Option<Seq<char>>,
    reanalyze: Option<Seq<char>>,
) -> Result<OptionsView, OptionsErrorView>
    decreases args.len() - i,
{
    if i < 0 || i >= args.len() {
        finish_options(runs, runs_explicit, filter, reanalyze)
    } else if args[i] == "--runs"@ {
        if i + 1 >= args.len() {
            Err(OptionsErrorView::RunsRequiresValue)
        } else {
            match parse_usize_spec(args[i + 1]) {
                None => Err(OptionsErrorView::InvalidRunCount),
                Some(n) => if !(1 <= n <= ENGINE_COUNT) {
                    Err(OptionsErrorView::RunsOutOfRange)
                } else {
                    parse_args_from(args, i + 2, n, true, filter, reanalyze)
                },
            }
        }
    } else if args[i] == "--filter"@ {
        if i + 1 >= args.len() {
            Err(OptionsErrorView::FilterRequiresValue)
        } else {
            parse_args_from(args, i + 2, runs, runs_explicit, Some(args[i + 1]), reanalyze)
        }
    } else if args[i] == "--reanalyze"@ {
        if i + 1 >= args.len() {
            Err(OptionsErrorView::ReanalyzeRequiresPath)
        } else {
            parse_args_from(args, i + 2, runs, runs_explicit, filter, Some(args[i + 1]))
        }
    } else {
        Err(OptionsErrorView::UnknownArgument(args[i]))
    }
}

/// The command line `args` (without the program name).
pub open spec fn parse_options_spec(args: Seq<Seq<char>>) -> Result<OptionsView, OptionsErrorView> {
    parse_args_from(args, 0, DEFAULT_RUN_COUNT, false, None, None)
}

/// `--runs N` alone sets the run count to `N` for every `N` from 1 to the
/// number of engines, and is refused as out of range for 0 and for every
/// larger count.
pub proof fn lemma_runs_option(count: Seq<char>, n: usize)
    requires
        parse_usize_spec(count) == Some(n),
    ensures
        1 <= n <= ENGINE_COUNT ==> parse_options_spec(seq!["--runs"@, count]) == Ok::<
            OptionsView,
            OptionsErrorView,
        >(OptionsView { runs: n, filter: None, reanalyze: None }),
        n == 0 || n > ENGINE_COUNT ==> parse_options_spec(seq!["--runs"@, count]) == Err::<
            OptionsView,
            OptionsErrorView,
        >(OptionsErrorView::RunsOutOfRange),
{
    let args = seq!["--runs"@, count];
    assert(args[0] == "--runs"@);
    assert(args[1] == count);
    reveal_with_fuel(parse_args_from, 2);
}

/// `--runs` followed by a text that is no count is refused as invalid.
pub proof fn lemma_runs_option_invalid(count: Seq<char>)
    requires
        parse_usize_spec(count) is None,
    ensures
        parse_options_spec(seq!["--runs"@, count]) == Err::<OptionsView, OptionsErrorView>(
            OptionsErrorView::InvalidRunCount,
        ),
{
    let args = seq!["--runs"@, count];
    assert(args[0] == "--runs"@);
    assert(args[1] == count);
}

/// Reads the publication options `--runs N`, `--filter TEXT` and
/// `--reanalyze PATH` from `args` (without the program name).
pub fn parse_options(args: &[String]) -> (r: Result<Options, OptionsError>)
    ensures
        options_result_view(r) == parse_options_spec(args@.map_values(|s: String| s@)),
{
    let ghost view = args@.map_values(|s: String| s@);
    let mut runs: usize = DEFAULT_RUN_COUNT;
    let mut runs_explicit = false;
    let mut filter: Option<String> = None;
    let mut reanalyze: Option<String> = None;
    let mut i: usize = 0;
    while i < args.len()
        invariant
            view == args@.map_values(|s: String| s@),
            i <= args@.len() + 1,
            parse_options_spec(view) == parse_args_from(
                view,
                i as int,
                runs,
                runs_explicit,
                opt_chars(filter),
                opt_chars(reanalyze),
            ),
        decreases args@.len() + 1 - i,
    {
        let argument = args[i].as_str();
        assert(view[i as int] == argument@);
        if str_equal(argument, "--runs") {
            if i + 1 >= args.len() {
                return Err(OptionsError::RunsRequiresValue);
            }
            assert(view[i + 1] == args@[i + 1]@);
            match parse_usize_str(args[i + 1].as_str()) {
                None => return Err(OptionsError::InvalidRunCount),
                Some(n) => {
                    if !(1 <= n && n <= ENGINE_COUNT) {
                        return Err(OptionsError::RunsOutOfRange);
                    }
                    runs = n;
                    runs_explicit = true;
                },
            }
        } else if str_equal(argument, "--filter") {
            if i + 1 >= args.len() {
                return Err(OptionsError::FilterRequiresValue);
            }
            assert(view[i + 1] == args@[i + 1]@);
            filter = Some(args[i + 1].clone());
        } else if str_equal(argument, "--reanalyze") {
            if i + 1 >= args.len() {
                return Err(OptionsError::ReanalyzeRequiresPath);
            }
            assert(view[i + 1] == args@[i + 1]@);
            reanalyze = Some(args[i + 1].clone());
        } else {
            return Err(OptionsError::UnknownArgument(args[i].clone()));
        }
        i = i + 2;
    }
    if reanalyze.is_some() && (filter.is_some() || runs_explicit) {
        return Err(OptionsError::ReanalyzeCombined);
    }
    Ok(Options { runs, filter, reanalyze })
}

} // verus!

verus! {

/// Why the result set of a publication is refused.
#[derive(Clone, Debug, PartialEq, Eq)]
pub enum ValidationError {
    /// The publication produced no benchmark at all.
    NoResults,
    /// A benchmark was measured by another number of runs than requested.
    RunCountMismatch { benchmark: String, found: usize, expected: usize },
    /// A benchmark identifier has no `/engine` suffix.
    MissingEngineSuffix(String),
    /// A benchmark identifier ends in a name that is no engine.
    UnknownEngine(String),
    /// A benchmark family lacks at least one engine.
    IncompleteFamily(String),
    /// The families found are not the canonical families.
    FamilySetMismatch,
}

/// The content of a refusal.
pub enum ValidationErrorView {
    NoResults,
    RunCountMismatch { benchmark: Seq<char>, found: usize, expected: usize },
    MissingEngineSuffix(Seq<char>),
    UnknownEngine(Seq<char>),
    IncompleteFamily(Seq<char>),
    FamilySetMismatch,
}

/// The content of a refusal.
pub open spec fn validation_error_view(e: ValidationError) -> ValidationErrorView {
    match e {
        ValidationError::NoResults => ValidationErrorView::NoResults,
        ValidationError::RunCountMismatch { benchmark, found, expected } =>
            ValidationErrorView::RunCountMismatch { benchmark: benchmark@, found, expected },
        ValidationError::MissingEngineSuffix(b) => ValidationErrorView::MissingEngineSuffix(b@),
        ValidationError::UnknownEngine(b) => ValidationErrorView::UnknownEngine(b@),
        ValidationError::IncompleteFamily(f) => ValidationErrorView::IncompleteFamily(f@),
        ValidationError::FamilySetMismatch => ValidationErrorView::FamilySetMismatch,
    }
}

/// The content of a validation result.
pub open spec fn validation_result_view(r: Result<(), ValidationError>) -> Result<
    (),
    ValidationErrorView,
> {
    match r {
        Ok(()) => Ok(()),
        Err(e) => Err(validation_error_view(e)),
    }
}

/// The rows of a result set: each benchmark identifier with the number of
/// runs that measured it.
pub open spec fn result_rows(rows: Seq<(String, usize)>) -> Seq<(Seq<char>, usize)> {
    rows.map_values(|row: (String, usize)| (row.0@, row.1))
}

/// The least `i` below `n` for which `p(i)` holds.
pub open spec fn first_satisfying(n: int, p: spec_fn(int) -> bool) -> Option<int>
    decreases n,
{
    if n <= 0 {
        None
    } else {
        match first_satisfying(n - 1, p) {
            Some(i) => Some(i),
            None => if p(n - 1) {
                Some(n - 1)
            } else {
                None
            },
        }
    }
}

/// Once found, the least index stays the least as the range grows.
pub proof fn lemma_first_satisfying_stable(n: int, m: int, p: spec_fn(int) -> bool)
    requires
        n <= m,
        first_satisfying(n, p) is Some,
    ensures
        first_satisfying(m, p) == first_satisfying(n, p),
    decreases m - n,
{
    if n < m {
        lemma_first_satisfying_stable(n, m - 1, p);
    }
}

/// A benchmark identifier split at its last `/` into family and engine.
pub open spec fn benchmark_parts(b: Seq<char>) -> Option<(Seq<char>, Seq<char>)> {
    rsplit_once_seq(b, "/"@)
}

/// Row `i` was measured by another number of runs than `run_count`.
pub open spec fn run_count_differs(rows: Seq<(Seq<char>, usize)>, run_count: usize) -> spec_fn(
    int,
) -> bool {
    |i: int| rows[i].1 != run_count
}

/// Row `i` has no `/engine` suffix, or one that names no engine.
pub open spec fn engine_suffix_invalid(rows: Seq<(Seq<char>, usize)>) -> spec_fn(int) -> bool {
    |i: int|
        match benchmark_parts(rows[i].0) {
            Some((_, engine)) => parse_engine(engine) is None,
            None => true,
        }
}

/// The family of row `i`.
pub open spec fn row_family(rows: Seq<(Seq<char>, usize)>, i: int) -> Seq<char> {
    match benchmark_parts(rows[i].0) {
        Some((family, _)) => family,
        None => Seq::empty(),
    }
}

/// `f` is the family of some row.
pub open spec fn is_row_family(rows: Seq<(Seq<char>, usize)>, f: Seq<char>) -> bool {
    exists|i: int| 0 <= i < rows.len() && #[trigger] row_family(rows, i) == f
}

/// Some row is the benchmark of family `f` on engine `e`.
pub open spec fn family_has_engine(rows: Seq<(Seq<char>, usize)>, f: Seq<char>, e: Engine) -> bool {
    exists|i: int|
        0 <= i < rows.len() && #[trigger] benchmark_parts(rows[i].0) == Some((f, engine_name(e)))
}

/// `f` is the family of some row, and some engine has no row of it.
pub open spec fn family_incomplete(rows: Seq<(Seq<char>, usize)>, f: Seq<char>) -> bool {
    is_row_family(rows, f) && exists|e: Engine| !family_has_engine(rows, f, e)
}

/// `f` is the first incomplete family in lexicographic order.
pub open spec fn least_incomplete_family(rows: Seq<(Seq<char>, usize)>, f: Seq<char>) -> bool {
    &&& family_incomplete(rows, f)
    &&& forall|g: Seq<char>| family_incomplete(rows, g) && g != f ==> seq_less(f, g)
}

/// The families of the rows.
pub open spec fn families_found(rows: Seq<(Seq<char>, usize)>) -> Set<Seq<char>> {
    Set::new(|f: Seq<char>| is_row_family(rows, f))
}

/// The refusal of the first row measured by another number of runs than
/// `run_count`.
pub open spec fn run_count_error(rows: Seq<(Seq<char>, usize)>, run_count: usize) -> Option<
    ValidationErrorView,
> {
    match first_satisfying(rows.len() as int, run_count_differs(rows, run_count)) {
        Some(i) => Some(
            ValidationErrorView::RunCountMismatch {
                benchmark: rows[i].0,
                found: rows[i].1,
                expected: run_count,
            },
        ),
        None => None,
    }
}

/// The refusal of the first row without a `/engine` suffix that names an
/// engine.
pub open spec fn suffix_error(rows: Seq<(Seq<char>, usize)>) -> Option<ValidationErrorView> {
    match first_satisfying(rows.len() as int, engine_suffix_invalid(rows)) {
        Some(i) => Some(
            if benchmark_parts(rows[i].0) is None {
                ValidationErrorView::MissingEngineSuffix(rows[i].0)
            } else {
                ValidationErrorView::UnknownEngine(rows[i].0)
            },
        ),
        None => None,
    }
}

/// What the completeness check answers for `rows`: no rows; else the first
/// row measured by another number of runs; else, where every engine is
/// required, the first row without a known engine suffix, then the first
/// family in lexicographic order that lacks an engine, then a family set
/// other than the canonical one.
pub open spec fn validation_outcome(
    rows: Seq<(Seq<char>, usize)>,
    run_count: usize,
    require_all_engines: bool,
) -> Result<(), ValidationErrorView> {
    if rows.len() == 0 {
        Err(ValidationErrorView::NoResults)
    } else {
        match run_count_error(rows, run_count) {
            Some(e) => Err(e),
            None => if !require_all_engines {
                Ok(())
            } else {
                match suffix_error(rows) {
                    Some(e) => Err(e),
                    None => if exists|f: Seq<char>| family_incomplete(rows, f) {
                        Err(
                            ValidationErrorView::IncompleteFamily(
                                choose|f: Seq<char>| least_incomplete_family(rows, f),
                            ),
                        )
                    } else if families_found(rows) != expected_canonical_families_spec().to_set() {
                        Err(ValidationErrorView::FamilySetMismatch)
                    } else {
                        Ok(())
                    },
                }
            },
        }
    }
}

/// `fs` and `es` are the family and engine of each of `rows`.
pub open spec fn split_rows(
    rows: Seq<(Seq<char>, usize)>,
    fs: Seq<Seq<char>>,
    es: Seq<Engine>,
) -> bool {
    &&& fs.len() == rows.len()
    &&& es.len() == rows.len()
    &&& forall|k: int|
        0 <= k < rows.len() ==> #[trigger] benchmark_parts(rows[k].0) == Some(
            (fs[k], engine_name(es[k])),
        )
}

/// Some `k` has family `f` and engine `e`.
pub open spec fn has_engine_in(fs: Seq<Seq<char>>, es: Seq<Engine>, f: Seq<char>, e: Engine) -> bool {
    exists|k: int| 0 <= k < fs.len() && fs[k] == f && #[trigger] es[k] == e
}

/// Family `f` has every engine.
pub open spec fn complete_in(fs: Seq<Seq<char>>, es: Seq<Engine>, f: Seq<char>) -> bool {
    forall|e: Engine| #[trigger] has_engine_in(fs, es, f, e)
}

/// Split into families and engines, the rows have the families of `fs`,
/// and a family has an engine exactly where `fs` and `es` pair them.
pub proof fn lemma_split_rows(
    rows: Seq<(Seq<char>, usize)>,
    fs: Seq<Seq<char>>,
    es: Seq<Engine>,
    f: Seq<char>,
)
    requires
        split_rows(rows, fs, es),
    ensures
        is_row_family(rows, f) <==> fs.contains(f),
        forall|e: Engine| family_has_engine(rows, f, e) <==> #[trigger] has_engine_in(fs, es, f, e),
        family_incomplete(rows, f) <==> fs.contains(f) && !complete_in(fs, es, f),
{
    lemma_engine_names_distinct();
    assert forall|k: int| 0 <= k < rows.len() implies #[trigger] row_family(rows, k) == fs[k] by {
        assert(benchmark_parts(rows[k].0) == Some((fs[k], engine_name(es[k]))));
    }
    if is_row_family(rows, f) {
        let i = choose|i: int| 0 <= i < rows.len() && #[trigger] row_family(rows, i) == f;
        assert(fs[i] == f);
    }
    if fs.contains(f) {
        let k = choose|k: int| 0 <= k < fs.len() && fs[k] == f;
        assert(row_family(rows, k) == f);
    }
    assert forall|e: Engine| family_has_engine(rows, f, e) <==> #[trigger] has_engine_in(
        fs,
        es,
        f,
        e,
    ) by {
        if family_has_engine(rows, f, e) {
            let i = choose|i: int|
                0 <= i < rows.len() && #[trigger] benchmark_parts(rows[i].0) == Some(
                    (f, engine_name(e)),
                );
            assert(benchmark_parts(rows[i].0) == Some((fs[i], engine_name(es[i]))));
            assert(es[i] == e);
        }
        if has_engine_in(fs, es, f, e) {
            let k = choose|k: int| 0 <= k < fs.len() && fs[k] == f && #[trigger] es[k] == e;
            assert(benchmark_parts(rows[k].0) == Some((fs[k], engine_name(es[k]))));
        }
    }
    if family_incomplete(rows, f) {
        let e = choose|e: Engine| !family_has_engine(rows, f, e);
        assert(!has_engine_in(fs, es, f, e));
    }
    if !complete_in(fs, es, f) {
        let e = choose|e: Engine| !#[trigger] has_engine_in(fs, es, f, e);
        assert(!family_has_engine(rows, f, e));
    }
}

/// Whether `x` is one of `list`.
fn member_chars(list: &Vec<Vec<char>>, x: &Vec<char>) -> (r: bool)
    ensures
        r == exists|k: int| 0 <= k < list@.len() && #[trigger] list@[k]@ == x@,
{
    let mut k: usize = 0;
    while k < list.len()
        invariant
            k <= list@.len(),
            forall|j: int| 0 <= j < k ==> #[trigger] list@[j]@ != x@,
        decreases list@.len() - k,
    {
        if chars_equal(&list[k], x) {
            return true;
        }
        k = k + 1;
    }
    false
}

/// Whether the family `f` has a row for every engine.
fn family_complete(families: &Vec<Vec<char>>, engines: &Vec<Engine>, f: &Vec<char>) -> (r: bool)
    requires
        families@.len() == engines@.len(),
    ensures
        r == complete_in(families@.map_values(|x: Vec<char>| x@), engines@, f@),
{
    let ghost fs = families@.map_values(|x: Vec<char>| x@);
    let all = Engine::all();
    let mut j: usize = 0;
    while j < all.len()
        invariant
            fs == families@.map_values(|x: Vec<char>| x@),
            families@.len() == engines@.len(),
            all@ == all_engines(),
            j <= all@.len(),
            forall|jj: int| 0 <= jj < j ==> has_engine_in(fs, engines@, f@, #[trigger] all@[jj]),
        decreases all@.len() - j,
    {
        let e = all[j];
        let mut found = false;
        let mut k: usize = 0;
        while k < families.len()
            invariant
                fs == families@.map_values(|x: Vec<char>| x@),
                families@.len() == engines@.len(),
                k <= families@.len(),
                found == exists|kk: int|
                    0 <= kk < k && fs[kk] == f@ && #[trigger] engines@[kk] == e,
            decreases families@.len() - k,
        {
            assert(fs[k as int] == families@[k as int]@);
            if engines[k] == e && chars_equal(&families[k], f) {
                found = true;
            }
            k = k + 1;
        }
        if !found {
            assert(!has_engine_in(fs, engines@, f@, e));
            return false;
        }
        j = j + 1;
    }
    proof {
        assert forall|e: Engine| #[trigger] has_engine_in(fs, engines@, f@, e) by {
            lemma_engine_parse_name(e);
            let jj = choose|jj: int| 0 <= jj < all_engines().len() && all_engines()[jj] == e;
            assert(has_engine_in(fs, engines@, f@, all@[jj]));
        }
    }
    true
}

/// The family of `benchmark`, which has a `/`: its text before the last `/`.
fn family_text(benchmark: &str) -> (r: String)
    requires
        benchmark_parts(benchmark@) is Some,
    ensures
        benchmark_parts(benchmark@) matches Some((family, _)) && r@ == family,
{
    let chars = chars_of(benchmark);
    let slash = chars_of("/");
    proof {
        crate::text::lemma_last_occurrence_sound(chars@, slash@, chars@.len() + 1int);
    }
    match find_last(&chars, &slash) {
        Some(cut) => benchmark.substring_char(0, cut).to_owned(),
        None => String::new(),
    }
}

/// The refusal of the first row measured by another number of runs than
/// `run_count`, if any.
fn check_run_counts(rows: &[(String, usize)], run_count: usize) -> (r: Option<ValidationError>)
    ensures
        match r {
            Some(e) => run_count_error(result_rows(rows@), run_count) == Some(
                validation_error_view(e),
            ),
            None => run_count_error(result_rows(rows@), run_count) is None,
        },
{
    let ghost v = result_rows(rows@);
    let n = rows.len();
    let mut i: usize = 0;
    while i < n
        invariant
            n == rows@.len(),
            v == result_rows(rows@),
            i <= n,
            first_satisfying(i as int, run_count_differs(v, run_count)) is None,
        decreases n - i,
    {
        assert(v[i as int] == (rows@[i as int].0@, rows@[i as int].1));
        if rows[i].1 != run_count {
            proof {
                assert(run_count_differs(v, run_count)(i as int));
                lemma_first_satisfying_stable(i + 1, n as int, run_count_differs(v, run_count));
            }
            return Some(
                ValidationError::RunCountMismatch {
                    benchmark: rows[i].0.clone(),
                    found: rows[i].1,
                    expected: run_count,
                },
            );
        }
        i = i + 1;
    }
    None
}

/// Splits every row into its family and engine, or refuses the first row
/// without a `/engine` suffix that names an engine.
fn split_benchmarks(rows: &[(String, usize)]) -> (r: Result<
    (Vec<Vec<char>>, Vec<Engine>),
    ValidationError,
>)
    ensures
        match r {
            Ok((families, engines)) => suffix_error(result_rows(rows@)) is None && split_rows(
                result_rows(rows@),
                families@.map_values(|x: Vec<char>| x@),
                engines@,
            ),
            Err(e) => suffix_error(result_rows(rows@)) == Some(validation_error_view(e)),
        },
{
    let ghost v = result_rows(rows@);
    let n = rows.len();
    let slash = chars_of("/");
    let mut families: Vec<Vec<char>> = Vec::new();
    let mut engines: Vec<Engine> = Vec::new();
    let mut i: usize = 0;
    while i < n
        invariant
            n == rows@.len(),
            v == result_rows(rows@),
            i <= n,
            slash@ == "/"@,
            first_satisfying(i as int, engine_suffix_invalid(v)) is None,
            families@.len() == i,
            engines@.len() == i,
            forall|k: int|
                0 <= k < i ==> #[trigger] benchmark_parts(v[k].0) == Some(
                    (families@[k]@, engine_name(engines@[k])),
                ),
        decreases n - i,
    {
        assert(v[i as int] == (rows@[i as int].0@, rows@[i as int].1));
        let b = chars_of(rows[i].0.as_str());
        match rsplit_once_chars(&b, &slash) {
            None => {
                proof {
                    assert(engine_suffix_invalid(v)(i as int));
                    lemma_first_satisfying_stable(i + 1, n as int, engine_suffix_invalid(v));
                }
                return Err(ValidationError::MissingEngineSuffix(rows[i].0.clone()));
            },
            Some((family, engine_text)) => {
                match Engine::parse_chars(&engine_text) {
                    None => {
                        proof {
                            assert(engine_suffix_invalid(v)(i as int));
                            lemma_first_satisfying_stable(
                                i + 1,
                                n as int,
                                engine_suffix_invalid(v),
                            );
                        }
                        return Err(ValidationError::UnknownEngine(rows[i].0.clone()));
                    },
                    Some(engine) => {
                        proof {
                            lemma_parse_engine_sound(engine_text@);
                            assert(!engine_suffix_invalid(v)(i as int));
                        }
                        families.push(family);
                        engines.push(engine);
                    },
                }
            },
        }
        i = i + 1;
    }
    let ghost fs = families@.map_values(|x: Vec<char>| x@);
    assert forall|k: int| 0 <= k < v.len() implies #[trigger] benchmark_parts(v[k].0) == Some(
        (fs[k], engine_name(engines@[k])),
    ) by {
        assert(benchmark_parts(v[k].0) == Some((families@[k]@, engine_name(engines@[k]))));
    }
    Ok((families, engines))
}

/// The index of a family that lacks an engine and comes first in
/// lexicographic order among those, if any family lacks one.
fn least_incomplete(families: &Vec<Vec<char>>, engines: &Vec<Engine>) -> (r: Option<usize>)
    requires
        families@.len() == engines@.len(),
    ensures
        ({
            let fs = families@.map_values(|x: Vec<char>| x@);
            match r {
                Some(b) => {
                    &&& b < fs.len()
                    &&& !complete_in(fs, engines@, fs[b as int])
                    &&& forall|k: int|
                        0 <= k < fs.len() && !complete_in(fs, engines@, #[trigger] fs[k]) ==> fs[k]
                            == fs[b as int] || seq_less(fs[b as int], fs[k])
                },
                None => forall|k: int|
                    0 <= k < fs.len() ==> complete_in(fs, engines@, #[trigger] fs[k]),
            }
        }),
{
    let ghost fs = families@.map_values(|x: Vec<char>| x@);
    let n = families.len();
    let mut best: Option<usize> = None;
    let mut i: usize = 0;
    while i < n
        invariant
            n == families@.len(),
            engines@.len() == n,
            i <= n,
            fs == families@.map_values(|x: Vec<char>| x@),
            best matches Some(b) ==> b < n && !complete_in(fs, engines@, fs[b as int]),
            best matches Some(b) ==> forall|k: int|
                0 <= k < i && !complete_in(fs, engines@, #[trigger] fs[k]) ==> fs[k] == fs[b as int]
                    || seq_less(fs[b as int], fs[k]),
            best is None ==> forall|k: int| 0 <= k < i ==> complete_in(fs, engines@, #[trigger] fs[k]),
        decreases n - i,
    {
        assert(fs[i as int] == families@[i as int]@);
        if !family_complete(families, engines, &families[i]) {
            match best {
                None => {
                    best = Some(i);
                },
                Some(b) => {
                    assert(fs[b as int] == families@[b as int]@);
                    if chars_less(&families[i], &families[b]) {
                        proof {
                            assert forall|k: int|
                                0 <= k < i + 1 && !complete_in(
                                    fs,
                                    engines@,
                                    #[trigger] fs[k],
                                ) implies fs[k] == fs[i as int] || seq_less(
                                fs[i as int],
                                fs[k],
                            ) by {
                                lemma_seq_less_order(fs[i as int], fs[b as int], fs[k]);
                            }
                        }
                        best = Some(i);
                    } else {
                        proof {
                            lemma_seq_less_order(fs[i as int], fs[b as int], fs[i as int]);
                        }
                    }
                },
            }
        }
        i = i + 1;
    }
    best
}

/// Whether the families of `families` are exactly the canonical families.
fn family_set_is_canonical(families: &Vec<Vec<char>>) -> (r: bool)
    ensures
        r == (families@.map_values(|x: Vec<char>| x@).to_set()
            == expected_canonical_families_spec().to_set()),
{
    let ghost fs = families@.map_values(|x: Vec<char>| x@);
    let names = expected_canonical_families();
    let ghost expected = expected_canonical_families_spec();
    let mut canonical: Vec<Vec<char>> = Vec::new();
    let mut j: usize = 0;
    while j < names.len()
        invariant
            names@.map_values(|s: &'static str| s@) == expected,
            expected == expected_canonical_families_spec(),
            j <= names@.len(),
            canonical@.len() == j,
            forall|k: int| 0 <= k < j ==> #[trigger] canonical@[k]@ == expected[k],
        decreases names@.len() - j,
    {
        assert(names@.map_values(|s: &'static str| s@)[j as int] == names@[j as int]@);
        canonical.push(chars_of(names[j]));
        j = j + 1;
    }
    let n = families.len();
    let mut i: usize = 0;
    while i < n
        invariant
            n == families@.len(),
            fs == families@.map_values(|x: Vec<char>| x@),
            expected == expected_canonical_families_spec(),
            canonical@.len() == expected.len(),
            forall|k: int| 0 <= k < expected.len() ==> #[trigger] canonical@[k]@ == expected[k],
            i <= n,
            forall|k: int| 0 <= k < i ==> expected.contains(#[trigger] fs[k]),
        decreases n - i,
    {
        assert(fs[i as int] == families@[i as int]@);
        if !member_chars(&canonical, &families[i]) {
            proof {
                assert(fs.to_set().contains(fs[i as int]));
                assert forall|k: int| 0 <= k < expected.len() implies expected[k] != fs[i as int] by {
                    assert(canonical@[k]@ == expected[k]);
                }
                assert(!expected.to_set().contains(fs[i as int]));
                assert(fs.to_set() != expected.to_set());
            }
            return false;
        }
        i = i + 1;
    }
    let mut j: usize = 0;
    while j < canonical.len()
        invariant
            n == families@.len(),
            fs == families@.map_values(|x: Vec<char>| x@),
            expected == expected_canonical_families_spec(),
            canonical@.len() == expected.len(),
            forall|k: int| 0 <= k < expected.len() ==> #[trigger] canonical@[k]@ == expected[k],
            forall|k: int| 0 <= k < n ==> expected.contains(#[trigger] fs[k]),
            j <= canonical@.len(),
            forall|k: int| 0 <= k < j ==> fs.contains(#[trigger] expected[k]),
        decreases canonical@.len() - j,
    {
        if !member_chars(families, &canonical[j]) {
            proof {
                assert(expected.to_set().contains(expected[j as int]));
                assert forall|m: int| 0 <= m < n implies #[trigger] fs[m] != expected[j as int] by {
                    assert(fs[m] == families@[m]@);
                }
                assert(!fs.to_set().contains(expected[j as int]));
                assert(fs.to_set() != expected.to_set());
            }
            return false;
        }
        proof {
            let m = choose|m: int|
                0 <= m < families@.len() && #[trigger] families@[m]@ == canonical@[j as int]@;
            assert(fs[m] == expected[j as int]);
        }
        j = j + 1;
    }
    proof {
        assert forall|f: Seq<char>| fs.to_set().contains(f) == expected.to_set().contains(f) by {
            if expected.contains(f) {
                let k = choose|k: int| 0 <= k < expected.len() && expected[k] == f;
                assert(fs.contains(expected[k]));
            }
            if fs.contains(f) {
                let k = choose|k: int| 0 <= k < fs.len() && fs[k] == f;
                assert(expected.contains(fs[k]));
            }
        }
        assert(fs.to_set() =~= expected.to_set());
    }
    true
}

/// Checks that the results of a publication are complete. Each row is a
/// benchmark identifier `family/engine` with the number of runs that
/// measured it. There must be rows, and every row must have been measured
/// by `run_count` runs; where every engine is required, every row must
/// name an engine, every family must have every engine, and the families
/// must be the canonical ones.
pub fn validate_results(
    rows: &[(String, usize)],
    run_count: usize,
    require_all_engines: bool,
) -> (r: Result<(), ValidationError>)
    ensures
        validation_result_view(r) == validation_outcome(
            result_rows(rows@),
            run_count,
            require_all_engines,
        ),
{
    let ghost v = result_rows(rows@);
    if rows.len() == 0 {
        return Err(ValidationError::NoResults);
    }
    if let Some(e) = check_run_counts(rows, run_count) {
        return Err(e);
    }
    if !require_all_engines {
        return Ok(());
    }
    let (families, engines) = match split_benchmarks(rows) {
        Ok(parts) => parts,
        Err(e) => {
            return Err(e);
        },
    };
    let ghost fs = families@.map_values(|x: Vec<char>| x@);
    if let Some(b) = least_incomplete(&families, &engines) {
        proof {
            lemma_split_rows(v, fs, engines@, fs[b as int]);
            assert(family_incomplete(v, fs[b as int]));
            assert forall|g: Seq<char>| family_incomplete(v, g) && g != fs[b as int] implies seq_less(
                fs[b as int],
                g,
            ) by {
                lemma_split_rows(v, fs, engines@, g);
                let k = choose|k: int| 0 <= k < fs.len() && fs[k] == g;
                assert(!complete_in(fs, engines@, fs[k]));
            }
            assert(least_incomplete_family(v, fs[b as int]));
            let c = choose|f: Seq<char>| least_incomplete_family(v, f);
            assert(least_incomplete_family(v, c));
            lemma_seq_less_order(c, fs[b as int], c);
            assert(c == fs[b as int]);
            assert(v[b as int] == (rows@[b as int].0@, rows@[b as int].1));
            assert(benchmark_parts(v[b as int].0) == Some((fs[b as int], engine_name(engines@[b as int]))));
        }
        let family = family_text(rows[b].0.as_str());
        return Err(ValidationError::IncompleteFamily(family));
    }
    proof {
        assert forall|f: Seq<char>| !family_incomplete(v, f) by {
            lemma_split_rows(v, fs, engines@, f);
            if fs.contains(f) {
                let k = choose|k: int| 0 <= k < fs.len() && fs[k] == f;
                assert(complete_in(fs, engines@, fs[k]));
            }
        }
        assert forall|f: Seq<char>| families_found(v).contains(f) == fs.to_set().contains(f) by {
            lemma_split_rows(v, fs, engines@, f);
        }
        assert(families_found(v) =~= fs.to_set());
    }
    if family_set_is_canonical(&families) {
        Ok(())
    } else {
        Err(ValidationError::FamilySetMismatch)
    }
}
} // verus!
