use std::collections::BTreeSet;

use sky_ecs_comparison::common::catalog::benchmark_class;
use sky_ecs_comparison::common::catalog::benchmark_spec;
use sky_ecs_comparison::common::catalog::benchmark_work_items;
use sky_ecs_comparison::common::catalog::canonical_benchmarks;
use sky_ecs_comparison::common::catalog::fixed_sequence_amortized_traversals;
use sky_ecs_comparison::common::catalog::fixed_sequence_plan_payload_bytes;
use sky_ecs_comparison::common::catalog::gameplay_phase_benchmarks;
use sky_ecs_comparison::common::catalog::is_canonical_group;
use sky_ecs_comparison::common::catalog::BenchmarkClass;
use sky_ecs_comparison::common::catalog::WorkItems;
use sky_ecs_comparison::engine::Engine;

#[test]
fn catalog_has_unique_families() {
    let benchmarks = canonical_benchmarks();
    let families: BTreeSet<_> = benchmarks.iter().map(|spec| spec.family).collect();
    assert_eq!(families.len(), benchmarks.len());
}

#[test]
fn catalog_resolves_random_fragment_work_items() {
    assert_eq!(
        benchmark_work_items("prepared_random_fragmented_iteration/random_16_components_4_terms/sky"),
        Some(4_103)
    );
}

#[test]
fn catalog_classifies_every_family() {
    let benchmarks = canonical_benchmarks();
    assert_eq!(
        benchmarks
            .iter()
            .filter(|spec| spec.class == BenchmarkClass::Comparable)
            .count(),
        29
    );
    assert_eq!(
        benchmarks
            .iter()
            .filter(|spec| spec.class == BenchmarkClass::Scenario)
            .count(),
        14
    );
    assert_eq!(
        benchmarks
            .iter()
            .filter(|spec| spec.class == BenchmarkClass::Diagnostic)
            .count(),
        1
    );
    assert_eq!(
        benchmark_class("scenario_gameplay_frame/frame/sky"),
        Some(BenchmarkClass::Scenario)
    );
}

#[test]
fn catalog_excludes_freecs_only_from_the_pathological_16_component_matrix() {
    let sixteen = benchmark_spec("prepared_random_fragmented_iteration/random_16_tags_1_term").unwrap();
    assert!(!sixteen.engines.contains(&Engine::Freecs));
    assert_eq!(sixteen.engines.len(), 5);

    let ten = benchmark_spec("prepared_random_fragmented_iteration/random_10_tags_1_term").unwrap();
    assert!(ten.engines.contains(&Engine::Freecs));
    assert_eq!(ten.engines, Engine::all());
}

#[test]
fn fixed_sequence_metadata_reports_plan_and_amortization_costs() {
    assert_eq!(
        fixed_sequence_plan_payload_bytes("scenario_fixed_sequence_access/steady_10k/sky"),
        Some(10_000 * std::mem::size_of::<usize>())
    );
    assert_eq!(
        fixed_sequence_plan_payload_bytes("entity_id_random_access/hot_10k/sky"),
        None
    );
    assert_eq!(
        fixed_sequence_amortized_traversals("scenario_fixed_sequence_access/amortized_100k_x64/hecs"),
        Some(64)
    );
    assert_eq!(
        fixed_sequence_amortized_traversals("scenario_fixed_sequence_access/steady_100k/hecs"),
        None
    );
}

#[test]
fn plan_payload_scales_with_the_larger_entity_count() {
    assert_eq!(
        fixed_sequence_plan_payload_bytes("scenario_fixed_sequence_access/steady_100k/hecs"),
        Some(100_000 * std::mem::size_of::<usize>())
    );
    assert_eq!(
        fixed_sequence_plan_payload_bytes("scenario_fixed_sequence_access/steady_10k"),
        None
    );
    assert_eq!(fixed_sequence_plan_payload_bytes("no_slash"), None);
}

#[test]
fn unknown_benchmarks_have_no_metadata() {
    assert_eq!(benchmark_work_items("unknown_family/frame/sky"), None);
    assert_eq!(benchmark_class("unknown_family/frame/sky"), None);
    assert_eq!(benchmark_class("no_engine_suffix"), None);
    assert!(benchmark_spec("unknown_family/frame").is_none());
}

#[test]
fn work_items_resolve_each_kind() {
    assert_eq!(WorkItems::NoItems.resolve(), None);
    assert_eq!(WorkItems::Fixed(321).resolve(), Some(321));
    assert_eq!(
        WorkItems::RandomFragment {
            component_count: 16,
            term_count: 4,
        }
        .resolve(),
        Some(4_103)
    );
}

#[test]
fn every_catalog_family_resolves_its_work_items() {
    for spec in canonical_benchmarks()
        .into_iter()
        .chain(gameplay_phase_benchmarks())
    {
        let full_id = format!("{}/sky", spec.family);
        assert_eq!(benchmark_work_items(&full_id), spec.work_items.resolve());
        assert_eq!(benchmark_class(&full_id), Some(spec.class));
        let group = spec.family.split_once('/').unwrap().0;
        assert!(is_canonical_group(group));
    }
    assert!(!is_canonical_group("fair_prepared_iteration"));
}

#[test]
fn class_names_are_lower_case_words() {
    assert_eq!(BenchmarkClass::Comparable.name(), "comparable");
    assert_eq!(BenchmarkClass::Scenario.name(), "scenario");
    assert_eq!(BenchmarkClass::Diagnostic.name(), "diagnostic");
}

#[test]
fn only_sixteen_component_matrices_skip_freecs() {
    for spec in canonical_benchmarks()
        .into_iter()
        .chain(gameplay_phase_benchmarks())
    {
        let sixteen = spec.family.contains("/random_16_");
        assert_eq!(!spec.engines.contains(&Engine::Freecs), sixteen, "{}", spec.family);
        if !sixteen {
            assert_eq!(spec.engines, Engine::all());
        }
    }
}

#[test]
fn amortized_work_items_are_plan_entities_times_traversals() {
    let amortized: Vec<_> = canonical_benchmarks()
        .into_iter()
        .filter(|spec| spec.family.starts_with("scenario_fixed_sequence_access/amortized_"))
        .collect();
    assert_eq!(amortized.len(), 8);
    for spec in amortized {
        for engine in ["sky", "hecs", "bevy", "flecs_c", "freecs", "shipyard"] {
            let id = format!("{}/{}", spec.family, engine);
            let traversals = fixed_sequence_amortized_traversals(&id).unwrap();
            assert!([1, 4, 16, 64].contains(&traversals));
            let payload = fixed_sequence_plan_payload_bytes(&id).unwrap();
            assert_eq!(
                benchmark_work_items(&id),
                Some(payload / std::mem::size_of::<usize>() * traversals)
            );
        }
    }
    assert_eq!(
        fixed_sequence_amortized_traversals("entity_ops/spawn_despawn_1k/sky"),
        None
    );
}

#[test]
fn every_family_looks_itself_up() {
    for spec in canonical_benchmarks().into_iter().chain(gameplay_phase_benchmarks()) {
        let found = benchmark_spec(spec.family).unwrap();
        assert_eq!(found.family, spec.family);
        assert_eq!(found.class, spec.class);
        let id = format!("{}/sky", spec.family);
        assert_eq!(benchmark_class(&id), Some(spec.class));
    }
    assert_eq!(benchmark_class("no_slash_here"), None);
    assert_eq!(benchmark_class("unknown_family/sky"), None);
}
