use std::collections::BTreeMap;
use std::collections::BTreeSet;

use sky_ecs_comparison::common::random_fragment_masks;
use sky_ecs_comparison::common::random_fragment_match_count;
use sky_ecs_comparison::engine::Engine;
use sky_ecs_comparison::publish::expected_canonical_families;
use sky_ecs_comparison::publish::is_v2_group;
use sky_ecs_comparison::publish::native_optimized_flags;
use sky_ecs_comparison::publish::parse_options;
use sky_ecs_comparison::publish::rotated_order;
use sky_ecs_comparison::publish::validate_results;
use sky_ecs_comparison::publish::work_items;
use sky_ecs_comparison::publish::work_items_defined;
use sky_ecs_comparison::publish::Options;
use sky_ecs_comparison::publish::OptionsError;
use sky_ecs_comparison::publish::ValidationError;
use sky_ecs_comparison::publish::DEFAULT_RUN_COUNT;
use sky_ecs_comparison::publish::EXPECTED_CANONICAL_FAMILY_COUNT;

#[test]
fn rotations_put_every_engine_in_every_position() {
    let all = Engine::all();
    let mut positions: BTreeMap<String, BTreeSet<usize>> = BTreeMap::new();
    for offset in 0..all.len() {
        for (position, engine) in rotated_order(offset).split(',').enumerate() {
            positions
                .entry(engine.to_owned())
                .or_default()
                .insert(position);
        }
    }
    for engine in &all {
        assert_eq!(positions[engine.name()].len(), all.len());
    }
}

#[test]
fn work_item_count_uses_random_fragment_component_count() {
    for component_count in [6, 8, 10, 16] {
        let benchmark = format!(
            "fair_prepared_random_fragmented_iteration/random_{component_count}_components_4_terms/sky"
        );
        assert_eq!(
            work_items(&benchmark),
            Some(random_fragment_match_count(&random_fragment_masks(
                component_count
            )))
        );
    }
}

#[test]
fn publication_protocol_has_unique_expected_families() {
    let families = expected_canonical_families();
    assert_eq!(
        families.iter().copied().collect::<BTreeSet<_>>().len(),
        families.len()
    );
}

#[test]
fn rotated_orders_rotate_the_engine_list() {
    assert_eq!(rotated_order(0), "sky,hecs,bevy,flecs_c,freecs,shipyard");
    assert_eq!(rotated_order(1), "hecs,bevy,flecs_c,freecs,shipyard,sky");
    assert_eq!(rotated_order(6), rotated_order(0));
}

#[test]
fn work_items_follow_the_benchmark_names() {
    assert_eq!(work_items("fair_prepared_random_access/cold_1m/sky"), Some(1_000_000));
    assert_eq!(work_items("fair_prepared_random_access/warm_100k/sky"), Some(100_000));
    assert_eq!(work_items("fair_prepared_iteration_large/simple_100k/hecs"), Some(100_000));
    assert_eq!(
        work_items("fair_prepared_fragmented_iteration/fragmented_26x400/bevy"),
        Some(10_400)
    );
    assert_eq!(work_items("fair_prepared_iteration_repeated/simple_x32/sky"), Some(320_000));
    assert_eq!(work_items("fair_prepared_iteration/simple_10k/sky"), Some(10_000));
    assert_eq!(work_items("fair_entity_ops/spawn_despawn_1k/sky"), Some(1_000));
    assert_eq!(work_items("api/get_16/sky"), Some(16));
    assert_eq!(work_items("api/get_1/sky"), Some(1));
    assert_eq!(work_items("fair_scenario_mixed_frame/frame/sky"), None);
    assert_eq!(
        work_items("fair_prepared_random_fragmented_iteration/random_x_components_4_terms/sky"),
        None
    );
}

#[test]
fn only_the_publication_groups_are_collected() {
    assert!(is_v2_group("fair_prepared_iteration"));
    assert!(is_v2_group("fair_scenario_mixed_frame_phases"));
    assert!(!is_v2_group("prepared_iteration"));
    assert!(!is_v2_group("fair_prepared_iteration/simple_10k"));
}

#[test]
fn native_flags_depend_on_the_toolchain() {
    assert_eq!(native_optimized_flags(true), "/O2 /GL /LTCG /DNDEBUG");
    assert_eq!(native_optimized_flags(false), "-O3 -flto -DNDEBUG");
}

fn args(values: &[&str]) -> Vec<String> {
    values.iter().map(|value| value.to_string()).collect()
}

#[test]
fn options_default_to_seven_runs() {
    assert_eq!(
        parse_options(&[]),
        Ok(Options {
            runs: DEFAULT_RUN_COUNT,
            filter: None,
            reanalyze: None,
        })
    );
    assert_eq!(
        parse_options(&args(&["--runs", "3", "--filter", "fair_entity_ops"])),
        Ok(Options {
            runs: 3,
            filter: Some("fair_entity_ops".to_owned()),
            reanalyze: None,
        })
    );
    assert_eq!(
        parse_options(&args(&["--reanalyze", "target/report"])),
        Ok(Options {
            runs: DEFAULT_RUN_COUNT,
            filter: None,
            reanalyze: Some("target/report".to_owned()),
        })
    );
    assert_eq!(parse_options(&args(&["--runs", "+6"])).map(|o| o.runs), Ok(6));
}

#[test]
fn options_refuse_malformed_command_lines() {
    assert_eq!(parse_options(&args(&["--runs"])), Err(OptionsError::RunsRequiresValue));
    assert_eq!(parse_options(&args(&["--runs", "x"])), Err(OptionsError::InvalidRunCount));
    assert_eq!(parse_options(&args(&["--runs", ""])), Err(OptionsError::InvalidRunCount));
    assert_eq!(parse_options(&args(&["--runs", "0"])), Err(OptionsError::RunsOutOfRange));
    assert_eq!(parse_options(&args(&["--runs", "7"])), Err(OptionsError::RunsOutOfRange));
    assert_eq!(
        parse_options(&args(&["--runs", "99999999999999999999999"])),
        Err(OptionsError::InvalidRunCount)
    );
    assert_eq!(parse_options(&args(&["--filter"])), Err(OptionsError::FilterRequiresValue));
    assert_eq!(
        parse_options(&args(&["--reanalyze"])),
        Err(OptionsError::ReanalyzeRequiresPath)
    );
    assert_eq!(
        parse_options(&args(&["--verbose"])),
        Err(OptionsError::UnknownArgument("--verbose".to_owned()))
    );
    assert_eq!(
        parse_options(&args(&["--reanalyze", "r", "--runs", "2"])),
        Err(OptionsError::ReanalyzeCombined)
    );
    assert_eq!(
        parse_options(&args(&["--filter", "a", "--reanalyze", "r"])),
        Err(OptionsError::ReanalyzeCombined)
    );
}

fn complete_rows(run_count: usize) -> Vec<(String, usize)> {
    let mut rows = Vec::new();
    for family in expected_canonical_families() {
        for engine in Engine::all() {
            rows.push((format!("{family}/{}", engine.name()), run_count));
        }
    }
    rows
}

#[test]
fn complete_results_pass_validation() {
    let rows = complete_rows(3);
    assert_eq!(rows.len(), EXPECTED_CANONICAL_FAMILY_COUNT * Engine::all().len());
    assert_eq!(validate_results(&rows, 3, true), Ok(()));
}

#[test]
fn validation_refuses_empty_results() {
    assert_eq!(validate_results(&[], 3, false), Err(ValidationError::NoResults));
}

#[test]
fn validation_reports_the_first_run_count_mismatch() {
    let mut rows = complete_rows(3);
    rows[5].1 = 2;
    rows[9].1 = 4;
    assert_eq!(
        validate_results(&rows, 3, false),
        Err(ValidationError::RunCountMismatch {
            benchmark: rows[5].0.clone(),
            found: 2,
            expected: 3,
        })
    );
}

#[test]
fn filtered_results_skip_the_engine_checks() {
    let rows = vec![("only/one".to_owned(), 2)];
    assert_eq!(validate_results(&rows, 2, false), Ok(()));
    assert_eq!(
        validate_results(&rows, 2, true),
        Err(ValidationError::UnknownEngine("only/one".to_owned()))
    );
}

#[test]
fn validation_refuses_identifiers_without_an_engine() {
    let mut rows = complete_rows(1);
    rows.insert(3, ("no_suffix".to_owned(), 1));
    rows.push(("family/unknown".to_owned(), 1));
    assert_eq!(
        validate_results(&rows, 1, true),
        Err(ValidationError::MissingEngineSuffix("no_suffix".to_owned()))
    );
}

#[test]
fn validation_names_the_first_incomplete_family() {
    let mut rows = complete_rows(1);
    rows.retain(|(benchmark, _)| {
        benchmark != "fair_scenario_mixed_frame/frame/bevy"
            && benchmark != "fair_entity_ops/spawn_despawn_1k/sky"
    });
    assert_eq!(
        validate_results(&rows, 1, true),
        Err(ValidationError::IncompleteFamily(
            "fair_entity_ops/spawn_despawn_1k".to_owned()
        ))
    );
}

#[test]
fn validation_refuses_a_different_family_set() {
    let mut rows = complete_rows(1);
    let extra = "fair_prepared_iteration/simple_20k";
    for engine in Engine::all() {
        rows.push((format!("{extra}/{}", engine.name()), 1));
    }
    assert_eq!(
        validate_results(&rows, 1, true),
        Err(ValidationError::FamilySetMismatch)
    );

    let mut missing = complete_rows(1);
    missing.retain(|(benchmark, _)| !benchmark.starts_with("fair_diagnostic_heavy_compute/"));
    assert_eq!(
        validate_results(&missing, 1, true),
        Err(ValidationError::FamilySetMismatch)
    );
}

#[test]
fn work_items_are_defined_for_one_to_sixteen_components() {
    assert!(work_items_defined("fair_entity_ops/spawn_despawn_1k/sky"));
    assert!(work_items_defined(
        "fair_prepared_random_fragmented_iteration/random_16_components_4_terms/sky"
    ));
    assert!(!work_items_defined(
        "fair_prepared_random_fragmented_iteration/random_17_components_4_terms/sky"
    ));
    assert!(!work_items_defined(
        "fair_prepared_random_fragmented_iteration/random_0_components_4_terms/sky"
    ));
    assert!(work_items_defined(
        "fair_prepared_random_fragmented_iteration/random_x_components_4_terms/sky"
    ));
}
