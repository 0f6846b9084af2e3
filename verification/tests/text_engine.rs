use sky_ecs_comparison::engine::Engine;
use sky_ecs_comparison::engine::ENGINE_COUNT;
use sky_ecs_comparison::text::chars_less;
use sky_ecs_comparison::text::chars_of;
use sky_ecs_comparison::text::contains_str;
use sky_ecs_comparison::text::find_first;
use sky_ecs_comparison::text::find_last;
use sky_ecs_comparison::text::parse_usize_str;
use sky_ecs_comparison::text::rsplit_once_chars;
use sky_ecs_comparison::text::split_once_chars;
use sky_ecs_comparison::text::str_equal;
use sky_ecs_comparison::text::strip_prefix_chars;

#[test]
fn engine_names_parse_back() {
    let all = Engine::all();
    assert_eq!(all.len(), ENGINE_COUNT);
    for engine in &all {
        assert_eq!(Engine::parse(engine.name()), Some(*engine));
        assert_eq!(Engine::parse_chars(&chars_of(engine.name())), Some(*engine));
    }
    assert_eq!(Engine::parse("flecs"), None);
    assert_eq!(Engine::parse(""), None);
    assert_eq!(Engine::parse("Sky"), None);
}

#[test]
fn usize_parsing_follows_from_str() {
    for text in ["0", "7", "+64", "0042", "18446744073709551615", "", "+", "-1", " 1", "1a", "18446744073709551616"] {
        assert_eq!(parse_usize_str(text), text.parse::<usize>().ok(), "{text}");
    }
}

#[test]
fn searches_find_first_and_last_occurrences() {
    let text = chars_of("a/b/c");
    let slash = chars_of("/");
    assert_eq!(find_first(&text, &slash), Some(1));
    assert_eq!(find_last(&text, &slash), Some(3));
    assert_eq!(find_first(&text, &chars_of("x")), None);
    assert!(contains_str(&text, "b/c"));
    assert!(!contains_str(&text, "c/"));
    let (left, right) = rsplit_once_chars(&text, &slash).unwrap();
    assert_eq!((left, right), (chars_of("a/b"), chars_of("c")));
    let (left, right) = split_once_chars(&text, &slash).unwrap();
    assert_eq!((left, right), (chars_of("a"), chars_of("b/c")));
    assert_eq!(strip_prefix_chars(&text, &chars_of("a/")), Some(chars_of("b/c")));
    assert_eq!(strip_prefix_chars(&text, &chars_of("b")), None);
    assert!(str_equal("same", "same"));
    assert!(!str_equal("same", "sam"));
}

#[test]
fn lexicographic_order_matches_str() {
    let words = ["", "a", "ab", "b", "fair_entity_ops/x", "fair_entity_ops", "z", "é"];
    for left in words {
        for right in words {
            assert_eq!(
                chars_less(&chars_of(left), &chars_of(right)),
                left < right,
                "{left} {right}"
            );
        }
    }
}
