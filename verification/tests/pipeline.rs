use gd_rehearse::cases::{RustTestCase, case_le_exec};
use gd_rehearse::config::RunnerConfig;
use gd_rehearse::registry::{CaseRegistry, GdRustItests, sort_durations};
use gd_rehearse::utils::{
    extract_file_subtitle, format_micros_3dp, format_secs_2dp, str_contains, str_eq, str_lex_lt,
    u64_to_string,
};

fn test_case(name: &str, file: &str, line: u32) -> RustTestCase {
    RustTestCase {
        name: name.to_string(),
        file: file.to_string(),
        skipped: false,
        focused: false,
        keyword: None,
        scene_path: None,
        line,
    }
}

fn config() -> RunnerConfig {
    RunnerConfig {
        disallow_focus: false,
        disallow_skip: false,
        run_rust_tests: true,
        run_rust_benchmarks: true,
        keyword: String::new(),
        ignore_keywords: false,
        only_scene_path: false,
        scene_path: String::new(),
        filters: Vec::new(),
        quiet_run: false,
    }
}

fn seeded_run_order() -> Vec<u32> {
    let mut registry: CaseRegistry<RustTestCase> = CaseRegistry::new();
    registry.register(test_case("at_ten", "src/one.rs", 10)).unwrap();
    registry.register(test_case("at_five", "src/one.rs", 5)).unwrap();
    registry.register(test_case("at_twenty", "src/one.rs", 20)).unwrap();

    let cfg = config();
    let mut handler = GdRustItests::init(registry.drain_all());
    handler.filter_path_keyword(&cfg);
    handler.filter_focus_filters(&cfg);
    handler.finish_setup();

    let mut order = Vec::new();
    while let Some(test) = handler.get_test() {
        order.push(test.line);
    }
    order
}

#[test]
fn run_order_is_by_line_and_reproducible() {
    // Three descriptors at lines 10, 5, 20 in the same file run in
    // ascending line order, reproduced across two separate drains of
    // freshly-seeded registries.
    let first = seeded_run_order();
    assert_eq!(first, vec![5, 10, 20]);
    let second = seeded_run_order();
    assert_eq!(first, second);
}

#[test]
fn keyword_filter_retains_only_matching_case() {
    // A run keyword "k1" retains the case with keyword "k1" and drops the
    // case without a keyword.
    let mut registry: CaseRegistry<RustTestCase> = CaseRegistry::new();
    let mut with_keyword = test_case("with_keyword", "src/kw.rs", 1);
    with_keyword.keyword = Some("k1".to_string());
    registry.register(with_keyword).unwrap();
    registry.register(test_case("without_keyword", "src/kw.rs", 2)).unwrap();

    let mut cfg = config();
    cfg.keyword = "k1".to_string();

    let mut handler = GdRustItests::init(registry.drain_all());
    handler.filter_path_keyword(&cfg);
    handler.finish_setup();

    assert_eq!(handler.tests_count(), 1);
    let only = handler.get_test().unwrap();
    assert_eq!(only.name, "with_keyword");
}

#[test]
fn empty_keyword_runs_only_unkeyworded_cases() {
    let mut registry: CaseRegistry<RustTestCase> = CaseRegistry::new();
    let mut with_keyword = test_case("with_keyword", "src/kw.rs", 1);
    with_keyword.keyword = Some("k1".to_string());
    registry.register(with_keyword).unwrap();
    registry.register(test_case("without_keyword", "src/kw.rs", 2)).unwrap();

    let cfg = config();
    let mut handler = GdRustItests::init(registry.drain_all());
    handler.filter_path_keyword(&cfg);
    handler.finish_setup();

    assert_eq!(handler.tests_count(), 1);
    assert_eq!(handler.get_test().unwrap().name, "without_keyword");
}

#[test]
fn focus_promotion_discards_non_focused_matches() {
    // Even though the substring filter matches both names, a focused case
    // makes the run a focus run and only focused cases survive.
    let mut registry: CaseRegistry<RustTestCase> = CaseRegistry::new();
    let mut focused = test_case("filter_me_focused", "src/focus.rs", 1);
    focused.focused = true;
    registry.register(focused).unwrap();
    registry.register(test_case("filter_me_too", "src/focus.rs", 2)).unwrap();

    let mut cfg = config();
    cfg.filters = vec!["filter_me".to_string()];

    let mut handler = GdRustItests::init(registry.drain_all());
    handler.filter_path_keyword(&cfg);
    handler.filter_focus_filters(&cfg);
    handler.finish_setup();

    assert!(handler.is_focus_run());
    assert_eq!(handler.tests_count(), 1);
    assert_eq!(handler.get_test().unwrap().name, "filter_me_focused");
}

#[test]
fn disallow_focus_keeps_the_whole_set() {
    let mut registry: CaseRegistry<RustTestCase> = CaseRegistry::new();
    let mut focused = test_case("focused_test", "src/focus.rs", 1);
    focused.focused = true;
    registry.register(focused).unwrap();
    registry.register(test_case("normal_test", "src/focus.rs", 2)).unwrap();

    let mut cfg = config();
    cfg.disallow_focus = true;

    let mut handler = GdRustItests::init(registry.drain_all());
    handler.filter_path_keyword(&cfg);
    handler.filter_focus_filters(&cfg);
    handler.finish_setup();

    assert!(!handler.is_focus_run());
    assert_eq!(handler.tests_count(), 2);
}

#[test]
fn unrestricted_cases_always_pass_a_scene_scoped_run() {
    // Unrestricted cases always pass a scene-scoped run; only
    // scene-restricted cases need the exact path match.
    let mut registry: CaseRegistry<RustTestCase> = CaseRegistry::new();
    let mut matching = test_case("with_test_path", "src/path.rs", 1);
    matching.scene_path = Some("res://with_path.tscn".to_string());
    registry.register(matching).unwrap();
    let mut elsewhere = test_case("shouldnt_run_path", "src/path.rs", 2);
    elsewhere.scene_path = Some("res://nonexistent.tscn".to_string());
    registry.register(elsewhere).unwrap();
    registry.register(test_case("unrestricted", "src/path.rs", 3)).unwrap();

    let mut cfg = config();
    cfg.scene_path = "res://with_path.tscn".to_string();
    cfg.only_scene_path = true;

    let mut handler = GdRustItests::init(registry.drain_all());
    handler.filter_path_keyword(&cfg);
    handler.finish_setup();
    assert_eq!(handler.tests_count(), 2);
    let mut names = Vec::new();
    while let Some(test) = handler.get_test() {
        names.push(test.name);
    }
    assert!(names.contains(&"with_test_path".to_string()));
    assert!(names.contains(&"unrestricted".to_string()));
    assert!(!names.contains(&"shouldnt_run_path".to_string()));
}

#[test]
fn scene_restricted_cases_need_an_exact_path_match() {
    let mut registry: CaseRegistry<RustTestCase> = CaseRegistry::new();
    let mut elsewhere = test_case("shouldnt_run_path", "src/path.rs", 1);
    elsewhere.scene_path = Some("res://nonexistent.tscn".to_string());
    registry.register(elsewhere).unwrap();
    registry.register(test_case("unrestricted", "src/path.rs", 2)).unwrap();

    let mut cfg = config();
    cfg.scene_path = "res://with_path.tscn".to_string();

    let mut handler = GdRustItests::init(registry.drain_all());
    handler.filter_path_keyword(&cfg);
    handler.finish_setup();
    assert_eq!(handler.tests_count(), 1);
    assert_eq!(handler.get_test().unwrap().name, "unrestricted");
}

#[test]
fn any_path_query_reports_matching_descriptors() {
    let mut registry: CaseRegistry<RustTestCase> = CaseRegistry::new();
    let mut restricted = test_case("with_test_path", "src/path.rs", 1);
    restricted.scene_path = Some("res://with_path.tscn".to_string());
    registry.register(restricted).unwrap();
    registry.register(test_case("unrestricted", "src/path.rs", 2)).unwrap();

    let handler = GdRustItests::init(registry.drain_all());
    assert!(handler.is_any_path_eq(&"res://with_path.tscn".to_string()));
    assert!(!handler.is_any_path_eq(&"res://other.tscn".to_string()));
}

#[test]
fn files_count_counts_distinct_files() {
    let mut registry: CaseRegistry<RustTestCase> = CaseRegistry::new();
    registry.register(test_case("a", "src/one.rs", 1)).unwrap();
    registry.register(test_case("b", "src/one.rs", 2)).unwrap();
    registry.register(test_case("c", "src/two.rs", 3)).unwrap();

    let mut handler = GdRustItests::init(registry.drain_all());
    handler.finish_setup();
    assert_eq!(handler.files_count(), 2);
    assert_eq!(
        handler.get_post_init_summary(),
        "   Found 3 Rust tests in 2 files"
    );
}

#[test]
fn sorting_durations_is_ascending_and_stable_under_resort() {
    let times = vec![5u64, 1, 4, 1, 9, 0];
    let sorted = sort_durations(times);
    assert_eq!(sorted, vec![0u64, 1, 1, 4, 5, 9]);
    let resorted = sort_durations(sorted.clone());
    assert_eq!(resorted, sorted);
}

#[test]
fn equal_key_cases_keep_their_relative_order() {
    // Sorting is stable: cases with the same (file, line) key come out of
    // the sort in the order they went in.
    let mut registry: CaseRegistry<RustTestCase> = CaseRegistry::new();
    registry.register(test_case("first", "src/same.rs", 5)).unwrap();
    registry.register(test_case("second", "src/same.rs", 5)).unwrap();
    registry.register(test_case("third", "src/same.rs", 5)).unwrap();

    let mut handler = GdRustItests::init(registry.drain_all());
    handler.finish_setup();
    let stored: Vec<String> = handler.tests.iter().map(|t| t.name.clone()).collect();
    assert_eq!(
        stored,
        vec!["first".to_string(), "second".to_string(), "third".to_string()]
    );
}

#[test]
fn case_order_is_total_and_by_file_then_line() {
    let a = test_case("a", "src/a.rs", 10);
    let b = test_case("b", "src/b.rs", 5);
    let c = test_case("c", "src/a.rs", 20);
    assert!(case_le_exec(&a, &b));
    assert!(!case_le_exec(&b, &a));
    assert!(case_le_exec(&a, &c));
    assert!(case_le_exec(&a, &a));
}

#[test]
fn string_helpers_have_exact_values() {
    assert_eq!(u64_to_string(0), "0");
    assert_eq!(u64_to_string(907), "907");
    assert_eq!(u64_to_string(18_446_744_073_709_551_615), "18446744073709551615");
    assert_eq!(format_micros_3dp(1_234_567), "1234.567");
    assert_eq!(format_micros_3dp(42), "0.042");
    assert_eq!(format_micros_3dp(7), "0.007");
    assert_eq!(format_secs_2dp(1_230_000_000), "1.23");
    assert_eq!(format_secs_2dp(999_999_999), "1.00");
    assert_eq!(format_secs_2dp(4_000_000), "0.00");
    assert_eq!(extract_file_subtitle("path/to/file.rs"), "file.rs");
    assert_eq!(extract_file_subtitle("file.rs"), "file.rs");
    assert_eq!(extract_file_subtitle("dir\\other.rs"), "other.rs");
    assert!(str_contains("integration_test", "test"));
    assert!(!str_contains("integration", "test"));
    assert!(str_contains("anything", ""));
    assert!(str_eq("same", "same"));
    assert!(!str_eq("same", "same "));
    assert!(str_lex_lt("abc", "abd"));
    assert!(str_lex_lt("ab", "abc"));
    assert!(!str_lex_lt("abc", "abc"));
}
