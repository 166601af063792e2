use gd_rehearse::cases::{RustBenchmark, RustTestCase};
use gd_rehearse::config::RunnerConfig;
use gd_rehearse::registry::{CaseRegistry, GdBenchmarks, GdRustItests};

fn test_case(name: &str, file: &str, line: u32) -> RustTestCase {
    RustTestCase {
        name: name.to_string(),
        file: file.to_string(),
        skipped: false,
        focused: false,
        keyword: None,
        scene_path: None,
        line,
    }
}

fn bench_case(name: &str, file: &str, line: u32, repetitions: usize) -> RustBenchmark {
    RustBenchmark {
        name: name.to_string(),
        file: file.to_string(),
        skipped: false,
        focused: false,
        keyword: None,
        scene_path: None,
        line,
        repetitions,
        has_setup: false,
        has_cleanup: false,
        range: None,
    }
}

fn default_config() -> RunnerConfig {
    RunnerConfig {
        disallow_focus: false,
        disallow_skip: false,
        run_rust_tests: true,
        run_rust_benchmarks: true,
        keyword: String::new(),
        ignore_keywords: false,
        only_scene_path: false,
        scene_path: String::new(),
        filters: Vec::new(),
        quiet_run: false,
    }
}

#[test]
fn gditest_can_be_registered() {
    let mut registry: CaseRegistry<RustTestCase> = CaseRegistry::new();
    registry
        .register(test_case("empty_test", "tests/registration.rs", 26))
        .unwrap();

    let mut registered_tests = GdRustItests::init(registry.drain_all());
    registered_tests.finish_setup();

    assert_eq!(registered_tests.files_count(), 1);
    assert!(!registered_tests.is_focus_run());

    let only_case = registered_tests.get_test();

    assert!(only_case.is_some());

    let only_case = only_case.unwrap();

    assert_eq!(only_case.file, "tests/registration.rs");
    assert_eq!(only_case.line, 26);
    assert_eq!(only_case.name, "empty_test");
    assert!(!only_case.skipped);
    assert!(!only_case.focused);

    let no_more_case = registered_tests.get_test();

    assert!(no_more_case.is_none());
}

#[test]
fn gditests_can_be_skipped() {
    let mut registry: CaseRegistry<RustTestCase> = CaseRegistry::new();
    let mut skipped = test_case("skipped_test", "tests/registration.rs", 10);
    skipped.skipped = true;
    registry.register(skipped).unwrap();
    registry
        .register(test_case("normal_test", "tests/registration.rs", 20))
        .unwrap();

    let mut registered_tests = GdRustItests::init(registry.drain_all());
    let config = default_config();
    registered_tests.filter_path_keyword(&config);
    registered_tests.filter_focus_filters(&config);
    registered_tests.finish_setup();

    assert!(!registered_tests.is_focus_run());

    let skipped_test = registered_tests.get_test().unwrap();

    assert!(skipped_test.skipped);

    let normal_test = registered_tests.get_test().unwrap();

    assert!(!normal_test.skipped);

    assert!(registered_tests.get_test().is_none());
}

#[test]
fn gditests_can_be_focused() {
    let mut registry: CaseRegistry<RustTestCase> = CaseRegistry::new();
    let mut focused = test_case("focused_test", "tests/registration.rs", 10);
    focused.focused = true;
    registry.register(focused).unwrap();
    registry
        .register(test_case("normal_test", "tests/registration.rs", 20))
        .unwrap();

    let mut registered_tests = GdRustItests::init(registry.drain_all());
    let config = default_config();
    registered_tests.filter_path_keyword(&config);
    registered_tests.filter_focus_filters(&config);
    registered_tests.finish_setup();

    assert!(registered_tests.is_focus_run());

    let focused_test = registered_tests.get_test().unwrap();

    assert!(focused_test.focused);

    assert!(registered_tests.get_test().is_none());
}

#[test]
fn gdbench_can_be_registered() {
    let mut registry: CaseRegistry<RustBenchmark> = CaseRegistry::new();
    registry
        .register(bench_case("empty_bench", "tests/registration.rs", 107, 100))
        .unwrap();

    let mut registered_benches = GdBenchmarks::init(registry.drain_all());
    registered_benches.finish_setup();

    assert_eq!(registered_benches.files_count(), 1);

    let only_case = registered_benches.get_benchmark();

    assert!(only_case.is_some());

    let only_case = only_case.unwrap();

    assert_eq!(only_case.file, "tests/registration.rs");
    assert_eq!(only_case.line, 107);
    assert_eq!(only_case.name, "empty_bench");
    assert_eq!(only_case.repetitions, 100);

    let no_more_case = registered_benches.get_benchmark();

    assert!(no_more_case.is_none());
}

#[test]
fn gdbench_with_reps_can_be_registered() {
    let mut registry: CaseRegistry<RustBenchmark> = CaseRegistry::new();
    registry
        .register(bench_case("empty_bench", "tests/registration.rs", 135, 250))
        .unwrap();

    let mut registered_benches = GdBenchmarks::init(registry.drain_all());
    registered_benches.finish_setup();

    assert_eq!(registered_benches.files_count(), 1);

    let only_case = registered_benches.get_benchmark();

    assert!(only_case.is_some());

    let only_case = only_case.unwrap();

    assert_eq!(only_case.file, "tests/registration.rs");
    assert_eq!(only_case.line, 135);
    assert_eq!(only_case.name, "empty_bench");
    assert_eq!(only_case.repetitions, 250);

    let no_more_case = registered_benches.get_benchmark();

    assert!(no_more_case.is_none());
}

#[test]
fn registering_skipped_and_focused_is_rejected() {
    let mut registry: CaseRegistry<RustTestCase> = CaseRegistry::new();
    let mut invalid = test_case("invalid", "tests/registration.rs", 1);
    invalid.skipped = true;
    invalid.focused = true;
    let result = registry.register(invalid);
    assert!(result.is_err());
    // the registry is left unchanged, and still accepts valid cases
    let mut ok = GdRustItests::init(registry.drain_all());
    assert_eq!(ok.tests_count(), 0);
    assert!(ok.get_test().is_none());
}

#[test]
fn drain_empties_the_registry_for_reuse() {
    let mut registry: CaseRegistry<RustTestCase> = CaseRegistry::new();
    registry
        .register(test_case("first", "tests/registration.rs", 1))
        .unwrap();
    let drained = registry.drain_all();
    assert_eq!(drained.len(), 1);
    let empty = registry.drain_all();
    assert_eq!(empty.len(), 0);
    registry
        .register(test_case("second", "tests/registration.rs", 2))
        .unwrap();
    let drained = registry.drain_all();
    assert_eq!(drained.len(), 1);
    assert_eq!(drained[0].name, "second");
}
