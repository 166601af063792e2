use gd_rehearse::cases::{CaseOutcome, CaseType, RustTestCase};
use gd_rehearse::config::{RunnerConfig, RunnerInfo};
use gd_rehearse::print::MessageWriter;
use gd_rehearse::registry::BenchResult;
use gd_rehearse::utils::{center, join_strings, spaces};

fn config() -> RunnerConfig {
    RunnerConfig {
        disallow_focus: false,
        disallow_skip: true,
        run_rust_tests: true,
        run_rust_benchmarks: true,
        keyword: "perf".to_string(),
        ignore_keywords: false,
        only_scene_path: false,
        scene_path: "res://main.tscn".to_string(),
        filters: vec!["alpha".to_string(), "beta".to_string()],
        quiet_run: false,
    }
}

#[test]
fn outcome_displays_are_exact() {
    assert_eq!(CaseOutcome::Passed.for_display(), "ok!");
    assert_eq!(CaseOutcome::Failed.for_display(), "FAILED");
    assert_eq!(CaseOutcome::Skipped.for_display(), "~skipped~");
    assert_eq!(CaseOutcome::from_bool(true), CaseOutcome::Passed);
    assert_eq!(CaseOutcome::from_bool(false), CaseOutcome::Failed);
    assert_eq!(CaseType::RustTest.for_summary(), "Tests");
    assert_eq!(CaseType::RustBenchmark.for_summary(), "Benchmarks");
    assert_eq!(BenchResult::metrics(), ["min", "median", "mean"]);
}

#[test]
fn quiet_writer_swallows_messages() {
    let mut writer = MessageWriter::new(true, true);
    assert!(writer.to_godot());
    writer.print_line("hidden");
    writer.print_begin();
    writer.print_success();
    assert!(writer.take_lines().is_empty());
}

#[test]
fn file_headers_group_cases_by_file() {
    let mut writer = MessageWriter::new(false, false);
    let mut last_file: Option<String> = None;
    let first = RustTestCase {
        name: "a".to_string(),
        file: "src/dir/one.rs".to_string(),
        skipped: false,
        focused: false,
        keyword: None,
        scene_path: None,
        line: 1,
    };
    let mut second = RustTestCase { ..first_clone(&first) };
    second.name = "b".to_string();
    let mut third = RustTestCase { ..first_clone(&first) };
    third.name = "c".to_string();
    third.file = "src/dir/two.rs".to_string();

    writer.print_test_pre(&first, &mut last_file);
    writer.print_test_post("a", CaseOutcome::Passed);
    writer.print_test_pre(&second, &mut last_file);
    writer.print_test_post("b", CaseOutcome::Failed);
    writer.print_test_pre(&third, &mut last_file);
    writer.print_test_post("c", CaseOutcome::Skipped);

    let lines = writer.take_lines();
    assert_eq!(
        lines,
        vec![
            "   one.rs:".to_string(),
            "   -- a ... ok!".to_string(),
            "   -- b ... FAILED".to_string(),
            "\n   two.rs:".to_string(),
            "   -- c ... ~skipped~".to_string(),
        ]
    );
}

fn first_clone(case: &RustTestCase) -> RustTestCase {
    RustTestCase {
        name: case.name.clone(),
        file: case.file.clone(),
        skipped: case.skipped,
        focused: case.focused,
        keyword: case.keyword.clone(),
        scene_path: case.scene_path.clone(),
        line: case.line,
    }
}

#[test]
fn bench_post_pads_and_reports_statistics() {
    let mut writer = MessageWriter::new(false, false);
    let result = BenchResult {
        outcome: CaseOutcome::Passed,
        stats: [1_000, 2_500, 1_234_567],
        error: None,
    };
    writer.print_bench_post("short_name", &result);
    let lines = writer.take_lines();
    assert_eq!(
        lines[0],
        "   -- short_name                 ...      1.000\u{3bc}s      2.500\u{3bc}s   1234.567\u{3bc}s"
    );

    let mut writer = MessageWriter::new(false, false);
    let skipped = BenchResult {
        outcome: CaseOutcome::Skipped,
        stats: [0, 0, 0],
        error: None,
    };
    writer.print_bench_post("a_benchmark_with_a_very_long_name", &skipped);
    let lines = writer.take_lines();
    assert_eq!(lines[0], "   -- a_benchmark_with_a_very_lo ...    ~skipped~");
}

#[test]
fn gather_collects_the_restrictions_in_order() {
    let info = RunnerInfo::gather(&config(), true, true, false);
    assert_eq!(info.mode, "HEADLESS");
    assert_eq!(info.rust_build, "debug");
    assert_eq!(info.godot_build, "release");
    assert_eq!(
        info.additional_message,
        vec![
            "using KEYWORD: 'perf'".to_string(),
            "disallowing skipping".to_string(),
        ]
    );
}

#[test]
fn summary_info_centers_and_lists_filters() {
    let mut writer = MessageWriter::new(false, false);
    let info = RunnerInfo::gather(&config(), false, false, true);
    writer.print_summary_info(&config(), &info);
    let lines = writer.take_lines();
    assert_eq!(lines.len(), 5);
    assert_eq!(
        lines[0],
        center("Began run in EDITOR mode in scene: res://main.tscn", 80)
    );
    assert_eq!(lines[1], center("Rust build: release; Godot build: debug", 80));
    assert_eq!(
        lines[2],
        center("using KEYWORD: 'perf' & disallowing skipping", 80)
    );
    assert_eq!(lines[3], "   Using filters:\n   * alpha\n   * beta\n");
    assert_eq!(lines[4], "");
}

#[test]
fn centering_and_joining_are_exact() {
    assert_eq!(center("ab", 6), "  ab  ");
    assert_eq!(center("abc", 6), " abc  ");
    assert_eq!(center("too wide", 3), "too wide");
    assert_eq!(spaces(4), "    ");
    let parts = vec!["a".to_string(), "b".to_string(), "c".to_string()];
    assert_eq!(join_strings(&parts, " & "), "a & b & c");
    assert_eq!(join_strings(&Vec::new(), " & "), "");
}
