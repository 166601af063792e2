use gd_rehearse::cases::{CaseOutcome, CaseType, RustBenchmark, RustTestCase};
use gd_rehearse::config::{CliConfig, RunnerConfig};
use gd_rehearse::context::{BenchContext, BenchError, CaseHost, UnwindError};
use gd_rehearse::print::MessageWriter;
use gd_rehearse::registry::{BenchResult, BenchSummaryItem, TEST_RUNS, sort_durations};
use gd_rehearse::runner::{GdTestRunner, RunnerSummary};

fn test_case(name: &str, file: &str, line: u32) -> RustTestCase {
    RustTestCase {
        name: name.to_string(),
        file: file.to_string(),
        skipped: false,
        focused: false,
        keyword: None,
        scene_path: None,
        line,
    }
}

fn bench_case(name: &str, file: &str, line: u32) -> RustBenchmark {
    RustBenchmark {
        name: name.to_string(),
        file: file.to_string(),
        skipped: false,
        focused: false,
        keyword: None,
        scene_path: None,
        line,
        repetitions: 100,
        has_setup: false,
        has_cleanup: false,
        range: None,
    }
}

/// A deterministic host: records which entry points ran, fails the cases it
/// is told to fail, and serves a synthetic clock.
struct ScriptedHost {
    invoked_tests: Vec<String>,
    failing_tests: Vec<String>,
    bench_invocations: usize,
    setup_adds: usize,
    cleanup_removes: usize,
    clock: u64,
}

impl ScriptedHost {
    fn new() -> Self {
        Self {
            invoked_tests: Vec::new(),
            failing_tests: Vec::new(),
            bench_invocations: 0,
            setup_adds: 0,
            cleanup_removes: 0,
            clock: 0,
        }
    }
}

impl CaseHost for ScriptedHost {
    fn invoke_test(&mut self, test: &RustTestCase) -> Result<(), UnwindError> {
        self.invoked_tests.push(test.name.clone());
        if self.failing_tests.contains(&test.name) {
            Err(UnwindError::new("scripted failure".to_string()))
        } else {
            Ok(())
        }
    }

    fn invoke_bench(&mut self, _bench: &RustBenchmark, _ctx: &mut BenchContext) -> Result<
        u64,
        UnwindError,
    > {
        self.bench_invocations += 1;
        self.clock += 1_000;
        Ok(100_000)
    }

    fn invoke_bench_setup(&mut self, _bench: &RustBenchmark, ctx: &mut BenchContext) -> Result<
        (),
        UnwindError,
    > {
        for i in 0..self.setup_adds {
            ctx.setup_add_node(format!("handle{}", i));
        }
        Ok(())
    }

    fn invoke_bench_cleanup(&mut self, _bench: &RustBenchmark, ctx: &mut BenchContext) -> Result<
        (),
        UnwindError,
    > {
        for i in 0..self.cleanup_removes {
            ctx.remove_added_node(&format!("handle{}", i));
        }
        Ok(())
    }

    fn monotonic_nanos(&mut self) -> u64 {
        self.clock += 1;
        self.clock
    }
}

#[test]
fn skipped_case_never_executes_but_counts_as_skipped() {
    // Skip visibility: the skipped case's entry point never runs, yet it
    // contributes one Skipped outcome to the summary.
    let mut runner = GdTestRunner::init();
    runner.run_benchmarks = false;
    let mut host = ScriptedHost::new();
    let mut writer = MessageWriter::new(false, false);

    let mut skipped = test_case("skipped_test", "src/exec.rs", 1);
    skipped.skipped = true;
    let tests = vec![skipped, test_case("normal_test", "src/exec.rs", 2)];

    let exit = runner.test_run(
        &mut host,
        String::new(),
        None,
        true,
        true,
        false,
        tests,
        Vec::new(),
        &mut writer,
    );

    assert_eq!(host.invoked_tests, vec!["normal_test".to_string()]);
    assert_eq!(runner.tests_summary.total, 2);
    assert_eq!(runner.tests_summary.passed, 1);
    assert_eq!(runner.tests_summary.skipped, 1);
    assert_eq!(exit, Some(0));
}

#[test]
fn disallow_skip_executes_skipped_cases() {
    let mut runner = GdTestRunner::init();
    runner.run_benchmarks = false;
    runner.disallow_skip = true;
    let mut host = ScriptedHost::new();
    let mut writer = MessageWriter::new(false, false);

    let mut skipped = test_case("skipped_test", "src/exec.rs", 1);
    skipped.skipped = true;

    let exit = runner.test_run(
        &mut host,
        String::new(),
        None,
        true,
        true,
        false,
        vec![skipped],
        Vec::new(),
        &mut writer,
    );

    assert_eq!(host.invoked_tests, vec!["skipped_test".to_string()]);
    assert_eq!(runner.tests_summary.skipped, 0);
    assert_eq!(exit, Some(0));
}

#[test]
fn benchmarks_never_run_after_a_test_failure() {
    // The test phase produced a Failed outcome, so no benchmark
    // entry point is ever invoked.
    let mut runner = GdTestRunner::init();
    let mut host = ScriptedHost::new();
    host.failing_tests.push("failing_test".to_string());
    let mut writer = MessageWriter::new(false, false);

    let exit = runner.test_run(
        &mut host,
        String::new(),
        None,
        true,
        true,
        false,
        vec![test_case("failing_test", "src/exec.rs", 1)],
        vec![bench_case("a_bench", "src/exec.rs", 10)],
        &mut writer,
    );

    assert_eq!(exit, Some(1));
    assert_eq!(host.bench_invocations, 0);
    assert_eq!(runner.benches_summary.total, 0);
}

#[test]
fn benchmarks_run_after_tests_pass() {
    let mut runner = GdTestRunner::init();
    let mut host = ScriptedHost::new();
    let mut writer = MessageWriter::new(false, false);

    let exit = runner.test_run(
        &mut host,
        String::new(),
        None,
        true,
        true,
        false,
        vec![test_case("passing_test", "src/exec.rs", 1)],
        vec![bench_case("a_bench", "src/exec.rs", 10)],
        &mut writer,
    );

    assert_eq!(exit, Some(0));
    // 200 warmup and 501 measured invocations
    assert_eq!(host.bench_invocations, 701);
    assert_eq!(runner.benches_summary.total, 1);
    assert_eq!(runner.benches_summary.passed, 1);
    assert_eq!(runner.bench_results.len(), 1);
}

#[test]
fn second_trigger_is_a_no_op() {
    let mut runner = GdTestRunner::init();
    runner.run_benchmarks = false;
    let mut host = ScriptedHost::new();
    let mut writer = MessageWriter::new(false, false);

    let first = runner.test_run(
        &mut host,
        String::new(),
        None,
        true,
        true,
        false,
        vec![test_case("only_test", "src/exec.rs", 1)],
        Vec::new(),
        &mut writer,
    );
    assert_eq!(first, Some(0));

    let second = runner.test_run(
        &mut host,
        String::new(),
        None,
        true,
        true,
        false,
        vec![test_case("only_test", "src/exec.rs", 1)],
        Vec::new(),
        &mut writer,
    );
    assert_eq!(second, None);
    assert_eq!(runner.tests_summary.total, 1);
}

#[test]
fn zero_executed_cases_fail_the_run() {
    let mut runner = GdTestRunner::init();
    let mut host = ScriptedHost::new();
    let mut writer = MessageWriter::new(false, false);

    let exit = runner.test_run(
        &mut host,
        String::new(),
        None,
        true,
        true,
        false,
        Vec::new(),
        Vec::new(),
        &mut writer,
    );
    assert_eq!(exit, Some(1));
}

#[test]
fn conflicting_cli_options_abort_before_any_case() {
    let mut runner = GdTestRunner::init();
    let mut host = ScriptedHost::new();
    let mut writer = MessageWriter::new(false, false);

    let cli = CliConfig {
        disallow_focus: true,
        allow_focus: true,
        disallow_skip: false,
        allow_skip: false,
        mute_keyword: false,
        ignore_keywords: false,
        mute_filters: false,
        run_rust_tests: false,
        run_rust_benchmarks: false,
        only_scene_path: false,
        keyword: String::new(),
        filters: Vec::new(),
        quiet_run: false,
    };

    let exit = runner.test_run(
        &mut host,
        String::new(),
        Some(cli),
        true,
        true,
        false,
        vec![test_case("never_runs", "src/exec.rs", 1)],
        Vec::new(),
        &mut writer,
    );
    assert_eq!(exit, Some(1));
    assert!(host.invoked_tests.is_empty());
    assert_eq!(runner.tests_summary.total, 0);
    let lines = writer.take_lines();
    assert_eq!(lines.len(), 1);
    assert_eq!(
        lines[0],
        "error during config parsing: command line arguments --allow-focus and --disallow-focus are mutually exclusive"
    );
}

#[test]
fn unreleased_resources_fail_the_benchmark() {
    // Cleanup exhaustiveness: setup adds two tracked handles, the custom
    // cleanup removes only one, so the benchmark fails even though the
    // measurement succeeded.
    let runner = GdTestRunner::init();
    let mut host = ScriptedHost::new();
    host.setup_adds = 2;
    host.cleanup_removes = 1;

    let mut bench = bench_case("with_setup_and_cleanup", "src/exec.rs", 10);
    bench.has_setup = true;
    bench.has_cleanup = true;

    let mut ctx = BenchContext::new();
    let result = runner.run_rust_benchmark(&bench, &mut ctx, &mut host);

    assert_eq!(result.outcome, CaseOutcome::Failed);
    match result.error {
        Some(BenchError::Cleanup(err)) => {
            assert_eq!(err.to_display_string(), "cleanup: resources not released");
        },
        _ => panic!("expected a cleanup error"),
    }
}

#[test]
fn exhaustive_cleanup_passes_the_benchmark() {
    let runner = GdTestRunner::init();
    let mut host = ScriptedHost::new();
    host.setup_adds = 2;
    host.cleanup_removes = 2;

    let mut bench = bench_case("with_setup_and_cleanup", "src/exec.rs", 10);
    bench.has_setup = true;
    bench.has_cleanup = true;

    let mut ctx = BenchContext::new();
    let result = runner.run_rust_benchmark(&bench, &mut ctx, &mut host);

    assert_eq!(result.outcome, CaseOutcome::Passed);
    assert_eq!(ctx.added_count(), 0);
}

#[test]
fn statistics_are_deterministic_and_ordered() {
    // Fixed durations in, fixed statistics out: the minimum is the least
    // measurement, the middle element of the 501 sorted measurements is
    // the median, and min <= median.
    let mut times: Vec<u64> = Vec::new();
    for i in 0..TEST_RUNS {
        times.push(((i as u64) * 7919) % 1000 + 50);
    }
    let sorted = sort_durations(times);
    assert_eq!(sorted.len(), TEST_RUNS);
    let first = BenchResult::success(&sorted);
    let second = BenchResult::success(&sorted);
    assert_eq!(first.stats, second.stats);
    assert_eq!(first.stats[0], sorted[0]);
    assert_eq!(first.stats[1], sorted[TEST_RUNS / 2]);
    assert!(first.stats[0] <= first.stats[1]);
    assert_eq!(first.outcome, CaseOutcome::Passed);
}

#[test]
fn conclude_reports_counts_and_clears_failures() {
    let summary = RunnerSummary {
        kind: CaseType::RustTest,
        total: 3,
        passed: 2,
        skipped: 1,
    };
    let mut failed_list: Vec<String> = Vec::new();
    let mut writer = MessageWriter::new(false, false);
    let ok = summary.conclude(1_230_000_000, &mut failed_list, &mut writer);
    assert!(ok);
    let lines = writer.take_lines();
    assert_eq!(lines.len(), 1);
    assert_eq!(
        lines[0],
        "Tests result: ok! 2 passed; 0 failed, 1 skipped. Elapsed: 1.23s."
    );

    let failing = RunnerSummary {
        kind: CaseType::RustBenchmark,
        total: 2,
        passed: 1,
        skipped: 0,
    };
    let mut failed_list = vec!["exec.rs > failing_case".to_string()];
    let mut writer = MessageWriter::new(false, false);
    let ok = failing.conclude(500_000_000, &mut failed_list, &mut writer);
    assert!(!ok);
    assert!(failed_list.is_empty());
    let lines = writer.take_lines();
    assert_eq!(
        lines[0],
        "Benchmarks result: FAILED 1 passed; 1 failed. Elapsed: 0.50s."
    );
    assert_eq!(lines[1], "\n  Failed:");
    assert_eq!(lines[2], "  * exec.rs > failing_case");
    assert_eq!(lines[3], "\n");
}

#[test]
fn benchmark_export_line_is_exact() {
    let mut bench = bench_case("my_bench", "src/some/dir/exec.rs", 10);
    bench.range = Some("0.05".to_string());
    let result = BenchResult {
        outcome: CaseOutcome::Passed,
        stats: [100, 200, 1_234_567],
        error: None,
    };
    let item = BenchSummaryItem::new(&bench, result);
    assert_eq!(
        item.get_benchmark_action_output(),
        "{ \"name\": \"my_bench [exec.rs]\", \"unit\": \"\u{b5}s\", \"value\": 1234.567, \"range\": \"0.05\" }"
    );

    let plain = bench_case("other", "exec.rs", 10);
    let result = BenchResult {
        outcome: CaseOutcome::Passed,
        stats: [100, 200, 42],
        error: None,
    };
    let item = BenchSummaryItem::new(&plain, result);
    assert_eq!(
        item.get_benchmark_action_output(),
        "{ \"name\": \"other [exec.rs]\", \"unit\": \"\u{b5}s\", \"value\": 0.042 }"
    );
}

#[test]
fn runner_config_merges_cli_overrides() {
    let cli = CliConfig {
        disallow_focus: false,
        allow_focus: false,
        disallow_skip: true,
        allow_skip: false,
        mute_keyword: true,
        ignore_keywords: false,
        mute_filters: false,
        run_rust_tests: true,
        run_rust_benchmarks: false,
        only_scene_path: true,
        keyword: String::new(),
        filters: Vec::new(),
        quiet_run: false,
    };
    let config = RunnerConfig::new(
        false,
        false,
        false,
        true,
        "base_keyword".to_string(),
        false,
        false,
        "res://scene.tscn".to_string(),
        vec!["base_filter".to_string()],
        false,
        Some(cli),
    )
    .unwrap();
    assert!(config.run_rust_tests());
    assert!(!config.run_rust_benchmarks());
    assert!(config.disallow_skip());
    assert!(!config.disallow_focus());
    assert_eq!(config.keyword(), "");
    assert_eq!(config.filters(), &vec!["base_filter".to_string()]);
    assert!(config.only_scene_path());
    assert_eq!(config.scene_path(), "res://scene.tscn");
}

#[test]
fn setup_fault_skips_measurement() {
    struct FailingSetupHost {
        bench_invocations: usize,
    }
    impl CaseHost for FailingSetupHost {
        fn invoke_test(&mut self, _test: &RustTestCase) -> Result<(), UnwindError> {
            Ok(())
        }

        fn invoke_bench(&mut self, _bench: &RustBenchmark, _ctx: &mut BenchContext) -> Result<
            u64,
            UnwindError,
        > {
            self.bench_invocations += 1;
            Ok(1)
        }

        fn invoke_bench_setup(&mut self, _bench: &RustBenchmark, _ctx: &mut BenchContext) -> Result<
            (),
            UnwindError,
        > {
            Err(UnwindError::new("setup exploded".to_string()))
        }

        fn invoke_bench_cleanup(
            &mut self,
            _bench: &RustBenchmark,
            _ctx: &mut BenchContext,
        ) -> Result<(), UnwindError> {
            Ok(())
        }

        fn monotonic_nanos(&mut self) -> u64 {
            0
        }
    }

    let runner = GdTestRunner::init();
    let mut host = FailingSetupHost { bench_invocations: 0 };
    let mut bench = bench_case("with_failing_setup", "src/exec.rs", 10);
    bench.has_setup = true;
    let mut ctx = BenchContext::new();
    let result = runner.run_rust_benchmark(&bench, &mut ctx, &mut host);
    assert_eq!(result.outcome, CaseOutcome::Failed);
    assert_eq!(host.bench_invocations, 0);
    match result.error {
        Some(BenchError::Setup(err)) => {
            assert_eq!(err.message(), "setup exploded");
        },
        _ => panic!("expected a setup error"),
    }
}

#[test]
fn skipped_benchmark_reports_zero_statistics() {
    let runner = GdTestRunner::init();
    let mut host = ScriptedHost::new();
    let mut bench = bench_case("skipped_bench", "src/exec.rs", 10);
    bench.skipped = true;
    let mut ctx = BenchContext::new();
    let result = runner.run_rust_benchmark(&bench, &mut ctx, &mut host);
    assert_eq!(result.outcome, CaseOutcome::Skipped);
    assert_eq!(result.stats, [0, 0, 0]);
    assert_eq!(host.bench_invocations, 0);
}
