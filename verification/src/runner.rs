//! The run coordinator: sequences gather, filter, order, test execution,
//! the pass/fail decision between phases, benchmark execution and the
//! conclusion, owning the cross-phase state.

use vstd::prelude::*;
use vstd::string::StringExecFns;
use crate::cases::{Case, CaseOutcome, CaseType, RustBenchmark, RustTestCase, should_run_skip};
use crate::config::{CliConfig, RunnerConfig, RunnerInfo, spec_cli_valid};
use crate::context::{BenchContext, BenchError, CaseHost, CleanupError, UnwindError};
use crate::print::MessageWriter;
use crate::registry::{
    BenchResult, BenchSummaryItem, GdBenchmarks, GdRustItests, TEST_RUNS, TestResult,
    WARMUP_RUNS, spec_result_matches,
};
use crate::utils::{file_subtitle, format_secs_2dp, u64_to_string};

verus! {

/// A summary in which at least one case was executed and none failed.
pub open spec fn spec_summary_ok(s: RunnerSummary) -> bool {
    s.total - s.skipped != 0 && s.total - s.passed - s.skipped == 0
}

/// How many cases of the snapshot the skip policy will report as Skipped.
pub open spec fn spec_count_skipped<T: Case>(s: Seq<T>, disallow_skip: bool) -> int
    decreases s.len(),
{
    if s.len() == 0 {
        0
    } else {
        spec_count_skipped(s.drop_last(), disallow_skip) + (if s.last().case_skip()
            && !disallow_skip {
            1int
        } else {
            0int
        })
    }
}

/// The test snapshot exactly as the pipeline hands it to the executor:
/// scene/keyword filtered, focus-promoted, substring filtered, sorted.
pub open spec fn spec_gathered_tests(tests: Seq<RustTestCase>, config: RunnerConfig) -> Seq<
    RustTestCase,
> {
    let stage1 = crate::registry::spec_filter_path_keyword(
        tests,
        config.scene_path@,
        config.keyword@,
        config.ignore_keywords,
    );
    crate::registry::spec_sort_cases_desc(
        crate::registry::spec_filter_focus_filters(
            stage1,
            spec_tests_focus_run(tests, config),
            config.filters.deep_view(),
        ),
    )
}

/// Whether the gathered test snapshot makes the run a focus run.
pub open spec fn spec_tests_focus_run(tests: Seq<RustTestCase>, config: RunnerConfig) -> bool {
    !config.disallow_focus && crate::registry::spec_any_focused(
        crate::registry::spec_filter_path_keyword(
            tests,
            config.scene_path@,
            config.keyword@,
            config.ignore_keywords,
        ),
    )
}

/// The benchmark snapshot as the pipeline hands it to the harness, given
/// whether a prior phase already made this a focus run.
pub open spec fn spec_gathered_benches(
    benches: Seq<RustBenchmark>,
    config: RunnerConfig,
    prior_focus: bool,
) -> Seq<RustBenchmark> {
    let stage1 = crate::registry::spec_filter_path_keyword(
        benches,
        config.scene_path@,
        config.keyword@,
        config.ignore_keywords,
    );
    let focus = (!config.disallow_focus && (prior_focus || crate::registry::spec_any_focused(
        stage1,
    ))) || prior_focus;
    crate::registry::spec_sort_cases_desc(
        crate::registry::spec_filter_focus_filters(stage1, focus, config.filters.deep_view()),
    )
}

proof fn lemma_count_skipped_bounds<T: Case>(s: Seq<T>, disallow_skip: bool)
    ensures
        0 <= spec_count_skipped(s, disallow_skip) <= s.len(),
    decreases s.len(),
{
    if s.len() > 0 {
        lemma_count_skipped_bounds(s.drop_last(), disallow_skip);
    }
}

/// Running counters for one kind of case.  The failure descriptions live in
/// the coordinator's shared failure list.
#[derive(Clone, Copy)]
pub struct RunnerSummary {
    pub kind: CaseType,
    pub total: i64,
    pub passed: i64,
    pub skipped: i64,
}

impl RunnerSummary {
    /// The counters are consistent: no more passed and skipped cases than
    /// cases in total.
    pub open spec fn wf(&self) -> bool {
        0 <= self.passed && 0 <= self.skipped && self.passed + self.skipped <= self.total
    }

    pub fn new(kind: CaseType) -> (r: Self)
        ensures
            r.kind == kind,
            r.total == 0,
            r.passed == 0,
            r.skipped == 0,
    {
        Self { kind, total: 0, passed: 0, skipped: 0 }
    }

    pub fn inc_total(&mut self)
        requires
            old(self).total < i64::MAX,
        ensures
            final(self).total == old(self).total + 1,
            final(self).passed == old(self).passed,
            final(self).skipped == old(self).skipped,
            final(self).kind == old(self).kind,
    {
        self.total = self.total + 1;
    }

    pub fn inc_passed(&mut self)
        requires
            old(self).passed < i64::MAX,
        ensures
            final(self).passed == old(self).passed + 1,
            final(self).total == old(self).total,
            final(self).skipped == old(self).skipped,
            final(self).kind == old(self).kind,
    {
        self.passed = self.passed + 1;
    }

    pub fn inc_skipped(&mut self)
        requires
            old(self).skipped < i64::MAX,
        ensures
            final(self).skipped == old(self).skipped + 1,
            final(self).total == old(self).total,
            final(self).passed == old(self).passed,
            final(self).kind == old(self).kind,
    {
        self.skipped = self.skipped + 1;
    }

    /// Accounts one case's outcome: the total always grows by one; a failed
    /// case contributes its `file > name` description to the failure list.
    pub fn update_stats<T: Case>(
        &mut self,
        test: &T,
        outcome: &CaseOutcome,
        failed: &mut Vec<String>,
    )
        requires
            old(self).wf(),
            old(self).total < i64::MAX,
        ensures
            final(self).wf(),
            final(self).kind == old(self).kind,
            final(self).total == old(self).total + 1,
            *outcome == CaseOutcome::Passed ==> final(self).passed == old(self).passed + 1
                && final(self).skipped == old(self).skipped && final(failed)@ == old(failed)@,
            *outcome == CaseOutcome::Skipped ==> final(self).skipped == old(self).skipped + 1
                && final(self).passed == old(self).passed && final(failed)@ == old(failed)@,
            *outcome == CaseOutcome::Failed ==> final(self).passed == old(self).passed
                && final(self).skipped == old(self).skipped
                && final(failed).deep_view() == old(failed).deep_view().push(
                file_subtitle(test.case_file()) + " > "@ + test.case_name(),
            ),
    {
        self.inc_total();
        match outcome {
            CaseOutcome::Passed => self.inc_passed(),
            CaseOutcome::Failed => {
                let mut line = String::from_str(crate::utils::extract_file_subtitle(
                    test.get_case_file(),
                ));
                line.append(" > ");
                line.append(test.get_case_name());
                failed.push(line);
                proof {
                    assert(failed.deep_view() =~= old(failed).deep_view().push(
                        file_subtitle(test.case_file()) + " > "@ + test.case_name(),
                    ));
                }
            },
            CaseOutcome::Skipped => self.inc_skipped(),
        }
    }

    /// Concludes a phase: reports the counters and the capped failure list,
    /// and decides the phase's outcome.  A phase in which no case actually
    /// executed counts as failed, since it usually signals a
    /// misconfiguration.
    pub fn conclude(
        &self,
        run_time_nanos: u64,
        failed_list: &mut Vec<String>,
        writer: &mut MessageWriter,
    ) -> (r: bool)
        requires
            self.wf(),
            run_time_nanos + 5_000_000 <= u64::MAX,
        ensures
            r == spec_summary_ok(*self),
            (self.total - self.skipped != 0 && self.total - self.passed - self.skipped > 0)
                ==> final(failed_list)@.len() == 0,
            !(self.total - self.skipped != 0 && self.total - self.passed - self.skipped > 0)
                ==> final(failed_list)@ == old(failed_list)@,
    {
        let kind_display = self.kind.for_summary();

        if self.total - self.skipped == 0 {
            let mut line = String::from_str("No ");
            line.append(kind_display);
            line.append(" cases were run. If this is intended, configure GdTestRunner to omit these cases.");
            writer.print_line(line.as_str());
            return false;
        }

        let failed = self.total - self.passed - self.skipped;
        let all_passed = failed == 0;
        let outcome = CaseOutcome::from_bool(all_passed);

        let mut line = String::from_str(kind_display);
        line.append(" result: ");
        line.append(outcome.for_display());
        line.append(" ");
        let passed_str = u64_to_string(self.passed as u64);
        line.append(passed_str.as_str());
        line.append(" passed; ");
        let failed_str = u64_to_string(failed as u64);
        line.append(failed_str.as_str());
        line.append(" failed");
        if self.skipped > 0 {
            line.append(", ");
            let skipped_str = u64_to_string(self.skipped as u64);
            line.append(skipped_str.as_str());
            line.append(" skipped");
        }
        line.append(". Elapsed: ");
        let secs = format_secs_2dp(run_time_nanos);
        line.append(secs.as_str());
        line.append("s.");
        writer.print_line(line.as_str());

        if !all_passed {
            writer.print_line("\n  Failed:");
            let max: usize = 10;
            let count = failed_list.len();
            let shown = if count < max {
                count
            } else {
                max
            };
            let mut i: usize = 0;
            while i < shown
                invariant
                    shown <= failed_list@.len(),
                    i <= shown,
                decreases shown - i,
            {
                let mut star = String::from_str("  * ");
                star.append(failed_list[i].as_str());
                writer.print_line(star.as_str());
                i += 1;
            }
            if count > max {
                let mut more = String::from_str("  * ... and ");
                let more_count = u64_to_string((count - max) as u64);
                more.append(more_count.as_str());
                more.append(" more.");
                writer.print_line(more.as_str());
            }
            failed_list.clear();
            writer.print_line("\n");
        }
        all_passed
    }
}

impl RustBenchmark {
    /// Runs the setup callable, when one was supplied, inside the isolation
    /// boundary.  Without a setup there is nothing to do.
    pub fn execute_setup_function<H: CaseHost>(&self, host: &mut H, ctx: &mut BenchContext) -> (r:
        Result<(), UnwindError>)
        ensures
            !self.has_setup ==> r is Ok && *final(ctx) == *old(ctx),
    {
        if self.has_setup {
            host.invoke_bench_setup(self, ctx)
        } else {
            Ok(())
        }
    }

    /// Runs the cleanup step.  Without a setup there is nothing to clean.
    /// With a setup but no explicit cleanup, every tracked handle is
    /// removed.  With an explicit cleanup, it is invoked inside the
    /// isolation boundary and the tracked-handle set must be empty
    /// afterwards: leftovers are a cleanup failure even though the
    /// measurement succeeded.
    pub fn execute_cleanup_function<H: CaseHost>(&self, host: &mut H, ctx: &mut BenchContext) -> (r:
        Result<(), CleanupError>)
        ensures
            !self.has_setup ==> r is Ok && *final(ctx) == *old(ctx),
            // The default cleanup involves no outside call, so its success
            // is owed: it returns with every tracked handle removed.
            self.has_setup && !self.has_cleanup ==> r is Ok && final(ctx).added().len() == 0
                && final(ctx).overhead() == old(ctx).overhead(),
            self.has_setup && r is Ok ==> final(ctx).added().len() == 0,
            forall|e: CleanupError|
                r == Result::<(), CleanupError>::Err(e) && e.spec_not_cleaned()
                    ==> final(ctx).added().len() > 0,
            // A failure that is not a leftover-resources condition carries
            // the fault it maps, so the two are contract-distinguishable.
            forall|e: CleanupError|
                r == Result::<(), CleanupError>::Err(e) && !e.spec_not_cleaned()
                    ==> e.spec_cause() is Some,
    {
        if !self.has_setup {
            return Ok(());
        }
        if self.has_cleanup {
            if let Err(err) = host.invoke_bench_cleanup(self, ctx) {
                return Err(CleanupError::from_fault(err));
            }
            if ctx.added_count() != 0 {
                return Err(CleanupError::not_cleaned());
            }
            return Ok(());
        }
        ctx.remove_all_added_nodes();
        Ok(())
    }
}

/// The run coordinator.  Its exported properties configure the run; a
/// start-once latch ensures a single run per trigger.
pub struct GdTestRunner {
    pub run_tests: bool,
    pub run_benchmarks: bool,
    pub disallow_focus: bool,
    pub disallow_skip: bool,
    pub test_keyword: String,
    pub ignore_keywords: bool,
    pub test_filters: Vec<String>,
    pub only_scene_path: bool,
    pub tests_summary: RunnerSummary,
    pub benches_summary: RunnerSummary,
    pub config: RunnerConfig,
    pub failed_list: Vec<String>,
    pub bench_results: Vec<BenchSummaryItem>,
    pub began_run: bool,
}

impl GdTestRunner {
    pub fn init() -> (r: Self)
        ensures
            r.run_tests,
            r.run_benchmarks,
            !r.disallow_focus,
            !r.disallow_skip,
            r.test_keyword@.len() == 0,
            !r.ignore_keywords,
            r.test_filters@.len() == 0,
            !r.only_scene_path,
            r.tests_summary == (RunnerSummary {
                kind: CaseType::RustTest,
                total: 0,
                passed: 0,
                skipped: 0,
            }),
            r.benches_summary == (RunnerSummary {
                kind: CaseType::RustBenchmark,
                total: 0,
                passed: 0,
                skipped: 0,
            }),
            r.failed_list@.len() == 0,
            r.bench_results@.len() == 0,
            !r.began_run,
    {
        Self {
            run_tests: true,
            run_benchmarks: true,
            disallow_focus: false,
            disallow_skip: false,
            test_keyword: String::new(),
            ignore_keywords: false,
            test_filters: Vec::new(),
            only_scene_path: false,
            tests_summary: RunnerSummary::new(CaseType::RustTest),
            benches_summary: RunnerSummary::new(CaseType::RustBenchmark),
            config: RunnerConfig {
                disallow_focus: false,
                disallow_skip: false,
                run_rust_tests: true,
                run_rust_benchmarks: true,
                keyword: String::new(),
                ignore_keywords: false,
                only_scene_path: false,
                scene_path: String::new(),
                filters: Vec::new(),
                quiet_run: false,
            },
            failed_list: Vec::new(),
            bench_results: Vec::new(),
            began_run: false,
        }
    }

    /// Runs one test case: a skipped case — when skipping is not disallowed
    /// — is reported Skipped and its entry point is never invoked;
    /// otherwise the entry point runs inside the isolation boundary and a
    /// caught fault means Failed.
    pub fn run_rust_test<H: CaseHost>(&self, test: &RustTestCase, host: &mut H) -> (r: TestResult)
        ensures
            r.outcome == CaseOutcome::Skipped <==> (test.skipped && !self.config.disallow_skip),
            r.outcome == CaseOutcome::Skipped ==> r.error is None && *final(host) == *old(host),
            r.outcome == CaseOutcome::Passed ==> r.error is None,
            r.outcome == CaseOutcome::Failed ==> r.error is Some,
    {
        if !should_run_skip(test, self.config.disallow_skip()) {
            return TestResult::skipped();
        }
        match host.invoke_test(test) {
            Ok(_) => TestResult::success(),
            Err(err) => TestResult::failed(err),
        }
    }

    /// Runs every gathered test in run order, updating the summary: the
    /// total grows by the number of gathered tests, and exactly the cases
    /// the skip policy holds back are counted Skipped.
    pub fn run_rust_tests<H: CaseHost>(
        &mut self,
        handler: &mut GdRustItests,
        host: &mut H,
        writer: &mut MessageWriter,
    )
        requires
            old(self).tests_summary.wf(),
            old(self).tests_summary.total + old(handler).tests@.len() <= i64::MAX,
        ensures
            final(handler).tests@.len() == 0,
            final(self).tests_summary.wf(),
            final(self).tests_summary.kind == old(self).tests_summary.kind,
            final(self).tests_summary.total == old(self).tests_summary.total + old(
                handler,
            ).tests@.len(),
            final(self).tests_summary.skipped == old(self).tests_summary.skipped
                + spec_count_skipped(old(handler).tests@, old(self).config.disallow_skip),
            final(self).benches_summary == old(self).benches_summary,
            final(self).config == old(self).config,
            final(self).began_run == old(self).began_run,
            final(self).bench_results@ == old(self).bench_results@,
    {
        writer.print_line("");
        let ghost orig = handler.tests@;
        let ghost t0 = self.tests_summary;
        let mut last_file: Option<String> = None;
        loop
            invariant
                handler.tests@ == orig.take(handler.tests@.len() as int),
                handler.tests@.len() <= orig.len(),
                self.tests_summary.wf(),
                self.tests_summary.kind == t0.kind,
                self.tests_summary.total == t0.total + orig.len() - handler.tests@.len(),
                self.tests_summary.skipped == t0.skipped + spec_count_skipped(
                    orig,
                    self.config.disallow_skip,
                ) - spec_count_skipped(handler.tests@, self.config.disallow_skip),
                t0.total + orig.len() <= i64::MAX,
                self.benches_summary == old(self).benches_summary,
                self.config == old(self).config,
                self.began_run == old(self).began_run,
                self.bench_results@ == old(self).bench_results@,
                t0 == old(self).tests_summary,
                orig == old(handler).tests@,
            ensures
                handler.tests@.len() == 0,
                self.tests_summary.wf(),
                self.tests_summary.kind == t0.kind,
                self.tests_summary.total == t0.total + orig.len(),
                self.tests_summary.skipped == t0.skipped + spec_count_skipped(
                    orig,
                    self.config.disallow_skip,
                ),
                self.benches_summary == old(self).benches_summary,
                self.config == old(self).config,
                self.began_run == old(self).began_run,
                self.bench_results@ == old(self).bench_results@,
            decreases handler.tests@.len(),
        {
            proof {
                lemma_count_skipped_bounds(handler.tests@, self.config.disallow_skip);
                lemma_count_skipped_bounds(orig, self.config.disallow_skip);
            }
            let ghost remaining = handler.tests@;
            let next = handler.get_test();
            let test = match next {
                Some(test) => test,
                None => {
                    break;
                },
            };
            proof {
                assert(remaining.drop_last() =~= orig.take(remaining.len() - 1));
                assert(spec_count_skipped(remaining, self.config.disallow_skip)
                    == spec_count_skipped(remaining.drop_last(), self.config.disallow_skip) + (
                if test.case_skip() && !self.config.disallow_skip {
                    1int
                } else {
                    0int
                }));
            }
            writer.print_test_pre(&test, &mut last_file);
            let result = self.run_rust_test(&test, host);
            self.tests_summary.update_stats(&test, &result.outcome, &mut self.failed_list);
            writer.print_test_post(test.name.as_str(), result.outcome);
        }
        proof {
            assert(orig.take(0) =~= Seq::<RustTestCase>::empty());
        }
    }

    /// Runs one benchmark through the full protocol: skip check, setup,
    /// warmup, overhead-compensated measurement, statistics and cleanup.
    pub fn run_rust_benchmark<H: CaseHost>(
        &self,
        bench: &RustBenchmark,
        ctx: &mut BenchContext,
        host: &mut H,
    ) -> (r: BenchResult)
        requires
            bench.repetitions >= 1,
        ensures
            r.outcome == CaseOutcome::Skipped <==> (bench.skipped && !self.config.disallow_skip),
            r.outcome == CaseOutcome::Skipped ==> r.stats@ == seq![0u64, 0u64, 0u64]
                && r.error is None && *final(ctx) == *old(ctx) && *final(host) == *old(host),
            r.outcome == CaseOutcome::Passed ==> r.stats@[0] <= r.stats@[1] && r.error is None,
            r.outcome == CaseOutcome::Passed && bench.has_setup ==> final(ctx).added().len()
                == 0,
            r.outcome == CaseOutcome::Failed ==> r.stats@ == seq![0u64, 0u64, 0u64]
                && r.error is Some,
            // A leftover-resources cleanup failure really does leave
            // tracked handles behind.
            forall|e: CleanupError|
                r.error == Some(BenchError::Cleanup(e)) && e.spec_not_cleaned()
                    ==> final(ctx).added().len() > 0,
    {
        if !should_run_skip(bench, self.config.disallow_skip()) {
            return BenchResult::skipped();
        }

        if let Err(err) = bench.execute_setup_function(host, ctx) {
            return BenchResult::failed(BenchError::Setup(err));
        }

        let mut w: usize = 0;
        while w < WARMUP_RUNS
            invariant
                w <= WARMUP_RUNS,
                !(bench.skipped && !self.config.disallow_skip),
            decreases WARMUP_RUNS - w,
        {
            if let Err(err) = host.invoke_bench(bench, ctx) {
                return BenchResult::failed(BenchError::Execution(err));
            }
            w += 1;
        }

        ctx.zero_duration();

        let reps = bench.repetitions as u64;
        let mut times: Vec<u64> = Vec::new();
        let mut k: usize = 0;
        while k < TEST_RUNS
            invariant
                k <= TEST_RUNS,
                times@.len() == k,
                reps >= 1,
                !(bench.skipped && !self.config.disallow_skip),
            decreases TEST_RUNS - k,
        {
            match host.invoke_bench(bench, ctx) {
                Ok(raw) => {
                    let adjusted = ctx.get_adjusted_duration(raw);
                    times.push(adjusted / reps);
                },
                Err(err) => {
                    return BenchResult::failed(BenchError::Execution(err));
                },
            }
            k += 1;
        }
        let times = crate::registry::sort_durations(times);

        if let Err(err) = bench.execute_cleanup_function(host, ctx) {
            return BenchResult::failed(BenchError::Cleanup(err));
        }

        BenchResult::success(&times)
    }

    /// Runs every gathered benchmark in run order, updating the summary and
    /// recording each result for the machine-readable export.
    pub fn run_rust_benchmarks<H: CaseHost>(
        &mut self,
        benchmarks: &mut GdBenchmarks,
        host: &mut H,
        writer: &mut MessageWriter,
    )
        requires
            old(self).benches_summary.wf(),
            old(self).benches_summary.total + old(benchmarks).benches@.len() <= i64::MAX,
            forall|i: int|
                0 <= i < old(benchmarks).benches@.len() ==> (#[trigger] old(
                    benchmarks,
                ).benches@[i]).repetitions >= 1,
        ensures
            final(benchmarks).benches@.len() == 0,
            final(self).benches_summary.wf(),
            final(self).benches_summary.kind == old(self).benches_summary.kind,
            final(self).benches_summary.total == old(self).benches_summary.total + old(
                benchmarks,
            ).benches@.len(),
            final(self).benches_summary.skipped == old(self).benches_summary.skipped
                + spec_count_skipped(old(benchmarks).benches@, old(self).config.disallow_skip),
            final(self).tests_summary == old(self).tests_summary,
            final(self).config == old(self).config,
            final(self).began_run == old(self).began_run,
            // One summary is recorded per gathered benchmark, in run order,
            // each carrying its case's name, file and tolerance; earlier
            // recordings are kept.
            final(benchmarks).results@.len() == old(benchmarks).results@.len() + old(
                benchmarks,
            ).benches@.len(),
            forall|t: int|
                0 <= t < old(benchmarks).results@.len() ==> final(benchmarks).results@[t] == old(
                    benchmarks,
                ).results@[t],
            forall|t: int|
                0 <= t < old(benchmarks).benches@.len() ==> spec_result_matches(
                    #[trigger] final(benchmarks).results@[old(benchmarks).results@.len() + t],
                    old(benchmarks).benches@[old(benchmarks).benches@.len() - 1 - t],
                ),
    {
        let mut ctx = BenchContext::new();
        let mut last_file: Option<String> = None;
        let ghost orig = benchmarks.benches@;
        let ghost b0 = self.benches_summary;
        let ghost r0 = benchmarks.results@;
        loop
            invariant
                benchmarks.benches@ == orig.take(benchmarks.benches@.len() as int),
                benchmarks.benches@.len() <= orig.len(),
                self.benches_summary.wf(),
                self.benches_summary.kind == b0.kind,
                self.benches_summary.total == b0.total + orig.len() - benchmarks.benches@.len(),
                self.benches_summary.skipped == b0.skipped + spec_count_skipped(
                    orig,
                    self.config.disallow_skip,
                ) - spec_count_skipped(benchmarks.benches@, self.config.disallow_skip),
                b0.total + orig.len() <= i64::MAX,
                forall|i: int|
                    0 <= i < orig.len() ==> (#[trigger] orig[i]).repetitions >= 1,
                self.tests_summary == old(self).tests_summary,
                self.config == old(self).config,
                self.began_run == old(self).began_run,
                b0 == old(self).benches_summary,
                orig == old(benchmarks).benches@,
                r0 == old(benchmarks).results@,
                benchmarks.results@.len() == r0.len() + orig.len() - benchmarks.benches@.len(),
                forall|t: int| 0 <= t < r0.len() ==> benchmarks.results@[t] == r0[t],
                forall|t: int|
                    0 <= t < orig.len() - benchmarks.benches@.len() ==> spec_result_matches(
                        #[trigger] benchmarks.results@[r0.len() + t],
                        orig[orig.len() - 1 - t],
                    ),
            ensures
                benchmarks.benches@.len() == 0,
                self.benches_summary.wf(),
                self.benches_summary.kind == b0.kind,
                self.benches_summary.total == b0.total + orig.len(),
                self.benches_summary.skipped == b0.skipped + spec_count_skipped(
                    orig,
                    self.config.disallow_skip,
                ),
                self.tests_summary == old(self).tests_summary,
                self.config == old(self).config,
                self.began_run == old(self).began_run,
                benchmarks.results@.len() == r0.len() + orig.len(),
                forall|t: int| 0 <= t < r0.len() ==> benchmarks.results@[t] == r0[t],
                forall|t: int|
                    0 <= t < orig.len() ==> spec_result_matches(
                        #[trigger] benchmarks.results@[r0.len() + t],
                        orig[orig.len() - 1 - t],
                    ),
            decreases benchmarks.benches@.len(),
        {
            proof {
                lemma_count_skipped_bounds(benchmarks.benches@, self.config.disallow_skip);
                lemma_count_skipped_bounds(orig, self.config.disallow_skip);
            }
            let ghost remaining = benchmarks.benches@;
            let next = benchmarks.get_benchmark();
            let bench = match next {
                Some(bench) => bench,
                None => {
                    break;
                },
            };
            proof {
                assert(remaining.drop_last() =~= orig.take(remaining.len() - 1));
                assert(bench == orig[remaining.len() - 1]);
                assert(spec_count_skipped(remaining, self.config.disallow_skip)
                    == spec_count_skipped(remaining.drop_last(), self.config.disallow_skip) + (
                if bench.case_skip() && !self.config.disallow_skip {
                    1int
                } else {
                    0int
                }));
            }
            writer.print_bench_pre(&bench, &mut last_file);
            let result = self.run_rust_benchmark(&bench, &mut ctx, host);
            self.benches_summary.update_stats(&bench, &result.outcome, &mut self.failed_list);
            writer.print_bench_post(bench.name.as_str(), &result);
            benchmarks.push_result(BenchSummaryItem::new(&bench, result));
            proof {
                let processed = orig.len() - benchmarks.benches@.len();
                assert(benchmarks.results@.last() == benchmarks.results@[r0.len() + processed
                    - 1]);
                assert(orig[orig.len() - 1 - (processed - 1)] == bench);
            }
        }
        proof {
            assert(orig.take(0) =~= Seq::<RustBenchmark>::empty());
        }
    }

    /// Sequences the whole run: resolve the configuration, gather and
    /// filter both kinds, run the tests, and run the benchmarks only when
    /// no enabled test phase failed.  The start-once latch makes any second
    /// trigger a no-op.
    ///
    /// The result is the process exit code the host should use: `Some(0)`
    /// exactly when every enabled phase concluded successfully, `Some(1)`
    /// otherwise, and `None` when a run had already begun.
    pub fn test_run<H: CaseHost>(
        &mut self,
        host: &mut H,
        scene_path: String,
        cmdline: Option<CliConfig>,
        headless: bool,
        rust_debug: bool,
        godot_debug: bool,
        tests: Vec<RustTestCase>,
        benches: Vec<RustBenchmark>,
        writer: &mut MessageWriter,
    ) -> (r: Option<i32>)
        requires
            old(self).tests_summary.wf(),
            old(self).benches_summary.wf(),
            old(self).tests_summary.total + tests@.len() <= i64::MAX,
            old(self).benches_summary.total + benches@.len() <= i64::MAX,
            forall|i: int| 0 <= i < benches@.len() ==> (#[trigger] benches@[i]).repetitions >= 1,
        ensures
            r is None <==> old(self).began_run,
            old(self).began_run ==> *final(self) == *old(self),
            !old(self).began_run ==> final(self).began_run,
            !old(self).began_run && (match cmdline {
                Some(c) => !spec_cli_valid(c),
                None => false,
            }) ==> r == Some(1i32) && final(self).tests_summary == old(self).tests_summary
                && final(self).benches_summary == old(self).benches_summary && (
            !old(writer).spec_quiet() ==> final(writer).lines_seq().len() == old(
                writer,
            ).lines_seq().len() + 1),
            // When the test phase was enabled and did not conclude
            // successfully, the benchmark phase never ran.
            !old(self).began_run ==> ((final(self).config.run_rust_tests && !spec_summary_ok(
                final(self).tests_summary,
            )) ==> final(self).benches_summary == old(self).benches_summary),
            // Exit contract, for a configuration that resolved.
            !old(self).began_run && (match cmdline {
                Some(c) => spec_cli_valid(c),
                None => true,
            }) ==> r == Some(
                (if (!final(self).config.run_rust_tests || spec_summary_ok(
                    final(self).tests_summary,
                )) && (!final(self).config.run_rust_benchmarks || spec_summary_ok(
                    final(self).benches_summary,
                ) || (final(self).config.run_rust_tests && !spec_summary_ok(
                    final(self).tests_summary,
                ))) {
                    0i32
                } else {
                    1i32
                }),
            ),
            !old(self).began_run ==> final(self).tests_summary.wf()
                && final(self).benches_summary.wf(),
            // The phase counters are pinned to the pipeline's snapshots,
            // which are functions of the inputs alone.
            !old(self).began_run && (match cmdline {
                Some(c) => spec_cli_valid(c),
                None => true,
            }) ==> {
                let cfg = final(self).config;
                let gathered_tests = spec_gathered_tests(tests@, cfg);
                let prior_focus = cfg.run_rust_tests && spec_tests_focus_run(tests@, cfg);
                let gathered_benches = spec_gathered_benches(benches@, cfg, prior_focus);
                let tests_ok = !cfg.run_rust_tests || spec_summary_ok(final(self).tests_summary);
                &&& (cfg.run_rust_tests ==> final(self).tests_summary.total
                    == old(self).tests_summary.total + gathered_tests.len()
                    && final(self).tests_summary.skipped == old(self).tests_summary.skipped
                    + spec_count_skipped(gathered_tests, cfg.disallow_skip))
                &&& (!cfg.run_rust_tests ==> final(self).tests_summary
                    == old(self).tests_summary)
                &&& (cfg.run_rust_benchmarks && tests_ok ==> final(self).benches_summary.total
                    == old(self).benches_summary.total + gathered_benches.len()
                    && final(self).benches_summary.skipped == old(self).benches_summary.skipped
                    + spec_count_skipped(gathered_benches, cfg.disallow_skip))
                &&& (!(cfg.run_rust_benchmarks && tests_ok) ==> final(self).benches_summary
                    == old(self).benches_summary)
            },
    {
        if self.began_run {
            return None;
        }
        self.began_run = true;

        let keyword = self.test_keyword.clone();
        let filters = self.test_filters.clone();
        proof {
            assert forall|i: int| 0 <= i < filters@.len() implies filters@[i]
                == self.test_filters@[i] by {
            }
            assert(filters@ =~= self.test_filters@);
        }

        match RunnerConfig::new(
            self.disallow_focus,
            self.disallow_skip,
            self.run_tests,
            self.run_benchmarks,
            keyword,
            self.ignore_keywords,
            self.only_scene_path,
            scene_path,
            filters,
            false,
            cmdline,
        ) {
            Ok(config) => {
                self.config = config;
            },
            Err(error) => {
                let message = error.to_display_string();
                writer.print_line(message.as_str());
                return Some(1);
            },
        }

        writer.set_quiet(self.config.is_quiet());
        writer.print_begin();

        let info = RunnerInfo::gather(&self.config, headless, rust_debug, godot_debug);
        writer.print_summary_info(&self.config, &info);

        let run_tests_enabled = self.config.run_rust_tests();
        let run_benches_enabled = self.config.run_rust_benchmarks();

        let ghost tests0 = tests@;
        let ghost benches0 = benches@;
        let mut is_focus_run = false;
        let mut tests_handler = GdRustItests::init(tests);
        let mut bench_handler = GdBenchmarks::init(benches);

        if run_tests_enabled {
            tests_handler.filter_path_keyword(&self.config);
            tests_handler.set_focus_run(is_focus_run);
            tests_handler.filter_focus_filters(&self.config);
            is_focus_run = tests_handler.is_focus_run();
            tests_handler.finish_setup();
            let summary_line = tests_handler.get_post_init_summary();
            writer.print_line(summary_line.as_str());
            proof {
                broadcast use vstd::seq_lib::group_to_multiset_ensures;

                crate::registry::lemma_filter_path_keyword_sub(
                    tests0,
                    self.config.scene_path@,
                    self.config.keyword@,
                    self.config.ignore_keywords,
                );
                let stage1 = crate::registry::spec_filter_path_keyword(
                    tests0,
                    self.config.scene_path@,
                    self.config.keyword@,
                    self.config.ignore_keywords,
                );
                crate::registry::lemma_filter_focus_filters_sub(
                    stage1,
                    is_focus_run,
                    self.config.filters.deep_view(),
                );
                let stage2 = crate::registry::spec_filter_focus_filters(
                    stage1,
                    is_focus_run,
                    self.config.filters.deep_view(),
                );
                assert(tests_handler.tests@.len() == tests_handler.tests@.to_multiset().len());
                assert(stage2.len() == stage2.to_multiset().len());
                assert(tests_handler.tests@.len() <= tests0.len());
                assert(tests_handler.is_focus_run == spec_tests_focus_run(tests0, self.config));
                assert(tests_handler.tests@ == spec_gathered_tests(tests0, self.config));
            }
        }

        if run_benches_enabled {
            bench_handler.filter_path_keyword(&self.config);
            bench_handler.set_focus_run(is_focus_run);
            bench_handler.filter_focus_filters(&self.config);
            bench_handler.finish_setup();
            let summary_line = bench_handler.get_post_init_summary();
            writer.print_line(summary_line.as_str());
            proof {
                broadcast use vstd::seq_lib::group_to_multiset_ensures;

                crate::registry::lemma_filter_path_keyword_sub(
                    benches0,
                    self.config.scene_path@,
                    self.config.keyword@,
                    self.config.ignore_keywords,
                );
                let stage1 = crate::registry::spec_filter_path_keyword(
                    benches0,
                    self.config.scene_path@,
                    self.config.keyword@,
                    self.config.ignore_keywords,
                );
                crate::registry::lemma_filter_focus_filters_sub(
                    stage1,
                    bench_handler.is_focus_run,
                    self.config.filters.deep_view(),
                );
                let stage2 = crate::registry::spec_filter_focus_filters(
                    stage1,
                    bench_handler.is_focus_run,
                    self.config.filters.deep_view(),
                );
                assert(bench_handler.benches@.len() == bench_handler.benches@.to_multiset().len());
                assert(stage2.len() == stage2.to_multiset().len());
                assert(bench_handler.benches@.len() <= benches0.len());
                assert forall|i: int| 0 <= i < bench_handler.benches@.len() implies (
                #[trigger] bench_handler.benches@[i]).repetitions >= 1 by {
                    let x = bench_handler.benches@[i];
                    assert(bench_handler.benches@.contains(x));
                    assert(stage2.to_multiset().count(x) > 0);
                    assert(stage2.contains(x));
                    let k2 = choose|k: int| 0 <= k < stage2.len() && stage2[k] == x;
                    assert(stage1.contains(stage2[k2]));
                    let k1 = choose|k: int| 0 <= k < stage1.len() && stage1[k] == x;
                    assert(benches0.contains(stage1[k1]));
                    let k0 = choose|k: int| 0 <= k < benches0.len() && benches0[k] == x;
                    assert(benches0[k0].repetitions >= 1);
                }
                assert(bench_handler.benches@ == spec_gathered_benches(
                    benches0,
                    self.config,
                    is_focus_run,
                ));
            }
        }

        let mut rust_test_outcome = true;
        let mut rust_bench_outcome = true;

        if run_tests_enabled {
            writer.print_line("");
            writer.print_horizontal_separator();
            writer.print_line("   Running Rust tests");
            writer.print_horizontal_separator();

            let clock0 = host.monotonic_nanos();
            self.run_rust_tests(&mut tests_handler, host, writer);
            let clock1 = host.monotonic_nanos();
            let run_time = elapsed_nanos(clock0, clock1);

            writer.print_line("");
            rust_test_outcome = self.tests_summary.conclude(
                run_time,
                &mut self.failed_list,
                writer,
            );
        }

        if run_benches_enabled && rust_test_outcome {
            writer.print_line("");
            writer.print_horizontal_separator();
            writer.print_line("   Running Rust benchmarks");
            writer.print_horizontal_separator();
            writer.print_line(
                "                                              min       median         mean",
            );

            let clock0 = host.monotonic_nanos();
            self.run_rust_benchmarks(&mut bench_handler, host, writer);
            let clock1 = host.monotonic_nanos();
            let run_time = elapsed_nanos(clock0, clock1);

            writer.print_line("");
            rust_bench_outcome = self.benches_summary.conclude(
                run_time,
                &mut self.failed_list,
                writer,
            );
        }

        let outcome = rust_test_outcome && rust_bench_outcome;

        if outcome {
            writer.print_success();
        } else {
            writer.print_failure();
        }

        self.bench_results = bench_handler.results;

        Some(
            if outcome {
                0
            } else {
                1
            },
        )
    }
}

/// The elapsed time between two clock readings, clamped so that it can
/// always be reported.
fn elapsed_nanos(start: u64, end: u64) -> (r: u64)
    ensures
        r + 5_000_000 <= u64::MAX,
        start <= end && end - start <= u64::MAX - 5_000_000 ==> r == end - start,
{
    let d = if end >= start {
        end - start
    } else {
        0
    };
    if d > u64::MAX - 5_000_000 {
        u64::MAX - 5_000_000
    } else {
        d
    }
}

} // verus!
