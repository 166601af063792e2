//! The message writer: collects the run's console output as a buffer of
//! lines.  The engine only composes messages; handing them to a console is
//! the host's business.

use vstd::prelude::*;
use vstd::string::StrSliceExecFns;
use vstd::string::StringExecFns;
use crate::cases::{Case, CaseOutcome, RustTestCase, RustBenchmark};
use crate::registry::BenchResult;
use crate::config::{RunnerConfig, RunnerInfo};
use crate::utils::{center, file_subtitle, extract_file_subtitle, format_micros_3dp, join_strings, spec_center, spec_join, spec_micros_3dp, spec_spaces, spaces, str_eq};

verus! {

/// The banner opening a run.
pub open spec fn spec_begin_banner() -> Seq<char> {
    "--------------------------------------------------------------------------------\n--------------------          Running gd-rehearse           --------------------\n--------------------------------------------------------------------------------"@
}

/// The banner closing a successful run.
pub open spec fn spec_success_banner() -> Seq<char> {
    "\n= = = = = = = = = = = = = = = = = = = = = = = = = = = = = = = = = = = = = = = = \n = = = = = = = = = =             ! SUCCESS !               = = = = = = = = = =\n= = = = = = = = = = = = = = = = = = = = = = = = = = = = = = = = = = = = = = = = "@
}

/// The banner closing a failed run.
pub open spec fn spec_failure_banner() -> Seq<char> {
    "\n! ! ! ! ! ! ! ! ! ! ! ! ! ! ! ! ! ! ! ! ! ! ! ! ! ! ! ! ! ! ! ! ! ! ! ! ! ! ! ! \n ! ! ! ! ! ! ! ! ! !               FAILURE                 ! ! ! ! ! ! ! ! ! !\n! ! ! ! ! ! ! ! ! ! ! ! ! ! ! ! ! ! ! ! ! ! ! ! ! ! ! ! ! ! ! ! ! ! ! ! ! ! ! ! "@
}

/// The line announcing the cases of one source file.
pub open spec fn spec_file_header(file: Seq<char>, first: bool) -> Seq<char> {
    if first {
        "   "@ + file_subtitle(file) + ":"@
    } else {
        "\n   "@ + file_subtitle(file) + ":"@
    }
}

/// `s` padded on the left with spaces to `width` characters; a longer
/// string is left as it is.
pub open spec fn spec_pad_left(s: Seq<char>, width: int) -> Seq<char> {
    if s.len() >= width {
        s
    } else {
        spec_spaces(width - s.len()) + s
    }
}

/// The benchmark-name column: the name truncated to 26 characters and
/// padded to 26.
pub open spec fn spec_bench_name_column(name: Seq<char>) -> Seq<char> {
    let shown = if name.len() > 26 {
        name.take(26)
    } else {
        name
    };
    if shown.len() < 26 {
        shown + spec_spaces(26 - shown.len())
    } else {
        shown
    }
}

/// One statistic cell of the per-benchmark report line: the value in
/// microseconds, right-aligned.
pub open spec fn spec_bench_stat(stat: u64) -> Seq<char> {
    " "@ + spec_pad_left(spec_micros_3dp(stat as int), 10) + "\u{3bc}s"@
}

/// The whole per-benchmark report line: name column, then either the three
/// statistics or the non-passed outcome.
pub open spec fn spec_bench_post_line(name: Seq<char>, result: BenchResult) -> Seq<char> {
    "   -- "@ + spec_bench_name_column(name) + " ..."@ + (match result.outcome {
        CaseOutcome::Passed => spec_bench_stat(result.stats@[0]) + spec_bench_stat(
            result.stats@[1],
        ) + spec_bench_stat(result.stats@[2]),
        CaseOutcome::Failed => "    "@ + "FAILED"@,
        CaseOutcome::Skipped => "    "@ + "~skipped~"@,
    })
}

/// Collects console messages for the run.  With `quiet` set, messages are
/// swallowed; `to_godot` records which console the host should hand the
/// buffer to.
pub struct MessageWriter {
    to_godot: bool,
    quiet: bool,
    lines: Vec<String>,
}

impl MessageWriter {
    /// The buffered lines.
    pub closed spec fn lines_seq(&self) -> Seq<Seq<char>> {
        self.lines.deep_view()
    }

    pub closed spec fn spec_quiet(&self) -> bool {
        self.quiet
    }

    pub closed spec fn spec_to_godot(&self) -> bool {
        self.to_godot
    }

    pub fn new(to_godot: bool, quiet: bool) -> (r: Self)
        ensures
            r.lines_seq() == Seq::<Seq<char>>::empty(),
            r.spec_quiet() == quiet,
            r.spec_to_godot() == to_godot,
    {
        let r = Self { to_godot, quiet, lines: Vec::new() };
        proof {
            assert(r.lines_seq() =~= Seq::<Seq<char>>::empty());
        }
        r
    }

    pub fn to_godot(&self) -> (r: bool)
        ensures
            r == self.spec_to_godot(),
    {
        self.to_godot
    }

    /// Lowers or raises the writer's verbosity once the configuration is
    /// known.
    pub fn set_quiet(&mut self, quiet: bool)
        ensures
            final(self).spec_quiet() == quiet,
            final(self).spec_to_godot() == old(self).spec_to_godot(),
            final(self).lines_seq() == old(self).lines_seq(),
    {
        self.quiet = quiet;
    }

    /// Buffers one message, unless the writer is quiet.
    pub fn print_line(&mut self, message: &str)
        ensures
            old(self).spec_quiet() ==> *final(self) == *old(self),
            !old(self).spec_quiet() ==> final(self).lines_seq() == old(self).lines_seq().push(
                message@,
            ) && final(self).spec_quiet() == old(self).spec_quiet()
                && final(self).spec_to_godot() == old(self).spec_to_godot(),
    {
        if self.quiet {
            return;
        }
        self.lines.push(String::from_str(message));
        proof {
            assert(self.lines_seq() =~= old(self).lines_seq().push(message@));
        }
    }

    /// Hands the buffered lines out and empties the buffer.
    pub fn take_lines(&mut self) -> (r: Vec<String>)
        ensures
            r.deep_view() == old(self).lines_seq(),
            final(self).lines_seq() == Seq::<Seq<char>>::empty(),
            final(self).spec_quiet() == old(self).spec_quiet(),
            final(self).spec_to_godot() == old(self).spec_to_godot(),
    {
        let r = self.lines.split_off(0);
        proof {
            assert(r.deep_view() =~= old(self).lines_seq());
            assert(self.lines_seq() =~= Seq::<Seq<char>>::empty());
        }
        r
    }

    pub fn print_begin(&mut self)
        ensures
            old(self).spec_quiet() ==> *final(self) == *old(self),
            !old(self).spec_quiet() ==> final(self).lines_seq() == old(self).lines_seq().push(
                spec_begin_banner(),
            ) && final(self).spec_quiet() == old(self).spec_quiet()
                && final(self).spec_to_godot() == old(self).spec_to_godot(),
    {
        self.print_line(
            "--------------------------------------------------------------------------------\n--------------------          Running gd-rehearse           --------------------\n--------------------------------------------------------------------------------",
        );
    }

    pub fn print_success(&mut self)
        ensures
            old(self).spec_quiet() ==> *final(self) == *old(self),
            !old(self).spec_quiet() ==> final(self).lines_seq() == old(self).lines_seq().push(
                spec_success_banner(),
            ) && final(self).spec_quiet() == old(self).spec_quiet()
                && final(self).spec_to_godot() == old(self).spec_to_godot(),
    {
        self.print_line(
            "\n= = = = = = = = = = = = = = = = = = = = = = = = = = = = = = = = = = = = = = = = \n = = = = = = = = = =             ! SUCCESS !               = = = = = = = = = =\n= = = = = = = = = = = = = = = = = = = = = = = = = = = = = = = = = = = = = = = = ",
        );
    }

    pub fn print_failure(&mut self)
        ensures
            old(self).spec_quiet() ==> *final(self) == *old(self),
            !old(self).spec_quiet() ==> final(self).lines_seq() == old(self).lines_seq().push(
                spec_failure_banner(),
            ) && final(self).spec_quiet() == old(self).spec_quiet()
                && final(self).spec_to_godot() == old(self).spec_to_godot(),
    {
        self.print_line(
            "\n! ! ! ! ! ! ! ! ! ! ! ! ! ! ! ! ! ! ! ! ! ! ! ! ! ! ! ! ! ! ! ! ! ! ! ! ! ! ! ! \n ! ! ! ! ! ! ! ! ! !               FAILURE                 ! ! ! ! ! ! ! ! ! !\n! ! ! ! ! ! ! ! ! ! ! ! ! ! ! ! ! ! ! ! ! ! ! ! ! ! ! ! ! ! ! ! ! ! ! ! ! ! ! ! ",
        );
    }

    pub fn print_horizontal_separator(&mut self)
        ensures
            old(self).spec_quiet() ==> *final(self) == *old(self),
            !old(self).spec_quiet() ==> final(self).lines_seq() == old(self).lines_seq().push(
                "--------------------------------------------------------------------------------"@,
            ) && final(self).spec_quiet() == old(self).spec_quiet()
                && final(self).spec_to_godot() == old(self).spec_to_godot(),
    {
        self.print_line(
            "--------------------------------------------------------------------------------",
        );
    }

    /// Opens the run with its configuration summary: mode and builds, the
    /// remarks the configuration gives rise to, and the substring filters
    /// in use.
    pub fn print_summary_info(&mut self, config: &RunnerConfig, info: &RunnerInfo)
        ensures
            final(self).spec_quiet() == old(self).spec_quiet(),
            final(self).spec_to_godot() == old(self).spec_to_godot(),
            old(self).spec_quiet() ==> *final(self) == *old(self),
            !old(self).spec_quiet() ==> final(self).lines_seq() == old(self).lines_seq().push(
                spec_center(
                    "Began run in "@ + info.mode@ + " mode in scene: "@ + config.scene_path@,
                    80,
                ),
            ).push(
                spec_center(
                    "Rust build: "@ + info.rust_build@ + "; Godot build: "@ + info.godot_build@,
                    80,
                ),
            ) + (if info.additional_message@.len() > 0 {
                seq![spec_center(spec_join(info.additional_message.deep_view(), " & "@), 80)]
            } else {
                Seq::<Seq<char>>::empty()
            }) + (if config.filters@.len() > 0 {
                seq![
                    "   Using filters:\n   * "@ + spec_join(
                        config.filters.deep_view(),
                        "\n   * "@,
                    ) + "\n"@,
                ]
            } else {
                Seq::<Seq<char>>::empty()
            }) + seq![""@],
    {
        if self.quiet {
            return;
        }
        let ghost lines0 = self.lines_seq();

        let mut line1 = String::from_str("Began run in ");
        line1.append(info.mode);
        line1.append(" mode in scene: ");
        line1.append(config.scene_path().as_str());
        let centered1 = center(line1.as_str(), 80);
        self.print_line(centered1.as_str());

        let mut line2 = String::from_str("Rust build: ");
        line2.append(info.rust_build);
        line2.append("; Godot build: ");
        line2.append(info.godot_build);
        let centered2 = center(line2.as_str(), 80);
        self.print_line(centered2.as_str());

        if info.additional_message.len() > 0 {
            let joined = join_strings(&info.additional_message, " & ");
            let centered3 = center(joined.as_str(), 80);
            self.print_line(centered3.as_str());
        }

        if config.filters().len() > 0 {
            let mut filters_line = String::from_str("   Using filters:\n   * ");
            let joined = join_strings(config.filters(), "\n   * ");
            filters_line.append(joined.as_str());
            filters_line.append("\n");
            self.print_line(filters_line.as_str());
        }

        self.print_line("");
        proof {
            assert(self.lines_seq() =~= lines0.push(
                spec_center(
                    "Began run in "@ + info.mode@ + " mode in scene: "@ + config.scene_path@,
                    80,
                ),
            ).push(
                spec_center(
                    "Rust build: "@ + info.rust_build@ + "; Godot build: "@ + info.godot_build@,
                    80,
                ),
            ) + (if info.additional_message@.len() > 0 {
                seq![spec_center(spec_join(info.additional_message.deep_view(), " & "@), 80)]
            } else {
                Seq::<Seq<char>>::empty()
            }) + (if config.filters@.len() > 0 {
                seq![
                    "   Using filters:\n   * "@ + spec_join(
                        config.filters.deep_view(),
                        "\n   * "@,
                    ) + "\n"@,
                ]
            } else {
                Seq::<Seq<char>>::empty()
            }) + seq![""@]);
        }
    }

    /// Opens a new per-file group when the case at hand comes from another
    /// file than the previous one, and remembers the file.
    pub fn print_file_header(&mut self, file: &str, last_file: &mut Option<String>)
        ensures
            final(self).spec_quiet() == old(self).spec_quiet(),
            final(self).spec_to_godot() == old(self).spec_to_godot(),
            (match *old(last_file) {
                Some(prev) => prev@ == file@,
                None => false,
            }) ==> *final(self) == *old(self) && *final(last_file) == *old(last_file),
            !(match *old(last_file) {
                Some(prev) => prev@ == file@,
                None => false,
            }) ==> (match *final(last_file) {
                Some(cur) => cur@ == file@,
                None => false,
            }) && (if old(self).spec_quiet() {
                final(self).lines_seq() == old(self).lines_seq()
            } else {
                final(self).lines_seq() == old(self).lines_seq().push(
                    spec_file_header(file@, (*old(last_file)) is None),
                )
            }),
    {
        let is_new_file = match last_file {
            Some(prev) => !str_eq(prev.as_str(), file),
            None => true,
        };
        if !is_new_file {
            return;
        }
        let mut line = if last_file.is_none() {
            String::from_str("   ")
        } else {
            String::from_str("\n   ")
        };
        line.append(extract_file_subtitle(file));
        line.append(":");
        self.print_line(line.as_str());
        *last_file = Some(String::from_str(file));
    }

    /// Announces a test: opens its file group.
    pub fn print_test_pre(&mut self, test: &RustTestCase, last_file: &mut Option<String>)
        ensures
            final(self).spec_quiet() == old(self).spec_quiet(),
            final(self).spec_to_godot() == old(self).spec_to_godot(),
            old(self).spec_quiet() ==> *final(self) == *old(self) && *final(last_file) == *old(last_file),
            !old(self).spec_quiet() && (match *old(last_file) {
                Some(prev) => prev@ == test.case_file(),
                None => false,
            }) ==> *final(self) == *old(self) && *final(last_file) == *old(last_file),
            !old(self).spec_quiet() && !(match *old(last_file) {
                Some(prev) => prev@ == test.case_file(),
                None => false,
            }) ==> (match *final(last_file) {
                Some(cur) => cur@ == test.case_file(),
                None => false,
            }) && final(self).lines_seq() == old(self).lines_seq().push(
                spec_file_header(test.case_file(), (*old(last_file)) is None),
            ),
    {
        if self.quiet {
            return;
        }
        self.print_file_header(test.get_case_file(), last_file);
    }

    /// Reports a test's outcome.
    pub fn print_test_post(&mut self, test_case: &str, outcome: CaseOutcome)
        ensures
            final(self).spec_quiet() == old(self).spec_quiet(),
            final(self).spec_to_godot() == old(self).spec_to_godot(),
            old(self).spec_quiet() ==> *final(self) == *old(self),
            !old(self).spec_quiet() ==> final(self).lines_seq() == old(self).lines_seq().push(
                "   -- "@ + test_case@ + " ... "@ + (match outcome {
                    CaseOutcome::Passed => "ok!"@,
                    CaseOutcome::Failed => "FAILED"@,
                    CaseOutcome::Skipped => "~skipped~"@,
                }),
            ),
    {
        if self.quiet {
            return;
        }
        let mut line = String::from_str("   -- ");
        line.append(test_case);
        line.append(" ... ");
        line.append(outcome.for_display());
        self.print_line(line.as_str());
    }

    /// Announces a benchmark: opens its file group.
    pub fn print_bench_pre(&mut self, benchmark: &RustBenchmark, last_file: &mut Option<String>)
        ensures
            final(self).spec_quiet() == old(self).spec_quiet(),
            final(self).spec_to_godot() == old(self).spec_to_godot(),
            old(self).spec_quiet() ==> *final(self) == *old(self) && *final(last_file) == *old(last_file),
            !old(self).spec_quiet() && (match *old(last_file) {
                Some(prev) => prev@ == benchmark.case_file(),
                None => false,
            }) ==> *final(self) == *old(self) && *final(last_file) == *old(last_file),
            !old(self).spec_quiet() && !(match *old(last_file) {
                Some(prev) => prev@ == benchmark.case_file(),
                None => false,
            }) ==> (match *final(last_file) {
                Some(cur) => cur@ == benchmark.case_file(),
                None => false,
            }) && final(self).lines_seq() == old(self).lines_seq().push(
                spec_file_header(benchmark.case_file(), (*old(last_file)) is None),
            ),
    {
        if self.quiet {
            return;
        }
        self.print_file_header(benchmark.get_case_file(), last_file);
    }

    /// Reports a benchmark's outcome: the name, truncated and padded to a
    /// fixed column, followed by its statistics in microseconds when it
    /// passed, or by its outcome otherwise.
    pub fn print_bench_post(&mut self, benchmark: &str, result: &BenchResult)
        ensures
            final(self).spec_quiet() == old(self).spec_quiet(),
            final(self).spec_to_godot() == old(self).spec_to_godot(),
            old(self).spec_quiet() ==> *final(self) == *old(self),
            !old(self).spec_quiet() ==> final(self).lines_seq() == old(self).lines_seq().push(
                spec_bench_post_line(benchmark@, *result),
            ),
    {
        if self.quiet {
            return;
        }
        let len = benchmark.unicode_len();
        let adjusted_name = if len > 26 {
            benchmark.substring_char(0, 26)
        } else {
            benchmark
        };
        proof {
            if len > 26 {
                assert(benchmark@.subrange(0, 26) =~= benchmark@.take(26));
            }
        }
        let mut line = String::from_str("   -- ");
        line.append(adjusted_name);
        let shown = adjusted_name.unicode_len();
        if shown < 26 {
            let pad = spaces(26 - shown);
            line.append(pad.as_str());
        }
        proof {
            assert(line@ =~= "   -- "@ + spec_bench_name_column(benchmark@));
        }
        line.append(" ...");
        match result.outcome {
            CaseOutcome::Passed => {
                append_stat(&mut line, result.stats[0]);
                append_stat(&mut line, result.stats[1]);
                append_stat(&mut line, result.stats[2]);
            },
            _ => {
                line.append("    ");
                line.append(result.outcome.for_display());
            },
        }
        proof {
            assert(line@ =~= spec_bench_post_line(benchmark@, *result));
        }
        self.print_line(line.as_str());
    }
}

/// Appends one right-aligned statistic cell to the report line.
fn append_stat(line: &mut String, stat: u64)
    ensures
        final(line)@ == old(line)@ + spec_bench_stat(stat),
{
    let micros = format_micros_3dp(stat);
    let shown_len = micros.as_str().unicode_len();
    line.append(" ");
    if shown_len < 10 {
        let pad = spaces(10 - shown_len);
        line.append(pad.as_str());
    }
    line.append(micros.as_str());
    line.append("\u{3bc}s");
    proof {
        assert(line@ =~= old(line)@ + spec_bench_stat(stat));
    }
}

} // verus!
