//! Case descriptors: immutable data describing one test or one benchmark,
//! together with the pure predicates the filter pipeline is built from and
//! the deterministic ordering key.

use vstd::prelude::*;
use crate::utils::{is_substring, lex_lt, lemma_lex_lt_trichotomy, lemma_lex_lt_trans, str_contains, str_lex_lt};
use vstd::string::StrSliceExecFns;

verus! {

/// Terminal outcome of one run of one case.
#[derive(Clone, Copy, PartialEq, Eq, Structural, Debug)]
pub enum CaseOutcome {
    Passed,
    Failed,
    Skipped,
}

impl CaseOutcome {
    /// `Passed` for success, `Failed` otherwise.
    pub fn from_bool(success: bool) -> (r: Self)
        ensures
            r == (if success { CaseOutcome::Passed } else { CaseOutcome::Failed }),
    {
        if success {
            Self::Passed
        } else {
            Self::Failed
        }
    }

    /// The console rendering of the outcome.
    pub fn for_display(&self) -> (r: &'static str)
        ensures
            *self == CaseOutcome::Passed ==> r@ == "ok!"@,
            *self == CaseOutcome::Failed ==> r@ == "FAILED"@,
            *self == CaseOutcome::Skipped ==> r@ == "~skipped~"@,
    {
        match self {
            CaseOutcome::Passed => "ok!",
            CaseOutcome::Failed => "FAILED",
            CaseOutcome::Skipped => "~skipped~",
        }
    }
}

/// Which kind of case a summary speaks of.
#[derive(Clone, Copy, PartialEq, Eq, Structural, Debug)]
pub enum CaseType {
    RustTest,
    RustBenchmark,
}

impl CaseType {
    /// The heading used for this kind in the end-of-phase summary.
    pub fn for_summary(&self) -> (r: &'static str)
        ensures
            *self == CaseType::RustTest ==> r@ == "Tests"@,
            *self == CaseType::RustBenchmark ==> r@ == "Benchmarks"@,
    {
        match self {
            CaseType::RustTest => "Tests",
            CaseType::RustBenchmark => "Benchmarks",
        }
    }
}

/// Common shape of a registered case: metadata queried by the filter
/// pipeline and the orderer.
pub trait Case: Sized {
    spec fn case_name(&self) -> Seq<char>;

    spec fn case_file(&self) -> Seq<char>;

    spec fn case_line(&self) -> u32;

    spec fn case_focus(&self) -> bool;

    spec fn case_skip(&self) -> bool;

    spec fn case_keyword(&self) -> Option<Seq<char>>;

    spec fn case_scene(&self) -> Option<Seq<char>>;

    fn get_case_name(&self) -> (r: &str)
        ensures
            r@ == self.case_name(),
    ;

    fn get_case_file(&self) -> (r: &str)
        ensures
            r@ == self.case_file(),
    ;

    fn get_case_line(&self) -> (r: u32)
        ensures
            r == self.case_line(),
    ;

    fn is_case_focus(&self) -> (r: bool)
        ensures
            r == self.case_focus(),
    ;

    fn is_case_skip(&self) -> (r: bool)
        ensures
            r == self.case_skip(),
    ;

    fn get_case_keyword(&self) -> (r: &Option<String>)
        ensures
            r.deep_view() == self.case_keyword(),
    ;

    fn get_case_scene_path(&self) -> (r: &Option<String>)
        ensures
            r.deep_view() == self.case_scene(),
    ;
}

/// A registered test case.
pub struct RustTestCase {
    pub name: String,
    pub file: String,
    pub skipped: bool,
    /// If one or more cases are focused, only they will be executed.
    pub focused: bool,
    /// The case runs only under a matching run keyword.
    pub keyword: Option<String>,
    /// The case runs only when the run's scene path equals it.
    pub scene_path: Option<String>,
    pub line: u32,
}

impl Case for RustTestCase {
    open spec fn case_name(&self) -> Seq<char> {
        self.name@
    }

    open spec fn case_file(&self) -> Seq<char> {
        self.file@
    }

    open spec fn case_line(&self) -> u32 {
        self.line
    }

    open spec fn case_focus(&self) -> bool {
        self.focused
    }

    open spec fn case_skip(&self) -> bool {
        self.skipped
    }

    open spec fn case_keyword(&self) -> Option<Seq<char>> {
        self.keyword.deep_view()
    }

    open spec fn case_scene(&self) -> Option<Seq<char>> {
        self.scene_path.deep_view()
    }

    fn get_case_name(&self) -> &str {
        self.name.as_str()
    }

    fn get_case_file(&self) -> &str {
        self.file.as_str()
    }

    fn get_case_line(&self) -> u32 {
        self.line
    }

    fn is_case_focus(&self) -> bool {
        self.focused
    }

    fn is_case_skip(&self) -> bool {
        self.skipped
    }

    fn get_case_keyword(&self) -> &Option<String> {
        &self.keyword
    }

    fn get_case_scene_path(&self) -> &Option<String> {
        &self.scene_path
    }
}

/// A registered benchmark case.
pub struct RustBenchmark {
    pub name: String,
    pub file: String,
    pub skipped: bool,
    pub focused: bool,
    pub keyword: Option<String>,
    pub scene_path: Option<String>,
    pub line: u32,
    /// Inner loop count performed by the entry point per invocation.
    pub repetitions: usize,
    /// Whether a setup callable was supplied for this benchmark.
    pub has_setup: bool,
    /// Whether an explicit cleanup callable was supplied.
    pub has_cleanup: bool,
    /// Declared tolerance, used only for downstream reporting.
    pub range: Option<String>,
}

impl Case for RustBenchmark {
    open spec fn case_name(&self) -> Seq<char> {
        self.name@
    }

    open spec fn case_file(&self) -> Seq<char> {
        self.file@
    }

    open spec fn case_line(&self) -> u32 {
        self.line
    }

    open spec fn case_focus(&self) -> bool {
        self.focused
    }

    open spec fn case_skip(&self) -> bool {
        self.skipped
    }

    open spec fn case_keyword(&self) -> Option<Seq<char>> {
        self.keyword.deep_view()
    }

    open spec fn case_scene(&self) -> Option<Seq<char>> {
        self.scene_path.deep_view()
    }

    fn get_case_name(&self) -> &str {
        self.name.as_str()
    }

    fn get_case_file(&self) -> &str {
        self.file.as_str()
    }

    fn get_case_line(&self) -> u32 {
        self.line
    }

    fn is_case_focus(&self) -> bool {
        self.focused
    }

    fn is_case_skip(&self) -> bool {
        self.skipped
    }

    fn get_case_keyword(&self) -> &Option<String> {
        &self.keyword
    }

    fn get_case_scene_path(&self) -> &Option<String> {
        &self.scene_path
    }
}

/// A descriptor is valid when `skipped` and `focused` are not both set:
/// the two flags are mutually exclusive.
pub open spec fn case_valid<T: Case>(c: T) -> bool {
    !(c.case_skip() && c.case_focus())
}

/// In a focus run only focused cases run.
pub open spec fn spec_should_run_focus<T: Case>(c: T, is_focus_run: bool) -> bool {
    !is_focus_run || c.case_focus()
}

/// A skipped case runs only when skipping is disallowed.
pub open spec fn spec_should_run_skip<T: Case>(c: T, disallow_skip: bool) -> bool {
    !c.case_skip() || disallow_skip
}

/// Keyword admission: with keywords ignored everything runs; otherwise a
/// case with a keyword needs the same run keyword, and a case without one
/// runs only under the empty run keyword.
pub open spec fn spec_should_run_keyword<T: Case>(
    c: T,
    keyword: Seq<char>,
    ignore_keywords: bool,
) -> bool {
    ignore_keywords || (match c.case_keyword() {
        Some(k) => k == keyword,
        None => keyword.len() == 0,
    })
}

/// Substring admission: an empty filter set retains everything, otherwise
/// the case name must contain at least one of the filters.
pub open spec fn spec_should_run_filters<T: Case>(c: T, filters: Seq<Seq<char>>) -> bool {
    filters.len() == 0 || exists|i: int|
        0 <= i < filters.len() && is_substring(c.case_name(), filters[i])
}

/// The case is restricted to exactly this scene path.
pub open spec fn spec_scene_path_eq<T: Case>(c: T, scene_path: Seq<char>) -> bool {
    c.case_scene() == Some(scene_path)
}

/// Scene admission: an unrestricted case always passes, scene-scoped run
/// or not; a scene-restricted case passes only when its path equals the
/// run's path exactly.
pub open spec fn spec_should_run_scene_path<T: Case>(c: T, scene_path: Seq<char>) -> bool {
    c.case_scene() is None || spec_scene_path_eq(c, scene_path)
}

pub fn should_run_focus<T: Case>(c: &T, is_focus_run: bool) -> (r: bool)
    ensures
        r == spec_should_run_focus(*c, is_focus_run),
{
    !is_focus_run || c.is_case_focus()
}

pub fn should_run_skip<T: Case>(c: &T, disallow_skip: bool) -> (r: bool)
    ensures
        r == spec_should_run_skip(*c, disallow_skip),
{
    !c.is_case_skip() || disallow_skip
}

pub fn should_run_keyword<T: Case>(c: &T, keyword: &String, ignore_keywords: bool) -> (r: bool)
    ensures
        r == spec_should_run_keyword(*c, keyword@, ignore_keywords),
{
    if ignore_keywords {
        return true;
    }
    match c.get_case_keyword() {
        Some(case_keyword) => case_keyword.eq(keyword),
        None => keyword.as_str().unicode_len() == 0,
    }
}

pub fn should_run_filters<T: Case>(c: &T, filters: &Vec<String>) -> (r: bool)
    ensures
        r == spec_should_run_filters(*c, filters.deep_view()),
{
    let n = filters.len();
    if n == 0 {
        return true;
    }
    let mut i: usize = 0;
    while i < n
        invariant
            n == filters@.len(),
            i <= n,
            forall|j: int| 0 <= j < i ==> !is_substring(c.case_name(), filters.deep_view()[j]),
        decreases n - i,
    {
        if str_contains(c.get_case_name(), filters[i].as_str()) {
            proof {
                assert(filters.deep_view()[i as int] == filters@[i as int]@);
            }
            return true;
        }
        proof {
            assert(filters.deep_view()[i as int] == filters@[i as int]@);
        }
        i += 1;
    }
    false
}

pub fn scene_path_eq<T: Case>(c: &T, scene_path: &String) -> (r: bool)
    ensures
        r == spec_scene_path_eq(*c, scene_path@),
{
    match c.get_case_scene_path() {
        Some(path) => path.eq(scene_path),
        None => false,
    }
}

pub fn should_run_scene_path<T: Case>(c: &T, scene_path: &String) -> (r: bool)
    ensures
        r == spec_should_run_scene_path(*c, scene_path@),
{
    if c.get_case_scene_path().is_none() {
        return true;
    }
    scene_path_eq(c, scene_path)
}

/// Deterministic run order: by file, then by line.
pub open spec fn case_le<T: Case>(a: T, b: T) -> bool {
    lex_lt(a.case_file(), b.case_file()) || (a.case_file() == b.case_file()
        && a.case_line() <= b.case_line())
}

/// Strictly below in the run order: the `(file, line)` keys differ.
pub open spec fn case_lt<T: Case>(a: T, b: T) -> bool {
    case_le(a, b) && !case_le(b, a)
}

/// Compares two cases in the order of [`case_le`].
pub fn case_le_exec<T: Case>(a: &T, b: &T) -> (r: bool)
    ensures
        r == case_le(*a, *b),
{
    let fa = a.get_case_file();
    let fb = b.get_case_file();
    if str_lex_lt(fa, fb) {
        true
    } else if str_lex_lt(fb, fa) {
        proof {
            lemma_lex_lt_trichotomy(fa@, fb@);
        }
        false
    } else {
        proof {
            lemma_lex_lt_trichotomy(fa@, fb@);
        }
        a.get_case_line() <= b.get_case_line()
    }
}

/// The run order is total: any two cases are comparable, two cases ordered
/// both ways share their `(file, line)` key, and the order is transitive.
pub proof fn lemma_case_order_total<T: Case>(a: T, b: T, c: T)
    ensures
        case_le(a, b) || case_le(b, a),
        case_le(a, b) && case_le(b, a) ==> a.case_file() == b.case_file() && a.case_line()
            == b.case_line(),
        case_le(a, b) && case_le(b, c) ==> case_le(a, c),
{
    lemma_lex_lt_trichotomy(a.case_file(), b.case_file());
    lemma_lex_lt_trichotomy(b.case_file(), c.case_file());
    lemma_lex_lt_trichotomy(a.case_file(), c.case_file());
    if lex_lt(a.case_file(), b.case_file()) && lex_lt(b.case_file(), c.case_file()) {
        lemma_lex_lt_trans(a.case_file(), b.case_file(), c.case_file());
    }
}

/// Signal to the host that a value is used, preventing its computation from
/// being optimized away in a benchmark body.
///
/// Relies on std::hint::black_box: an identity function opaque to the
/// optimizer; the value is returned unchanged and then dropped.
#[verifier::external_body]
pub fn bench_used<T: Sized>(value: T) {
    std::hint::black_box(value);
}

} // verus!
