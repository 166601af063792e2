//! The case registry and the filter pipeline: an append-only collection
//! drained once per run, pure filtering passes over the drained snapshot,
//! and the deterministic orderer.

use vstd::prelude::*;
use vstd::seq_lib::group_to_multiset_ensures;
use crate::cases::{
    Case, CaseOutcome, RustBenchmark, RustTestCase, case_le, case_le_exec, case_lt, case_valid,
    lemma_case_order_total, should_run_filters, should_run_focus, should_run_keyword,
    should_run_scene_path, spec_should_run_filters, spec_should_run_focus,
    spec_should_run_keyword, spec_should_run_scene_path, scene_path_eq, spec_scene_path_eq,
};
use crate::config::{ConfigError, RunnerConfig};
use crate::context::{BenchError, UnwindError};
use crate::utils::{
    extract_file_subtitle, file_subtitle, format_micros_3dp, spec_decimal, spec_micros_3dp,
    usize_to_string,
};
use vstd::string::StringExecFns;

verus! {

/// An append-only collection of case descriptors, populated by registration
/// calls made before a run begins and drained once per run.
///
/// A registration with both `skipped` and `focused` set is invalid and is
/// rejected here, before the descriptor can ever reach the pipeline.
pub struct CaseRegistry<T> {
    cases: Vec<T>,
}

impl<T: Case> CaseRegistry<T> {
    /// The registered descriptors, in registration order.
    pub closed spec fn cases_seq(&self) -> Seq<T> {
        self.cases@
    }

    /// Constructs an empty registry.
    pub fn new() -> (r: Self)
        ensures
            r.cases_seq() == Seq::<T>::empty(),
    {
        Self { cases: Vec::new() }
    }

    /// Appends a descriptor.  A descriptor with both `skipped` and `focused`
    /// set is rejected and the registry is left unchanged.
    pub fn register(&mut self, case: T) -> (r: Result<(), ConfigError>)
        ensures
            r is Ok <==> case_valid(case),
            r is Ok ==> final(self).cases_seq() == old(self).cases_seq().push(case),
            r is Err ==> final(self).cases_seq() == old(self).cases_seq(),
    {
        if case.is_case_skip() && case.is_case_focus() {
            return Err(ConfigError::new(String::from_str(
                "a case cannot be both skipped and focused",
            )));
        }
        self.cases.push(case);
        Ok(())
    }

    /// Atomically empties the registry and returns its contents.  After the
    /// drain the registry is empty and accepts new registrations.
    pub fn drain_all(&mut self) -> (r: Vec<T>)
        ensures
            r@ == old(self).cases_seq(),
            final(self).cases_seq() == Seq::<T>::empty(),
    {
        let out = self.cases.split_off(0);
        proof {
            assert(out@ =~= old(self).cases_seq());
            assert(self.cases@ =~= Seq::<T>::empty());
        }
        out
    }
}

/// Admission predicate of the first pipeline stage: scene path and keyword.
pub open spec fn passes_path_keyword<T: Case>(
    c: T,
    scene_path: Seq<char>,
    keyword: Seq<char>,
    ignore_keywords: bool,
) -> bool {
    spec_should_run_scene_path(c, scene_path) && spec_should_run_keyword(
        c,
        keyword,
        ignore_keywords,
    )
}

/// The first pipeline stage over a whole snapshot.
pub open spec fn spec_filter_path_keyword<T: Case>(
    s: Seq<T>,
    scene_path: Seq<char>,
    keyword: Seq<char>,
    ignore_keywords: bool,
) -> Seq<T>
    decreases s.len(),
{
    if s.len() == 0 {
        Seq::empty()
    } else {
        let rest = spec_filter_path_keyword(s.drop_last(), scene_path, keyword, ignore_keywords);
        if passes_path_keyword(s.last(), scene_path, keyword, ignore_keywords) {
            rest.push(s.last())
        } else {
            rest
        }
    }
}

/// Admission predicate of the second pipeline stage: focus and substring
/// filters.
pub open spec fn passes_focus_filters<T: Case>(
    c: T,
    is_focus_run: bool,
    filters: Seq<Seq<char>>,
) -> bool {
    spec_should_run_focus(c, is_focus_run) && spec_should_run_filters(c, filters)
}

/// The second pipeline stage over a whole snapshot.
pub open spec fn spec_filter_focus_filters<T: Case>(
    s: Seq<T>,
    is_focus_run: bool,
    filters: Seq<Seq<char>>,
) -> Seq<T>
    decreases s.len(),
{
    if s.len() == 0 {
        Seq::empty()
    } else {
        let rest = spec_filter_focus_filters(s.drop_last(), is_focus_run, filters);
        if passes_focus_filters(s.last(), is_focus_run, filters) {
            rest.push(s.last())
        } else {
            rest
        }
    }
}

/// Focus promotion is set-wide: in a focus run, every case the second stage
/// retains is focused, whatever the substring filters would have admitted.
pub proof fn lemma_focus_promotion<T: Case>(
    s: Seq<T>,
    is_focus_run: bool,
    filters: Seq<Seq<char>>,
)
    requires
        is_focus_run,
    ensures
        forall|i: int|
            0 <= i < spec_filter_focus_filters(s, is_focus_run, filters).len()
                ==> (#[trigger] spec_filter_focus_filters(s, is_focus_run, filters)[i]).case_focus(),
    decreases s.len(),
{
    if s.len() > 0 {
        lemma_focus_promotion(s.drop_last(), is_focus_run, filters);
        let rest = spec_filter_focus_filters(s.drop_last(), is_focus_run, filters);
        let out = spec_filter_focus_filters(s, is_focus_run, filters);
        if passes_focus_filters(s.last(), is_focus_run, filters) {
            assert(out == rest.push(s.last()));
            assert(s.last().case_focus());
            assert forall|i: int| 0 <= i < out.len() implies out[i].case_focus() by {
                if i < rest.len() {
                    assert(out[i] == rest[i]);
                }
            }
        } else {
            assert(out == rest);
        }
    }
}

/// The first stage only discards: the result is no longer than the
/// snapshot and every retained case was in it.
pub proof fn lemma_filter_path_keyword_sub<T: Case>(
    s: Seq<T>,
    scene_path: Seq<char>,
    keyword: Seq<char>,
    ignore_keywords: bool,
)
    ensures
        spec_filter_path_keyword(s, scene_path, keyword, ignore_keywords).len() <= s.len(),
        forall|i: int|
            0 <= i < spec_filter_path_keyword(s, scene_path, keyword, ignore_keywords).len()
                ==> s.contains(
                #[trigger] spec_filter_path_keyword(s, scene_path, keyword, ignore_keywords)[i],
            ),
    decreases s.len(),
{
    if s.len() > 0 {
        lemma_filter_path_keyword_sub(s.drop_last(), scene_path, keyword, ignore_keywords);
        let rest = spec_filter_path_keyword(s.drop_last(), scene_path, keyword, ignore_keywords);
        let out = spec_filter_path_keyword(s, scene_path, keyword, ignore_keywords);
        assert forall|i: int| 0 <= i < out.len() implies s.contains(out[i]) by {
            if i < rest.len() {
                assert(out[i] == rest[i]);
                let k = choose|k: int| 0 <= k < s.drop_last().len() && s.drop_last()[k] == rest[i];
                assert(s[k] == rest[i]);
            } else {
                assert(out[i] == s.last());
            }
        }
    }
}

/// The second stage only discards, in the same sense.
pub proof fn lemma_filter_focus_filters_sub<T: Case>(
    s: Seq<T>,
    is_focus_run: bool,
    filters: Seq<Seq<char>>,
)
    ensures
        spec_filter_focus_filters(s, is_focus_run, filters).len() <= s.len(),
        forall|i: int|
            0 <= i < spec_filter_focus_filters(s, is_focus_run, filters).len() ==> s.contains(
                #[trigger] spec_filter_focus_filters(s, is_focus_run, filters)[i],
            ),
    decreases s.len(),
{
    if s.len() > 0 {
        lemma_filter_focus_filters_sub(s.drop_last(), is_focus_run, filters);
        let rest = spec_filter_focus_filters(s.drop_last(), is_focus_run, filters);
        let out = spec_filter_focus_filters(s, is_focus_run, filters);
        assert forall|i: int| 0 <= i < out.len() implies s.contains(out[i]) by {
            if i < rest.len() {
                assert(out[i] == rest[i]);
                let k = choose|k: int| 0 <= k < s.drop_last().len() && s.drop_last()[k] == rest[i];
                assert(s[k] == rest[i]);
            } else {
                assert(out[i] == s.last());
            }
        }
    }
}

/// At least one case in the snapshot is focused.
pub open spec fn spec_any_focused<T: Case>(s: Seq<T>) -> bool {
    exists|i: int| 0 <= i < s.len() && (#[trigger] s[i]).case_focus()
}

/// At least one case in the snapshot is restricted to exactly this path.
pub open spec fn spec_any_path_eq<T: Case>(s: Seq<T>, path: Seq<char>) -> bool {
    exists|i: int| 0 <= i < s.len() && spec_scene_path_eq(#[trigger] s[i], path)
}

/// Retains the cases admitted by scene path and keyword.
pub fn filter_path_keyword_vec<T: Case>(cases: Vec<T>, config: &RunnerConfig) -> (r: Vec<T>)
    ensures
        r@ == spec_filter_path_keyword(
            cases@,
            config.scene_path@,
            config.keyword@,
            config.ignore_keywords,
        ),
{
    let ghost orig = cases@;
    let mut rest = cases;
    let mut out: Vec<T> = Vec::new();
    let ghost sp = config.scene_path@;
    let ghost kw = config.keyword@;
    let ghost ik = config.ignore_keywords;
    while rest.len() > 0
        invariant
            rest@ =~= orig.skip(orig.len() - rest@.len()),
            rest@.len() <= orig.len(),
            sp == config.scene_path@,
            kw == config.keyword@,
            ik == config.ignore_keywords,
            out@ == spec_filter_path_keyword(orig.take(orig.len() - rest@.len()), sp, kw, ik),
        decreases rest@.len(),
    {
        let ghost i = orig.len() - rest@.len();
        let c = rest.remove(0);
        proof {
            assert(c == orig[i]);
            assert(orig.take(i + 1).drop_last() =~= orig.take(i));
            assert(orig.take(i + 1).last() == orig[i]);
        }
        let keep = should_run_scene_path(&c, config.scene_path())
            && should_run_keyword(&c, config.keyword(), config.ignore_keywords());
        if keep {
            out.push(c);
        }
        proof {
            assert(rest@ =~= orig.skip(orig.len() - rest@.len()));
        }
    }
    proof {
        assert(orig.take(orig.len() as int) =~= orig);
    }
    out
}

/// Retains the cases admitted by focus state and substring filters.
pub fn filter_focus_filters_vec<T: Case>(
    cases: Vec<T>,
    config: &RunnerConfig,
    is_focus_run: bool,
) -> (r: Vec<T>)
    ensures
        r@ == spec_filter_focus_filters(cases@, is_focus_run, config.filters.deep_view()),
{
    let ghost orig = cases@;
    let mut rest = cases;
    let mut out: Vec<T> = Vec::new();
    let ghost fs = config.filters.deep_view();
    while rest.len() > 0
        invariant
            rest@ =~= orig.skip(orig.len() - rest@.len()),
            rest@.len() <= orig.len(),
            fs == config.filters.deep_view(),
            out@ == spec_filter_focus_filters(
                orig.take(orig.len() - rest@.len()),
                is_focus_run,
                fs,
            ),
        decreases rest@.len(),
    {
        let ghost i = orig.len() - rest@.len();
        let c = rest.remove(0);
        proof {
            assert(c == orig[i]);
            assert(orig.take(i + 1).drop_last() =~= orig.take(i));
            assert(orig.take(i + 1).last() == orig[i]);
        }
        let keep = should_run_focus(&c, is_focus_run) && should_run_filters(&c, config.filters());
        if keep {
            out.push(c);
        }
        proof {
            assert(rest@ =~= orig.skip(orig.len() - rest@.len()));
        }
    }
    proof {
        assert(orig.take(orig.len() as int) =~= orig);
    }
    out
}

/// Is any case in the vector focused?
pub fn any_focused_vec<T: Case>(cases: &Vec<T>) -> (r: bool)
    ensures
        r == spec_any_focused(cases@),
{
    let mut i: usize = 0;
    let n = cases.len();
    while i < n
        invariant
            n == cases@.len(),
            i <= n,
            forall|j: int| 0 <= j < i ==> !(#[trigger] cases@[j]).case_focus(),
        decreases n - i,
    {
        if cases[i].is_case_focus() {
            return true;
        }
        i += 1;
    }
    false
}

/// Is any case in the vector restricted to exactly this path?
pub fn any_path_eq_vec<T: Case>(cases: &Vec<T>, path: &String) -> (r: bool)
    ensures
        r == spec_any_path_eq(cases@, path@),
{
    let mut i: usize = 0;
    let n = cases.len();
    while i < n
        invariant
            n == cases@.len(),
            i <= n,
            forall|j: int| 0 <= j < i ==> !spec_scene_path_eq(#[trigger] cases@[j], path@),
        decreases n - i,
    {
        if scene_path_eq(&cases[i], path) {
            return true;
        }
        i += 1;
    }
    false
}

/// The snapshot is in run storage order: descending by the `(file, line)`
/// key, so that popping from the back yields cases in ascending order.
pub open spec fn cases_sorted_desc<T: Case>(s: Seq<T>) -> bool {
    forall|i: int, j: int| 0 <= i < j < s.len() ==> case_le(#[trigger] s[j], #[trigger] s[i])
}

/// Inserts a case into a descending-ordered sequence: before the first
/// case strictly below it, and so after every case with an equal key —
/// which is what keeps the sort stable.
pub open spec fn spec_insert_desc<T: Case>(s: Seq<T>, x: T) -> Seq<T>
    decreases s.len(),
{
    if s.len() == 0 {
        seq![x]
    } else if case_lt(s[0], x) {
        seq![x] + s
    } else {
        seq![s[0]] + spec_insert_desc(s.drop_first(), x)
    }
}

/// The deterministic run order as a function of the snapshot: each case in
/// turn is inserted into the sorted prefix.
pub open spec fn spec_sort_cases_desc<T: Case>(s: Seq<T>) -> Seq<T>
    decreases s.len(),
{
    if s.len() == 0 {
        Seq::empty()
    } else {
        spec_insert_desc(spec_sort_cases_desc(s.drop_last()), s.last())
    }
}

/// Where [`spec_insert_desc`] puts the case: at the first position whose
/// element is strictly below it.
proof fn lemma_insert_desc_at<T: Case>(s: Seq<T>, x: T, j: int)
    requires
        0 <= j <= s.len(),
        forall|k: int| 0 <= k < j ==> !case_lt(#[trigger] s[k], x),
        j < s.len() ==> case_lt(s[j], x),
    ensures
        spec_insert_desc(s, x) == s.take(j) + seq![x] + s.skip(j),
    decreases s.len(),
{
    if s.len() == 0 {
        assert(spec_insert_desc(s, x) =~= s.take(0) + seq![x] + s.skip(0));
    } else if j == 0 {
        assert(spec_insert_desc(s, x) =~= s.take(0) + seq![x] + s.skip(0));
    } else {
        let d = s.drop_first();
        assert forall|k: int| 0 <= k < j - 1 implies !case_lt(#[trigger] d[k], x) by {
            assert(d[k] == s[k + 1]);
        }
        if j - 1 < d.len() {
            assert(d[j - 1] == s[j as int]);
        }
        lemma_insert_desc_at(d, x, j - 1);
        assert(spec_insert_desc(s, x) =~= s.take(j) + seq![x] + s.skip(j)) by {
            assert(spec_insert_desc(s, x) == seq![s[0]] + (d.take(j - 1) + seq![x] + d.skip(
                j - 1,
            )));
            assert(forall|k: int| 0 <= k < j - 1 ==> #[trigger] d.take(j - 1)[k] == s[k + 1]);
            assert(forall|k: int| 0 <= k < d.len() - (j - 1) ==> #[trigger] d.skip(j - 1)[k]
                == s[k + j]);
        }
    }
}

/// The cases share their `(file, line)` ordering key.
pub open spec fn same_order_key<T: Case>(a: T, b: T) -> bool {
    case_le(a, b) && case_le(b, a)
}

/// The subsequence of cases whose key equals the pivot's, in order.
pub open spec fn key_matches_filter<T: Case>(s: Seq<T>, pivot: T) -> Seq<T>
    decreases s.len(),
{
    if s.len() == 0 {
        Seq::empty()
    } else {
        let rest = key_matches_filter(s.drop_last(), pivot);
        if same_order_key(s.last(), pivot) {
            rest.push(s.last())
        } else {
            rest
        }
    }
}

proof fn lemma_key_filter_add<T: Case>(a: Seq<T>, b: Seq<T>, pivot: T)
    ensures
        key_matches_filter(a + b, pivot) == key_matches_filter(a, pivot) + key_matches_filter(
            b,
            pivot,
        ),
    decreases b.len(),
{
    if b.len() == 0 {
        assert(a + b =~= a);
        assert(key_matches_filter(a, pivot) + key_matches_filter(b, pivot) =~= key_matches_filter(
            a,
            pivot,
        ));
    } else {
        lemma_key_filter_add(a, b.drop_last(), pivot);
        assert((a + b).drop_last() =~= a + b.drop_last());
        assert((a + b).last() == b.last());
        if same_order_key(b.last(), pivot) {
            assert(key_matches_filter(a + b, pivot) =~= key_matches_filter(a, pivot)
                + key_matches_filter(b, pivot));
        } else {
            assert(key_matches_filter(a + b, pivot) =~= key_matches_filter(a, pivot)
                + key_matches_filter(b, pivot));
        }
    }
}

proof fn lemma_key_filter_singleton<T: Case>(x: T, pivot: T)
    ensures
        key_matches_filter(seq![x], pivot) == (if same_order_key(x, pivot) {
            seq![x]
        } else {
            Seq::<T>::empty()
        }),
{
    assert(seq![x].drop_last() =~= Seq::<T>::empty());
    assert(key_matches_filter(seq![x].drop_last(), pivot) == Seq::<T>::empty());
    if same_order_key(x, pivot) {
        assert(key_matches_filter(seq![x], pivot) =~= seq![x]);
    }
}

/// No case strictly below `x` shares a key with `x`'s key.
proof fn lemma_no_key_below<T: Case>(s: Seq<T>, x: T, pivot: T)
    requires
        same_order_key(x, pivot),
        forall|k: int| 0 <= k < s.len() ==> case_lt(#[trigger] s[k], x),
    ensures
        key_matches_filter(s, pivot) == Seq::<T>::empty(),
    decreases s.len(),
{
    if s.len() > 0 {
        lemma_no_key_below(s.drop_last(), x, pivot);
        assert(!same_order_key(s.last(), pivot)) by {
            if same_order_key(s.last(), pivot) {
                lemma_case_order_total(x, pivot, s.last());
                assert(case_le(x, s.last()));
            }
        }
    }
}

/// Inserting into a descending-ordered sequence keeps it ordered; the
/// result's elements are the sequence's and the inserted one.
proof fn lemma_insert_desc_sorted<T: Case>(s: Seq<T>, x: T)
    requires
        cases_sorted_desc(s),
    ensures
        spec_insert_desc(s, x).len() == s.len() + 1,
        cases_sorted_desc(spec_insert_desc(s, x)),
        forall|k: int|
            0 <= k < spec_insert_desc(s, x).len() ==> spec_insert_desc(s, x)[k] == x
                || s.contains(#[trigger] spec_insert_desc(s, x)[k]),
    decreases s.len(),
{
    let out = spec_insert_desc(s, x);
    if s.len() == 0 {
        assert(out =~= seq![x]);
    } else if case_lt(s[0], x) {
        assert(out =~= seq![x] + s);
        assert forall|p: int, q: int| 0 <= p < q < out.len() implies case_le(
            out[q],
            out[p],
        ) by {
            assert(out[q] == s[q - 1]);
            if p == 0 {
                lemma_case_order_total(s[q - 1], s[0], x);
                if q > 1 {
                    assert(case_le(s[q - 1], s[0]));
                }
            } else {
                assert(out[p] == s[p - 1]);
            }
        }
        assert forall|k: int| 0 <= k < out.len() implies out[k] == x || s.contains(
            #[trigger] out[k],
        ) by {
            if k > 0 {
                assert(out[k] == s[k - 1]);
            }
        }
    } else {
        let d = s.drop_first();
        assert forall|p: int, q: int| 0 <= p < q < d.len() implies case_le(d[q], d[p]) by {
            assert(d[p] == s[p + 1] && d[q] == s[q + 1]);
        }
        lemma_insert_desc_sorted(d, x);
        let rest = spec_insert_desc(d, x);
        assert(out =~= seq![s[0]] + rest);
        assert(case_le(x, s[0])) by {
            lemma_case_order_total(s[0], x, x);
        }
        assert forall|k: int| 0 <= k < out.len() implies out[k] == x || s.contains(
            #[trigger] out[k],
        ) by {
            if k == 0 {
                assert(s.contains(s[0]));
            } else {
                assert(out[k] == rest[k - 1]);
                if rest[k - 1] != x {
                    assert(d.contains(rest[k - 1]));
                    let m = choose|m: int| 0 <= m < d.len() && d[m] == rest[k - 1];
                    assert(s[m + 1] == rest[k - 1]);
                }
            }
        }
        assert forall|p: int, q: int| 0 <= p < q < out.len() implies case_le(
            out[q],
            out[p],
        ) by {
            if p == 0 {
                assert(out[q] == rest[q - 1]);
                if rest[q - 1] == x {
                } else {
                    assert(d.contains(rest[q - 1]));
                    let m = choose|m: int| 0 <= m < d.len() && d[m] == rest[q - 1];
                    assert(s[m + 1] == rest[q - 1]);
                    assert(case_le(s[m + 1], s[0]));
                }
            } else {
                assert(out[p] == rest[p - 1] && out[q] == rest[q - 1]);
            }
        }
    }
}

/// The deterministic sort keeps its result in descending run order.
pub proof fn lemma_spec_sort_sorted<T: Case>(s: Seq<T>)
    ensures
        spec_sort_cases_desc(s).len() == s.len(),
        cases_sorted_desc(spec_sort_cases_desc(s)),
    decreases s.len(),
{
    if s.len() > 0 {
        lemma_spec_sort_sorted(s.drop_last());
        lemma_insert_desc_sorted(spec_sort_cases_desc(s.drop_last()), s.last());
    }
}

proof fn lemma_insert_key_filter<T: Case>(s: Seq<T>, x: T, pivot: T)
    requires
        cases_sorted_desc(s),
    ensures
        key_matches_filter(spec_insert_desc(s, x), pivot) == (if same_order_key(x, pivot) {
            key_matches_filter(s, pivot).push(x)
        } else {
            key_matches_filter(s, pivot)
        }),
    decreases s.len(),
{
    let out = spec_insert_desc(s, x);
    if s.len() == 0 {
        lemma_key_filter_singleton(x, pivot);
        assert(out == seq![x]);
        if same_order_key(x, pivot) {
            assert(key_matches_filter(s, pivot).push(x) =~= seq![x]);
        }
    } else if case_lt(s[0], x) {
        assert(out == seq![x] + s);
        lemma_key_filter_add(seq![x], s, pivot);
        lemma_key_filter_singleton(x, pivot);
        if same_order_key(x, pivot) {
            assert forall|k: int| 0 <= k < s.len() implies case_lt(#[trigger] s[k], x) by {
                if k > 0 {
                    assert(case_le(s[k], s[0]));
                }
                lemma_case_order_total(s[k], s[0], x);
                lemma_case_order_total(x, s[k], s[0]);
            }
            lemma_no_key_below(s, x, pivot);
            assert(key_matches_filter(out, pivot) =~= key_matches_filter(s, pivot).push(x));
        } else {
            assert(key_matches_filter(out, pivot) =~= key_matches_filter(s, pivot));
        }
    } else {
        let d = s.drop_first();
        assert forall|p: int, q: int| 0 <= p < q < d.len() implies case_le(d[q], d[p]) by {
            assert(d[p] == s[p + 1] && d[q] == s[q + 1]);
        }
        lemma_insert_key_filter(d, x, pivot);
        let rest = spec_insert_desc(d, x);
        assert(out == seq![s[0]] + rest);
        lemma_key_filter_add(seq![s[0]], rest, pivot);
        lemma_key_filter_add(seq![s[0]], d, pivot);
        assert(s =~= seq![s[0]] + d);
        if same_order_key(x, pivot) {
            assert(key_matches_filter(out, pivot) =~= key_matches_filter(s, pivot).push(x));
        } else {
            assert(key_matches_filter(out, pivot) =~= key_matches_filter(s, pivot));
        }
    }
}

/// The sort is stable: for any ordering key, the subsequence of cases
/// carrying that key comes out of the sort exactly as it went in, so
/// cases with an equal `(file, line)` key keep their relative order.
pub proof fn lemma_sort_cases_stable<T: Case>(s: Seq<T>, pivot: T)
    ensures
        key_matches_filter(spec_sort_cases_desc(s), pivot) == key_matches_filter(s, pivot),
    decreases s.len(),
{
    if s.len() > 0 {
        lemma_sort_cases_stable(s.drop_last(), pivot);
        lemma_spec_sort_sorted(s.drop_last());
        lemma_insert_key_filter(spec_sort_cases_desc(s.drop_last()), s.last(), pivot);
    }
}

proof fn lemma_sort_singleton<T: Case>(s: Seq<T>)
    requires
        s.len() == 1,
    ensures
        spec_sort_cases_desc(s) == s,
{
    assert(s.drop_last() =~= Seq::<T>::empty());
    assert(spec_sort_cases_desc(s.drop_last()) == Seq::<T>::empty());
    assert(spec_insert_desc(Seq::<T>::empty(), s.last()) =~= seq![s.last()]);
    assert(s =~= seq![s.last()]);
}

/// Sorts the snapshot into the deterministic run order.
///
/// The result is pinned to [`spec_sort_cases_desc`], a function of the
/// snapshot alone: the order is reproduced exactly across runs, and cases
/// with an equal `(file, line)` key keep their relative order.  The sort
/// is idempotent: a snapshot already in run order comes back unchanged.
pub fn sort_cases_vec<T: Case>(cases: Vec<T>) -> (r: Vec<T>)
    ensures
        r@ == spec_sort_cases_desc(cases@),
        cases_sorted_desc(r@),
        r@.to_multiset() == cases@.to_multiset(),
        r@.len() == cases@.len(),
        cases_sorted_desc(cases@) ==> r@ == cases@,
{
    broadcast use group_to_multiset_ensures;

    let ghost orig = cases@;
    let mut v = cases;
    let n = v.len();
    let mut i: usize = 1;
    if n <= 1 {
        proof {
            if orig.len() == 1 {
                lemma_sort_singleton(orig);
            } else {
                assert(spec_sort_cases_desc(orig) =~= orig);
            }
        }
        return v;
    }
    proof {
        lemma_sort_singleton(orig.take(1));
        assert(v@.take(1) =~= orig.take(1));
    }
    while i < n
        invariant
            n == v@.len(),
            n == orig.len(),
            1 <= i <= n,
            v@.to_multiset() == orig.to_multiset(),
            cases_sorted_desc(v@.take(i as int)),
            v@.take(i as int) == spec_sort_cases_desc(orig.take(i as int)),
            v@.skip(i as int) == orig.skip(i as int),
            cases_sorted_desc(orig) ==> v@ == orig,
        decreases n - i,
    {
        broadcast use group_to_multiset_ensures;

        let ghost before = v@;
        let x = v.remove(i);
        proof {
            assert(before.remove(i as int).to_multiset() == before.to_multiset().remove(
                before[i as int],
            ));
        }
        let ghost rem = before.remove(i as int);
        proof {
            assert forall|k: int| 0 <= k < i implies rem[k] == before[k] by {
                assert(rem == before.take(i as int) + before.skip(i + 1));
            }
            assert forall|m: int| i <= m < rem.len() implies rem[m] == before[m + 1] by {
                assert(rem == before.take(i as int) + before.skip(i + 1));
            }
        }
        // Find the first position whose element is strictly below `x` in the
        // run order; `x` belongs just before it.
        let mut j: usize = 0;
        loop
            invariant
                j <= i,
                i < n,
                n == v@.len() + 1,
                v@ == rem,
                forall|k: int| 0 <= k < j ==> case_le(x, #[trigger] rem[k]),
            ensures
                j <= i,
                forall|k: int| 0 <= k < j ==> case_le(x, #[trigger] rem[k]),
                j < i ==> case_le(rem[j as int], x) && !case_le(x, rem[j as int]),
            decreases i - j,
        {
            if j == i {
                break;
            }
            let below = case_le_exec(&v[j], &x);
            let above = case_le_exec(&x, &v[j]);
            if below && !above {
                break;
            }
            proof {
                lemma_case_order_total(rem[j as int], x, x);
            }
            j += 1;
        }
        v.insert(j, x);
        proof {
            assert(v@.to_multiset() == rem.to_multiset().insert(before[i as int]));
            assert(v@.to_multiset() =~= before.to_multiset());
            // Sortedness of the grown prefix.
            let pre = before.take(i as int);
            let now = v@.take(i + 1);
            assert(forall|k: int| 0 <= k < i ==> pre[k] == before[k]);
            assert forall|k: int| 0 <= k < now.len() implies now[k] == (if k < j {
                pre[k]
            } else if k == j {
                x
            } else {
                pre[k - 1]
            }) by {
                assert(v@ == rem.insert(j as int, x));
            }
            assert forall|p: int, q: int| 0 <= p < q < now.len() implies case_le(
                now[q],
                now[p],
            ) by {
                if q < j {
                    assert(case_le(pre[q], pre[p]));
                } else if q == j {
                    assert(case_le(x, rem[p]));
                } else {
                    if p < j {
                        assert(case_le(pre[q - 1], pre[p]));
                    } else if p == j {
                        // here j < q <= i, so the stop condition held
                        if q - 1 == j {
                            assert(case_le(rem[j as int], x));
                        } else {
                            assert(case_le(pre[q - 1], pre[j as int]));
                            lemma_case_order_total(pre[q - 1], pre[j as int], x);
                        }
                    } else {
                        assert(case_le(pre[q - 1], pre[p - 1]));
                    }
                }
            }
            assert(cases_sorted_desc(v@.take(i + 1)));
            // The grown prefix is exactly the spec-level insertion, pinning
            // the whole sort to a function of the snapshot.
            assert(x == orig[i as int]) by {
                assert(before.skip(i as int)[0] == orig.skip(i as int)[0]);
            }
            assert forall|k: int| 0 <= k < j implies !case_lt(#[trigger] pre[k], x) by {
                assert(case_le(x, rem[k]));
            }
            if j < i {
                assert(case_lt(pre[j as int], x)) by {
                    assert(rem[j as int] == before[j as int]);
                }
            }
            lemma_insert_desc_at(pre, x, j as int);
            assert(now =~= pre.take(j as int) + seq![x] + pre.skip(j as int));
            assert(orig.take(i + 1).drop_last() =~= orig.take(i as int));
            assert(orig.take(i + 1).last() == orig[i as int]);
            assert(pre == spec_sort_cases_desc(orig.take(i as int)));
            assert(v@.take(i + 1) == spec_sort_cases_desc(orig.take(i + 1)));
            // The tail beyond the grown prefix is untouched.
            assert forall|k: int| 0 <= k < v@.len() - (i + 1) implies #[trigger] v@.skip(
                i + 1,
            )[k] == orig.skip(i + 1)[k] by {
                assert(v@ == rem.insert(j as int, x));
                assert(v@[k + i + 1] == rem[k + i]);
                assert(rem[k + i] == before[k + i + 1]);
                assert(before.skip(i as int)[k + 1] == orig.skip(i as int)[k + 1]);
            }
            assert(v@.skip(i + 1) =~= orig.skip(i + 1));
            // Idempotence: a sorted snapshot is not disturbed.
            if cases_sorted_desc(orig) {
                assert(before == orig);
                assert(j == i) by {
                    if j < i {
                        assert(case_le(rem[j as int], x) && !case_le(x, rem[j as int]));
                        assert(rem[j as int] == orig[j as int]);
                        assert(case_le(orig[i as int], orig[j as int]));
                    }
                }
                assert(v@ =~= orig);
            }
        }
        i += 1;
    }
    proof {
        assert(v@.take(n as int) =~= v@);
        assert(orig.take(n as int) =~= orig);
    }
    v
}

/// Sorts the recorded per-invocation durations ascending.
pub fn sort_durations(times: Vec<u64>) -> (r: Vec<u64>)
    ensures
        r@.len() == times@.len(),
        r@.to_multiset() == times@.to_multiset(),
        forall|i: int, j: int| 0 <= i < j < r@.len() ==> #[trigger] r@[i] <= #[trigger] r@[j],
{
    broadcast use group_to_multiset_ensures;

    let ghost orig = times@;
    let mut v = times;
    let n = v.len();
    if n <= 1 {
        return v;
    }
    let mut i: usize = 1;
    while i < n
        invariant
            n == v@.len(),
            1 <= i <= n,
            v@.to_multiset() == orig.to_multiset(),
            forall|p: int, q: int| 0 <= p < q < i ==> #[trigger] v@[p] <= #[trigger] v@[q],
        decreases n - i,
    {
        broadcast use group_to_multiset_ensures;

        let ghost before = v@;
        let x = v.remove(i);
        let ghost rem = before.remove(i as int);
        proof {
            assert forall|k: int| 0 <= k < i implies rem[k] == before[k] by {
                assert(rem == before.take(i as int) + before.skip(i + 1));
            }
            assert forall|m: int| i <= m < rem.len() implies rem[m] == before[m + 1] by {
                assert(rem == before.take(i as int) + before.skip(i + 1));
            }
        }
        let mut j: usize = 0;
        loop
            invariant
                j <= i,
                i < n,
                n == v@.len() + 1,
                v@ == rem,
                forall|k: int| 0 <= k < j ==> #[trigger] rem[k] <= x,
            ensures
                j <= i,
                forall|k: int| 0 <= k < j ==> #[trigger] rem[k] <= x,
                j < i ==> x < rem[j as int],
            decreases i - j,
        {
            if j == i {
                break;
            }
            if x < v[j] {
                break;
            }
            j += 1;
        }
        v.insert(j, x);
        proof {
            assert(v@.to_multiset() == rem.to_multiset().insert(before[i as int]));
            assert(v@.to_multiset() =~= before.to_multiset());
            assert forall|k: int| 0 <= k < i + 1 implies v@[k] == (if k < j {
                before[k]
            } else if k == j {
                x
            } else {
                before[k - 1]
            }) by {
                assert(v@ == rem.insert(j as int, x));
            }
            assert forall|p: int, q: int| 0 <= p < q < i + 1 implies v@[p] <= v@[q] by {
                if q == j && p < j {
                    assert(before[p] == rem[p]);
                } else if p == j && q > j {
                    assert(x < rem[j as int]);
                    assert(rem[j as int] == before[j as int]);
                    if q - 1 > j {
                        assert(before[j as int] <= before[q - 1]);
                    }
                }
            }
        }
        i += 1;
    }
    v
}

/// The set of distinct source files the cases come from.
pub open spec fn spec_files_set<T: Case>(s: Seq<T>) -> Set<Seq<char>> {
    Set::new(
        |f: Seq<char>| exists|i: int| 0 <= i < s.len() && (#[trigger] s[i]).case_file() == f,
    )
}

fn string_vec_contains(v: &Vec<String>, s: &String) -> (r: bool)
    ensures
        r == v.deep_view().contains(s@),
{
    let n = v.len();
    let mut i: usize = 0;
    while i < n
        invariant
            n == v@.len(),
            i <= n,
            forall|j: int| 0 <= j < i ==> v.deep_view()[j] != s@,
        decreases n - i,
    {
        proof {
            assert(v.deep_view()[i as int] == v@[i as int]@);
        }
        if v[i].eq(s) {
            return true;
        }
        i += 1;
    }
    proof {
        assert(forall|j: int| 0 <= j < v.deep_view().len() ==> v.deep_view()[j] != s@);
    }
    false
}

/// Counts the distinct source files among the cases.
pub fn files_count_vec<T: Case>(cases: &Vec<T>) -> (r: usize)
    ensures
        r == spec_files_set(cases@).len(),
{
    let n = cases.len();
    let mut seen: Vec<String> = Vec::new();
    let mut i: usize = 0;
    while i < n
        invariant
            n == cases@.len(),
            i <= n,
            seen.deep_view().no_duplicates(),
            seen.deep_view().to_set() =~= spec_files_set(cases@.take(i as int)),
        decreases n - i,
    {
        let file = String::from_str(cases[i].get_case_file());
        let ghost old_seen = seen.deep_view();
        let had = string_vec_contains(&seen, &file);
        if !had {
            seen.push(file);
            proof {
                assert(seen.deep_view() =~= old_seen.push(cases@[i as int].case_file()));
                assert(seen.deep_view().no_duplicates());
            }
        }
        proof {
            let cur = seen.deep_view();
            let pre = cases@.take(i as int);
            let now = cases@.take(i + 1);
            assert(now.drop_last() =~= pre);
            assert(now.last() == cases@[i as int]);
            assert forall|k: int| 0 <= k < old_seen.len() implies cur.contains(
                old_seen[k],
            ) by {
                assert(cur[k] == old_seen[k]);
            }
            assert forall|f: Seq<char>| cur.to_set().contains(f) <==> spec_files_set(
                now,
            ).contains(f) by {
                if spec_files_set(now).contains(f) {
                    let k = choose|k: int| 0 <= k < now.len() && now[k].case_file() == f;
                    if k < i {
                        assert(pre[k].case_file() == f);
                        assert(spec_files_set(pre).contains(f));
                        assert(old_seen.to_set().contains(f));
                        assert(cur.contains(f));
                    } else {
                        assert(f == cases@[i as int].case_file());
                        if had {
                            assert(old_seen.contains(f));
                            assert(cur.contains(f));
                        } else {
                            assert(cur.last() == f);
                        }
                    }
                }
                if cur.to_set().contains(f) {
                    if old_seen.to_set().contains(f) {
                        assert(spec_files_set(pre).contains(f));
                        let k = choose|k: int| 0 <= k < pre.len() && pre[k].case_file() == f;
                        assert(now[k].case_file() == f);
                        assert(spec_files_set(now).contains(f));
                    } else {
                        let k = choose|k: int| 0 <= k < cur.len() && cur[k] == f;
                        assert(k == old_seen.len());
                        assert(f == cases@[i as int].case_file());
                        assert(now[i as int].case_file() == f);
                        assert(spec_files_set(now).contains(f));
                    }
                }
            }
            assert(cur.to_set() =~= spec_files_set(now));
        }
        i += 1;
    }
    proof {
        assert(cases@.take(n as int) =~= cases@);
        seen.deep_view().unique_seq_to_set();
    }
    seen.len()
}

/// Handler for the drained test snapshot: applies the filter pipeline and
/// hands tests out in run order.
pub struct GdRustItests {
    pub tests: Vec<RustTestCase>,
    pub files_count: usize,
    pub is_focus_run: bool,
}

/// Handler for the drained benchmark snapshot.
pub struct GdBenchmarks {
    pub benches: Vec<RustBenchmark>,
    pub files_count: usize,
    pub is_focus_run: bool,
    pub results: Vec<BenchSummaryItem>,
}

impl GdRustItests {
    /// Takes ownership of a drained snapshot.
    pub fn init(tests: Vec<RustTestCase>) -> (r: Self)
        ensures
            r.tests@ == tests@,
            r.files_count == 0,
            !r.is_focus_run,
    {
        Self { tests, files_count: 0, is_focus_run: false }
    }

    /// Pops the next test in run order.
    pub fn get_test(&mut self) -> (r: Option<RustTestCase>)
        ensures
            old(self).tests@.len() == 0 ==> r is None && final(self).tests@ == old(self).tests@,
            old(self).tests@.len() > 0 ==> r == Some(old(self).tests@.last())
                && final(self).tests@ == old(self).tests@.drop_last(),
            final(self).files_count == old(self).files_count,
            final(self).is_focus_run == old(self).is_focus_run,
    {
        self.tests.pop()
    }

    pub fn tests_count(&self) -> (r: usize)
        ensures
            r == self.tests@.len(),
    {
        self.tests.len()
    }

    pub fn files_count(&self) -> (r: usize)
        ensures
            r == self.files_count,
    {
        self.files_count
    }

    pub fn is_focus_run(&self) -> (r: bool)
        ensures
            r == self.is_focus_run,
    {
        self.is_focus_run
    }

    pub fn set_focus_run(&mut self, is_focus_run: bool)
        ensures
            *final(self) == (GdRustItests { is_focus_run, ..*old(self) }),
    {
        self.is_focus_run = is_focus_run;
    }

    /// Does any test demand exactly this scene path?
    pub fn is_any_path_eq(&self, path: &String) -> (r: bool)
        ensures
            r == spec_any_path_eq(self.tests@, path@),
    {
        any_path_eq_vec(&self.tests, path)
    }

    /// First pipeline stage: retain tests admitted by scene path and
    /// keyword.
    pub fn filter_path_keyword(&mut self, config: &RunnerConfig)
        ensures
            final(self).tests@ == spec_filter_path_keyword(
                old(self).tests@,
                config.scene_path@,
                config.keyword@,
                config.ignore_keywords,
            ),
            final(self).files_count == old(self).files_count,
            final(self).is_focus_run == old(self).is_focus_run,
    {
        let cases = self.tests.split_off(0);
        proof {
            assert(cases@ =~= old(self).tests@);
        }
        self.tests = filter_path_keyword_vec(cases, config);
    }

    /// Would this be a focus run: focus is allowed and either a prior phase
    /// decided so or some test is focused.
    pub fn check_focus_run(&self, config: &RunnerConfig) -> (r: bool)
        ensures
            r == (!config.disallow_focus && (self.is_focus_run || spec_any_focused(
                self.tests@,
            ))),
    {
        !config.disallow_focus() && (self.is_focus_run || any_focused_vec(&self.tests))
    }

    /// Second pipeline stage: decide focus promotion, then retain tests
    /// admitted by focus state and substring filters.
    pub fn filter_focus_filters(&mut self, config: &RunnerConfig)
        ensures
            final(self).is_focus_run == ((!config.disallow_focus && (old(self).is_focus_run
                || spec_any_focused(old(self).tests@))) || old(self).is_focus_run),
            final(self).tests@ == spec_filter_focus_filters(
                old(self).tests@,
                final(self).is_focus_run,
                config.filters.deep_view(),
            ),
            final(self).files_count == old(self).files_count,
    {
        let is_focus_run = self.check_focus_run(config) || self.is_focus_run;
        self.is_focus_run = is_focus_run;
        let cases = self.tests.split_off(0);
        proof {
            assert(cases@ =~= old(self).tests@);
        }
        self.tests = filter_focus_filters_vec(cases, config, is_focus_run);
    }

    /// Sorts the surviving tests into run storage order, pinned to the
    /// deterministic, stable [`spec_sort_cases_desc`].
    pub fn sort_cases(&mut self)
        ensures
            final(self).tests@ == spec_sort_cases_desc(old(self).tests@),
            cases_sorted_desc(final(self).tests@),
            final(self).tests@.to_multiset() == old(self).tests@.to_multiset(),
            cases_sorted_desc(old(self).tests@) ==> final(self).tests@ == old(self).tests@,
            final(self).files_count == old(self).files_count,
            final(self).is_focus_run == old(self).is_focus_run,
    {
        let cases = self.tests.split_off(0);
        proof {
            assert(cases@ =~= old(self).tests@);
        }
        self.tests = sort_cases_vec(cases);
    }

    /// Counts the distinct source files among the surviving tests.
    pub fn get_files_count(&self) -> (r: usize)
        ensures
            r == spec_files_set(self.tests@).len(),
    {
        files_count_vec(&self.tests)
    }

    /// Sorts and records the per-file statistics, concluding the pipeline.
    pub fn finish_setup(&mut self)
        ensures
            final(self).tests@ == spec_sort_cases_desc(old(self).tests@),
            cases_sorted_desc(final(self).tests@),
            final(self).tests@.to_multiset() == old(self).tests@.to_multiset(),
            final(self).files_count == spec_files_set(final(self).tests@).len(),
            final(self).is_focus_run == old(self).is_focus_run,
    {
        self.sort_cases();
        self.files_count = self.get_files_count();
    }

    /// The one-line summary printed after the pipeline has run.
    pub fn get_post_init_summary(&self) -> (r: String)
        ensures
            r@ == "   Found "@ + spec_decimal(self.tests@.len() as int) + " Rust tests in "@
                + spec_decimal(self.files_count as int) + " files"@,
    {
        let mut s = String::from_str("   Found ");
        let count = usize_to_string(self.tests.len());
        s.append(count.as_str());
        s.append(" Rust tests in ");
        let files = usize_to_string(self.files_count);
        s.append(files.as_str());
        s.append(" files");
        s
    }
}

impl GdBenchmarks {
    /// Takes ownership of a drained snapshot.
    pub fn init(benches: Vec<RustBenchmark>) -> (r: Self)
        ensures
            r.benches@ == benches@,
            r.files_count == 0,
            !r.is_focus_run,
            r.results@ == Seq::<BenchSummaryItem>::empty(),
    {
        Self { benches, files_count: 0, is_focus_run: false, results: Vec::new() }
    }

    /// Pops the next benchmark in run order.
    pub fn get_benchmark(&mut self) -> (r: Option<RustBenchmark>)
        ensures
            old(self).benches@.len() == 0 ==> r is None
                && final(self).benches@ == old(self).benches@,
            old(self).benches@.len() > 0 ==> r == Some(old(self).benches@.last())
                && final(self).benches@ == old(self).benches@.drop_last(),
            final(self).files_count == old(self).files_count,
            final(self).is_focus_run == old(self).is_focus_run,
            final(self).results@ == old(self).results@,
    {
        self.benches.pop()
    }

    pub fn bench_count(&self) -> (r: usize)
        ensures
            r == self.benches@.len(),
    {
        self.benches.len()
    }

    pub fn files_count(&self) -> (r: usize)
        ensures
            r == self.files_count,
    {
        self.files_count
    }

    pub fn is_focus_run(&self) -> (r: bool)
        ensures
            r == self.is_focus_run,
    {
        self.is_focus_run
    }

    pub fn set_focus_run(&mut self, is_focus_run: bool)
        ensures
            *final(self) == (GdBenchmarks { is_focus_run, ..*old(self) }),
    {
        self.is_focus_run = is_focus_run;
    }

    /// The recorded per-benchmark summaries, for the machine-readable
    /// export.
    pub fn results_summary(&self) -> (r: &Vec<BenchSummaryItem>)
        ensures
            r@ == self.results@,
    {
        &self.results
    }

    /// Records one benchmark's summary.
    pub fn push_result(&mut self, result: BenchSummaryItem)
        ensures
            final(self).results@ == old(self).results@.push(result),
            final(self).benches@ == old(self).benches@,
            final(self).files_count == old(self).files_count,
            final(self).is_focus_run == old(self).is_focus_run,
    {
        self.results.push(result)
    }

    /// Does any benchmark demand exactly this scene path?
    pub fn is_any_path_eq(&self, path: &String) -> (r: bool)
        ensures
            r == spec_any_path_eq(self.benches@, path@),
    {
        any_path_eq_vec(&self.benches, path)
    }

    /// First pipeline stage: retain benchmarks admitted by scene path and
    /// keyword.
    pub fn filter_path_keyword(&mut self, config: &RunnerConfig)
        ensures
            final(self).benches@ == spec_filter_path_keyword(
                old(self).benches@,
                config.scene_path@,
                config.keyword@,
                config.ignore_keywords,
            ),
            final(self).files_count == old(self).files_count,
            final(self).is_focus_run == old(self).is_focus_run,
            final(self).results@ == old(self).results@,
    {
        let cases = self.benches.split_off(0);
        proof {
            assert(cases@ =~= old(self).benches@);
        }
        self.benches = filter_path_keyword_vec(cases, config);
    }

    /// Would this be a focus run?
    pub fn check_focus_run(&self, config: &RunnerConfig) -> (r: bool)
        ensures
            r == (!config.disallow_focus && (self.is_focus_run || spec_any_focused(
                self.benches@,
            ))),
    {
        !config.disallow_focus() && (self.is_focus_run || any_focused_vec(&self.benches))
    }

    /// Second pipeline stage: decide focus promotion, then retain
    /// benchmarks admitted by focus state and substring filters.
    pub fn filter_focus_filters(&mut self, config: &RunnerConfig)
        ensures
            final(self).is_focus_run == ((!config.disallow_focus && (old(self).is_focus_run
                || spec_any_focused(old(self).benches@))) || old(self).is_focus_run),
            final(self).benches@ == spec_filter_focus_filters(
                old(self).benches@,
                final(self).is_focus_run,
                config.filters.deep_view(),
            ),
            final(self).files_count == old(self).files_count,
            final(self).results@ == old(self).results@,
    {
        let is_focus_run = self.check_focus_run(config) || self.is_focus_run;
        self.is_focus_run = is_focus_run;
        let cases = self.benches.split_off(0);
        proof {
            assert(cases@ =~= old(self).benches@);
        }
        self.benches = filter_focus_filters_vec(cases, config, is_focus_run);
    }

    /// Sorts the surviving benchmarks into run storage order, pinned to
    /// the deterministic, stable [`spec_sort_cases_desc`].
    pub fn sort_cases(&mut self)
        ensures
            final(self).benches@ == spec_sort_cases_desc(old(self).benches@),
            cases_sorted_desc(final(self).benches@),
            final(self).benches@.to_multiset() == old(self).benches@.to_multiset(),
            cases_sorted_desc(old(self).benches@) ==> final(self).benches@ == old(self).benches@,
            final(self).files_count == old(self).files_count,
            final(self).is_focus_run == old(self).is_focus_run,
            final(self).results@ == old(self).results@,
    {
        let cases = self.benches.split_off(0);
        proof {
            assert(cases@ =~= old(self).benches@);
        }
        self.benches = sort_cases_vec(cases);
    }

    /// Counts the distinct source files among the surviving benchmarks.
    pub fn get_files_count(&self) -> (r: usize)
        ensures
            r == spec_files_set(self.benches@).len(),
    {
        files_count_vec(&self.benches)
    }

    /// Sorts and records the per-file statistics, concluding the pipeline.
    pub fn finish_setup(&mut self)
        ensures
            final(self).benches@ == spec_sort_cases_desc(old(self).benches@),
            cases_sorted_desc(final(self).benches@),
            final(self).benches@.to_multiset() == old(self).benches@.to_multiset(),
            final(self).files_count == spec_files_set(final(self).benches@).len(),
            final(self).is_focus_run == old(self).is_focus_run,
            final(self).results@ == old(self).results@,
    {
        self.sort_cases();
        self.files_count = self.get_files_count();
    }

    /// The one-line summary printed after the pipeline has run.
    pub fn get_post_init_summary(&self) -> (r: String)
        ensures
            r@ == "   Found "@ + spec_decimal(self.benches@.len() as int)
                + " Rust benchmarks in "@ + spec_decimal(self.files_count as int) + " files"@,
    {
        let mut s = String::from_str("   Found ");
        let count = usize_to_string(self.benches.len());
        s.append(count.as_str());
        s.append(" Rust benchmarks in ");
        let files = usize_to_string(self.files_count);
        s.append(files.as_str());
        s.append(" files");
        s
    }
}

/// How many warmup invocations precede measurement.
pub const WARMUP_RUNS: usize = 200;

/// How many timed invocations a measurement takes; odd, so the median needs
/// no interpolation.
pub const TEST_RUNS: usize = 501;

/// Result of one test case.
pub struct TestResult {
    pub outcome: CaseOutcome,
    pub error: Option<UnwindError>,
}

impl TestResult {
    pub fn success() -> (r: Self)
        ensures
            r.outcome == CaseOutcome::Passed,
            r.error is None,
    {
        Self { outcome: CaseOutcome::Passed, error: None }
    }

    pub fn skipped() -> (r: Self)
        ensures
            r.outcome == CaseOutcome::Skipped,
            r.error is None,
    {
        Self { outcome: CaseOutcome::Skipped, error: None }
    }

    pub fn failed(err: UnwindError) -> (r: Self)
        ensures
            r.outcome == CaseOutcome::Failed,
            r.error == Some(err),
    {
        Self { outcome: CaseOutcome::Failed, error: Some(err) }
    }
}

/// The sum of a sequence of durations.
pub open spec fn spec_sum(s: Seq<u64>) -> int
    decreases s.len(),
{
    if s.len() == 0 {
        0
    } else {
        spec_sum(s.drop_last()) + s.last()
    }
}

/// The sum of `n` durations is at most `n` times the largest representable
/// one.
proof fn lemma_sum_bound(s: Seq<u64>)
    ensures
        0 <= spec_sum(s) <= s.len() * u64::MAX,
    decreases s.len(),
{
    if s.len() == 0 {
    } else {
        lemma_sum_bound(s.drop_last());
        assert((s.len() - 1) * u64::MAX + u64::MAX == s.len() * u64::MAX) by (nonlinear_arith);
    }
}

/// Result of one benchmark case: an outcome, the summary statistics
/// `[min, median, mean]` in nanoseconds, and the captured error if any.
pub struct BenchResult {
    pub outcome: CaseOutcome,
    pub stats: [u64; 3],
    pub error: Option<BenchError>,
}

impl BenchResult {
    /// A skipped benchmark: all statistics are zero.
    pub fn skipped() -> (r: Self)
        ensures
            r.outcome == CaseOutcome::Skipped,
            r.stats@ =~= seq![0u64, 0u64, 0u64],
            r.error is None,
    {
        Self { outcome: CaseOutcome::Skipped, stats: [0, 0, 0], error: None }
    }

    /// A failed benchmark: all statistics are zero, the error is kept.
    pub fn failed(err: BenchError) -> (r: Self)
        ensures
            r.outcome == CaseOutcome::Failed,
            r.stats@ =~= seq![0u64, 0u64, 0u64],
            r.error == Some(err),
    {
        Self { outcome: CaseOutcome::Failed, stats: [0, 0, 0], error: Some(err) }
    }

    /// The names of the reported statistics, in the order they are stored.
    pub fn metrics() -> (r: [&'static str; 3])
        ensures
            r@.len() == 3,
            r@[0]@ == "min"@,
            r@[1]@ == "median"@,
            r@[2]@ == "mean"@,
    {
        ["min", "median", "mean"]
    }

    /// A passed benchmark: extracts the statistics from the sorted
    /// per-invocation durations.  The minimum is the first element, the
    /// median the middle one — the count is odd, so no interpolation is
    /// needed — and the mean is the truncated average.
    pub fn success(times: &Vec<u64>) -> (r: Self)
        requires
            times@.len() == TEST_RUNS,
            forall|i: int, j: int|
                0 <= i < j < times@.len() ==> #[trigger] times@[i] <= #[trigger] times@[j],
        ensures
            r.outcome == CaseOutcome::Passed,
            r.error is None,
            r.stats@.len() == 3,
            r.stats@[0] == times@[0],
            r.stats@[1] == times@[TEST_RUNS as int / 2],
            r.stats@[2] == spec_sum(times@) / (TEST_RUNS as int),
            r.stats@[0] <= r.stats@[1],
    {
        let mut total: u128 = 0;
        let mut i: usize = 0;
        proof {
            assert(times@.take(0) =~= Seq::<u64>::empty());
        }
        while i < TEST_RUNS
            invariant
                times@.len() == TEST_RUNS,
                i <= TEST_RUNS,
                total == spec_sum(times@.take(i as int)),
            decreases TEST_RUNS - i,
        {
            proof {
                lemma_sum_bound(times@.take(i as int));
                assert(times@.take(i + 1).drop_last() =~= times@.take(i as int));
            }
            total = total + (times[i] as u128);
            i += 1;
        }
        proof {
            assert(times@.take(TEST_RUNS as int) =~= times@);
            lemma_sum_bound(times@);
        }
        let mean = (total / (TEST_RUNS as u128)) as u64;
        let min = times[0];
        let median = times[TEST_RUNS / 2];
        Self { outcome: CaseOutcome::Passed, stats: [min, median, mean], error: None }
    }
}

/// In a sorted, odd-length measurement the middle element is a true median:
/// at least half the measurements lie at or below it and at least half at
/// or above it, with no interpolation.
pub proof fn lemma_median_no_interpolation(s: Seq<u64>)
    requires
        s.len() == TEST_RUNS,
        forall|i: int, j: int| 0 <= i < j < s.len() ==> #[trigger] s[i] <= #[trigger] s[j],
    ensures
        s[0] <= s[TEST_RUNS as int / 2],
        forall|i: int| 0 <= i <= TEST_RUNS as int / 2 ==> #[trigger] s[i] <= s[
            TEST_RUNS as int / 2
        ],
        forall|i: int| TEST_RUNS as int / 2 <= i < s.len() ==> s[TEST_RUNS as int / 2]
            <= #[trigger] s[i],
{
}

/// The recorded summary carries its benchmark's reported fields: name,
/// file and declared tolerance.
pub open spec fn spec_result_matches(entry: BenchSummaryItem, case: RustBenchmark) -> bool {
    entry.name@ == case.name@ && entry.file@ == case.file@ && entry.range.deep_view()
        == case.range.deep_view()
}

/// One benchmark's reported summary, as it enters the machine-readable
/// export.
pub struct BenchSummaryItem {
    pub name: String,
    pub file: String,
    pub range: Option<String>,
    pub result: BenchResult,
}

impl BenchSummaryItem {
    pub fn new(bench: &RustBenchmark, result: BenchResult) -> (r: Self)
        ensures
            r.name@ == bench.name@,
            r.file@ == bench.file@,
            r.range.deep_view() == bench.range.deep_view(),
            r.result == result,
    {
        let range = match &bench.range {
            Some(t) => Some(t.clone()),
            None => None,
        };
        Self { name: bench.name.clone(), file: bench.file.clone(), range, result }
    }

    /// The JSON object exported for this benchmark: its name and file, the
    /// unit, the mean in microseconds, and the declared tolerance when one
    /// was given.
    pub fn get_benchmark_action_output(&self) -> (r: String)
        ensures
            r@ == "{ \"name\": \""@ + self.name@ + " ["@ + file_subtitle(self.file@)
                + "]\", \"unit\": \"µs\", \"value\": "@ + spec_micros_3dp(
                self.result.stats@[2] as int,
            ) + (match self.range.deep_view() {
                Some(t) => ", \"range\": \""@ + t + "\" }"@,
                None => " }"@,
            }),
    {
        let mut s = String::from_str("{ \"name\": \"");
        s.append(self.name.as_str());
        s.append(" [");
        s.append(extract_file_subtitle(self.file.as_str()));
        s.append("]\", \"unit\": \"µs\", \"value\": ");
        let value = format_micros_3dp(self.result.stats[2]);
        s.append(value.as_str());
        match &self.range {
            Some(t) => {
                s.append(", \"range\": \"");
                s.append(t.as_str());
                s.append("\" }");
            },
            None => {
                s.append(" }");
            },
        }
        s
    }
}

} // verus!
