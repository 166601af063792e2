//! The context capability handed to case bodies, modelled by the data the
//! engine itself reads: the set of handles added during benchmark setup and
//! the instrumentation-overhead accumulator.  The host side (scene graph,
//! wall clock, panic isolation) stays behind the [`CaseHost`] trait.

use vstd::prelude::*;
use vstd::string::StringExecFns;
use crate::cases::{RustBenchmark, RustTestCase};

verus! {

/// A fault caught at the failure-isolation boundary, carrying the captured
/// message.
pub struct UnwindError {
    message: String,
}

impl UnwindError {
    pub closed spec fn spec_message(&self) -> Seq<char> {
        self.message@
    }

    pub fn new(message: String) -> (r: Self)
        ensures
            r.spec_message() == message@,
    {
        Self { message }
    }

    pub fn message(&self) -> (r: &str)
        ensures
            r@ == self.spec_message(),
    {
        self.message.as_str()
    }
}

/// The isolation boundary: host-side capabilities the engine calls into.
///
/// An implementation invokes the entry point of the given case inside
/// whatever failure-isolation mechanism the host offers, and reports a
/// caught fault as `Err`.  Nothing is assumed of these methods: every
/// contract of the engine holds whatever an implementation returns.
pub trait CaseHost {
    /// Runs a test case's entry point once.  `Err` means the body faulted.
    fn invoke_test(&mut self, test: &RustTestCase) -> Result<(), UnwindError>;

    /// Runs a benchmark's entry point once and reports the raw wall-clock
    /// duration of the invocation in nanoseconds.
    fn invoke_bench(&mut self, bench: &RustBenchmark, ctx: &mut BenchContext) -> Result<
        u64,
        UnwindError,
    >;

    /// Runs a benchmark's setup callable.
    fn invoke_bench_setup(&mut self, bench: &RustBenchmark, ctx: &mut BenchContext) -> Result<
        (),
        UnwindError,
    >;

    /// Runs a benchmark's explicit cleanup callable.
    fn invoke_bench_cleanup(&mut self, bench: &RustBenchmark, ctx: &mut BenchContext) -> Result<
        (),
        UnwindError,
    >;

    /// Reads a monotonic clock, in nanoseconds.  Nothing is assumed of the
    /// value: it serves only elapsed-time reporting.
    fn monotonic_nanos(&mut self) -> u64;
}

/// Context for one benchmark case: tracks the handles added during setup —
/// so cleanup can be verified exhaustive — and accumulates the time the
/// context itself spends servicing helper calls, so that bookkeeping
/// overhead can be excluded from the measured duration.
pub struct BenchContext {
    added_nodes: Vec<String>,
    sub_duration_nanos: u64,
}

impl BenchContext {
    /// The names of the handles added during setup and not yet removed.
    pub closed spec fn added(&self) -> Seq<Seq<char>> {
        self.added_nodes.deep_view()
    }

    /// The accumulated instrumentation overhead, in nanoseconds.
    pub closed spec fn overhead(&self) -> u64 {
        self.sub_duration_nanos
    }

    /// The tracked handle names contain no duplicates.
    pub closed spec fn wf(&self) -> bool {
        self.added().no_duplicates()
    }

    pub fn new() -> (r: Self)
        ensures
            r.added() == Seq::<Seq<char>>::empty(),
            r.overhead() == 0,
            r.wf(),
    {
        let r = Self { added_nodes: Vec::new(), sub_duration_nanos: 0 };
        proof {
            assert(r.added() =~= Seq::<Seq<char>>::empty());
        }
        r
    }

    /// How many added handles are still tracked.
    pub fn added_count(&self) -> (r: usize)
        ensures
            r == self.added().len(),
    {
        self.added_nodes.len()
    }

    /// The name of the `i`-th tracked handle.
    pub fn added_name(&self, i: usize) -> (r: &String)
        requires
            i < self.added().len(),
        ensures
            r@ == self.added()[i as int],
    {
        &self.added_nodes[i]
    }

    fn contains_name(&self, name: &String) -> (r: bool)
        ensures
            r == self.added().contains(name@),
    {
        let n = self.added_nodes.len();
        let mut i: usize = 0;
        while i < n
            invariant
                n == self.added_nodes@.len(),
                i <= n,
                forall|j: int| 0 <= j < i ==> self.added()[j] != name@,
            decreases n - i,
        {
            proof {
                assert(self.added()[i as int] == self.added_nodes@[i as int]@);
            }
            if self.added_nodes[i].eq(name) {
                return true;
            }
            i += 1;
        }
        false
    }

    /// Records a handle added during the setup procedure.  Recording the
    /// same name twice tracks it once.
    pub fn setup_add_node(&mut self, name: String)
        requires
            old(self).wf(),
        ensures
            final(self).wf(),
            old(self).added().contains(name@) ==> final(self).added() == old(self).added(),
            !old(self).added().contains(name@) ==> final(self).added() == old(self).added().push(
                name@,
            ),
            final(self).overhead() == old(self).overhead(),
    {
        if self.contains_name(&name) {
            return;
        }
        self.added_nodes.push(name);
        proof {
            assert(self.added() =~= old(self).added().push(name@));
        }
    }

    /// Stops tracking a single handle removed by a custom cleanup.
    pub fn remove_added_node(&mut self, name: &String)
        requires
            old(self).wf(),
        ensures
            final(self).wf(),
            forall|f: Seq<char>|
                final(self).added().contains(f) <==> (old(self).added().contains(f) && f
                    != name@),
            final(self).overhead() == old(self).overhead(),
    {
        let n = self.added_nodes.len();
        let mut i: usize = 0;
        while i < n
            invariant
                old(self).wf(),
                *self == *old(self),
                n == self.added_nodes@.len(),
                i <= n,
                forall|j: int| 0 <= j < i ==> self.added()[j] != name@,
            decreases n - i,
        {
            proof {
                assert(self.added()[i as int] == self.added_nodes@[i as int]@);
            }
            if self.added_nodes[i].eq(name) {
                self.added_nodes.remove(i);
                proof {
                    let s = old(self).added();
                    assert(self.added() =~= s.remove(i as int));
                    assert(s.remove(i as int) =~= s.take(i as int) + s.skip(i + 1));
                    assert forall|f: Seq<char>|
                        self.added().contains(f) <==> (s.contains(f) && f != name@) by {
                        let t = s.take(i as int) + s.skip(i + 1);
                        if t.contains(f) {
                            let k = choose|k: int| 0 <= k < t.len() && t[k] == f;
                            if k < i {
                                assert(s[k] == f);
                            } else {
                                assert(s[k + 1] == f);
                            }
                            assert(f != name@) by {
                                if f == name@ {
                                    let k2 = if k < i { k } else { k + 1 };
                                    assert(s[k2] == s[i as int]);
                                }
                            }
                        }
                        if s.contains(f) && f != name@ {
                            let k = choose|k: int| 0 <= k < s.len() && s[k] == f;
                            if k < i {
                                assert(t[k] == f);
                            } else if k > i {
                                assert(t[k - 1] == f);
                            }
                        }
                    }
                    assert(self.added().no_duplicates()) by {
                        let t = s.take(i as int) + s.skip(i + 1);
                        assert forall|p: int, q: int|
                            0 <= p < q < t.len() implies t[p] != t[q] by {
                            let p2 = if p < i { p } else { p + 1 };
                            let q2 = if q < i { q } else { q + 1 };
                            assert(t[p] == s[p2] && t[q] == s[q2]);
                        }
                    }
                }
                return;
            }
            i += 1;
        }
        proof {
            assert forall|f: Seq<char>|
                self.added().contains(f) <==> (old(self).added().contains(f) && f != name@) by {
                if old(self).added().contains(f) && f == name@ {
                    let k = choose|k: int|
                        0 <= k < old(self).added().len() && old(self).added()[k] == f;
                    assert(old(self).added()[k] != name@);
                }
            }
        }
    }

    /// Stops tracking every added handle; the default cleanup.
    pub fn remove_all_added_nodes(&mut self)
        ensures
            final(self).wf(),
            final(self).added() == Seq::<Seq<char>>::empty(),
            final(self).overhead() == old(self).overhead(),
    {
        self.added_nodes.clear();
        proof {
            assert(self.added() =~= Seq::<Seq<char>>::empty());
        }
    }

    /// Resets the instrumentation-overhead accumulator to zero.
    pub fn zero_duration(&mut self)
        ensures
            final(self).overhead() == 0,
            final(self).added() == old(self).added(),
            old(self).wf() ==> final(self).wf(),
    {
        self.sub_duration_nanos = 0;
    }

    /// Adds time the context spent servicing a helper call, saturating at
    /// the largest representable duration.
    pub fn add_overhead(&mut self, nanos: u64)
        ensures
            final(self).overhead() == (if old(self).overhead() + nanos <= u64::MAX {
                old(self).overhead() + nanos
            } else {
                u64::MAX as int
            }),
            final(self).added() == old(self).added(),
            old(self).wf() ==> final(self).wf(),
    {
        if nanos <= u64::MAX - self.sub_duration_nanos {
            self.sub_duration_nanos = self.sub_duration_nanos + nanos;
        } else {
            self.sub_duration_nanos = u64::MAX;
        }
    }

    /// The measured duration of one invocation, compensated for the
    /// overhead recorded during it; the accumulator is reset for the next
    /// invocation.
    pub fn get_adjusted_duration(&mut self, elapsed_nanos: u64) -> (r: u64)
        ensures
            r == (if old(self).overhead() <= elapsed_nanos {
                elapsed_nanos - old(self).overhead()
            } else {
                0
            }),
            final(self).overhead() == 0,
            final(self).added() == old(self).added(),
            old(self).wf() ==> final(self).wf(),
    {
        let sub = self.sub_duration_nanos;
        self.sub_duration_nanos = 0;
        if sub <= elapsed_nanos {
            elapsed_nanos - sub
        } else {
            0
        }
    }
}

/// Why a benchmark failed: during setup, during warmup or measurement, or
/// during cleanup.
pub enum BenchError {
    Setup(UnwindError),
    Execution(UnwindError),
    Cleanup(CleanupError),
}

impl BenchError {
    /// The console rendering: the phase tag followed by the fault message.
    pub fn to_display_string(&self) -> (r: String)
        ensures
            forall|e: UnwindError|
                *self == BenchError::Setup(e) ==> r@ == "[setup] "@ + e.spec_message(),
            forall|e: UnwindError|
                *self == BenchError::Execution(e) ==> r@ == "[execution] "@ + e.spec_message(),
            forall|e: CleanupError|
                *self == BenchError::Cleanup(e) ==> r@ == "[cleanup] "@ + e.spec_display(),
    {
        match self {
            BenchError::Setup(err) => {
                let mut s = String::from_str("[setup] ");
                s.append(err.message());
                s
            },
            BenchError::Execution(err) => {
                let mut s = String::from_str("[execution] ");
                s.append(err.message());
                s
            },
            BenchError::Cleanup(err) => {
                let mut s = String::from_str("[cleanup] ");
                let d = err.to_display_string();
                s.append(d.as_str());
                s
            },
        }
    }
}

/// A cleanup failure: either the cleanup callable itself faulted, or it
/// returned with tracked handles still present.
pub struct CleanupError {
    not_cleaned: bool,
    cause: Option<UnwindError>,
}

impl CleanupError {
    /// Tracked handles were still present after cleanup returned.
    pub closed spec fn spec_not_cleaned(&self) -> bool {
        self.not_cleaned
    }

    pub closed spec fn spec_cause(&self) -> Option<UnwindError> {
        self.cause
    }

    pub fn not_cleaned() -> (r: Self)
        ensures
            r.spec_not_cleaned(),
            r.spec_cause() is None,
    {
        Self { not_cleaned: true, cause: None }
    }

    pub fn from_fault(cause: UnwindError) -> (r: Self)
        ensures
            !r.spec_not_cleaned(),
            r.spec_cause() == Some(cause),
    {
        Self { not_cleaned: false, cause: Some(cause) }
    }

    pub open spec fn spec_display(&self) -> Seq<char> {
        if self.spec_not_cleaned() {
            "cleanup: resources not released"@
        } else {
            match self.spec_cause() {
                Some(cause) => cause.spec_message(),
                None => "panic during cleanup procedure"@,
            }
        }
    }

    pub fn to_display_string(&self) -> (r: String)
        ensures
            r@ == self.spec_display(),
    {
        if self.not_cleaned {
            return String::from_str("cleanup: resources not released");
        }
        match &self.cause {
            Some(cause) => String::from_str(cause.message()),
            None => String::from_str("panic during cleanup procedure"),
        }
    }
}

} // verus!
