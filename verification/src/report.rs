//! The report types: one [`CaseOutcome`] per case, the aggregate [`EvalReport`] and the
//! persisted [`RunRecord`], with the aggregate statistics that need no float arithmetic.
use vstd::prelude::*;

use crate::json::Json;
use crate::text::concat2;

verus! {

/// A wall-clock duration as whole seconds plus the nanoseconds below one second.
#[derive(Debug, Clone, Copy)]
pub struct Latency {
    pub secs: u64,
    /// Below one second (`< 1_000_000_000`) in a well-formed latency.
    pub subsec_nanos: u32,
}

pub open spec fn nanos_per_sec() -> int {
    1_000_000_000
}

impl Latency {
    /// The duration in nanoseconds.
    pub open spec fn total(self) -> int {
        self.secs * nanos_per_sec() + self.subsec_nanos
    }

    pub open spec fn wf(self) -> bool {
        self.subsec_nanos < nanos_per_sec()
    }

    /// The zero duration.
    pub fn zero() -> (r: Latency)
        ensures
            r.wf(),
            r.total() == 0,
    {
        Latency { secs: 0, subsec_nanos: 0 }
    }

    /// The well-formed latency of `nanos` nanoseconds (`nanos` below 2^64 seconds).
    pub fn from_nanos(nanos: u128) -> (r: Latency)
        requires
            nanos < (u64::MAX as int + 1) * nanos_per_sec(),
        ensures
            r.wf(),
            r.total() == nanos,
    {
        let secs = nanos / 1_000_000_000;
        let sub = nanos % 1_000_000_000;
        Latency { secs: secs as u64, subsec_nanos: sub as u32 }
    }

    /// The duration in nanoseconds.
    pub fn as_nanos(&self) -> (r: u128)
        ensures
            r == self.total(),
    {
        self.secs as u128 * 1_000_000_000 + self.subsec_nanos as u128
    }
}

/// The result of running one case.
#[derive(Debug, Clone)]
pub struct CaseOutcome {
    /// The case name.
    pub name: String,
    /// Whether the run did not error and every predicate held.
    pub passed: bool,
    /// Each predicate's `(label, passed)`, in the case's `expect` order.
    pub predicates: Vec<(String, bool)>,
    /// Wall-clock time of the whole case.
    pub latency: Latency,
    /// Completion tokens, when the run reported them.
    pub tokens: Option<u32>,
    /// The tool calls made, as `name(args)` texts.
    pub tool_calls: Vec<String>,
    /// The final reply, if any.
    pub final_text: Option<String>,
    /// The run's error, if any.
    pub error: Option<String>,
    /// The conversation transcript.
    pub transcript: Vec<Json>,
}

impl CaseOutcome {
    /// An outcome from every field, in declaration order.
    pub fn new(
        name: String,
        passed: bool,
        predicates: Vec<(String, bool)>,
        latency: Latency,
        tokens: Option<u32>,
        tool_calls: Vec<String>,
        final_text: Option<String>,
        error: Option<String>,
        transcript: Vec<Json>,
    ) -> (r: Self)
        ensures
            r == (CaseOutcome {
                name,
                passed,
                predicates,
                latency,
                tokens,
                tool_calls,
                final_text,
                error,
                transcript,
            }),
    {
        CaseOutcome {
            name,
            passed,
            predicates,
            latency,
            tokens,
            tool_calls,
            final_text,
            error,
            transcript,
        }
    }
}

/// A single-precision number as the text `{}` writes for it (e.g. `0`, `0.7`); the library
/// carries it without doing arithmetic on it.
#[derive(Debug, Clone)]
pub struct Float32Text {
    pub text: String,
}

/// The aggregate report over a set of cases.
#[derive(Debug, Clone)]
pub struct EvalReport {
    /// One outcome per case, in run order.
    pub outcomes: Vec<CaseOutcome>,
    /// The sampling temperature the run used.
    pub temperature: Float32Text,
    /// A short description of what was benchmarked.
    pub backend: String,
    /// The system prompt shared by every case.
    pub system_prompt: String,
}

/// One persisted run: a report plus the metadata that labels and groups it.
#[derive(Debug, Clone)]
pub struct RunRecord {
    /// The model / grouping key.
    pub model: String,
    /// The run's start for display, e.g. `2026-06-18 14:03:21`.
    pub timestamp_display: String,
    /// The same instant in a sortable, filesystem-safe form, e.g. `20260618-140321`.
    pub timestamp_file: String,
    /// The backend kind, e.g. `local` or `remote`.
    pub backend: String,
    /// The case directory the run scored against.
    pub cases_dir: String,
    /// The run's system prompt.
    pub system_prompt: String,
    /// The full report.
    pub report: EvalReport,
}

/// The number of passing outcomes.
pub open spec fn passed_count(os: Seq<CaseOutcome>) -> nat
    decreases os.len(),
{
    if os.len() == 0 {
        0
    } else {
        passed_count(os.drop_last()) + if os.last().passed {
            1nat
        } else {
            0nat
        }
    }
}

/// The number of outcomes that reported a token count.
pub open spec fn reported_count(os: Seq<CaseOutcome>) -> nat
    decreases os.len(),
{
    if os.len() == 0 {
        0
    } else {
        reported_count(os.drop_last()) + if os.last().tokens is Some {
            1nat
        } else {
            0nat
        }
    }
}

/// The sum of the reported token counts.
pub open spec fn token_sum(os: Seq<CaseOutcome>) -> nat
    decreases os.len(),
{
    if os.len() == 0 {
        0
    } else {
        token_sum(os.drop_last()) + match os.last().tokens {
            Some(t) => t as nat,
            None => 0nat,
        }
    }
}

/// The sum of the latencies, in nanoseconds.
pub open spec fn latency_sum(os: Seq<CaseOutcome>) -> int
    decreases os.len(),
{
    if os.len() == 0 {
        0
    } else {
        latency_sum(os.drop_last()) + os.last().latency.total()
    }
}

/// Every latency in `os` is well formed.
pub open spec fn latencies_wf(os: Seq<CaseOutcome>) -> bool {
    forall|i: int| 0 <= i < os.len() ==> (#[trigger] os[i]).latency.wf()
}

proof fn lemma_latency_sum_nonneg(os: Seq<CaseOutcome>)
    ensures
        latency_sum(os) >= 0,
    decreases os.len(),
{
    if os.len() > 0 {
        lemma_latency_sum_nonneg(os.drop_last());
    }
}

proof fn lemma_latency_sum_prefix(os: Seq<CaseOutcome>, i: int)
    requires
        0 <= i <= os.len(),
    ensures
        latency_sum(os.take(i)) <= latency_sum(os),
    decreases os.len() - i,
{
    if i < os.len() {
        lemma_latency_sum_prefix(os, i + 1);
        assert(os.take(i + 1).drop_last() =~= os.take(i));
    } else {
        assert(os.take(i) =~= os);
    }
}

proof fn lemma_token_sum_prefix(os: Seq<CaseOutcome>, i: int)
    requires
        0 <= i <= os.len(),
    ensures
        token_sum(os.take(i)) <= token_sum(os),
    decreases os.len() - i,
{
    if i < os.len() {
        lemma_token_sum_prefix(os, i + 1);
        assert(os.take(i + 1).drop_last() =~= os.take(i));
    } else {
        assert(os.take(i) =~= os);
    }
}

impl EvalReport {
    /// A report from the outcomes and the run's temperature, backend label and system prompt.
    pub fn new(
        outcomes: Vec<CaseOutcome>,
        temperature: Float32Text,
        backend: String,
        system_prompt: String,
    ) -> (r: Self)
        ensures
            r == (EvalReport { outcomes, temperature, backend, system_prompt }),
    {
        EvalReport { outcomes, temperature, backend, system_prompt }
    }

    /// The number of cases run.
    pub fn total(&self) -> (r: usize)
        ensures
            r == self.outcomes@.len(),
    {
        self.outcomes.len()
    }

    /// The number of cases that fully passed.
    pub fn passed(&self) -> (r: usize)
        ensures
            r == passed_count(self.outcomes@),
    {
        let mut n: usize = 0;
        let mut i: usize = 0;
        while i < self.outcomes.len()
            invariant
                i <= self.outcomes.len(),
                n <= i,
                n == passed_count(self.outcomes@.take(i as int)),
            decreases self.outcomes.len() - i,
        {
            assert(self.outcomes@.take(i + 1).drop_last() =~= self.outcomes@.take(i as int));
            if self.outcomes[i].passed {
                n = n + 1;
            }
            i = i + 1;
        }
        assert(self.outcomes@.take(self.outcomes.len() as int) =~= self.outcomes@);
        n
    }

    /// The mean per-case latency: the total divided by the number of cases (the count taken
    /// modulo 2^32, as a `u32` divisor), rounded down to the nanosecond; zero for an empty
    /// report. The total must fit a duration and the divisor must not be zero, else the
    /// computation panics.
    pub fn mean_latency(&self) -> (r: Latency)
        requires
            latencies_wf(self.outcomes@),
            latency_sum(self.outcomes@) < (u64::MAX as int + 1) * nanos_per_sec(),
            self.outcomes@.len() == 0 || self.outcomes@.len() % 0x1_0000_0000 != 0,
        ensures
            r.wf(),
            self.outcomes@.len() == 0 ==> r.total() == 0,
            self.outcomes@.len() > 0 ==> r.total() == latency_sum(self.outcomes@) / (
            self.outcomes@.len() % 0x1_0000_0000) as int,
    {
        if self.outcomes.len() == 0 {
            return Latency::zero();
        }
        let ghost os = self.outcomes@;
        let mut sum: u128 = 0;
        let mut i: usize = 0;
        while i < self.outcomes.len()
            invariant
                os == self.outcomes@,
                i <= os.len(),
                latencies_wf(os),
                latency_sum(os) < (u64::MAX as int + 1) * nanos_per_sec(),
                sum == latency_sum(os.take(i as int)),
            decreases os.len() - i,
        {
            proof {
                assert(os.take(i + 1).drop_last() =~= os.take(i as int));
                lemma_latency_sum_prefix(os, i + 1);
                lemma_latency_sum_nonneg(os.take(i as int));
            }
            let add = self.outcomes[i].latency.as_nanos();
            sum = sum + add;
            i = i + 1;
        }
        assert(os.take(os.len() as int) =~= os);
        let len: u64 = self.outcomes.len() as u64;
        let d: u32 = #[verifier::truncate] (len as u32);
        assert(d == len % 0x1_0000_0000) by (bit_vector)
            requires
                d == #[verifier::truncate] (len as u32),
        ;
        let q = sum / (d as u128);
        proof {
            lemma_latency_sum_nonneg(os);
            assert(q <= sum) by (nonlinear_arith)
                requires
                    q == sum / (d as u128),
                    d >= 1,
            ;
        }
        Latency::from_nanos(q)
    }

    /// The total completion tokens over the cases that reported a count, or `None` when none
    /// did. The sum must fit a `u32`, else the addition panics.
    pub fn total_tokens(&self) -> (r: Option<u32>)
        requires
            token_sum(self.outcomes@) <= u32::MAX,
        ensures
            reported_count(self.outcomes@) == 0 ==> r is None,
            reported_count(self.outcomes@) > 0 ==> r == Some(token_sum(self.outcomes@) as u32),
    {
        let ghost os = self.outcomes@;
        let mut any = false;
        let mut sum: u32 = 0;
        let mut i: usize = 0;
        while i < self.outcomes.len()
            invariant
                os == self.outcomes@,
                i <= os.len(),
                token_sum(os) <= u32::MAX,
                sum == token_sum(os.take(i as int)),
                any == (reported_count(os.take(i as int)) > 0),
            decreases os.len() - i,
        {
            proof {
                assert(os.take(i + 1).drop_last() =~= os.take(i as int));
                lemma_token_sum_prefix(os, i + 1);
            }
            match self.outcomes[i].tokens {
                Some(t) => {
                    sum = sum + t;
                    any = true;
                },
                None => {},
            }
            i = i + 1;
        }
        assert(os.take(os.len() as int) =~= os);
        if any {
            Some(sum)
        } else {
            None
        }
    }
}

/// The latencies of `os`, in order.
pub open spec fn latencies(os: Seq<CaseOutcome>) -> Seq<Latency> {
    os.map_values(|o: CaseOutcome| o.latency)
}

/// The latencies of `s` never decrease.
pub open spec fn ascending(s: Seq<Latency>) -> bool {
    forall|i: int, j: int| 0 <= i < j < s.len() ==> (#[trigger] s[i]).total() <= (#[trigger] s[j]).total()
}

proof fn lemma_insert_ascending(s: Seq<Latency>, x: Latency, p: int)
    requires
        ascending(s),
        0 <= p <= s.len(),
        forall|j: int| 0 <= j < p ==> (#[trigger] s[j]).total() <= x.total(),
        p == s.len() || x.total() < s[p].total(),
    ensures
        ascending(s.insert(p, x)),
        s.insert(p, x).to_multiset() =~= s.to_multiset().insert(x),
{
    let t = s.insert(p, x);
    s.insert_ensures(p, x);
    assert forall|i: int, j: int| 0 <= i < j < t.len() implies (#[trigger] t[i]).total() <= (
    #[trigger] t[j]).total() by {
        if j < p {
            assert(t[i] == s[i] && t[j] == s[j]);
        } else if j == p {
            assert(t[i] == s[i]);
        } else if i == p {
            assert(t[j] == s[j - 1]);
            assert(s[p].total() <= s[j - 1].total());
        } else if i < p {
            assert(t[i] == s[i] && t[j] == s[j - 1]);
        } else {
            assert(t[i] == s[i - 1] && t[j] == s[j - 1]);
        }
    }
    assert(t.remove(p) =~= s);
    t.to_multiset_ensures();
    assert(t[p] == x);
    assert(t.contains(x));
}

impl EvalReport {
    /// The latency of the `rank`-th fastest case (counting from 1): the element at position
    /// `rank - 1` of the latencies sorted ascending — the nearest-rank order statistic behind
    /// the p50/p95 figures.
    pub fn latency_at_rank(&self, rank: usize) -> (r: Latency)
        requires
            1 <= rank <= self.outcomes@.len(),
        ensures
            exists|s: Seq<Latency>|
                #![trigger s.to_multiset()]
                ascending(s) && s.to_multiset() == latencies(self.outcomes@).to_multiset() && r
                    == s[rank - 1],
    {
        let ghost lats = latencies(self.outcomes@);
        let mut sorted: Vec<Latency> = Vec::new();
        let mut i: usize = 0;
        assert(sorted@ =~= lats.take(0));
        while i < self.outcomes.len()
            invariant
                i <= self.outcomes@.len(),
                lats == latencies(self.outcomes@),
                sorted@.len() == i,
                ascending(sorted@),
                sorted@.to_multiset() == lats.take(i as int).to_multiset(),
            decreases self.outcomes@.len() - i,
        {
            let x = self.outcomes[i].latency;
            let xn = x.as_nanos();
            let mut j: usize = 0;
            while j < sorted.len() && sorted[j].as_nanos() <= xn
                invariant
                    j <= sorted.len(),
                    xn == x.total(),
                    forall|k: int| 0 <= k < j ==> (#[trigger] sorted@[k]).total() <= x.total(),
                decreases sorted.len() - j,
            {
                j = j + 1;
            }
            proof {
                lemma_insert_ascending(sorted@, x, j as int);
                assert(lats.take(i + 1) =~= lats.take(i as int).push(x));
                lats.take(i as int).to_multiset_ensures();
            }
            sorted.insert(j, x);
            i = i + 1;
        }
        assert(lats.take(self.outcomes@.len() as int) =~= lats);
        sorted[rank - 1]
    }
}

/// No more cases pass than were run.
pub proof fn lemma_passed_at_most_total(os: Seq<CaseOutcome>)
    ensures
        passed_count(os) <= os.len(),
    decreases os.len(),
{
    if os.len() > 0 {
        lemma_passed_at_most_total(os.drop_last());
    }
}

} // verus!
