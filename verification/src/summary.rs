//! The human-readable summary table of a report: the run's labels and figures, then one line
//! per case, with what the model emitted, the failed predicates and the run error under each
//! failed case.
use vstd::prelude::*;

use crate::report::{passed_count, reported_count, token_sum, CaseOutcome, EvalReport};
use crate::text::{decimal, usize_text};

verus! {

broadcast use vstd::seq_lib::group_seq_properties;

/// The figures of a summary that are written from floating-point values, already rendered:
/// `{:.0}` of the accuracy in percent, the mean/p50/p95 latencies and each case's latency as
/// milliseconds with one decimal (`12.3ms`), and `{:.0}` of the mean completion tokens when
/// some case reported a count.
pub struct SummaryFigures {
    pub accuracy_percent: String,
    pub mean_latency: String,
    pub p50_latency: String,
    pub p95_latency: String,
    pub mean_tokens: Option<String>,
    /// One per outcome, in order.
    pub case_latencies: Vec<String>,
}

/// The length of `s` in UTF-8 bytes (`str::len`).
pub open spec fn byte_len(s: Seq<char>) -> nat {
    vstd::utf8::encode_utf8(s).len()
}

/// The width of the name column: the longest name in bytes, and at least 4.
pub open spec fn name_width(os: Seq<CaseOutcome>) -> nat
    decreases os.len(),
{
    if os.len() == 0 {
        4
    } else {
        let w = name_width(os.drop_last());
        let b = byte_len(os.last().name@);
        if b > w {
            b
        } else {
            w
        }
    }
}

/// `n` spaces.
pub open spec fn spaces(n: nat) -> Seq<char> {
    Seq::new(n, |i: int| ' ')
}

/// `name` left-aligned in a field of `width` characters.
pub open spec fn padded(name: Seq<char>, width: nat) -> Seq<char> {
    if name.len() < width {
        name + spaces((width - name.len()) as nat)
    } else {
        name
    }
}

/// The number of predicates that held.
pub open spec fn held_count(ps: Seq<(String, bool)>) -> nat
    decreases ps.len(),
{
    if ps.len() == 0 {
        0
    } else {
        held_count(ps.drop_last()) + if ps.last().1 {
            1nat
        } else {
            0nat
        }
    }
}

/// The labels of the predicates that failed, in order.
pub open spec fn failed_labels(ps: Seq<(String, bool)>) -> Seq<Seq<char>>
    decreases ps.len(),
{
    if ps.len() == 0 {
        Seq::empty()
    } else {
        let rest = failed_labels(ps.drop_last());
        if ps.last().1 {
            rest
        } else {
            rest.push(ps.last().0@)
        }
    }
}

/// One line per item: `prefix`, the item, and a newline.
pub open spec fn lines_of(items: Seq<Seq<char>>, prefix: Seq<char>) -> Seq<char>
    decreases items.len(),
{
    if items.len() == 0 {
        Seq::empty()
    } else {
        lines_of(items.drop_last(), prefix) + prefix + items.last() + "\n"@
    }
}

/// The characters of each string.
pub open spec fn views(items: Seq<String>) -> Seq<Seq<char>> {
    items.map_values(|s: String| s@)
}

/// The line of one case: `    [PASS|FAIL] {name padded}  {latency}  preds {held}/{n}  calls
/// {calls}`, then `  tok {t}` when it reported tokens.
pub open spec fn case_line(o: CaseOutcome, width: nat, latency: Seq<char>) -> Seq<char> {
    "    ["@ + (if o.passed {
        "PASS"@
    } else {
        "FAIL"@
    }) + "] "@ + padded(o.name@, width) + "  "@ + latency + "  preds "@ + decimal(
        held_count(o.predicates@),
    ) + "/"@ + decimal(o.predicates@.len()) + "  calls "@ + decimal(o.tool_calls@.len()) + (
    match o.tokens {
        Some(t) => "  tok "@ + decimal(t as nat),
        None => Seq::empty(),
    }) + "\n"@
}

/// What is shown under a failed case: each tool call it emitted, each predicate that failed,
/// and its run error; nothing under a passing case.
pub open spec fn failure_details(o: CaseOutcome) -> Seq<char> {
    if o.passed {
        Seq::empty()
    } else {
        lines_of(views(o.tool_calls@), "           - emitted: "@) + lines_of(
            failed_labels(o.predicates@),
            "           - FAILED: "@,
        ) + match o.error {
            Some(e) => "           - run error: "@ + e@ + "\n"@,
            None => Seq::empty(),
        }
    }
}

/// The block of the first `n` cases.
pub open spec fn case_blocks(os: Seq<CaseOutcome>, width: nat, lats: Seq<String>, n: nat) -> Seq<
    char,
>
    decreases n,
{
    if n == 0 {
        Seq::empty()
    } else {
        let i = n - 1;
        case_blocks(os, width, lats, i as nat) + case_line(os[i], width, lats[i]@) + failure_details(
            os[i],
        )
    }
}

/// The tokens line: the total and mean when cases reported counts, else `unavailable`.
pub open spec fn tokens_line(os: Seq<CaseOutcome>, mean_tokens: Option<String>) -> Seq<char> {
    if reported_count(os) > 0 && mean_tokens is Some {
        "  tokens:      "@ + decimal(token_sum(os)) + " completion total, "@
            + mean_tokens.unwrap()@ + " mean/case (cases reporting usage)\n"@
    } else {
        "  tokens:      unavailable (no turn reported a `usage` object)\n"@
    }
}

/// The whole summary of `r` with the rendered figures `f`.
pub open spec fn summary_text(r: EvalReport, f: SummaryFigures) -> Seq<char> {
    let os = r.outcomes@;
    "AI eval report\n"@ + "  backend:     "@ + r.backend@ + "\n"@ + "  temperature: "@
        + r.temperature.text@ + " (0 = deterministic)\n"@ + "  accuracy:    "@ + decimal(
        passed_count(os),
    ) + "/"@ + decimal(os.len()) + " cases passed ("@ + f.accuracy_percent@ + "%)\n"@
        + "  latency:     mean "@ + f.mean_latency@ + "  p50 "@ + f.p50_latency@ + "  p95 "@
        + f.p95_latency@ + "\n"@ + tokens_line(os, f.mean_tokens) + "  cases:\n"@ + case_blocks(
        os,
        name_width(os),
        f.case_latencies@,
        os.len(),
    )
}

/// Appends one line per item of `items`: `prefix`, the item, a newline.
fn push_lines(out: &mut String, items: &Vec<String>, prefix: &str)
    ensures
        final(out)@ == old(out)@ + lines_of(views(items@), prefix@),
{
    let ghost start = out@;
    let mut i: usize = 0;
    while i < items.len()
        invariant
            i <= items.len(),
            out@ == start + lines_of(views(items@.take(i as int)), prefix@),
        decreases items.len() - i,
    {
        proof {
            assert(views(items@.take(i + 1)).drop_last() =~= views(items@.take(i as int)));
            assert(views(items@.take(i + 1)).last() == items@[i as int]@);
        }
        out.append(prefix);
        out.append(items[i].as_str());
        out.append("\n");
        i = i + 1;
    }
    assert(items@.take(items.len() as int) =~= items@);
}

/// Appends one line per failed predicate: `prefix`, its label, a newline.
fn push_failed_lines(out: &mut String, ps: &Vec<(String, bool)>, prefix: &str)
    ensures
        final(out)@ == old(out)@ + lines_of(failed_labels(ps@), prefix@),
{
    let ghost start = out@;
    let mut i: usize = 0;
    while i < ps.len()
        invariant
            i <= ps.len(),
            out@ == start + lines_of(failed_labels(ps@.take(i as int)), prefix@),
        decreases ps.len() - i,
    {
        proof {
            assert(ps@.take(i + 1).drop_last() =~= ps@.take(i as int));
        }
        if !ps[i].1 {
            let ghost before = out@;
            out.append(prefix);
            out.append(ps[i].0.as_str());
            out.append("\n");
            proof {
                let fl = failed_labels(ps@.take(i + 1));
                assert(fl.drop_last() =~= failed_labels(ps@.take(i as int)));
                assert(out@ =~= start + lines_of(fl, prefix@));
            }
        }
        i = i + 1;
    }
    assert(ps@.take(ps.len() as int) =~= ps@);
}

/// The number of predicates that held.
fn count_held(ps: &Vec<(String, bool)>) -> (r: usize)
    ensures
        r == held_count(ps@),
{
    let mut n: usize = 0;
    let mut i: usize = 0;
    while i < ps.len()
        invariant
            i <= ps.len(),
            n <= i,
            n == held_count(ps@.take(i as int)),
        decreases ps.len() - i,
    {
        assert(ps@.take(i + 1).drop_last() =~= ps@.take(i as int));
        if ps[i].1 {
            n = n + 1;
        }
        i = i + 1;
    }
    assert(ps@.take(ps.len() as int) =~= ps@);
    n
}

/// Appends `name` left-aligned in a field of `width` characters.
fn push_padded(out: &mut String, name: &str, width: usize)
    ensures
        final(out)@ == old(out)@ + padded(name@, width as nat),
{
    let ghost start = out@;
    out.append(name);
    let n = crate::text::chars_of(name).len();
    let mut k = n;
    while k < width
        invariant
            n == name@.len(),
            n <= width ==> n <= k <= width,
            n > width ==> k == n,
            out@ == start + name@ + spaces((k - n) as nat),
        decreases width - k,
    {
        crate::text::push_char(out, ' ');
        k = k + 1;
        assert(spaces((k - n) as nat) =~= spaces((k - 1 - n) as nat).push(' '));
        assert(out@ =~= start + name@ + spaces((k - n) as nat));
    }
    assert(name@ + spaces((k - n) as nat) =~= padded(name@, width as nat));
    assert(out@ =~= start + padded(name@, width as nat));
}

/// Appends the line of one case.
fn push_case_line(out: &mut String, o: &CaseOutcome, width: usize, latency: &str)
    ensures
        final(out)@ == old(out)@ + case_line(*o, width as nat, latency@),
{
    proof {
        reveal_strlit("    [");
        reveal_strlit("PASS");
        reveal_strlit("FAIL");
        reveal_strlit("] ");
        reveal_strlit("  ");
        reveal_strlit("  preds ");
        reveal_strlit("/");
        reveal_strlit("  calls ");
        reveal_strlit("  tok ");
        reveal_strlit("\n");
    }
    let ghost start = out@;
    out.append("    [");
    if o.passed {
        out.append("PASS");
    } else {
        out.append("FAIL");
    }
    out.append("] ");
    push_padded(out, o.name.as_str(), width);
    out.append("  ");
    out.append(latency);
    out.append("  preds ");
    let held = count_held(&o.predicates);
    let held_text = usize_text(held);
    out.append(held_text.as_str());
    out.append("/");
    let total_text = usize_text(o.predicates.len());
    out.append(total_text.as_str());
    out.append("  calls ");
    let calls_text = usize_text(o.tool_calls.len());
    out.append(calls_text.as_str());
    match o.tokens {
        Some(t) => {
            out.append("  tok ");
            let tt = crate::text::decimal_text(t as u64);
            out.append(tt.as_str());
        },
        None => {},
    }
    out.append("\n");
    assert(out@ =~= start + case_line(*o, width as nat, latency@));
}

/// Appends the line and the failure details of one case.
fn push_case(out: &mut String, o: &CaseOutcome, width: usize, latency: &str)
    ensures
        final(out)@ == old(out)@ + case_line(*o, width as nat, latency@) + failure_details(*o),
{
    proof {
        reveal_strlit("           - run error: ");
        reveal_strlit("\n");
    }
    let ghost start = out@;
    push_case_line(out, o, width, latency);
    let ghost mid = out@;
    if !o.passed {
        push_lines(out, &o.tool_calls, "           - emitted: ");
        push_failed_lines(out, &o.predicates, "           - FAILED: ");
        match &o.error {
            Some(e) => {
                out.append("           - run error: ");
                out.append(e.as_str());
                out.append("\n");
            },
            None => {},
        }
    }
    assert(out@ =~= mid + failure_details(*o));
}

impl EvalReport {
    /// The summary table of this report, with the float figures rendered by the caller (one
    /// latency text per case). The token total must fit a `u32`.
    pub fn summary(&self, figures: &SummaryFigures) -> (r: String)
        requires
            figures.case_latencies@.len() == self.outcomes@.len(),
            token_sum(self.outcomes@) <= u32::MAX,
            forall|i: int|
                0 <= i < self.outcomes@.len() ==> byte_len(#[trigger] self.outcomes@[i].name@)
                    <= usize::MAX,
        ensures
            r@ == summary_text(*self, *figures),
    {
        let ghost os = self.outcomes@;
        proof {
            reveal_strlit("AI eval report\n");
            reveal_strlit("  backend:     ");
            reveal_strlit("\n");
            reveal_strlit("  temperature: ");
            reveal_strlit(" (0 = deterministic)\n");
            reveal_strlit("  accuracy:    ");
            reveal_strlit("/");
            reveal_strlit(" cases passed (");
            reveal_strlit("%)\n");
            reveal_strlit("  latency:     mean ");
            reveal_strlit("  p50 ");
            reveal_strlit("  p95 ");
            reveal_strlit("  tokens:      ");
            reveal_strlit(" completion total, ");
            reveal_strlit(" mean/case (cases reporting usage)\n");
            reveal_strlit("  tokens:      unavailable (no turn reported a `usage` object)\n");
            reveal_strlit("  cases:\n");
        }
        let mut out = String::from_str("AI eval report\n");
        out.append("  backend:     ");
        out.append(self.backend.as_str());
        out.append("\n");
        out.append("  temperature: ");
        out.append(self.temperature.text.as_str());
        out.append(" (0 = deterministic)\n");
        out.append("  accuracy:    ");
        let p = usize_text(self.passed());
        out.append(p.as_str());
        out.append("/");
        let t = usize_text(self.total());
        out.append(t.as_str());
        out.append(" cases passed (");
        out.append(figures.accuracy_percent.as_str());
        out.append("%)\n");
        out.append("  latency:     mean ");
        out.append(figures.mean_latency.as_str());
        out.append("  p50 ");
        out.append(figures.p50_latency.as_str());
        out.append("  p95 ");
        out.append(figures.p95_latency.as_str());
        out.append("\n");
        match (self.total_tokens(), &figures.mean_tokens) {
            (Some(total), Some(mean)) => {
                out.append("  tokens:      ");
                let tt = crate::text::decimal_text(total as u64);
                out.append(tt.as_str());
                out.append(" completion total, ");
                out.append(mean.as_str());
                out.append(" mean/case (cases reporting usage)\n");
            },
            _ => {
                out.append("  tokens:      unavailable (no turn reported a `usage` object)\n");
            },
        }
        out.append("  cases:\n");
        let ghost head = out@;
        // The width of the name column.
        let mut width: usize = 4;
        let mut i: usize = 0;
        while i < self.outcomes.len()
            invariant
                i <= os.len(),
                os == self.outcomes@,
                width == name_width(os.take(i as int)),
                forall|k: int| 0 <= k < os.len() ==> byte_len(#[trigger] os[k].name@) <= usize::MAX,
            decreases os.len() - i,
        {
            assert(os.take(i + 1).drop_last() =~= os.take(i as int));
            let b = self.outcomes[i].name.as_str().len();
            if b > width {
                width = b;
            }
            i = i + 1;
        }
        assert(os.take(os.len() as int) =~= os);
        let mut j: usize = 0;
        while j < self.outcomes.len()
            invariant
                j <= os.len(),
                os == self.outcomes@,
                figures.case_latencies@.len() == os.len(),
                width == name_width(os),
                out@ == head + case_blocks(os, width as nat, figures.case_latencies@, j as nat),
            decreases os.len() - j,
        {
            push_case(&mut out, &self.outcomes[j], width, figures.case_latencies[j].as_str());
            j = j + 1;
        }
        out
    }
}

/// The shape of a case in the summary: its line starts with `    [PASS] ` exactly when it
/// passed (else `    [FAIL] `) followed by its padded name; a passed case has nothing under
/// it, and a failed case has one `- emitted:` line per tool call, one `- FAILED:` line per
/// failed predicate, and a `- run error:` line exactly when it has a run error.
pub proof fn lemma_case_block_shape(o: CaseOutcome, width: nat, latency: Seq<char>)
    ensures
        case_line(o, width, latency).take(11) == (if o.passed {
            "    [PASS] "@
        } else {
            "    [FAIL] "@
        }),
        case_line(o, width, latency).subrange(11, 11 + padded(o.name@, width).len() as int)
            == padded(o.name@, width),
        o.passed ==> failure_details(o) == Seq::<char>::empty(),
        !o.passed ==> failure_details(o) == lines_of(views(o.tool_calls@), "           - emitted: "@)
            + lines_of(failed_labels(o.predicates@), "           - FAILED: "@) + match o.error {
            Some(e) => "           - run error: "@ + e@ + "\n"@,
            None => Seq::empty(),
        },
{
    reveal_strlit("    [");
    reveal_strlit("PASS");
    reveal_strlit("FAIL");
    reveal_strlit("] ");
    reveal_strlit("    [PASS] ");
    reveal_strlit("    [FAIL] ");
    let tag = "    ["@ + (if o.passed {
        "PASS"@
    } else {
        "FAIL"@
    }) + "] "@;
    let line = case_line(o, width, latency);
    assert(tag.len() == 11);
    assert(line.take(11) =~= tag);
    assert(line.subrange(11, 11 + padded(o.name@, width).len() as int) =~= padded(o.name@, width));
}

/// The labels listed as failed are exactly the labels of the predicates that did not hold, in
/// order: a predicate that held adds nothing and one that failed adds its label.
pub proof fn lemma_failed_labels_push(ps: Seq<(String, bool)>, p: (String, bool))
    ensures
        failed_labels(ps.push(p)) == if p.1 {
            failed_labels(ps)
        } else {
            failed_labels(ps).push(p.0@)
        },
{
    assert(ps.push(p).drop_last() =~= ps);
}

/// Adding a predicate adds one to the held count when it held and nothing when it failed: a
/// failed predicate never lowers the count.
pub proof fn lemma_held_count_push(ps: Seq<(String, bool)>, p: (String, bool))
    ensures
        held_count(ps.push(p)) == held_count(ps) + if p.1 {
            1nat
        } else {
            0nat
        },
        held_count(ps.push(p)) >= held_count(ps),
{
    assert(ps.push(p).drop_last() =~= ps);
}

/// The held count is the number of predicates that held, wherever they stand; together with
/// the failed labels it accounts for every predicate.
pub proof fn lemma_held_count_counts_held(ps: Seq<(String, bool)>)
    ensures
        held_count(ps) == ps.filter(|p: (String, bool)| p.1).len(),
        held_count(ps) + failed_labels(ps).len() == ps.len(),
    decreases ps.len(),
{
    if ps.len() > 0 {
        let u = ps.drop_last();
        lemma_held_count_counts_held(u);
        assert(u.push(ps.last()) =~= ps);
        u.lemma_filter_push(ps.last(), |p: (String, bool)| p.1);
    }
}

} // verus!
