//! The decisions of a run: its metadata ([`RunMeta`]) and where it is persisted or uploaded,
//! how a harness result settles into artifacts plus a run error, how a scored or a panicked case
//! becomes a [`CaseOutcome`], and the one-line form of an error for the progress log.
use vstd::prelude::*;

use crate::case::EvalCase;
use crate::expect::{verdict, Expectation};
use crate::harness::{call_text, RunArtifacts, ToolCall};
use crate::persist::Persist;
use crate::report::{CaseOutcome, Float32Text, Latency};
use crate::text::{chars_of, decimal, push_char, trim, trim_text, usize_text};
use crate::upload::Upload;

verus! {

/// Run-level metadata recorded on the report, plus the optional persist and upload targets.
#[derive(Clone)]
pub struct RunMeta {
    /// The sampling temperature, recorded in the report.
    pub temperature: Float32Text,
    /// A short description of what was benchmarked.
    pub backend: String,
    /// A prompt shared by every case, stored once on the report.
    pub system_prompt: String,
    /// When set, the run is written to disk and the HTML report regenerated.
    pub persist: Option<Persist>,
    /// When set, the run is uploaded to EvalForge.
    pub upload: Option<Upload>,
    /// When set, the global panic hook is silenced for the whole run loop.
    pub panic_suppress: bool,
}

/// The `{}` text of the default temperature `0.0`.
pub open spec fn zero_temperature() -> Seq<char> {
    seq!['0']
}

impl RunMeta {
    /// Metadata with the given temperature, backend label and system prompt; no persist or
    /// upload target and no panic-hook suppression.
    pub fn new(temperature: Float32Text, backend: String, system_prompt: String) -> (r: Self)
        ensures
            r.temperature == temperature,
            r.backend == backend,
            r.system_prompt == system_prompt,
            r.persist is None,
            r.upload is None,
            !r.panic_suppress,
    {
        RunMeta {
            temperature,
            backend,
            system_prompt,
            persist: None,
            upload: None,
            panic_suppress: false,
        }
    }

    /// Persist the run into `results_dir`, recording `model`; backend kind and cases dir start
    /// empty. Everything else is kept.
    pub fn persist_to(self, results_dir: std::path::PathBuf, model: String) -> (r: Self)
        ensures
            r.persist matches Some(p) && p.results_dir == results_dir && p.model == model
                && p.backend@.len() == 0 && p.cases_dir@.len() == 0,
            r == (RunMeta { persist: r.persist, ..self }),
    {
        RunMeta { persist: Some(Persist::new(results_dir, model)), ..self }
    }

    /// Record `kind` as the persisted run's backend kind; no change without a persist target.
    pub fn backend_kind(self, kind: String) -> (r: Self)
        ensures
            r == (RunMeta {
                persist: match self.persist {
                    Some(p) => Some(Persist { backend: kind, ..p }),
                    None => None,
                },
                ..self
            }),
    {
        let RunMeta { temperature, backend, system_prompt, persist, upload, panic_suppress } =
            self;
        let persist = match persist {
            Some(p) => Some(Persist { backend: kind, ..p }),
            None => None,
        };
        RunMeta { temperature, backend, system_prompt, persist, upload, panic_suppress }
    }

    /// Record `dir` as the persisted run's case directory; no change without a persist target.
    pub fn cases_dir(self, dir: String) -> (r: Self)
        ensures
            r == (RunMeta {
                persist: match self.persist {
                    Some(p) => Some(Persist { cases_dir: dir, ..p }),
                    None => None,
                },
                ..self
            }),
    {
        let RunMeta { temperature, backend, system_prompt, persist, upload, panic_suppress } =
            self;
        let persist = match persist {
            Some(p) => Some(Persist { cases_dir: dir, ..p }),
            None => None,
        };
        RunMeta { temperature, backend, system_prompt, persist, upload, panic_suppress }
    }

    /// Upload the run to EvalForge under `project_id`, authenticated with `api_key`; the
    /// upload's own model, backend and cases dir start empty. Everything else is kept.
    pub fn upload_to(self, project_id: String, api_key: String) -> (r: Self)
        ensures
            r.upload matches Some(u) && u.project_id == project_id && u.api_key == api_key
                && u.model@.len() == 0 && u.backend@.len() == 0 && u.cases_dir@.len() == 0
                && u.base_url@ == crate::upload::EVALFORGE_BASE_URL@,
            r == (RunMeta { upload: r.upload, ..self }),
    {
        RunMeta { upload: Some(Upload::new(project_id, api_key)), ..self }
    }

    /// As [`upload_to`](Self::upload_to) with the API key taken from the `EVALFORGE_API_KEY`
    /// environment variable, whose value (`None` when unset or not Unicode) the caller passes
    /// as `api_key`. When it is missing or blank, upload is left disabled (`upload` is `None`).
    pub fn upload_from_env(self, project_id: String, api_key: Option<String>) -> (r: Self)
        ensures
            usable_api_key(api_key) ==> (r.upload matches Some(u) && u.project_id == project_id
                && api_key == Some(u.api_key) && u.model@.len() == 0 && u.backend@.len() == 0
                && u.cases_dir@.len() == 0 && u.base_url@ == crate::upload::EVALFORGE_BASE_URL@
                && r == (RunMeta { upload: r.upload, ..self })),
            !usable_api_key(api_key) ==> r == (RunMeta { upload: None, ..self }),
    {
        let usable = api_key_is_usable(&api_key);
        match api_key {
            Some(key) => {
                if usable {
                    return self.upload_to(project_id, key);
                }
            },
            None => {},
        }
        RunMeta { upload: None, ..self }
    }

    /// Record `model` on the uploaded run (used only without a persist target); no change
    /// without an upload target.
    pub fn upload_model(self, model: String) -> (r: Self)
        ensures
            r == (RunMeta {
                upload: match self.upload {
                    Some(u) => Some(Upload { model, ..u }),
                    None => None,
                },
                ..self
            }),
    {
        let RunMeta { temperature, backend, system_prompt, persist, upload, panic_suppress } =
            self;
        let upload = match upload {
            Some(u) => Some(Upload { model, ..u }),
            None => None,
        };
        RunMeta { temperature, backend, system_prompt, persist, upload, panic_suppress }
    }

    /// Record `dir` as the uploaded run's case directory (used only without a persist target);
    /// no change without an upload target.
    pub fn upload_cases_dir(self, dir: String) -> (r: Self)
        ensures
            r == (RunMeta {
                upload: match self.upload {
                    Some(u) => Some(Upload { cases_dir: dir, ..u }),
                    None => None,
                },
                ..self
            }),
    {
        let RunMeta { temperature, backend, system_prompt, persist, upload, panic_suppress } =
            self;
        let upload = match upload {
            Some(u) => Some(Upload { cases_dir: dir, ..u }),
            None => None,
        };
        RunMeta { temperature, backend, system_prompt, persist, upload, panic_suppress }
    }

    /// The `(model, backend kind, cases dir)` a finished run is recorded under: the persist
    /// target's when there is one, else the upload target's, and `None` when the run goes
    /// nowhere.
    pub fn record_identity(&self) -> (r: Option<(String, String, String)>)
        ensures
            r == identity_of(*self),
    {
        match &self.persist {
            Some(p) => Some((p.model.clone(), p.backend.clone(), p.cases_dir.clone())),
            None => match &self.upload {
                Some(u) => Some((u.model.clone(), u.backend.clone(), u.cases_dir.clone())),
                None => None,
            },
        }
    }
}

/// The record identity of a run: persist's values win over upload's.
pub open spec fn identity_of(m: RunMeta) -> Option<(String, String, String)> {
    match m.persist {
        Some(p) => Some((p.model, p.backend, p.cases_dir)),
        None => match m.upload {
            Some(u) => Some((u.model, u.backend, u.cases_dir)),
            None => None,
        },
    }
}

impl Default for RunMeta {
    /// Temperature `0`, empty backend and system prompt, no targets.
    fn default() -> (r: Self)
        ensures
            r.temperature.text@ == zero_temperature(),
            r.backend@.len() == 0,
            r.system_prompt@.len() == 0,
            r.persist is None,
            r.upload is None,
            !r.panic_suppress,
    {
        proof {
            reveal_strlit("0");
        }
        RunMeta::new(Float32Text { text: String::from_str("0") }, String::new(), String::new())
    }
}

/// An API key that enables uploading: present and not blank.
pub open spec fn usable_api_key(key: Option<String>) -> bool {
    key matches Some(k) && trim(k@).len() > 0
}

/// Whether `key` enables uploading: present and not blank.
pub fn api_key_is_usable(key: &Option<String>) -> (r: bool)
    ensures
        r == usable_api_key(*key),
{
    match key {
        Some(k) => {
            let t = trim_text(k.as_str());
            !t.as_str().is_empty()
        },
        None => false,
    }
}

/// Splits a harness result into the artifacts to score and the run's error: on `Ok`, the
/// artifacts as returned and their captured error (which stays on the artifacts, so `NoError`
/// still sees it); on `Err(message)`, empty artifacts and the message.
pub fn settle_run(run: Result<RunArtifacts, String>) -> (r: (RunArtifacts, Option<String>))
    ensures
        match run {
            Ok(a) => r.0 == a && r.1 == a.error,
            Err(e) => r.0.tool_calls@.len() == 0 && r.0.final_text is None && r.0.tokens is None
                && r.0.transcript@.len() == 0 && r.0.error is None && r.1 == Some(e),
        },
{
    match run {
        Ok(a) => {
            let err = match &a.error {
                Some(e) => Some(e.clone()),
                None => None,
            };
            (a, err)
        },
        Err(e) => (RunArtifacts::new(), Some(e)),
    }
}

/// Every predicate in `ps` held.
pub open spec fn all_held(ps: Seq<(String, bool)>) -> bool {
    forall|i: int| 0 <= i < ps.len() ==> (#[trigger] ps[i]).1
}

/// The display texts of `calls`, in order.
pub open spec fn call_texts(calls: Seq<ToolCall>) -> Seq<Seq<char>> {
    calls.map_values(|c: ToolCall| call_text(c))
}

/// The outcome of a case that ran to the end: it passes iff the run did not error and every
/// predicate held; the tool calls are kept as their `name(args)` texts, and tokens, final text
/// and transcript come from the artifacts.
pub fn scored_outcome(
    name: String,
    artifacts: RunArtifacts,
    run_error: Option<String>,
    latency: Latency,
    predicates: Vec<(String, bool)>,
) -> (r: CaseOutcome)
    ensures
        r.name == name,
        r.passed == (run_error is None && all_held(predicates@)),
        r.predicates == predicates,
        r.latency == latency,
        r.tokens == artifacts.tokens,
        r.tool_calls@.map_values(|t: String| t@) == call_texts(artifacts.tool_calls@),
        r.final_text == artifacts.final_text,
        r.error == run_error,
        r.transcript == artifacts.transcript,
{
    let mut all = true;
    let mut i: usize = 0;
    while i < predicates.len()
        invariant
            i <= predicates.len(),
            all == forall|j: int| 0 <= j < i ==> (#[trigger] predicates@[j]).1,
        decreases predicates.len() - i,
    {
        if !predicates[i].1 {
            all = false;
        }
        i = i + 1;
    }
    let passed = run_error.is_none() && all;
    let RunArtifacts { tool_calls, final_text, tokens, transcript, error: _ } = artifacts;
    let mut texts: Vec<String> = Vec::new();
    let mut k: usize = 0;
    while k < tool_calls.len()
        invariant
            k <= tool_calls.len(),
            texts@.len() == k,
            forall|j: int| 0 <= j < k ==> (#[trigger] texts@[j])@ == call_text(tool_calls@[j]),
        decreases tool_calls.len() - k,
    {
        let t = tool_calls[k].display();
        texts.push(t);
        k = k + 1;
    }
    assert(texts@.map_values(|t: String| t@) =~= call_texts(tool_calls@));
    CaseOutcome::new(
        name,
        passed,
        predicates,
        latency,
        tokens,
        texts,
        final_text,
        run_error,
        transcript,
    )
}

/// The positional label of the `i`-th predicate of a case that panicked: `predicate #i`.
pub open spec fn positional_label(i: nat) -> Seq<char> {
    "predicate #"@ + decimal(i)
}

/// The outcome of a case whose build, run or scoring panicked with `message`: failed, with one
/// failed predicate per expectation labelled by position (`predicate #0`, ...), no tokens,
/// calls, final text or transcript, and the error `panic: {message}`.
pub fn panicked_outcome(name: String, n_expect: usize, latency: Latency, message: String) -> (r:
    CaseOutcome)
    ensures
        r.name == name,
        !r.passed,
        r.predicates@.len() == n_expect,
        forall|i: int|
            0 <= i < n_expect ==> (#[trigger] r.predicates@[i]).0@ == positional_label(i as nat)
                && !r.predicates@[i].1,
        r.latency == latency,
        r.tokens is None,
        r.tool_calls@.len() == 0,
        r.final_text is None,
        r.error matches Some(e) && e@ == "panic: "@ + message@,
        r.transcript@.len() == 0,
{
    proof {
        reveal_strlit("predicate #");
        reveal_strlit("panic: ");
    }
    let mut predicates: Vec<(String, bool)> = Vec::new();
    let mut i: usize = 0;
    while i < n_expect
        invariant
            i <= n_expect,
            predicates@.len() == i,
            forall|j: int|
                0 <= j < i ==> (#[trigger] predicates@[j]).0@ == positional_label(j as nat)
                    && !predicates@[j].1,
        decreases n_expect - i,
    {
        let mut label = String::from_str("predicate #");
        let n = usize_text(i);
        label.append(n.as_str());
        predicates.push((label, false));
        i = i + 1;
    }
    let mut error = String::from_str("panic: ");
    error.append(message.as_str());
    CaseOutcome::new(
        name,
        false,
        predicates,
        latency,
        None,
        Vec::new(),
        None,
        Some(error),
        Vec::new(),
    )
}

/// The longest the one-line form of an error may be, in characters (before the ellipsis).
pub const ONE_LINE_MAX: usize = 120;

/// The index of the first `\n` in `s`, or its length when there is none.
pub open spec fn first_newline(s: Seq<char>) -> int
    decreases s.len(),
{
    if s.len() == 0 {
        0
    } else if s[0] == '\n' {
        0
    } else {
        1 + first_newline(s.drop_first())
    }
}

/// The first line of `s` as `str::lines` yields it: everything before the first `\n`, without
/// a `\r` just before that `\n`; the whole of `s` when it holds no `\n`.
pub open spec fn first_line(s: Seq<char>) -> Seq<char> {
    let k = first_newline(s);
    let l = s.take(k);
    if k < s.len() && l.len() > 0 && l.last() == '\r' {
        l.drop_last()
    } else {
        l
    }
}

/// The one-line form of `s`: its first line when that is at most [`ONE_LINE_MAX`] characters,
/// else the first [`ONE_LINE_MAX`] characters followed by `…`.
pub open spec fn one_line(s: Seq<char>) -> Seq<char> {
    let l = first_line(s);
    if l.len() <= ONE_LINE_MAX {
        l
    } else {
        l.take(ONE_LINE_MAX as int).push('…')
    }
}

proof fn lemma_first_newline(s: Seq<char>, k: int)
    requires
        0 <= k <= s.len(),
        forall|j: int| 0 <= j < k ==> #[trigger] s[j] != '\n',
        k == s.len() || s[k] == '\n',
    ensures
        first_newline(s) == k,
    decreases k,
{
    if k > 0 {
        let u = s.drop_first();
        assert forall|j: int| 0 <= j < k - 1 implies #[trigger] u[j] != '\n' by {
            assert(u[j] == s[j + 1]);
        }
        lemma_first_newline(u, k - 1);
    }
}

/// `msg` collapsed to one bounded line for the progress log (the full text stays on the
/// outcome).
pub fn truncate_one_line(msg: &str) -> (r: String)
    ensures
        r@ == one_line(msg@),
{
    let cs = chars_of(msg);
    let mut k: usize = 0;
    while k < cs.len() && cs[k] != '\n'
        invariant
            cs@ == msg@,
            k <= cs.len(),
            forall|j: int| 0 <= j < k ==> #[trigger] cs@[j] != '\n',
        decreases cs.len() - k,
    {
        k = k + 1;
    }
    proof {
        lemma_first_newline(msg@, k as int);
    }
    let mut end = k;
    if k < cs.len() && k > 0 && cs[k - 1] == '\r' {
        end = k - 1;
    }
    let ghost line = first_line(msg@);
    assert(line =~= msg@.take(end as int));
    let limit = if end <= ONE_LINE_MAX {
        end
    } else {
        ONE_LINE_MAX
    };
    let mut r = String::new();
    let mut i: usize = 0;
    while i < limit
        invariant
            cs@ == msg@,
            i <= limit <= end <= cs.len(),
            r@ == msg@.take(i as int),
        decreases limit - i,
    {
        push_char(&mut r, cs[i]);
        i = i + 1;
        assert(r@ =~= msg@.take(i as int));
    }
    if end > ONE_LINE_MAX {
        push_char(&mut r, '…');
        assert(r@ =~= line.take(ONE_LINE_MAX as int).push('…'));
    } else {
        assert(r@ =~= line);
    }
    r
}

/// A run that captured a soft error fails `NoError`: the error stays on the artifacts that are
/// scored, even though it is also taken as the run's error.
pub proof fn lemma_soft_error_fails_no_error(a: RunArtifacts)
    requires
        a.error is Some,
    ensures
        !verdict(Expectation::NoError, a),
{
}

/// The one-line form of any message holds no line break and is at most [`ONE_LINE_MAX`]
/// characters plus the ellipsis.
pub proof fn lemma_one_line_bounded(s: Seq<char>)
    ensures
        one_line(s).len() <= ONE_LINE_MAX + 1,
        forall|i: int| 0 <= i < one_line(s).len() ==> #[trigger] one_line(s)[i] != '\n',
{
    let k = first_newline(s);
    lemma_first_newline_bounds(s);
    let l = first_line(s);
    assert forall|i: int| 0 <= i < l.len() implies #[trigger] l[i] != '\n' by {
        assert(l[i] == s[i]);
    }
}

proof fn lemma_first_newline_bounds(s: Seq<char>)
    ensures
        0 <= first_newline(s) <= s.len(),
        forall|j: int| 0 <= j < first_newline(s) ==> #[trigger] s[j] != '\n',
    decreases s.len(),
{
    if s.len() > 0 && s[0] != '\n' {
        let u = s.drop_first();
        lemma_first_newline_bounds(u);
        assert forall|j: int| 0 <= j < first_newline(s) implies #[trigger] s[j] != '\n' by {
            if j > 0 {
                assert(s[j] == u[j - 1]);
            }
        }
    }
}

/// How running one case ended.
pub enum CaseRun {
    /// It ran to the end: the settled artifacts and run error (see [`settle_run`]), how long
    /// the run took, and the predicates scored, one per expectation in order.
    Scored {
        artifacts: RunArtifacts,
        run_error: Option<String>,
        latency: Latency,
        predicates: Vec<(String, bool)>,
    },
    /// Building, running or scoring panicked with `message` after `latency`.
    Panicked { latency: Latency, message: String },
}

/// The outcome of `case` from how its run ended: it carries the case's name and exactly one
/// predicate per expectation, and is [`scored_outcome`] or [`panicked_outcome`] accordingly.
pub fn case_outcome<Setup, Expect>(case: &EvalCase<Setup, Expect>, run: CaseRun) -> (r: CaseOutcome)
    requires
        run matches CaseRun::Scored { predicates, .. } ==> predicates@.len() == case.expect@.len(),
    ensures
        r.name == case.name,
        r.predicates@.len() == case.expect@.len(),
        match run {
            CaseRun::Scored { artifacts, run_error, latency, predicates } => {
                &&& r.passed == (run_error is None && all_held(predicates@))
                &&& r.predicates == predicates
                &&& r.latency == latency
                &&& r.tokens == artifacts.tokens
                &&& r.tool_calls@.map_values(|t: String| t@) == call_texts(artifacts.tool_calls@)
                &&& r.final_text == artifacts.final_text
                &&& r.error == run_error
                &&& r.transcript == artifacts.transcript
            },
            CaseRun::Panicked { latency, message } => {
                &&& !r.passed
                &&& forall|i: int|
                    0 <= i < r.predicates@.len() ==> (#[trigger] r.predicates@[i]).0@
                        == positional_label(i as nat) && !r.predicates@[i].1
                &&& r.latency == latency
                &&& r.tokens is None
                &&& r.tool_calls@.len() == 0
                &&& r.final_text is None
                &&& r.error matches Some(e) && e@ == "panic: "@ + message@
                &&& r.transcript@.len() == 0
            },
        },
{
    let name = case.name.clone();
    match run {
        CaseRun::Scored { artifacts, run_error, latency, predicates } => {
            scored_outcome(name, artifacts, run_error, latency, predicates)
        },
        CaseRun::Panicked { latency, message } => {
            panicked_outcome(name, case.expect.len(), latency, message)
        },
    }
}

} // verus!
