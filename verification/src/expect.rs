//! The built-in assertion library: [`Expectation`], a predicate over a run's [`RunArtifacts`],
//! with its verdict and its report label.
use vstd::prelude::*;

use crate::calls::{
    any_call_to, any_call_with, called, called_with, count_calls_to, count_named,
    is_subsequence_of, names, tools_in_order,
};
use crate::error::EvalError;
use crate::harness::RunArtifacts;
use crate::json::{compact, compact_text, Json};
use crate::number::{last_number, last_number_token};
use crate::text::{
    contains, contains_text, debug_quoted, debug_text, decimal, lowercase, same_text, to_lowercase,
    trim, trim_text, usize_text,
};

verus! {

/// A double-precision number as the text `{}` writes for it (`4`, `3.14159`, `-1024.5`, `0.01`,
/// `-0`), which reads back as exactly the same number. The library never does float arithmetic
/// itself: the comparison of `FinalNumberEquals` is handed to the caller's judge.
#[derive(Debug, Clone)]
pub struct FloatText {
    pub text: String,
}

impl FloatText {
    /// The number whose `{}` text is `text`.
    pub fn new(text: String) -> (r: Self)
        ensures
            r.text == text,
    {
        FloatText { text }
    }
}

/// The `{}` text of a zero (`0` or `-0`; both compare equal to `0.0`).
pub open spec fn is_zero_text(t: Seq<char>) -> bool {
    t == seq!['0'] || t == seq!['-', '0']
}

fn zero_text(t: &str) -> (r: bool)
    ensures
        r == is_zero_text(t@),
{
    let cs = crate::text::chars_of(t);
    if cs.len() == 1 {
        let r = cs[0] == '0';
        assert(r ==> cs@ =~= seq!['0']);
        r
    } else if cs.len() == 2 {
        let r = cs[0] == '-' && cs[1] == '0';
        assert(r ==> cs@ =~= seq!['-', '0']);
        r
    } else {
        false
    }
}

/// A single built-in assertion over a run's artifacts. A case passes iff its run did not error
/// and every expectation holds.
#[derive(Debug, Clone)]
pub enum Expectation {
    /// The agent called `tool` at least once.
    CalledTool { tool: String },
    /// The agent never called `tool`.
    DidNotCallTool { tool: String },
    /// The agent called `tool` at least once with arguments that `args` is a subset of.
    CalledToolWith { tool: String, args: Json },
    /// The number of calls (to `tool` when given, else all calls) lies within `[min, max]`,
    /// each bound optional.
    ToolCallCount { tool: Option<String>, min: Option<usize>, max: Option<usize> },
    /// The named tools appear in this relative order among the calls.
    CalledToolsInOrder { tools: Vec<String> },
    /// The agent made no tool call.
    NoToolCalls,
    /// The final text contains `text` (optionally after lowercasing both).
    FinalTextContains { text: String, case_insensitive: bool },
    /// The final text equals `text` once both are trimmed.
    FinalTextEquals { text: String },
    /// The final text matches the regular expression `regex` somewhere.
    FinalTextMatches { regex: String },
    /// The last number in the final text equals `value` within `tolerance`.
    FinalNumberEquals { value: FloatText, tolerance: FloatText },
    /// The run reported no error.
    NoError,
}

/// The strings of `ts`, as character sequences.
pub open spec fn texts(ts: Seq<String>) -> Seq<Seq<char>> {
    ts.map_values(|t: String| t@)
}

/// Whether expectation `e` holds for `a`, for every kind but `FinalNumberEquals` (whose float
/// comparison is judged outside the library).
pub open spec fn verdict(e: Expectation, a: RunArtifacts) -> bool {
    let calls = a.tool_calls@;
    match e {
        Expectation::CalledTool { tool } => called(calls, tool@),
        Expectation::DidNotCallTool { tool } => !called(calls, tool@),
        Expectation::CalledToolWith { tool, args } => called_with(calls, tool@, args),
        Expectation::ToolCallCount { tool, min, max } => {
            let count = match tool {
                Some(t) => count_named(calls, t@),
                None => calls.len(),
            };
            (min matches Some(lo) ==> count >= lo) && (max matches Some(hi) ==> count <= hi)
        },
        Expectation::CalledToolsInOrder { tools } => is_subsequence_of(texts(tools@), names(calls)),
        Expectation::NoToolCalls => calls.len() == 0,
        Expectation::FinalTextContains { text, case_insensitive } => match a.final_text {
            Some(t) => if case_insensitive {
                contains_text(lowercase(t@), lowercase(text@))
            } else {
                contains_text(t@, text@)
            },
            None => false,
        },
        Expectation::FinalTextEquals { text } => match a.final_text {
            Some(t) => trim(t@) == trim(text@),
            None => false,
        },
        Expectation::FinalTextMatches { regex } => match a.final_text {
            Some(t) => regex_is_match(regex@, t@),
            None => false,
        },
        Expectation::FinalNumberEquals { .. } => false,
        Expectation::NoError => a.error is None,
    }
}

/// What the judge `within` said of the last number in `a`'s final text against `value` and
/// `tolerance` (false when there is no final text or no number in it).
pub open spec fn number_verdict<F: Fn(&str, &str, &str) -> bool>(
    within: F,
    a: RunArtifacts,
    value: FloatText,
    tolerance: FloatText,
    p: bool,
) -> bool {
    match a.final_text {
        None => !p,
        Some(t) => match last_number_token(t@) {
            None => !p,
            Some(tok) => exists|x: &str, v: &str, tol: &str|
                x@ == tok && v@ == value.text@ && tol@ == tolerance.text@ && #[trigger] within.ensures(
                    (x, v, tol),
                    p,
                ),
        },
    }
}

/// `ts` joined with `" -> "` between elements.
pub open spec fn join_arrows(ts: Seq<Seq<char>>) -> Seq<char>
    decreases ts.len(),
{
    if ts.len() == 0 {
        Seq::empty()
    } else if ts.len() == 1 {
        ts[0]
    } else {
        join_arrows(ts.drop_last()) + " -> "@ + ts.last()
    }
}

/// The `{:?}` text of an optional count: `None` or `Some(n)`.
pub open spec fn opt_count_text(o: Option<usize>) -> Seq<char> {
    match o {
        Some(n) => "Some("@ + decimal(n as nat) + ")"@,
        None => "None"@,
    }
}

/// The report label of an expectation.
pub open spec fn label_text(e: Expectation) -> Seq<char> {
    match e {
        Expectation::CalledTool { tool } => "CalledTool("@ + tool@ + ")"@,
        Expectation::DidNotCallTool { tool } => "DidNotCallTool("@ + tool@ + ")"@,
        Expectation::CalledToolWith { tool, args } => "CalledToolWith("@ + tool@ + ", "@
            + compact_text(args) + ")"@,
        Expectation::ToolCallCount { tool, min, max } => "ToolCallCount("@ + match tool {
            Some(t) => t@,
            None => "any"@,
        } + ", >= "@ + opt_count_text(min) + ", <= "@ + opt_count_text(max) + ")"@,
        Expectation::CalledToolsInOrder { tools } => "CalledToolsInOrder("@ + join_arrows(
            texts(tools@),
        ) + ")"@,
        Expectation::NoToolCalls => "NoToolCalls"@,
        Expectation::FinalTextContains { text, case_insensitive } => if case_insensitive {
            "FinalTextContains("@ + debug_quoted(text@) + ", case-insensitive)"@
        } else {
            "FinalTextContains("@ + debug_quoted(text@) + ")"@
        },
        Expectation::FinalTextEquals { text } => "FinalTextEquals("@ + debug_quoted(text@) + ")"@,
        Expectation::FinalTextMatches { regex } => "FinalTextMatches("@ + debug_quoted(regex@)
            + ")"@,
        Expectation::FinalNumberEquals { value, tolerance } => if is_zero_text(tolerance.text@) {
            "FinalNumberEquals("@ + value.text@ + ")"@
        } else {
            "FinalNumberEquals("@ + value.text@ + seq![' ', '\u{b1}', ' '] + tolerance.text@
                + ")"@
        },
        Expectation::NoError => "NoError"@,
    }
}

/// Whether `pattern` compiles as a regular expression (regex crate syntax and default size
/// limits).
pub uninterp spec fn regex_compiles(pattern: Seq<char>) -> bool;

/// Whether the compiled `pattern` matches somewhere in `haystack`.
pub uninterp spec fn regex_is_match(pattern: Seq<char>, haystack: Seq<char>) -> bool;

/// What the regex crate's `Display` writes for the error of compiling `pattern` (with the default
/// syntax options and size limits).
pub uninterp spec fn regex_error_message(pattern: Seq<char>) -> Seq<char>;

/// regex `Regex::new(pattern)` followed by `is_match(haystack)`: `Ok` exactly when the pattern
/// compiles (named `regex_compiles`), then whether it matches anywhere in `haystack` (named
/// `regex_is_match`); on a compile error, the error and its `Display` text (named
/// `regex_error_message`). All are functions of the arguments alone; the regex semantics are
/// not stated.
#[verifier::external_body]
fn regex_search(pattern: &str, haystack: &str) -> (r: Result<bool, (regex::Error, String)>)
    ensures
        r is Ok <==> regex_compiles(pattern@),
        r matches Ok(b) ==> b == regex_is_match(pattern@, haystack@),
        r matches Err((_, t)) ==> t@ == regex_error_message(pattern@),
{
    regex::Regex::new(pattern).map(|re| re.is_match(haystack)).map_err(|e| {
        let text = e.to_string();
        (e, text)
    })
}

impl Expectation {
    /// Evaluates this expectation against a run's `artifacts`, returning `(label, passed)`.
    ///
    /// `within` judges a number: given the last number token of the final text, the `value`
    /// text and the `tolerance` text, it says whether the number lies within the tolerance of
    /// the value. It is consulted only by `FinalNumberEquals`.
    ///
    /// The only failure is a `FinalTextMatches` whose regex does not compile, which is an
    /// `EvalError::Regex` naming the pattern and the regex crate's reason (whether or not there
    /// is a final text).
    pub fn evaluate<F: Fn(&str, &str, &str) -> bool>(
        &self,
        artifacts: &RunArtifacts,
        within: &F,
    ) -> (r: Result<(String, bool), EvalError>)
        requires
            forall|x: &str, v: &str, tol: &str| #[trigger] within.requires((x, v, tol)),
        ensures
            match *self {
                Expectation::FinalTextMatches { regex } => (r is Ok <==> regex_compiles(regex@))
                    && (r matches Err(e) ==> e matches EvalError::Regex { pattern, reason, .. }
                    && pattern@ == regex@ && reason@ == regex_error_message(regex@)),
                _ => r is Ok,
            },
            r matches Ok((l, p)) ==> l@ == label_text(*self) && match *self {
                Expectation::FinalNumberEquals { value, tolerance } => number_verdict(
                    *within,
                    *artifacts,
                    value,
                    tolerance,
                    p,
                ),
                _ => p == verdict(*self, *artifacts),
            },
    {
        let label = self.label();
        let calls = &artifacts.tool_calls;
        let passed = match self {
            Expectation::CalledTool { tool } => any_call_to(calls, tool),
            Expectation::DidNotCallTool { tool } => !any_call_to(calls, tool),
            Expectation::CalledToolWith { tool, args } => any_call_with(calls, tool, args),
            Expectation::ToolCallCount { tool, min, max } => {
                let count = match tool {
                    Some(name) => count_calls_to(calls, name),
                    None => calls.len(),
                };
                let lo_ok = match min {
                    Some(lo) => count >= *lo,
                    None => true,
                };
                let hi_ok = match max {
                    Some(hi) => count <= *hi,
                    None => true,
                };
                lo_ok && hi_ok
            },
            Expectation::CalledToolsInOrder { tools } => tools_in_order(tools, calls),
            Expectation::NoToolCalls => calls.len() == 0,
            Expectation::FinalTextContains { text, case_insensitive } => match &artifacts.final_text {
                Some(actual) => {
                    if *case_insensitive {
                        let a = to_lowercase(actual.as_str());
                        let t = to_lowercase(text.as_str());
                        contains(a.as_str(), t.as_str())
                    } else {
                        contains(actual.as_str(), text.as_str())
                    }
                },
                None => false,
            },
            Expectation::FinalTextEquals { text } => match &artifacts.final_text {
                Some(actual) => {
                    let a = trim_text(actual.as_str());
                    let t = trim_text(text.as_str());
                    same_text(a.as_str(), t.as_str())
                },
                None => false,
            },
            Expectation::FinalTextMatches { regex } => {
                // The pattern is compiled even when there is no final text, so a malformed
                // pattern always surfaces as an error.
                let haystack = match &artifacts.final_text {
                    Some(actual) => actual.as_str(),
                    None => "",
                };
                match regex_search(regex.as_str(), haystack) {
                    Ok(found) => artifacts.final_text.is_some() && found,
                    Err(source) => {
                        let (source, reason) = source;
                        return Err(EvalError::Regex { pattern: regex.clone(), source, reason });
                    },
                }
            },
            Expectation::FinalNumberEquals { value, tolerance } => match &artifacts.final_text {
                Some(actual) => match last_number(actual.as_str()) {
                    Some(token) => within(token.as_str(), value.text.as_str(), tolerance.text.as_str()),
                    None => false,
                },
                None => false,
            },
            Expectation::NoError => artifacts.error.is_none(),
        };
        Ok((label, passed))
    }

    /// A short label identifying this expectation, for the report's per-predicate lines.
    pub fn label(&self) -> (r: String)
        ensures
            r@ == label_text(*self),
    {
        proof {
            reveal_strlit("CalledTool(");
            reveal_strlit("DidNotCallTool(");
            reveal_strlit("CalledToolWith(");
            reveal_strlit("ToolCallCount(");
            reveal_strlit("CalledToolsInOrder(");
            reveal_strlit("NoToolCalls");
            reveal_strlit("FinalTextContains(");
            reveal_strlit("FinalTextEquals(");
            reveal_strlit("FinalTextMatches(");
            reveal_strlit("FinalNumberEquals(");
            reveal_strlit("NoError");
            reveal_strlit(")");
            reveal_strlit(", ");
            reveal_strlit("any");
            reveal_strlit(", >= ");
            reveal_strlit(", <= ");
            reveal_strlit(", case-insensitive)");
            reveal_strlit(" \u{b1} ");
        }
        match self {
            Expectation::CalledTool { tool } => {
                let mut s = String::from_str("CalledTool(");
                s.append(tool.as_str());
                s.append(")");
                s
            },
            Expectation::DidNotCallTool { tool } => {
                let mut s = String::from_str("DidNotCallTool(");
                s.append(tool.as_str());
                s.append(")");
                s
            },
            Expectation::CalledToolWith { tool, args } => {
                let mut s = String::from_str("CalledToolWith(");
                s.append(tool.as_str());
                s.append(", ");
                let a = compact(args);
                s.append(a.as_str());
                s.append(")");
                s
            },
            Expectation::ToolCallCount { tool, min, max } => {
                let mut s = String::from_str("ToolCallCount(");
                match tool {
                    Some(t) => s.append(t.as_str()),
                    None => s.append("any"),
                }
                s.append(", >= ");
                let lo = opt_count(min);
                s.append(lo.as_str());
                s.append(", <= ");
                let hi = opt_count(max);
                s.append(hi.as_str());
                s.append(")");
                s
            },
            Expectation::CalledToolsInOrder { tools } => {
                let mut s = String::from_str("CalledToolsInOrder(");
                let j = join_with_arrows(tools);
                s.append(j.as_str());
                s.append(")");
                s
            },
            Expectation::NoToolCalls => String::from_str("NoToolCalls"),
            Expectation::FinalTextContains { text, case_insensitive } => {
                let mut s = String::from_str("FinalTextContains(");
                let q = debug_text(text.as_str());
                s.append(q.as_str());
                if *case_insensitive {
                    s.append(", case-insensitive)");
                } else {
                    s.append(")");
                }
                s
            },
            Expectation::FinalTextEquals { text } => {
                let mut s = String::from_str("FinalTextEquals(");
                let q = debug_text(text.as_str());
                s.append(q.as_str());
                s.append(")");
                s
            },
            Expectation::FinalTextMatches { regex } => {
                let mut s = String::from_str("FinalTextMatches(");
                let q = debug_text(regex.as_str());
                s.append(q.as_str());
                s.append(")");
                s
            },
            Expectation::FinalNumberEquals { value, tolerance } => {
                let mut s = String::from_str("FinalNumberEquals(");
                s.append(value.text.as_str());
                if !zero_text(tolerance.text.as_str()) {
                    s.append(" \u{b1} ");
                    s.append(tolerance.text.as_str());
                }
                s.append(")");
                s
            },
            Expectation::NoError => String::from_str("NoError"),
        }
    }
}

/// `None` or `Some(n)`, as `{:?}` prints an optional count.
fn opt_count(o: &Option<usize>) -> (r: String)
    ensures
        r@ == opt_count_text(*o),
{
    proof {
        reveal_strlit("Some(");
        reveal_strlit(")");
        reveal_strlit("None");
    }
    match o {
        Some(n) => {
            let mut s = String::from_str("Some(");
            let d = usize_text(*n);
            s.append(d.as_str());
            s.append(")");
            s
        },
        None => String::from_str("None"),
    }
}

/// The names joined with `" -> "` between them.
fn join_with_arrows(tools: &Vec<String>) -> (r: String)
    ensures
        r@ == join_arrows(texts(tools@)),
{
    proof {
        reveal_strlit(" -> ");
    }
    let mut s = String::new();
    let mut i: usize = 0;
    while i < tools.len()
        invariant
            i <= tools.len(),
            s@ == join_arrows(texts(tools@.take(i as int))),
        decreases tools.len() - i,
    {
        assert(texts(tools@.take(i + 1)).drop_last() =~= texts(tools@.take(i as int)));
        assert(texts(tools@.take(i + 1)).last() == tools@[i as int]@);
        if i > 0 {
            s.append(" -> ");
        } else {
            assert(texts(tools@.take(1)).len() == 1);
            assert(texts(tools@.take(0)) =~= Seq::<Seq<char>>::empty());
        }
        s.append(tools[i].as_str());
        i = i + 1;
    }
    assert(tools@.take(tools.len() as int) =~= tools@);
    s
}

} // verus!
