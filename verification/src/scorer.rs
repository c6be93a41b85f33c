//! The batteries-included scorer: evaluates the built-in [`Expectation`]s over a run's
//! artifacts, turning a malformed assertion into a failed, labelled predicate.
use vstd::prelude::*;

use crate::error::EvalError;
use crate::expect::{
    label_text, number_verdict, regex_compiles, regex_error_message, verdict, Expectation,
};
use crate::harness::RunArtifacts;

verus! {

/// The built-in scorer over [`Expectation`]s; it looks at the run's artifacts only.
#[derive(Debug, Default, Clone, Copy)]
pub struct BuiltinScorer;

/// Whether `e` can be evaluated: everything but a `FinalTextMatches` whose regex does not
/// compile.
pub open spec fn well_formed_expectation(e: Expectation) -> bool {
    match e {
        Expectation::FinalTextMatches { regex } => regex_compiles(regex@),
        _ => true,
    }
}

/// The message of a regex that does not compile: `invalid regex \`{pattern}\`: {reason}`.
pub open spec fn invalid_regex_text(pattern: Seq<char>) -> Seq<char> {
    "invalid regex `"@ + pattern + "`: "@ + regex_error_message(pattern)
}

impl BuiltinScorer {
    /// Scores `expect` against `artifacts`: its label and verdict when it can be evaluated;
    /// otherwise (a malformed regex) the label followed by ` [invalid: {error}]`, and a failed
    /// verdict. `within` judges the number of a `FinalNumberEquals`, as in
    /// [`Expectation::evaluate`].
    pub fn score_with<F: Fn(&str, &str, &str) -> bool>(
        &self,
        expect: &Expectation,
        artifacts: &RunArtifacts,
        within: &F,
    ) -> (r: (String, bool))
        requires
            forall|x: &str, v: &str, tol: &str| #[trigger] within.requires((x, v, tol)),
        ensures
            well_formed_expectation(*expect) ==> r.0@ == label_text(*expect) && match *expect {
                Expectation::FinalNumberEquals { value, tolerance } => number_verdict(
                    *within,
                    *artifacts,
                    value,
                    tolerance,
                    r.1,
                ),
                _ => r.1 == verdict(*expect, *artifacts),
            },
            !well_formed_expectation(*expect) ==> !r.1 && (expect matches Expectation::FinalTextMatches {
                regex,
            } && r.0@ == label_text(*expect) + " [invalid: "@ + invalid_regex_text(regex@) + "]"@),
    {
        match expect.evaluate(artifacts, within) {
            Ok(result) => result,
            Err(err) => {
                let mut label = expect.label();
                label.append(" [invalid: ");
                let msg = err.message();
                label.append(msg.as_str());
                label.append("]");
                assert(label@ == label_text(*expect) + " [invalid: "@ + msg@ + "]"@);
                assert(msg@ =~= invalid_regex_text(expect->regex@));
                (label, false)
            },
        }
    }
}

} // verus!
