//! The library's public error type, [`EvalError`], and the texts it renders to.
use vstd::prelude::*;

use crate::text::concat2;

verus! {

/// std's I/O error, carried opaquely inside [`EvalError::Io`].
#[verifier::external_type_specification]
#[verifier::external_body]
pub struct ExIoError(std::io::Error);

/// std's owned path, carried opaquely.
#[verifier::external_type_specification]
#[verifier::external_body]
pub struct ExPathBuf(std::path::PathBuf);

/// RON's parse error with its span, carried opaquely inside [`EvalError::RonParse`].
#[verifier::external_type_specification]
#[verifier::external_body]
pub struct ExRonError(ron::error::SpannedError);

/// The regex crate's compile error, carried opaquely inside [`EvalError::Regex`].
#[verifier::external_type_specification]
#[verifier::external_body]
pub struct ExRegexError(regex::Error);

/// The error type of the public API. Paths are held as the text `Path::display` writes for them,
/// which is what the messages name.
#[derive(Debug)]
pub enum EvalError {
    /// An I/O error reading a case directory or file, with the path being read when known.
    Io { path: Option<String>, source: std::io::Error },
    /// A `.ron` case file failed to parse; carries the offending file.
    RonParse { path: String, source: ron::error::SpannedError },
    /// The regex of a `FinalTextMatches` expectation failed to compile; `reason` is the regex
    /// crate's description of `source`.
    Regex { pattern: String, source: regex::Error, reason: String },
    /// The host's run failed; carries the host's own error as text.
    Agent(String),
}

/// std `Display` of an I/O error. Nothing is stated of the text.
#[verifier::external_body]
fn io_error_text(e: &std::io::Error) -> String {
    e.to_string()
}

/// ron's `Display` of a parse error (position and message). Nothing is stated of the text.
#[verifier::external_body]
fn ron_error_text(e: &ron::error::SpannedError) -> String {
    e.to_string()
}

/// The regex crate's `Display` of a compile error (the syntax error report, or the size-limit
/// message). Nothing is stated of the text.
#[verifier::external_body]
fn regex_error_text(e: &regex::Error) -> String {
    e.to_string()
}

impl EvalError {
    /// Wraps a host-side run failure, rendered with its `Display`, as an `Agent` error.
    pub fn agent<D: std::fmt::Display>(error: D) -> (r: EvalError)
        ensures
            r matches EvalError::Agent(m) && vstd::string::to_string_from_display_ensures::<D>(
                &error,
                m,
            ),
    {
        EvalError::Agent(error.to_string())
    }

    /// The message this error displays as: the path and the pattern it names, and the outside
    /// error's own text. That text is stated for a regex (a function of the pattern, held as
    /// `reason`); the I/O and RON texts are the outside errors' `Display` and stay unstated.
    pub fn message(&self) -> (r: String)
        ensures
            self matches EvalError::Agent(m) ==> r@ == "agent run failed: "@ + m@,
            self matches EvalError::Regex { pattern, reason, .. } ==> r@ == "invalid regex `"@
                + pattern@ + "`: "@ + reason@,
            self matches EvalError::Io { path: None, .. } ==> exists|t: Seq<char>|
                r@ == "i/o error: "@ + t,
            self matches EvalError::Io { path: Some(p), .. } ==> exists|t: Seq<char>|
                r@ == "i/o error for "@ + p@ + ": "@ + t,
            self matches EvalError::RonParse { path, .. } ==> exists|t: Seq<char>|
                r@ == "failed to parse RON case "@ + path@ + ": "@ + t,
    {
        proof {
            reveal_strlit("i/o error: ");
            reveal_strlit("i/o error for ");
            reveal_strlit("i/o error");
            reveal_strlit(" for ");
            reveal_strlit(": ");
        }
        match self {
            EvalError::Agent(m) => concat2("agent run failed: ", m.as_str()),
            EvalError::Regex { pattern, reason, .. } => {
                let mut r = concat2("invalid regex `", pattern.as_str());
                r.append("`: ");
                r.append(reason.as_str());
                r
            },
            EvalError::Io { path, source } => {
                let tail = io_error_text(source);
                match path {
                    Some(p) => {
                        let mut r = String::from_str("i/o error for ");
                        r.append(p.as_str());
                        r.append(": ");
                        r.append(tail.as_str());
                        assert(r@ == "i/o error for "@ + p@ + ": "@ + tail@);
                        r
                    },
                    None => {
                        let mut r = String::from_str("i/o error: ");
                        r.append(tail.as_str());
                        assert(r@ == "i/o error: "@ + tail@);
                        r
                    },
                }
            },
            EvalError::RonParse { path, source } => {
                let mut r = String::from_str("failed to parse RON case ");
                r.append(path.as_str());
                r.append(": ");
                let tail = ron_error_text(source);
                r.append(tail.as_str());
                assert(r@ == "failed to parse RON case "@ + path@ + ": "@ + tail@);
                r
            },
        }
    }
}

impl From<std::io::Error> for EvalError {
    /// An I/O error with no path attached.
    fn from(source: std::io::Error) -> (r: Self) {
        EvalError::Io { path: None, source }
    }
}

impl vstd::std_specs::convert::FromSpecImpl<std::io::Error> for EvalError {
    open spec fn obeys_from_spec() -> bool {
        true
    }

    open spec fn from_spec(source: std::io::Error) -> Self {
        EvalError::Io { path: None, source }
    }
}

impl From<regex::Error> for EvalError {
    /// A regex compile error with an empty pattern attached.
    fn from(source: regex::Error) -> (r: Self)
        ensures
            r matches EvalError::Regex { pattern, source: s, .. } && pattern@.len() == 0 && s
                == source,
    {
        let reason = regex_error_text(&source);
        EvalError::Regex { pattern: String::new(), source, reason }
    }
}

impl vstd::std_specs::convert::FromSpecImpl<regex::Error> for EvalError {
    /// The empty pattern is a `String` that no spec expression names, so the exact value is given by
    /// `from`'s own `ensures` instead.
    open spec fn obeys_from_spec() -> bool {
        false
    }

    open spec fn from_spec(source: regex::Error) -> Self {
        vstd::pervasive::arbitrary()
    }
}

impl From<ron::error::SpannedError> for EvalError {
    /// A RON parse error with the empty path attached (the loaders attach the file's path
    /// themselves).
    fn from(source: ron::error::SpannedError) -> (r: Self)
        ensures
            r matches EvalError::RonParse { path, source: s } && path@.len() == 0 && s == source,
    {
        EvalError::RonParse { path: String::new(), source }
    }
}

impl vstd::std_specs::convert::FromSpecImpl<ron::error::SpannedError> for EvalError {
    /// The empty path is a `String` that no spec expression names, so the exact value is given
    /// by `from`'s own `ensures` instead.
    open spec fn obeys_from_spec() -> bool {
        false
    }

    open spec fn from_spec(source: ron::error::SpannedError) -> Self {
        vstd::pervasive::arbitrary()
    }
}

} // verus!
