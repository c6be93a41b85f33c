//! A testing framework for LLM agents: test cases are prompts, assertions are built-in checks on
//! what the agent did (tool calls, parameters, final text), and a report aggregates the results.
use vstd::prelude::*;

pub mod text;
pub mod json;
pub mod harness;
pub mod error;
pub mod calls;
pub mod number;
pub mod expect;
pub mod report;
pub mod persist;
pub mod upload;
pub mod scorer;
pub mod runner;
pub mod order;
pub mod report_html;
pub mod case;
pub mod baseline;
pub mod summary;

pub use baseline::baseline_files;
pub use case::EvalCase;
pub use error::EvalError;
pub use expect::{Expectation, FloatText};
pub use harness::{RunArtifacts, ToolCall};
pub use json::{Json, JsonNumber};
pub use persist::{slug, Persist};
pub use report::{CaseOutcome, EvalReport, Float32Text, Latency, RunRecord};
pub use runner::RunMeta;
pub use scorer::BuiltinScorer;
pub use upload::{Upload, UploadResponse};

verus! {
} // verus!
