//! What one run of the agent produced, minus scoring: the structured tool calls, the final
//! reply, the token count, the transcript and any captured run error.
use vstd::prelude::*;

use crate::json::{compact, compact_text, Json};

verus! {

/// One tool call the agent made: the tool's `name` and the arguments it was invoked with.
#[derive(Debug, Clone)]
pub struct ToolCall {
    pub name: String,
    pub args: Json,
}

impl ToolCall {
    /// A tool call from a name and its arguments.
    pub fn new(name: String, args: Json) -> (r: Self)
        ensures
            r.name == name,
            r.args == args,
    {
        ToolCall { name, args }
    }

    /// The compact `name(args)` text the report keeps per call, with the arguments written as
    /// compact JSON.
    pub fn display(&self) -> (s: String)
        ensures
            s@ == call_text(*self),
    {
        let mut s = self.name.clone();
        s.append("(");
        let a = compact(&self.args);
        s.append(a.as_str());
        s.append(")");
        proof {
            reveal_strlit("(");
            reveal_strlit(")");
        }
        s
    }
}

/// `name(args)`, the display text of a call.
pub open spec fn call_text(c: ToolCall) -> Seq<char> {
    c.name@ + seq!['('] + compact_text(c.args) + seq![')']
}

/// Everything a single run produced except scoring. Every field is optional or empty by
/// default.
#[derive(Debug, Clone)]
pub struct RunArtifacts {
    /// The tool calls in the order they were made.
    pub tool_calls: Vec<ToolCall>,
    /// The agent's final free-text reply, if any.
    pub final_text: Option<String>,
    /// The completion-token count the harness reported, if it had one.
    pub tokens: Option<u32>,
    /// The per-run message log, if captured.
    pub transcript: Vec<Json>,
    /// A run-level error the harness captured without failing the run.
    pub error: Option<String>,
}

impl RunArtifacts {
    /// An empty result: no calls, no text, no tokens, no transcript, no error.
    pub fn new() -> (r: Self)
        ensures
            r.tool_calls@.len() == 0,
            r.final_text is None,
            r.tokens is None,
            r.transcript@.len() == 0,
            r.error is None,
    {
        RunArtifacts {
            tool_calls: Vec::new(),
            final_text: None,
            tokens: None,
            transcript: Vec::new(),
            error: None,
        }
    }

    /// Sets the tool calls.
    pub fn with_tool_calls(self, tool_calls: Vec<ToolCall>) -> (r: Self)
        ensures
            r == (RunArtifacts { tool_calls, ..self }),
    {
        RunArtifacts { tool_calls, ..self }
    }

    /// Sets the final text.
    pub fn with_final_text(self, text: String) -> (r: Self)
        ensures
            r == (RunArtifacts { final_text: Some(text), ..self }),
    {
        RunArtifacts { final_text: Some(text), ..self }
    }

    /// Sets the completion token count.
    pub fn with_tokens(self, tokens: u32) -> (r: Self)
        ensures
            r == (RunArtifacts { tokens: Some(tokens), ..self }),
    {
        RunArtifacts { tokens: Some(tokens), ..self }
    }

    /// Sets the transcript.
    pub fn with_transcript(self, transcript: Vec<Json>) -> (r: Self)
        ensures
            r == (RunArtifacts { transcript, ..self }),
    {
        RunArtifacts { transcript, ..self }
    }

    /// Sets a run-level error.
    pub fn with_error(self, error: String) -> (r: Self)
        ensures
            r == (RunArtifacts { error: Some(error), ..self }),
    {
        RunArtifacts { error: Some(error), ..self }
    }
}

impl Default for RunArtifacts {
    fn default() -> (r: Self)
        ensures
            r.tool_calls@.len() == 0,
            r.final_text is None,
            r.tokens is None,
            r.transcript@.len() == 0,
            r.error is None,
    {
        RunArtifacts::new()
    }
}

} // verus!
