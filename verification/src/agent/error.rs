//! What can go wrong while the assistant works.
use vstd::prelude::*;

use crate::text::{decimal, push_decimal, push_str, string_from_str};

verus! {

/// An assistant failure. Failures of the operating system, of JSON decoding
/// and of HTTP are carried as their messages.
#[derive(Debug, Clone)]
pub enum AgentError {
    Provider(String),
    RateLimited { retry_after_secs: u64 },
    ContextTooLong(usize),
    ToolExecution(String),
    ToolNotFound(String),
    ToolDenied,
    MaxIterations(u32),
    MaxDuration,
    Cancelled,
    KeyNotFound(String),
    SkillNotFound(String),
    SkillParse(String),
    Mcp(String),
    Database(String),
    Io(String),
    Json(String),
    Http(String),
    Other(String),
}

/// The message shown for each failure.
pub open spec fn agent_error_message(e: AgentError) -> Seq<char> {
    match e {
        AgentError::Provider(s) => "Provider error: "@ + s@,
        AgentError::RateLimited { retry_after_secs } => "Rate limited: retry after "@ + decimal(
            retry_after_secs as nat,
        ) + "s"@,
        AgentError::ContextTooLong(n) => "Context too long: "@ + decimal(n as nat) + " tokens exceeds budget"@,
        AgentError::ToolExecution(s) => "Tool execution failed: "@ + s@,
        AgentError::ToolNotFound(s) => "Tool not found: "@ + s@,
        AgentError::ToolDenied => "Tool call denied by user"@,
        AgentError::MaxIterations(n) => "Max iterations ("@ + decimal(n as nat) + ") exceeded"@,
        AgentError::MaxDuration => "Max duration exceeded"@,
        AgentError::Cancelled => "Cancelled"@,
        AgentError::KeyNotFound(s) => "Key not found for provider: "@ + s@,
        AgentError::SkillNotFound(s) => "Skill not found: "@ + s@,
        AgentError::SkillParse(s) => "Skill parse error: "@ + s@,
        AgentError::Mcp(s) => "MCP error: "@ + s@,
        AgentError::Database(s) => "Database error: "@ + s@,
        AgentError::Io(s) => "IO error: "@ + s@,
        AgentError::Json(s) => "JSON error: "@ + s@,
        AgentError::Http(s) => "HTTP error: "@ + s@,
        AgentError::Other(s) => s@,
    }
}

/// `prefix` followed by `s`.
fn prefixed(prefix: &str, s: &String) -> (r: String)
    ensures
        r@ == prefix@ + s@,
{
    let mut r = string_from_str(prefix);
    push_str(&mut r, s.as_str());
    r
}

impl AgentError {
    /// The message shown for this failure.
    pub fn message(&self) -> (m: String)
        ensures
            m@ == agent_error_message(*self),
    {
        match self {
            AgentError::Provider(s) => prefixed("Provider error: ", s),
            AgentError::RateLimited { retry_after_secs } => {
                let mut r = string_from_str("Rate limited: retry after ");
                push_decimal(&mut r, *retry_after_secs);
                push_str(&mut r, "s");
                r
            },
            AgentError::ContextTooLong(n) => {
                let mut r = string_from_str("Context too long: ");
                push_decimal(&mut r, *n as u64);
                push_str(&mut r, " tokens exceeds budget");
                r
            },
            AgentError::ToolExecution(s) => prefixed("Tool execution failed: ", s),
            AgentError::ToolNotFound(s) => prefixed("Tool not found: ", s),
            AgentError::ToolDenied => string_from_str("Tool call denied by user"),
            AgentError::MaxIterations(n) => {
                let mut r = string_from_str("Max iterations (");
                push_decimal(&mut r, *n as u64);
                push_str(&mut r, ") exceeded");
                r
            },
            AgentError::MaxDuration => string_from_str("Max duration exceeded"),
            AgentError::Cancelled => string_from_str("Cancelled"),
            AgentError::KeyNotFound(s) => prefixed("Key not found for provider: ", s),
            AgentError::SkillNotFound(s) => prefixed("Skill not found: ", s),
            AgentError::SkillParse(s) => prefixed("Skill parse error: ", s),
            AgentError::Mcp(s) => prefixed("MCP error: ", s),
            AgentError::Database(s) => prefixed("Database error: ", s),
            AgentError::Io(s) => prefixed("IO error: ", s),
            AgentError::Json(s) => prefixed("JSON error: ", s),
            AgentError::Http(s) => prefixed("HTTP error: ", s),
            AgentError::Other(s) => crate::text::clone_string(s),
        }
    }
}

} // verus!
