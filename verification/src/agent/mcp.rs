//! Model Context Protocol servers: how one is configured, how requests are
//! numbered and bounded, what each answer means, and how the server's
//! tools are named.
use vstd::prelude::*;

use crate::agent::error::AgentError;
use crate::agent::types::ToolDefinition;
use crate::pr::error::signed_decimal;
use crate::text::{clone_string, joined, push_decimal, push_str, string_from_str, string_views};

verus! {

/// The largest request or response line, in bytes.
pub const MAX_MESSAGE_SIZE: usize = 1048576;

/// How to start a server: its name, the command and its arguments, and
/// environment variables (in order; a later one overrides an earlier one
/// of the same name).
#[derive(Debug)]
pub struct McpClientConfig {
    pub name: String,
    pub command: String,
    pub args: Vec<String>,
    pub env: Vec<(String, String)>,
}

/// Request ids, handed out in increasing order from one.
#[derive(Debug)]
pub struct RequestIds {
    next: u64,
}

impl RequestIds {
    /// The id the next request gets.
    pub closed spec fn next_id(&self) -> u64 {
        self.next
    }

    /// Ids starting at one.
    pub fn new() -> (ids: Self)
        ensures
            ids.next_id() == 1,
    {
        RequestIds { next: 1 }
    }

    /// Whether the ids have run out: the next one is the largest.
    pub fn is_exhausted(&self) -> (b: bool)
        ensures
            b == (self.next_id() == u64::MAX),
    {
        self.next == u64::MAX
    }

    /// The id for a new request.
    pub fn take(&mut self) -> (id: u64)
        requires
            old(self).next_id() < u64::MAX,
        ensures
            id == old(self).next_id(),
            final(self).next_id() == old(self).next_id() + 1,
    {
        let id = self.next;
        self.next = self.next + 1;
        id
    }
}

/// The failure of a server that is not running.
pub fn not_running() -> (e: AgentError)
    ensures
        e matches AgentError::Mcp(m) && m@ == "MCP server not running"@,
{
    AgentError::Mcp(string_from_str("MCP server not running"))
}

/// A request of `len` bytes (its line feed included) may be sent only when
/// it is at most [`MAX_MESSAGE_SIZE`] bytes.
pub fn check_request_size(len: usize) -> (r: Result<(), AgentError>)
    ensures
        r is Ok <==> len <= MAX_MESSAGE_SIZE,
        r matches Err(e) ==> (e matches AgentError::Mcp(m) && m@ == "Request too large"@),
{
    if len > MAX_MESSAGE_SIZE {
        Err(AgentError::Mcp(string_from_str("Request too large")))
    } else {
        Ok(())
    }
}

/// How reading a response line ended.
#[derive(Debug)]
pub enum ReadOutcome {
    /// The server closed its output.
    Closed,
    /// A line of this many bytes was read.
    Line(usize),
    /// Reading failed with this message.
    Failed(String),
    /// No line came in time.
    TimedOut,
}

/// What a read means before the line is decoded: a closed connection, an
/// oversized line, a read failure and a timeout each fail the request.
pub fn check_read(outcome: ReadOutcome) -> (r: Result<(), AgentError>)
    ensures
        match outcome {
            ReadOutcome::Closed => r matches Err(AgentError::Mcp(m)) && m@ == "Server closed connection"@,
            ReadOutcome::Line(n) => if n == 0 {
                r matches Err(AgentError::Mcp(m)) && m@ == "Server closed connection"@
            } else if n > MAX_MESSAGE_SIZE {
                r matches Err(AgentError::Mcp(m)) && m@ == "Response too large"@
            } else {
                r is Ok
            },
            ReadOutcome::Failed(d) => r matches Err(AgentError::Mcp(m)) && m@ == "Read error: "@ + d@,
            ReadOutcome::TimedOut => r matches Err(AgentError::Mcp(m)) && m@ == "Request timed out"@,
        },
{
    match outcome {
        ReadOutcome::Closed => Err(AgentError::Mcp(string_from_str("Server closed connection"))),
        ReadOutcome::Line(n) => {
            if n == 0 {
                Err(AgentError::Mcp(string_from_str("Server closed connection")))
            } else if n > MAX_MESSAGE_SIZE {
                Err(AgentError::Mcp(string_from_str("Response too large")))
            } else {
                Ok(())
            }
        },
        ReadOutcome::Failed(d) => {
            let mut m = string_from_str("Read error: ");
            push_str(&mut m, d.as_str());
            Err(AgentError::Mcp(m))
        },
        ReadOutcome::TimedOut => Err(AgentError::Mcp(string_from_str("Request timed out"))),
    }
}

/// The failure of a response line that is not a JSON-RPC response.
pub fn invalid_response(detail: &str) -> (e: AgentError)
    ensures
        e matches AgentError::Mcp(m) && m@ == "Invalid response: "@ + detail@,
{
    let mut m = string_from_str("Invalid response: ");
    push_str(&mut m, detail);
    AgentError::Mcp(m)
}

pub(crate) fn push_signed(s: &mut String, n: i64)
    ensures
        final(s)@ == old(s)@ + signed_decimal(n as int),
{
    if n < 0 {
        push_str(s, "-");
        let mag: u64 = if n == i64::MIN {
            9223372036854775808u64
        } else {
            (-n) as u64
        };
        push_decimal(s, mag);
        proof {
            reveal_strlit("-");
            assert("-"@ =~= seq!['-']);
        }
    } else {
        push_decimal(s, n as u64);
    }
}

/// The error part of a JSON-RPC response.
#[derive(Debug)]
pub struct RpcError {
    pub code: i64,
    pub message: String,
}

/// What a decoded response means: its error as a failure, else its result
/// (as JSON text), which may be absent.
pub fn rpc_outcome(error: Option<RpcError>, result: Option<String>) -> (r: Result<Option<String>, AgentError>)
    ensures
        match error {
            Some(e) => r matches Err(AgentError::Mcp(m)) && m@ == "RPC error "@ + signed_decimal(e.code as int)
                + ": "@ + e.message@,
            None => r matches Ok(v) && v == result,
        },
{
    match error {
        Some(e) => {
            let mut m = string_from_str("RPC error ");
            push_signed(&mut m, e.code);
            push_str(&mut m, ": ");
            push_str(&mut m, e.message.as_str());
            Err(AgentError::Mcp(m))
        },
        None => Ok(result),
    }
}

/// What a server says about one of its tools.
#[derive(Debug)]
pub struct ServerTool {
    pub name: Option<String>,
    pub description: Option<String>,
    /// The input schema as JSON text, if given.
    pub input_schema: Option<String>,
}

/// The name a server's tool is offered under: `mcp_<server>__<tool>`.
pub open spec fn offered_name(server: Seq<char>, tool: Seq<char>) -> Seq<char> {
    "mcp_"@ + server + "__"@ + tool
}

/// Whether a definition name is the one a server's tool is offered under.
pub open spec fn offered_from(t: ServerTool, server: Seq<char>, name: Seq<char>) -> bool {
    match t.name {
        Some(n) => name == offered_name(server, n@),
        None => false,
    }
}

/// The definition a server's tool is offered with, if it has a name: the
/// description defaults to empty, the schema to an object schema.
pub fn server_tool_definition(server: &str, tool: &ServerTool) -> (d: Option<ToolDefinition>)
    ensures
        d is Some <==> tool.name is Some,
        d matches Some(def) ==> {
            &&& def.name@ == offered_name(server@, tool.name->0@)
            &&& def.description@ == match tool.description {
                Some(s) => s@,
                None => Seq::empty(),
            }
            &&& def.input_schema@ == match tool.input_schema {
                Some(s) => s@,
                None => "{\"type\":\"object\"}"@,
            }
        },
{
    match &tool.name {
        None => None,
        Some(n) => {
            let mut name = string_from_str("mcp_");
            push_str(&mut name, server);
            push_str(&mut name, "__");
            push_str(&mut name, n.as_str());
            let description = match &tool.description {
                Some(s) => clone_string(s),
                None => String::new(),
            };
            let input_schema = match &tool.input_schema {
                Some(s) => clone_string(s),
                None => string_from_str("{\"type\":\"object\"}"),
            };
            Some(ToolDefinition { name, description, input_schema })
        },
    }
}

/// The tools a server lists, in order, skipping those without a name.
pub fn server_tool_definitions(server: &str, tools: &Vec<ServerTool>) -> (defs: Vec<ToolDefinition>)
    ensures
        defs@.len() <= tools@.len(),
        forall|i: int| #![trigger defs@[i]] 0 <= i < defs@.len() ==> exists|j: int| 0 <= j < tools@.len() && offered_from(
            #[trigger] tools@[j],
            server@,
            defs@[i].name@,
        ),
        (forall|j: int| 0 <= j < tools@.len() ==> (#[trigger] tools@[j]).name is Some) ==> defs@.len() == tools@.len(),
{
    let n = tools.len();
    let mut defs: Vec<ToolDefinition> = Vec::new();
    let mut i: usize = 0;
    while i < n
        invariant
            n == tools@.len(),
            i <= n,
            defs@.len() <= i,
            forall|k: int| #![trigger defs@[k]] 0 <= k < defs@.len() ==> exists|j: int| 0 <= j < tools@.len() && offered_from(
                #[trigger] tools@[j],
                server@,
                defs@[k].name@,
            ),
            (forall|j: int| 0 <= j < tools@.len() ==> (#[trigger] tools@[j]).name is Some) ==> defs@.len() == i,
        decreases n - i,
    {
        match server_tool_definition(server, &tools[i]) {
            Some(d) => {
                let ghost prev = defs@;
                defs.push(d);
                proof {
                    assert forall|k: int| #![trigger defs@[k]] 0 <= k < defs@.len() implies exists|j: int|
                        0 <= j < tools@.len() && offered_from(#[trigger] tools@[j], server@, defs@[k].name@) by {
                        if k < prev.len() {
                            assert(defs@[k] == prev[k]);
                        } else {
                            assert(offered_from(tools@[i as int], server@, defs@[k].name@));
                        }
                    }
                }
            },
            None => {},
        }
        i = i + 1;
    }
    defs
}

/// What a tool call's result holds.
#[derive(Debug)]
pub enum CallResult {
    /// The server sent no result.
    Nothing,
    /// The result's `content` array: each item's `text`, when it has one.
    Content(Vec<Option<String>>),
    /// A result without a `content` array, as JSON text.
    Other(String),
}

/// The texts of the content items that have one, in order.
pub open spec fn item_texts(items: Seq<Option<String>>) -> Seq<Seq<char>>
    decreases items.len(),
{
    if items.len() == 0 {
        Seq::empty()
    } else {
        let rest = item_texts(items.drop_last());
        match items.last() {
            Some(t) => rest.push(t@),
            None => rest,
        }
    }
}

/// The output of a tool call: nothing for no result, the content texts one
/// per line, or the result's JSON text.
pub fn call_output(result: CallResult) -> (out: String)
    ensures
        match result {
            CallResult::Nothing => out@.len() == 0,
            CallResult::Content(items) => out@ == joined(item_texts(items@), "\n"@),
            CallResult::Other(json) => out@ == json@,
        },
{
    match result {
        CallResult::Nothing => String::new(),
        CallResult::Other(json) => json,
        CallResult::Content(items) => {
            let n = items.len();
            let mut texts: Vec<String> = Vec::new();
            let mut i: usize = 0;
            while i < n
                invariant
                    n == items@.len(),
                    i <= n,
                    string_views(texts@) == item_texts(items@.take(i as int)),
                decreases n - i,
            {
                proof {
                    assert(items@.take(i as int + 1).drop_last() =~= items@.take(i as int));
                    assert(items@.take(i as int + 1).last() == items@[i as int]);
                }
                match &items[i] {
                    Some(t) => {
                        let ghost prev = texts@;
                        texts.push(clone_string(t));
                        proof {
                            assert(string_views(texts@) =~= string_views(prev).push(t@));
                        }
                    },
                    None => {},
                }
                i = i + 1;
            }
            proof {
                assert(items@.take(n as int) =~= items@);
                assert(texts@.map_values(|e: String| e@) == string_views(texts@));
            }
            crate::text::join_with(texts.as_slice(), "\n")
        },
    }
}

} // verus!
