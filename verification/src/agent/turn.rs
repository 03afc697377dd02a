//! The decisions of one assistant turn: when to stop iterating, how a
//! streamed completion is gathered into text and tool calls, what the
//! assistant's message is, and what each tool call reports.
use vstd::prelude::*;

use crate::agent::error::{agent_error_message, AgentError};
use crate::agent::git_tools::preview_text;
use crate::agent::json::{canonical_json, json_canonical};
use crate::agent::tools::{tool_index, ToolExecutor};
use crate::agent::types::{
    content_views, AgentEvent, ContentView, Message, MessageContent, RiskLevel, Role, StreamChunk, ToolCall,
};
use crate::text::{clone_string, push_str, string_from_str};

verus! {

/// How many model calls one turn may make.
pub const MAX_ITERATIONS: u32 = 10;

/// The standing instructions every request carries.
pub const SYSTEM_POLICY: &'static str = "You are CherryPick AI, a git-aware coding assistant integrated into the CherryPick git client. You help users understand their repositories, review changes, write commits, and manage branches.\n\nSafety rules (immutable):\n- Never force-push without explicit user confirmation\n- Never delete branches without explicit user confirmation\n- Never modify files outside the repository working directory\n- Never read or expose sensitive files (.env, credentials, keys)\n- Always explain what you're about to do before executing write operations";

/// Start the next model call of a turn that has made `iterations` calls:
/// refused when the user cancelled, then when the call limit is reached,
/// then when the time limit has passed; otherwise the new call count.
pub fn begin_iteration(iterations: u32, max_iterations: u32, cancelled: bool, timed_out: bool) -> (r: Result<
    u32,
    AgentError,
>)
    ensures
        cancelled ==> r matches Err(AgentError::Cancelled),
        !cancelled && iterations >= max_iterations ==> (r matches Err(AgentError::MaxIterations(m)) && m
            == max_iterations),
        !cancelled && iterations < max_iterations && timed_out ==> r matches Err(AgentError::MaxDuration),
        !cancelled && iterations < max_iterations && !timed_out ==> r == Ok::<u32, AgentError>(
            (iterations + 1) as u32,
        ),
        r matches Ok(n) ==> n <= max_iterations,
{
    if cancelled {
        return Err(AgentError::Cancelled);
    }
    if iterations >= max_iterations {
        return Err(AgentError::MaxIterations(max_iterations));
    }
    if timed_out {
        return Err(AgentError::MaxDuration);
    }
    Ok(iterations + 1)
}

/// A tool call as text.
pub struct CallView {
    pub id: Seq<char>,
    pub name: Seq<char>,
    pub arguments: Seq<char>,
}

impl View for ToolCall {
    type V = CallView;

    open spec fn view(&self) -> CallView {
        CallView { id: self.id@, name: self.name@, arguments: self.arguments@ }
    }
}

/// The views of a sequence of tool calls.
pub open spec fn call_views(cs: Seq<ToolCall>) -> Seq<CallView> {
    cs.map_values(|c: ToolCall| c@)
}

/// What has been gathered from a streamed completion so far: the text, the
/// finished tool calls, and the tool call being streamed.
pub struct StreamModel {
    pub text: Seq<char>,
    pub calls: Seq<CallView>,
    pub current_id: Seq<char>,
    pub current_name: Seq<char>,
    pub current_args: Seq<char>,
}

/// The arguments a finished tool call is given: its streamed JSON in
/// compact form when it is JSON, else `null`.
pub open spec fn call_arguments(streamed: Seq<char>) -> Seq<char> {
    match json_canonical(streamed) {
        Some(c) => c,
        None => "null"@,
    }
}

/// Gathers a streamed completion.
pub struct StreamState {
    text: String,
    tool_calls: Vec<ToolCall>,
    current_id: String,
    current_name: String,
    current_args: String,
}

impl View for StreamState {
    type V = StreamModel;

    closed spec fn view(&self) -> StreamModel {
        StreamModel {
            text: self.text@,
            calls: call_views(self.tool_calls@),
            current_id: self.current_id@,
            current_name: self.current_name@,
            current_args: self.current_args@,
        }
    }
}

/// What the turn does with one chunk.
#[derive(Debug)]
pub enum ChunkOutcome {
    /// Report this event to the user and go on.
    Emit(AgentEvent),
    /// Go on without a report.
    Quiet,
    /// The completion is over.
    Finished,
    /// The provider failed with this message: report it and end the turn.
    Failed(String),
}

/// The risk a tool call is announced with: the registered tool's, else
/// read-only.
pub open spec fn announced_risk(ex: ToolExecutor, name: Seq<char>) -> RiskLevel {
    match tool_index(ex.tools(), name) {
        Some(k) => ex.tools()[k].risk,
        None => RiskLevel::ReadOnly,
    }
}

fn risk_or_read_only(ex: &ToolExecutor, name: &str) -> (r: RiskLevel)
    requires
        ex.wf(),
    ensures
        r == announced_risk(*ex, name@),
{
    match ex.risk_level(name) {
        Some(r) => r,
        None => RiskLevel::ReadOnly,
    }
}

impl StreamState {
    /// Nothing gathered yet.
    pub fn new() -> (s: Self)
        ensures
            s@.text.len() == 0,
            s@.calls.len() == 0,
            s@.current_id.len() == 0,
            s@.current_name.len() == 0,
            s@.current_args.len() == 0,
    {
        let s = StreamState {
            text: String::new(),
            tool_calls: Vec::new(),
            current_id: String::new(),
            current_name: String::new(),
            current_args: String::new(),
        };
        proof {
            assert(call_views(s.tool_calls@) =~= Seq::<CallView>::empty());
        }
        s
    }

    /// Take in one chunk. Text is gathered and reported; a tool call start
    /// is remembered and announced with its risk; argument pieces are
    /// gathered; a tool call end finishes the current call; the end of the
    /// stream finishes the completion; a provider error fails it; usage
    /// reports are ignored.
    pub fn apply_chunk(&mut self, chunk: StreamChunk, executor: &ToolExecutor) -> (o: ChunkOutcome)
        requires
            executor.wf(),
        ensures
            match chunk {
                StreamChunk::TextDelta(t) => {
                    &&& final(self)@.text == old(self)@.text + t@
                    &&& final(self)@.calls == old(self)@.calls
                    &&& final(self)@.current_id == old(self)@.current_id
                    &&& final(self)@.current_name == old(self)@.current_name
                    &&& final(self)@.current_args == old(self)@.current_args
                    &&& o matches ChunkOutcome::Emit(AgentEvent::TextDelta(e)) && e@ == t@
                },
                StreamChunk::ToolCallStart { id, name } => {
                    &&& final(self)@.text == old(self)@.text
                    &&& final(self)@.calls == old(self)@.calls
                    &&& final(self)@.current_id == id@
                    &&& final(self)@.current_name == name@
                    &&& final(self)@.current_args.len() == 0
                    &&& o matches ChunkOutcome::Emit(AgentEvent::ToolCallStarted { id: i, name: n, risk_level })
                    &&& i@ == id@ && n@ == name@ && risk_level == announced_risk(*executor, name@)
                },
                StreamChunk::ToolCallDelta(j) => {
                    &&& final(self)@.text == old(self)@.text
                    &&& final(self)@.calls == old(self)@.calls
                    &&& final(self)@.current_id == old(self)@.current_id
                    &&& final(self)@.current_name == old(self)@.current_name
                    &&& final(self)@.current_args == old(self)@.current_args + j@
                    &&& o is Quiet
                },
                StreamChunk::ToolCallEnd => {
                    &&& final(self)@.text == old(self)@.text
                    &&& final(self)@.calls == old(self)@.calls.push(
                        CallView {
                            id: old(self)@.current_id,
                            name: old(self)@.current_name,
                            arguments: call_arguments(old(self)@.current_args),
                        },
                    )
                    &&& final(self)@.current_id == old(self)@.current_id
                    &&& final(self)@.current_name == old(self)@.current_name
                    &&& final(self)@.current_args == old(self)@.current_args
                    &&& o is Quiet
                },
                StreamChunk::Usage(_) => final(self)@ == old(self)@ && o is Quiet,
                StreamChunk::Done => final(self)@ == old(self)@ && o is Finished,
                StreamChunk::Error(e) => final(self)@ == old(self)@ && (o matches ChunkOutcome::Failed(m) && m@
                    == e@),
            },
    {
        match chunk {
            StreamChunk::TextDelta(t) => {
                push_str(&mut self.text, t.as_str());
                ChunkOutcome::Emit(AgentEvent::TextDelta(t))
            },
            StreamChunk::ToolCallStart { id, name } => {
                let risk = risk_or_read_only(executor, name.as_str());
                self.current_id = clone_string(&id);
                self.current_name = clone_string(&name);
                self.current_args = String::new();
                ChunkOutcome::Emit(AgentEvent::ToolCallStarted { id, name, risk_level: risk })
            },
            StreamChunk::ToolCallDelta(j) => {
                push_str(&mut self.current_args, j.as_str());
                ChunkOutcome::Quiet
            },
            StreamChunk::ToolCallEnd => {
                let arguments = match canonical_json(self.current_args.as_str()) {
                    Some(c) => c,
                    None => string_from_str("null"),
                };
                let call = ToolCall {
                    id: clone_string(&self.current_id),
                    name: clone_string(&self.current_name),
                    arguments,
                };
                let ghost before = self.tool_calls@;
                self.tool_calls.push(call);
                proof {
                    assert(call_views(self.tool_calls@) =~= call_views(before).push(call@));
                }
                ChunkOutcome::Quiet
            },
            StreamChunk::Usage(_) => ChunkOutcome::Quiet,
            StreamChunk::Done => ChunkOutcome::Finished,
            StreamChunk::Error(e) => ChunkOutcome::Failed(e),
        }
    }

    /// The gathered tool calls, finished ones only.
    pub fn tool_calls(&self) -> (v: &Vec<ToolCall>)
        ensures
            call_views(v@) == self@.calls,
    {
        &self.tool_calls
    }

    /// The assistant's message for the completion: the gathered text (when
    /// there is any) followed by one tool use per finished call; `None`
    /// when there is neither.
    pub fn assistant_message(&self) -> (m: Option<Message>)
        ensures
            match m {
                Some(msg) => msg.role == Role::Assistant && content_views(msg.content@) == assistant_content(
                    self@.text,
                    self@.calls,
                ) && assistant_content(self@.text, self@.calls).len() > 0,
                None => assistant_content(self@.text, self@.calls).len() == 0,
            },
    {
        let mut content: Vec<MessageContent> = Vec::new();
        let has_text = crate::text::chars_of(self.text.as_str()).len() > 0;
        if has_text {
            content.push(MessageContent::Text { text: clone_string(&self.text) });
        }
        let ghost head = content_views(content@);
        proof {
            assert(head =~= (if self@.text.len() > 0 {
                seq![ContentView::Text { text: self@.text }]
            } else {
                Seq::empty()
            }));
        }
        let n = self.tool_calls.len();
        let mut i: usize = 0;
        while i < n
            invariant
                n == self.tool_calls@.len(),
                i <= n,
                content_views(content@) == head + tool_uses(call_views(self.tool_calls@).take(i as int)),
            decreases n - i,
        {
            let c = &self.tool_calls[i];
            let ghost prev = content@;
            content.push(
                MessageContent::ToolUse {
                    id: clone_string(&c.id),
                    name: clone_string(&c.name),
                    input: clone_string(&c.arguments),
                },
            );
            proof {
                let cv = call_views(self.tool_calls@);
                assert(cv.take(i as int + 1).drop_last() =~= cv.take(i as int));
                assert(cv[i as int] == c@);
                assert(content@.len() == prev.len() + 1);
                assert(content@[prev.len() as int]@ == ContentView::ToolUse {
                    id: cv[i as int].id,
                    name: cv[i as int].name,
                    input: cv[i as int].arguments,
                });
                assert(content_views(content@) =~= content_views(prev).push(content@[prev.len() as int]@));
            }
            i = i + 1;
        }
        proof {
            assert(call_views(self.tool_calls@).take(n as int) =~= call_views(self.tool_calls@));
        }
        if content.len() == 0 {
            None
        } else {
            Some(Message { role: Role::Assistant, content })
        }
    }
}

/// One tool use per call, in order.
pub open spec fn tool_uses(calls: Seq<CallView>) -> Seq<ContentView>
    decreases calls.len(),
{
    if calls.len() == 0 {
        Seq::empty()
    } else {
        tool_uses(calls.drop_last()).push(
            ContentView::ToolUse { id: calls.last().id, name: calls.last().name, input: calls.last().arguments },
        )
    }
}

/// The content of the assistant's message: the text, when there is any,
/// then one tool use per call.
pub open spec fn assistant_content(text: Seq<char>, calls: Seq<CallView>) -> Seq<ContentView> {
    (if text.len() > 0 {
        seq![ContentView::Text { text }]
    } else {
        Seq::empty()
    }) + tool_uses(calls)
}

/// The confirmation a tool call asks the user for: only a call whose
/// announced risk needs consent, shown with the tool's preview or else its
/// name.
pub fn confirmation_event(executor: &ToolExecutor, call: &ToolCall) -> (e: Option<AgentEvent>)
    requires
        executor.wf(),
    ensures
        e is Some <==> crate::agent::types::risk_rank(announced_risk(*executor, call.name@))
            >= crate::agent::types::risk_rank(RiskLevel::WriteLocal),
        e matches Some(AgentEvent::ConfirmationNeeded { tool_name, risk_level, preview }) ==> {
            &&& tool_name@ == call.name@
            &&& risk_level == announced_risk(*executor, call.name@)
            &&& preview@ == match preview_text(call.name@, call.arguments@) {
                Some(p) => p,
                None => call.name@,
            }
        },
        e matches Some(ev) ==> ev is ConfirmationNeeded,
{
    let risk = risk_or_read_only(executor, call.name.as_str());
    if risk.requires_confirmation() {
        let preview = match crate::agent::git_tools::builtin_preview(call.name.as_str(), call.arguments.as_str()) {
            Some(p) => p,
            None => clone_string(&call.name),
        };
        Some(AgentEvent::ConfirmationNeeded { tool_name: clone_string(&call.name), risk_level: risk, preview })
    } else {
        None
    }
}

/// What a finished tool call reports and adds to the conversation: its
/// output, or the failure's message marked as an error.
pub fn tool_completion(call_id: &str, result: Result<String, AgentError>) -> (r: (AgentEvent, Message))
    ensures
        ({
            let (text, failed) = match result {
                Ok(out) => (out@, false),
                Err(e) => (agent_error_message(e), true),
            };
            &&& r.0 matches AgentEvent::ToolCallCompleted { id, result: shown, is_error } && id@ == call_id@
                && shown@ == text && is_error == failed
            &&& r.1.role == Role::User
            &&& content_views(r.1.content@) == seq![
                ContentView::ToolResult { tool_use_id: call_id@, content: text, is_error: failed },
            ]
        }),
{
    let (output, is_error) = match result {
        Ok(out) => (out, false),
        Err(e) => (e.message(), true),
    };
    let event = AgentEvent::ToolCallCompleted {
        id: string_from_str(call_id),
        result: clone_string(&output),
        is_error,
    };
    let msg = Message::tool_result(call_id, output.as_str(), is_error);
    (event, msg)
}

} // verus!
